use autowc::window::{
    overlay_position, should_exit_when_empty, AutoWindowId, AutoWindowState, Size, WindowRegistry,
    WindowSizing,
};

#[test]
fn window_sizing_tracks_legacy_dynamic_resize_flag() {
    assert_eq!(
        WindowSizing::from_dynamic_resize(true, Size { w: 800, h: 600 }),
        WindowSizing::Dynamic
    );
    assert_eq!(
        WindowSizing::from_dynamic_resize(false, Size { w: 800, h: 600 }),
        WindowSizing::Fixed { size: Size { w: 800, h: 600 } }
    );
}

#[test]
fn registry_allocates_stable_distinct_window_ids() {
    let mut registry = WindowRegistry::new();

    let first = registry.create_window();
    let second = registry.create_window();

    assert_ne!(first, second);
    assert_eq!(registry.get(first).unwrap().id(), first);
    assert_eq!(registry.get(second).unwrap().id(), second);
}

#[test]
fn registry_is_empty_when_all_windows_have_no_toplevels() {
    let mut registry = WindowRegistry::new();

    registry.create_window();
    registry.create_window();

    assert!(registry.is_empty());
}

#[test]
fn window_ids_start_at_one() {
    assert!(AutoWindowId::from_raw(0).is_none());
    assert_eq!(AutoWindowId::from_raw(7).unwrap().raw(), 7);
    let mut registry = WindowRegistry::new();
    assert_eq!(registry.create_window().raw(), 1);
    assert_eq!(registry.create_window().raw(), 2);
}

#[test]
fn first_alive_window_is_the_lowest_id_showing_a_toplevel() {
    let mut registry = WindowRegistry::new();
    let first = registry.create_window();
    let second = registry.create_window();
    let third = registry.create_window();
    assert!(registry.first_alive_id().is_none());

    registry.get_mut(third).unwrap().map_new_toplevel(30);
    assert_eq!(registry.first_alive_id(), Some(third));
    registry.get_mut(second).unwrap().map_new_toplevel(20);
    assert_eq!(registry.first_alive_id(), Some(second));
    assert!(registry.is_gone(first));
    assert!(!registry.is_gone(second));
    assert_eq!(registry.find_id_by_surface(30), Some(third));
    assert!(!registry.is_empty());
}

#[test]
fn removing_the_primary_promotes_the_newest_overlay() {
    let mut registry = WindowRegistry::new();
    let id = registry.create_window();
    let window = registry.get_mut(id).unwrap();
    assert_eq!(window.map_new_toplevel(1), 1);
    assert_eq!(window.map_new_toplevel(2), 2);
    assert_eq!(window.map_new_toplevel(3), 3);
    let outcome = window.remove_toplevel(1);
    assert!(outcome.removed);
    assert_eq!(outcome.promoted, Some(3));
    assert_eq!(window.primary_window(), Some(3));
    assert_eq!(window.overlay_windows(), &vec![2]);
    window.set_state(AutoWindowState::Mapped);
    assert_eq!(window.state(), AutoWindowState::Mapped);
}

#[test]
fn centres_overlays_inside_the_output() {
    assert_eq!(overlay_position(Size { w: 1280, h: 720 }, Size { w: 400, h: 300 }), Some((440, 210)));
    assert_eq!(overlay_position(Size { w: 1280, h: 720 }, Size { w: 1500, h: 800 }), Some((0, 0)));
    assert_eq!(overlay_position(Size { w: 1280, h: 720 }, Size { w: 0, h: 300 }), None);
}

#[test]
fn exits_when_empty_unless_told_to_stay() {
    let mut registry = WindowRegistry::new();
    let id = registry.create_window();
    assert!(should_exit_when_empty(false, &registry));
    assert!(!should_exit_when_empty(true, &registry));
    registry.get_mut(id).unwrap().map_new_toplevel(5);
    assert!(!should_exit_when_empty(false, &registry));
}

#[test]
fn window_ids_round_trip_through_their_numbers() {
    let mut registry = WindowRegistry::new();
    let first = registry.create_window();
    let second = registry.create_window();
    assert!(first.raw() > 0);
    assert!(second.raw() > first.raw());
    assert_eq!(AutoWindowId::from_raw(first.raw()), Some(first));
    assert_eq!(AutoWindowId::from_raw(second.raw()), Some(second));
    assert!(registry.get(second).unwrap().is_empty());
}
