use autowc::control::{ButtonState, ControlCommand, ControlCommandVariant, KeyState, Number, PressAction};
use autowc::keycodes::key_to_code;
use autowc::keys_sequence::KeysSequenceAction;
use autowc::plan::{
    decide_command, plan_command, resolve_target, unknown_window, CommandDecision, ControlQueue,
    QueueStep, QueuedActionKind, ScrollPrep, TimingOptions,
};
use autowc::window::{AutoWindowId, WindowRegistry};

fn num(text: &str) -> Number {
    Number { text: text.to_string() }
}

fn timing() -> TimingOptions {
    TimingOptions {
        key_event_interval_ms: 20,
        chord_key_interval_ms: 10,
        chord_hold_ms: 75,
        command_interval_ms: 0,
    }
}

fn key(code: u32, state: KeyState) -> QueuedActionKind {
    QueuedActionKind::Key { code, state }
}

fn delay(ms: u64) -> QueuedActionKind {
    QueuedActionKind::Delay { ms }
}

fn respond() -> QueuedActionKind {
    QueuedActionKind::RespondOk { delay_after_ms: 0 }
}

fn plan(variant: ControlCommandVariant) -> Vec<QueuedActionKind> {
    plan_command(variant, timing(), None).unwrap()
}

#[test]
fn expands_pointer_drag_to_low_level_mouse_actions() {
    let actions = plan(ControlCommandVariant::PointerDrag {
        start_x: num("10.0"),
        start_y: num("20.0"),
        end_x: num("30.0"),
        end_y: num("40.0"),
        button: 273,
    });

    assert_eq!(
        actions,
        vec![
            QueuedActionKind::PointerMove { x: num("10.0"), y: num("20.0") },
            QueuedActionKind::PointerButton { button: 273, state: ButtonState::Pressed },
            QueuedActionKind::PointerMove { x: num("30.0"), y: num("40.0") },
            QueuedActionKind::PointerButton { button: 273, state: ButtonState::Released },
            respond(),
        ]
    );
}

#[test]
fn key_press_waits_after_each_transition() {
    assert_eq!(
        plan(ControlCommandVariant::Key { code: 30, action: PressAction::Press }),
        vec![key(30, KeyState::Pressed), delay(20), key(30, KeyState::Released), delay(20), respond()]
    );
    assert_eq!(
        plan(ControlCommandVariant::Key { code: 30, action: PressAction::Up }),
        vec![key(30, KeyState::Released), delay(20), respond()]
    );
}

#[test]
fn chord_releases_keys_in_reverse_order() {
    assert_eq!(
        plan(ControlCommandVariant::Chord { codes: vec![29, 42, 20] }),
        vec![
            key(29, KeyState::Pressed),
            delay(10),
            key(42, KeyState::Pressed),
            delay(10),
            key(20, KeyState::Pressed),
            delay(75),
            key(20, KeyState::Released),
            key(42, KeyState::Released),
            key(29, KeyState::Released),
            delay(20),
            respond(),
        ]
    );
}

#[test]
fn text_wraps_shifted_characters_in_shift() {
    let shift = key_to_code("ShiftLeft").unwrap();
    let a = key_to_code("KeyA").unwrap();
    assert_eq!(
        plan(ControlCommandVariant::Text("A".to_string())),
        vec![
            key(shift, KeyState::Pressed),
            delay(20),
            key(a, KeyState::Pressed),
            delay(20),
            key(a, KeyState::Released),
            delay(20),
            key(shift, KeyState::Released),
            delay(20),
            respond(),
        ]
    );
    assert_eq!(
        plan_command(ControlCommandVariant::Text("\u{1}".to_string()), timing(), None).unwrap_err(),
        "unsupported text character: '\\u{1}'"
    );
}

#[test]
fn keys_sequence_queues_its_parts_in_order() {
    let a = key_to_code("KeyA").unwrap();
    let actions = plan(ControlCommandVariant::KeysSequence {
        actions: vec![
            KeysSequenceAction::Text("a".to_string()),
            KeysSequenceAction::Wait { duration_ms: 500 },
            KeysSequenceAction::Chord(vec![a]),
        ],
    });
    assert_eq!(
        actions,
        vec![
            key(a, KeyState::Pressed),
            delay(20),
            key(a, KeyState::Released),
            delay(20),
            delay(500),
            key(a, KeyState::Pressed),
            delay(75),
            key(a, KeyState::Released),
            delay(20),
            respond(),
        ]
    );
    assert!(plan_command(
        ControlCommandVariant::KeysSequence {
            actions: vec![
                KeysSequenceAction::Wait { duration_ms: 5 },
                KeysSequenceAction::Text("\u{7}".to_string()),
            ],
        },
        timing(),
        None,
    )
    .is_err());
}

#[test]
fn scroll_uses_prepared_detents() {
    let prep = |dx: Result<i32, String>, dy: Result<i32, String>| Some(ScrollPrep { dx, dy });
    let scroll = || ControlCommandVariant::Scroll { dx: num("0"), dy: num("1") };
    assert_eq!(
        plan_command(scroll(), timing(), prep(Ok(0), Ok(120))).unwrap(),
        vec![QueuedActionKind::Scroll { dx_v120: 0, dy_v120: 120 }, respond()]
    );
    assert_eq!(plan_command(scroll(), timing(), prep(Ok(0), Ok(0))).unwrap(), vec![respond()]);
    assert_eq!(
        plan_command(
            scroll(),
            timing(),
            prep(Err("scroll dx must be finite".into()), Err("scroll dy is too large".into()))
        )
        .unwrap_err(),
        "scroll dx must be finite"
    );
}

#[test]
fn screenshot_and_close_answer_themselves() {
    let t = TimingOptions { command_interval_ms: 15, ..timing() };
    assert_eq!(
        plan_command(ControlCommandVariant::Screenshot { path: None }, t, None).unwrap(),
        vec![QueuedActionKind::Screenshot { path: None, delay_after_ms: 15 }]
    );
    assert_eq!(
        plan_command(ControlCommandVariant::Close, t, None).unwrap(),
        vec![QueuedActionKind::Close]
    );
    assert_eq!(
        plan_command(ControlCommandVariant::Sleep { duration_ms: 9 }, t, None).unwrap(),
        vec![delay(9), QueuedActionKind::RespondOk { delay_after_ms: 15 }]
    );
    assert_eq!(TimingOptions::defaults(), timing());
}

fn registry_with_live(live: &[usize]) -> (WindowRegistry, Vec<AutoWindowId>) {
    let mut registry = WindowRegistry::new();
    let mut ids = Vec::new();
    for i in 0..3 {
        let id = registry.create_window();
        if live.contains(&i) {
            registry.get_mut(id).unwrap().map_new_toplevel(100 + i as u64);
        }
        ids.push(id);
    }
    (registry, ids)
}

#[test]
fn resolves_the_target_window() {
    let (registry, ids) = registry_with_live(&[1, 2]);
    assert_eq!(resolve_target(None, &registry).unwrap(), ids[1]);
    assert_eq!(resolve_target(Some(3), &registry).unwrap(), ids[2]);
    assert_eq!(resolve_target(Some(0), &registry).unwrap_err(), "invalid window id");
    assert_eq!(resolve_target(Some(1), &registry).unwrap_err(), "unknown window: 1");
    assert_eq!(resolve_target(Some(9), &registry).unwrap_err(), "unknown window: 9");
    let (empty, _) = registry_with_live(&[]);
    assert_eq!(resolve_target(None, &empty).unwrap_err(), "no windows are open");
    assert_eq!(unknown_window(42), "unknown window: 42");
}

#[test]
fn decides_immediate_and_queued_commands() {
    let (registry, ids) = registry_with_live(&[0]);
    let list = ControlCommand { window: None, variant: ControlCommandVariant::List };
    assert!(matches!(decide_command(list, &registry, timing(), None), CommandDecision::List));
    let launch = ControlCommand {
        window: Some(5),
        variant: ControlCommandVariant::Launch { command: vec!["foot".into()] },
    };
    match decide_command(launch, &registry, timing(), None) {
        CommandDecision::Launch { command } => assert_eq!(command, vec!["foot".to_string()]),
        other => panic!("expected launch, got {other:?}"),
    }
    let missing = ControlCommand { window: Some(3), variant: ControlCommandVariant::Close };
    match decide_command(missing, &registry, timing(), None) {
        CommandDecision::Reject { message } => assert_eq!(message, "unknown window: 3"),
        other => panic!("expected rejection, got {other:?}"),
    }
    let close = ControlCommand { window: None, variant: ControlCommandVariant::Close };
    match decide_command(close, &registry, timing(), None) {
        CommandDecision::Queue { window_id, plan } => {
            assert_eq!(window_id, ids[0]);
            assert_eq!(plan, vec![QueuedActionKind::Close]);
        }
        other => panic!("expected a plan, got {other:?}"),
    }
}

#[test]
fn queue_replays_actions_and_drops_commands_of_gone_windows() {
    let (mut registry, ids) = registry_with_live(&[0, 1]);
    let mut queue = ControlQueue::new();
    queue.enqueue(ids[0], 1, vec![key(30, KeyState::Pressed), delay(20), respond()]);
    queue.enqueue(ids[1], 2, vec![key(31, KeyState::Pressed), respond()]);
    assert_eq!(queue.len(), 5);

    match queue.next_step(&registry) {
        QueueStep::Run { action, deliver, pause_ms } => {
            assert_eq!(action.response, 1);
            assert_eq!(action.kind, key(30, KeyState::Pressed));
            assert!(deliver);
            assert_eq!(pause_ms, None);
        }
        other => panic!("expected an action, got {other:?}"),
    }
    match queue.next_step(&registry) {
        QueueStep::Run { action, deliver, pause_ms } => {
            assert_eq!(action.kind, delay(20));
            assert!(!deliver);
            assert_eq!(pause_ms, Some(20));
        }
        other => panic!("expected an action, got {other:?}"),
    }
    registry.get_mut(ids[0]).unwrap().remove_toplevel(100);
    // The answer of command 1 needs no window; it still goes out.
    assert!(matches!(queue.next_step(&registry), QueueStep::Run { .. }));
    registry.get_mut(ids[1]).unwrap().remove_toplevel(101);
    match queue.next_step(&registry) {
        QueueStep::Failed { response, message } => {
            assert_eq!(response, 2);
            assert_eq!(message, "unknown window: 2");
        }
        other => panic!("expected a failure, got {other:?}"),
    }
    assert_eq!(queue.len(), 0);
    assert!(matches!(queue.next_step(&registry), QueueStep::Idle));
}
