use autowc::command::{
    close_line, field, launch_line, list_line, object_line, screenshot_line, AutomationCommand,
    Coordinate, KeyAction, MouseButton, MouseButtonAction, NamedMouseButton,
};

fn coord(json: &str) -> Coordinate {
    Coordinate::parse(json).unwrap()
}

#[test]
fn serializes_default_key_press() {
    let command = AutomationCommand::Key {
        key: "KeyA".into(),
        action: KeyAction::default(),
    };

    assert_eq!(
        command.to_autowc_line(None).unwrap(),
        r#"{"action":"press","key":"KeyA","type":"key"}"#
    );
}

#[test]
fn serializes_mouse_defaults() {
    let command = AutomationCommand::MouseButton {
        action: MouseButtonAction::default(),
        button: MouseButton::default(),
    };

    assert_eq!(
        command.to_autowc_line(None).unwrap(),
        r#"{"action":"press","button":"left","type":"mouse_button"}"#
    );
}

#[test]
fn serializes_text_with_newlines() {
    let command = AutomationCommand::Text {
        text: "hello\nworld".into(),
    };

    assert_eq!(
        command.to_autowc_line(None).unwrap(),
        r#"{"text":"hello\nworld","type":"text"}"#
    );
}

#[test]
fn rejects_bad_tokens() {
    assert!(AutomationCommand::Key {
        key: "KeyA KeyB".into(),
        action: KeyAction::Press,
    }
    .to_autowc_line(None)
    .is_err());
    assert!(AutomationCommand::Chord { keys: vec![] }
        .to_autowc_line(None)
        .is_err());
}

#[test]
fn serializes_screenshot_paths_with_whitespace() {
    assert_eq!(
        screenshot_line(Some("/tmp/has space.png"), None).unwrap(),
        r#"{"path":"/tmp/has space.png","type":"screenshot"}"#
    );
    assert_eq!(screenshot_line(None, None).unwrap(), r#"{"type":"screenshot"}"#);
}

#[test]
fn serializes_list_command() {
    assert_eq!(list_line(), r#"{"type":"list"}"#);
}

#[test]
fn names_mouse_buttons_as_the_compositor_does() {
    assert_eq!(MouseButton::Named(NamedMouseButton::Right).as_autowc(), "right");
    assert_eq!(MouseButton::Named(NamedMouseButton::Middle).as_autowc(), "middle");
    assert_eq!(MouseButton::Other(273).as_autowc(), "273");
    assert_eq!(KeyAction::Down.to_string(), "down");
    assert_eq!(MouseButtonAction::Up.to_string(), "up");
}

#[test]
fn adds_window_target_in_key_order() {
    assert_eq!(
        AutomationCommand::Sleep { ms: 250 }.to_autowc_line(Some(4)).unwrap(),
        r#"{"ms":250,"type":"sleep","window":4}"#
    );
    assert_eq!(
        AutomationCommand::MouseMove { x: coord("12.5"), y: coord("3.0") }
            .to_autowc_line(Some(2))
            .unwrap(),
        r#"{"type":"mouse_move","window":2,"x":12.5,"y":3.0}"#
    );
    assert_eq!(
        AutomationCommand::Click {
            x: coord("1.0"),
            y: coord("2.0"),
            button: MouseButton::Other(274),
        }
        .to_autowc_line(None)
        .unwrap(),
        r#"{"button":274,"type":"click","x":1.0,"y":2.0}"#
    );
    assert_eq!(
        AutomationCommand::Scroll { dx: coord("0.0"), dy: coord("-1.5") }
            .to_autowc_line(Some(7))
            .unwrap(),
        r#"{"dx":0.0,"dy":-1.5,"type":"scroll","window":7}"#
    );
}

#[test]
fn serializes_chords_and_escapes_text() {
    assert_eq!(
        AutomationCommand::Chord { keys: vec!["ControlLeft".into(), "KeyC".into()] }
            .to_autowc_line(None)
            .unwrap(),
        r#"{"keys":["ControlLeft","KeyC"],"type":"chord"}"#
    );
    assert_eq!(
        AutomationCommand::Text { text: "say \"hi\"\\".into() }
            .to_autowc_line(Some(1))
            .unwrap(),
        r#"{"text":"say \"hi\"\\","type":"text","window":1}"#
    );
}

#[test]
fn reports_each_token_error() {
    assert_eq!(
        AutomationCommand::Key { key: "  ".into(), action: KeyAction::Up }
            .to_autowc_line(None)
            .unwrap_err(),
        "key must be one non-empty token"
    );
    assert_eq!(
        AutomationCommand::Chord { keys: vec![] }.to_autowc_line(None).unwrap_err(),
        "chord requires at least one key"
    );
    assert_eq!(
        AutomationCommand::Chord { keys: vec!["KeyA".into(), "".into()] }
            .to_autowc_line(None)
            .unwrap_err(),
        "chord keys must be non-empty tokens"
    );
    assert_eq!(
        AutomationCommand::Key { key: " KeyA ".into(), action: KeyAction::Down }
            .to_autowc_line(None)
            .unwrap(),
        r#"{"action":"down","key":" KeyA ","type":"key"}"#
    );
}

#[test]
fn builds_close_and_launch_lines() {
    assert_eq!(close_line(None), r#"{"type":"close"}"#);
    assert_eq!(close_line(Some(3)), r#"{"type":"close","window":3}"#);
    assert_eq!(
        launch_line(&vec!["foot".to_string(), "-e".to_string()]).unwrap(),
        r#"{"command":["foot","-e"],"type":"launch"}"#
    );
    assert_eq!(
        launch_line(&vec![]).unwrap_err(),
        "launch requires at least one command argument"
    );
}

#[test]
fn assembles_objects_from_encoded_fields() {
    let quoted: Vec<char> = "\"a b\"".chars().collect();
    let number: Vec<char> = "4".chars().collect();
    let fields = vec![field("text", &quoted), field("window", &number)];
    assert_eq!(object_line(&fields), r#"{"text":"a b","window":4}"#);
    assert_eq!(object_line(&vec![]), "{}");
}

#[test]
fn coordinates_are_json_numbers_or_null() {
    for good in ["0", "-0", "12.5", "-3.25e-7", "1E+20", "null"] {
        assert_eq!(Coordinate::parse(good).unwrap().json(), good);
    }
    for bad in ["", "\n", "01", "1.", ".5", "+1", "1e", "NaN", "inf", "1 2", "nul"] {
        assert!(Coordinate::parse(bad).is_none(), "{bad:?} accepted");
    }
}

#[test]
fn accepted_lines_are_single_json_objects() {
    let line = AutomationCommand::Text { text: "a\nb\r\u{1}".into() }
        .to_autowc_line(Some(3))
        .unwrap();
    assert!(!line.contains('\n'));
    assert_eq!(line, r#"{"text":"a\nb\r\u0001","type":"text","window":3}"#);
    let click = AutomationCommand::Click {
        x: coord("null"),
        y: coord("-1e3"),
        button: MouseButton::default(),
    }
    .to_autowc_line(None)
    .unwrap();
    assert_eq!(click, r#"{"button":"left","type":"click","x":null,"y":-1e3}"#);
}
