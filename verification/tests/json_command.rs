use autowc::control::{ControlCommand, ControlCommandVariant, Number, PressAction, BTN_LEFT};
use autowc::json_command::{JsonControlCommand, JsonControlCommandVariant, JsonMouseButton};
use autowc::keycodes::key_to_code;

fn json(window: Option<u64>, variant: JsonControlCommandVariant) -> Result<ControlCommand, String> {
    JsonControlCommand { window, variant }.into_control_command()
}

fn num(text: &str) -> Number {
    Number { text: text.to_string() }
}

#[test]
fn checks_json_key_and_chord_commands() {
    assert_eq!(
        json(None, JsonControlCommandVariant::Key { key: "KeyA".into(), action: PressAction::Press })
            .unwrap(),
        ControlCommand::new(ControlCommandVariant::Key {
            code: key_to_code("KeyA").unwrap(),
            action: PressAction::Press,
        })
    );
    assert_eq!(
        json(None, JsonControlCommandVariant::Key { key: "Nope".into(), action: PressAction::Up })
            .unwrap_err(),
        "unknown key: Nope"
    );
    assert_eq!(
        json(None, JsonControlCommandVariant::Chord { keys: vec![] }).unwrap_err(),
        "chord requires at least one key"
    );
    assert_eq!(
        json(
            Some(2),
            JsonControlCommandVariant::Chord { keys: vec!["ControlLeft".into(), "KeyC".into()] }
        )
        .unwrap(),
        ControlCommand {
            window: Some(2),
            variant: ControlCommandVariant::Chord {
                codes: vec![key_to_code("ControlLeft").unwrap(), key_to_code("KeyC").unwrap()],
            },
        }
    );
    assert_eq!(
        json(None, JsonControlCommandVariant::Chord { keys: vec!["KeyA".into(), "Bad".into()] })
            .unwrap_err(),
        "unknown key: Bad"
    );
}

#[test]
fn checks_json_mouse_commands() {
    assert_eq!(
        json(
            None,
            JsonControlCommandVariant::MouseButton { action: PressAction::Down, button: None }
        )
        .unwrap()
        .variant,
        ControlCommandVariant::PointerButton { button: BTN_LEFT, action: PressAction::Down }
    );
    assert_eq!(
        json(
            None,
            JsonControlCommandVariant::Click {
                x: num("1.5"),
                y: num("2"),
                button: Some(JsonMouseButton::Code(274)),
            }
        )
        .unwrap()
        .variant,
        ControlCommandVariant::Click { x: num("1.5"), y: num("2"), button: 274 }
    );
    assert_eq!(
        json(
            None,
            JsonControlCommandVariant::MouseButton {
                action: PressAction::Press,
                button: Some(JsonMouseButton::Name("side".into())),
            }
        )
        .unwrap_err(),
        "unknown button: side"
    );
}

#[test]
fn checks_json_launch_and_window_ids() {
    assert_eq!(
        json(None, JsonControlCommandVariant::Launch { command: vec![] }).unwrap_err(),
        "launch requires at least one command argument"
    );
    assert_eq!(
        json(Some(0), JsonControlCommandVariant::List).unwrap_err(),
        "window id must be greater than zero"
    );
    assert_eq!(
        json(Some(4), JsonControlCommandVariant::Sleep { ms: 10 }).unwrap(),
        ControlCommand {
            window: Some(4),
            variant: ControlCommandVariant::Sleep { duration_ms: 10 },
        }
    );
}
