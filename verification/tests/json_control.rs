//! The JSON control syntax, from line to command: the line is decoded here
//! field by field (the compositor does it with serde), then checked by the
//! library.

use autowc::control::{
    text_to_key_events, ControlCommand, ControlCommandVariant, Number, PressAction, BTN_LEFT,
    BTN_RIGHT,
};
use autowc::json_command::{JsonControlCommand, JsonControlCommandVariant, JsonMouseButton};
use autowc::keycodes::key_to_code;
use serde_json::Value;

fn string_field(obj: &serde_json::Map<String, Value>, key: &str) -> Result<String, String> {
    obj.get(key)
        .and_then(Value::as_str)
        .map(str::to_string)
        .ok_or_else(|| format!("missing field `{key}`"))
}

fn number_field(obj: &serde_json::Map<String, Value>, key: &str) -> Result<Number, String> {
    obj.get(key)
        .and_then(Value::as_f64)
        .map(|v| Number { text: v.to_string() })
        .ok_or_else(|| format!("missing field `{key}`"))
}

fn strings_field(obj: &serde_json::Map<String, Value>, key: &str) -> Result<Vec<String>, String> {
    let items = obj
        .get(key)
        .and_then(Value::as_array)
        .ok_or_else(|| format!("missing field `{key}`"))?;
    items
        .iter()
        .map(|item| item.as_str().map(str::to_string).ok_or_else(|| "expected a string".to_string()))
        .collect()
}

fn action_field(obj: &serde_json::Map<String, Value>) -> Result<PressAction, String> {
    match obj.get("action").map(|a| a.as_str()) {
        None => Ok(PressAction::Press),
        Some(Some("down")) => Ok(PressAction::Down),
        Some(Some("up")) => Ok(PressAction::Up),
        Some(Some("press")) => Ok(PressAction::Press),
        _ => Err("unknown variant".to_string()),
    }
}

fn button_field(obj: &serde_json::Map<String, Value>) -> Result<Option<JsonMouseButton>, String> {
    match obj.get("button") {
        None | Some(Value::Null) => Ok(None),
        Some(Value::String(name)) => Ok(Some(JsonMouseButton::Name(name.clone()))),
        Some(value) => value
            .as_u64()
            .and_then(|code| u32::try_from(code).ok())
            .map(|code| Some(JsonMouseButton::Code(code)))
            .ok_or_else(|| "invalid button".to_string()),
    }
}

fn decode(line: &str) -> Result<JsonControlCommand, String> {
    let value: Value = serde_json::from_str(line).map_err(|err| err.to_string())?;
    let obj = value.as_object().ok_or("expected an object")?;
    let window = match obj.get("window") {
        None | Some(Value::Null) => None,
        Some(w) => Some(w.as_u64().ok_or("invalid window")?),
    };
    let variant = match string_field(obj, "type")?.as_str() {
        "key" => JsonControlCommandVariant::Key {
            key: string_field(obj, "key")?,
            action: action_field(obj)?,
        },
        "chord" => JsonControlCommandVariant::Chord { keys: strings_field(obj, "keys")? },
        "text" => JsonControlCommandVariant::Text { text: string_field(obj, "text")? },
        "mouse_move" => JsonControlCommandVariant::MouseMove {
            x: number_field(obj, "x")?,
            y: number_field(obj, "y")?,
        },
        "mouse_button" => JsonControlCommandVariant::MouseButton {
            action: action_field(obj)?,
            button: button_field(obj)?,
        },
        "click" => JsonControlCommandVariant::Click {
            x: number_field(obj, "x")?,
            y: number_field(obj, "y")?,
            button: button_field(obj)?,
        },
        "scroll" => JsonControlCommandVariant::Scroll {
            dx: number_field(obj, "dx")?,
            dy: number_field(obj, "dy")?,
        },
        "screenshot" => JsonControlCommandVariant::Screenshot {
            path: obj.get("path").and_then(Value::as_str).map(str::to_string),
        },
        "sleep" => JsonControlCommandVariant::Sleep {
            ms: obj.get("ms").and_then(Value::as_u64).ok_or("invalid ms")?,
        },
        "launch" => JsonControlCommandVariant::Launch { command: strings_field(obj, "command")? },
        "list" => JsonControlCommandVariant::List,
        "close" => JsonControlCommandVariant::Close,
        "quit" => JsonControlCommandVariant::Quit,
        other => return Err(format!("unknown variant `{other}`")),
    };
    Ok(JsonControlCommand { window, variant })
}

fn parse_json_control_command(line: &str) -> Result<ControlCommand, String> {
    decode(line)
        .map_err(|err| format!("invalid json command: {err}"))?
        .into_control_command()
}

fn variant(line: &str) -> ControlCommandVariant {
    let command = parse_json_control_command(line).unwrap();
    assert_eq!(command.window, None);
    command.variant
}

fn num(text: &str) -> Number {
    Number { text: text.to_string() }
}

fn check_text_unescapes() {
    assert_eq!(
        variant(r#"{"type":"text","text":"\n"}"#),
        ControlCommandVariant::Text("\n".to_string())
    );
    assert_eq!(
        text_to_key_events("\n").unwrap(),
        [(key_to_code("Enter").unwrap(), PressAction::Press)]
    );
}

fn check_key_commands() {
    assert_eq!(
        variant(r#"{"type":"key","key":"KeyA"}"#),
        ControlCommandVariant::Key { code: key_to_code("KeyA").unwrap(), action: PressAction::Press }
    );
    assert_eq!(
        variant(r#"{"type":"key","key":"KeyA","action":"down"}"#),
        ControlCommandVariant::Key { code: key_to_code("KeyA").unwrap(), action: PressAction::Down }
    );
}

fn check_chord_and_text_commands() {
    assert_eq!(
        variant(r#"{"type":"chord","keys":["ControlLeft","KeyL"]}"#),
        ControlCommandVariant::Chord {
            codes: vec![key_to_code("ControlLeft").unwrap(), key_to_code("KeyL").unwrap()],
        }
    );
    assert_eq!(
        variant(r#"{"type":"text","text":" hello\nworld "}"#),
        ControlCommandVariant::Text(" hello\nworld ".to_string())
    );
}

fn check_mouse_commands() {
    assert_eq!(
        variant(r#"{"type":"mouse_move","x":10,"y":20}"#),
        ControlCommandVariant::PointerMove { x: num("10"), y: num("20") }
    );
    assert_eq!(
        variant(r#"{"type":"mouse_button"}"#),
        ControlCommandVariant::PointerButton { button: BTN_LEFT, action: PressAction::Press }
    );
    assert_eq!(
        variant(r#"{"type":"mouse_button","action":"up","button":"right"}"#),
        ControlCommandVariant::PointerButton { button: BTN_RIGHT, action: PressAction::Up }
    );
    assert_eq!(
        variant(r#"{"type":"mouse_button","button":273}"#),
        ControlCommandVariant::PointerButton { button: BTN_RIGHT, action: PressAction::Press }
    );
}

fn check_click_scroll_sleep_screenshot_and_quit(with_launch_and_list: bool) {
    assert_eq!(
        variant(r#"{"type":"click","x":640,"y":360}"#),
        ControlCommandVariant::Click { x: num("640"), y: num("360"), button: BTN_LEFT }
    );
    assert_eq!(
        variant(r#"{"type":"scroll","dx":0,"dy":-120}"#),
        ControlCommandVariant::Scroll { dx: num("0"), dy: num("-120") }
    );
    assert_eq!(
        variant(r#"{"type":"sleep","ms":250}"#),
        ControlCommandVariant::Sleep { duration_ms: 250 }
    );
    if with_launch_and_list {
        assert_eq!(
            variant(r#"{"type":"launch","command":["gtk4-demo"]}"#),
            ControlCommandVariant::Launch { command: vec!["gtk4-demo".into()] }
        );
        assert_eq!(variant(r#"{"type":"list"}"#), ControlCommandVariant::List);
    }
    assert_eq!(
        variant(r#"{"type":"screenshot","path":"/tmp/autowc.png"}"#),
        ControlCommandVariant::Screenshot { path: Some("/tmp/autowc.png".to_string()) }
    );
    assert_eq!(variant(r#"{"type":"quit"}"#), ControlCommandVariant::Quit);
}

fn check_rejects_invalid_json_input(with_launch: bool) {
    assert!(parse_json_control_command(r#"{"type":"key","key":"KeyNope"}"#).is_err());
    assert!(parse_json_control_command(r#"{"type":"chord","keys":[]}"#).is_err());
    if with_launch {
        assert!(parse_json_control_command(r#"{"type":"launch","command":[]}"#).is_err());
    }
    assert!(parse_json_control_command(r#"{"type":"mouse_button","action":"tap"}"#).is_err());
    assert!(parse_json_control_command(r#"{"type":"sleep","ms":-1}"#).is_err());
}

#[test]
fn control_json_text_unescapes_backslash_sequences() {
    check_text_unescapes();
}

#[test]
fn control_parses_json_key_commands() {
    check_key_commands();
}

#[test]
fn control_parses_json_chord_and_text_commands() {
    check_chord_and_text_commands();
}

#[test]
fn control_parses_json_mouse_commands() {
    check_mouse_commands();
}

#[test]
fn control_parses_json_click_scroll_sleep_screenshot_and_quit() {
    check_click_scroll_sleep_screenshot_and_quit(false);
}

#[test]
fn control_rejects_invalid_json_input() {
    check_rejects_invalid_json_input(false);
}

#[test]
fn mod_json_text_unescapes_backslash_sequences() {
    check_text_unescapes();
}

#[test]
fn mod_parses_json_key_commands() {
    check_key_commands();
}

#[test]
fn mod_parses_json_chord_and_text_commands() {
    check_chord_and_text_commands();
}

#[test]
fn mod_parses_json_mouse_commands() {
    check_mouse_commands();
}

#[test]
fn mod_parses_json_click_scroll_sleep_screenshot_and_quit() {
    check_click_scroll_sleep_screenshot_and_quit(true);
}

#[test]
fn mod_rejects_invalid_json_input() {
    check_rejects_invalid_json_input(true);
}

#[test]
fn parses_json_targeted_window_commands() {
    assert_eq!(
        parse_json_control_command(r#"{"type":"text","window":2,"text":"second"}"#).unwrap(),
        ControlCommand {
            window: Some(2),
            variant: ControlCommandVariant::Text("second".to_string()),
        }
    );
    assert_eq!(
        parse_json_control_command(r#"{"type":"screenshot","window":3}"#).unwrap(),
        ControlCommand {
            window: Some(3),
            variant: ControlCommandVariant::Screenshot { path: None },
        }
    );
    assert!(parse_json_control_command(r#"{"type":"text","window":0,"text":"bad"}"#).is_err());
}
