use autowc::control::{
    parse_control_command, text_to_key_events, ControlCommand, ControlCommandVariant, Number,
    PressAction, BTN_LEFT, BTN_MIDDLE, BTN_RIGHT,
};
use autowc::keycodes::key_to_code;
use autowc::keys_sequence::KeysSequenceAction;

fn code(name: &str) -> u32 {
    key_to_code(name).unwrap()
}

fn num(text: &str) -> Number {
    Number { text: text.to_string() }
}

fn command(variant: ControlCommandVariant) -> Option<ControlCommand> {
    Some(ControlCommand::new(variant))
}

fn targeted_command(window: u64, variant: ControlCommandVariant) -> Option<ControlCommand> {
    Some(ControlCommand { window: Some(window), variant })
}

fn check_key_command() {
    assert_eq!(
        parse_control_command("key KeyA").unwrap(),
        command(ControlCommandVariant::Key { code: code("KeyA"), action: PressAction::Press })
    );
    assert_eq!(
        parse_control_command("key KeyA down").unwrap(),
        command(ControlCommandVariant::Key { code: code("KeyA"), action: PressAction::Down })
    );
}

fn check_chord() {
    assert_eq!(
        parse_control_command("chord ControlLeft KeyL").unwrap(),
        command(ControlCommandVariant::Chord { codes: vec![code("ControlLeft"), code("KeyL")] })
    );
    assert!(parse_control_command("chord").is_err());
    assert!(parse_control_command("chord KeyNope").is_err());
}

fn check_mouse_commands() {
    assert_eq!(
        parse_control_command("mouse move 10 20").unwrap(),
        command(ControlCommandVariant::PointerMove { x: num("10"), y: num("20") })
    );
    assert_eq!(
        parse_control_command("mouse button").unwrap(),
        command(ControlCommandVariant::PointerButton { button: BTN_LEFT, action: PressAction::Press })
    );
    assert_eq!(
        parse_control_command("mouse button down").unwrap(),
        command(ControlCommandVariant::PointerButton { button: BTN_LEFT, action: PressAction::Down })
    );
    assert_eq!(
        parse_control_command("mouse button up right").unwrap(),
        command(ControlCommandVariant::PointerButton { button: BTN_RIGHT, action: PressAction::Up })
    );
    assert_eq!(
        parse_control_command("mouse button middle").unwrap(),
        command(ControlCommandVariant::PointerButton { button: BTN_MIDDLE, action: PressAction::Press })
    );
}

fn check_click_scroll_and_quit() {
    assert_eq!(
        parse_control_command("click 640 360").unwrap(),
        command(ControlCommandVariant::Click { x: num("640"), y: num("360"), button: BTN_LEFT })
    );
    assert_eq!(
        parse_control_command("scroll 0 -120").unwrap(),
        command(ControlCommandVariant::Scroll { dx: num("0"), dy: num("-120") })
    );
    assert_eq!(parse_control_command("quit").unwrap(), command(ControlCommandVariant::Quit));
}

fn check_screenshot() {
    assert_eq!(
        parse_control_command("screenshot").unwrap(),
        command(ControlCommandVariant::Screenshot { path: None })
    );
    assert_eq!(
        parse_control_command("screenshot /tmp/autowc.png").unwrap(),
        command(ControlCommandVariant::Screenshot { path: Some("/tmp/autowc.png".to_string()) })
    );
}

fn check_sleep() {
    assert_eq!(
        parse_control_command("sleep 250").unwrap(),
        command(ControlCommandVariant::Sleep { duration_ms: 250 })
    );
    assert!(parse_control_command("sleep 1.5").is_err());
    assert!(parse_control_command("sleep -1").is_err());
}

fn check_text_with_spaces() {
    assert_eq!(
        parse_control_command("text hello world").unwrap(),
        command(ControlCommandVariant::Text("hello world".to_string()))
    );
}

fn check_plain_text_does_not_unescape() {
    assert_eq!(
        parse_control_command(r"text \n").unwrap(),
        command(ControlCommandVariant::Text(r"\n".to_string()))
    );
    assert_eq!(
        text_to_key_events(r"\n").unwrap(),
        [(code("Backslash"), PressAction::Press), (code("KeyN"), PressAction::Press)]
    );
}

fn check_newline_is_enter() {
    assert_eq!(text_to_key_events("\n").unwrap(), [(code("Enter"), PressAction::Press)]);
}

fn check_tab() {
    assert_eq!(text_to_key_events("\t").unwrap(), [(code("Tab"), PressAction::Press)]);
}

fn check_rejects_invalid_input() {
    assert!(parse_control_command("KeyA").is_err());
    assert!(parse_control_command("key KeyNope press").is_err());
    assert!(parse_control_command("key KeyA tap").is_err());
    assert!(parse_control_command("pointer move 10 20").is_err());
    assert!(parse_control_command("mouse move 10").is_err());
    assert!(parse_control_command("mouse button tap").is_err());
}

#[test]
fn control_parses_key_command() {
    check_key_command();
}

#[test]
fn control_parses_chord() {
    check_chord();
}

#[test]
fn control_parses_mouse_commands() {
    check_mouse_commands();
}

#[test]
fn control_parses_click_scroll_and_quit() {
    check_click_scroll_and_quit();
}

#[test]
fn control_parses_screenshot() {
    check_screenshot();
}

#[test]
fn control_parses_sleep() {
    check_sleep();
}

#[test]
fn control_parses_text_with_spaces() {
    check_text_with_spaces();
}

#[test]
fn control_plain_text_does_not_unescape_backslash_sequences() {
    check_plain_text_does_not_unescape();
}

#[test]
fn control_text_tabs_map_to_tab() {
    check_tab();
}

#[test]
fn control_rejects_invalid_input() {
    check_rejects_invalid_input();
}

#[test]
fn mod_parses_key_command() {
    check_key_command();
}

#[test]
fn mod_parses_chord() {
    check_chord();
}

#[test]
fn mod_parses_mouse_commands() {
    check_mouse_commands();
}

#[test]
fn mod_parses_click_scroll_and_quit() {
    check_click_scroll_and_quit();
}

#[test]
fn mod_parses_screenshot() {
    check_screenshot();
}

#[test]
fn mod_parses_sleep() {
    check_sleep();
}

#[test]
fn mod_parses_text_with_spaces() {
    check_text_with_spaces();
}

#[test]
fn mod_plain_text_does_not_unescape_backslash_sequences() {
    check_plain_text_does_not_unescape();
}

#[test]
fn mod_text_tabs_map_to_tab() {
    check_tab();
}

#[test]
fn mod_rejects_invalid_input() {
    check_rejects_invalid_input();
}

#[test]
fn text_newline_maps_to_enter() {
    check_newline_is_enter();
}

#[test]
fn parses_launch() {
    assert_eq!(
        parse_control_command("launch gtk4-demo --run entry").unwrap(),
        command(ControlCommandVariant::Launch {
            command: vec!["gtk4-demo".into(), "--run".into(), "entry".into()],
        })
    );
    assert!(parse_control_command("launch").is_err());
}

#[test]
fn parses_list() {
    assert_eq!(parse_control_command("list").unwrap(), command(ControlCommandVariant::List));
    assert!(parse_control_command("list extra").is_err());
}

#[test]
fn parses_plain_window_prefix() {
    assert_eq!(
        parse_control_command("2 text second window").unwrap(),
        targeted_command(2, ControlCommandVariant::Text("second window".to_string()))
    );
    assert_eq!(
        parse_control_command("3 key KeyA").unwrap(),
        targeted_command(
            3,
            ControlCommandVariant::Key { code: code("KeyA"), action: PressAction::Press }
        )
    );
    assert!(parse_control_command("0 text bad").is_err());
    assert!(parse_control_command("2").is_err());
}

#[test]
fn blank_and_comment_lines_are_no_command() {
    assert_eq!(parse_control_command("").unwrap(), None);
    assert_eq!(parse_control_command("   \t ").unwrap(), None);
    assert_eq!(parse_control_command("  # note").unwrap(), None);
}

#[test]
fn error_messages_name_the_problem() {
    assert_eq!(parse_control_command("frobnicate").unwrap_err(), "unknown command: frobnicate");
    assert_eq!(parse_control_command("key KeyA down x").unwrap_err(), "unexpected argument: x");
    assert_eq!(parse_control_command("key KeyZZ").unwrap_err(), "unknown key: KeyZZ");
    assert_eq!(parse_control_command("click 1").unwrap_err(), "expected y");
    assert_eq!(parse_control_command("click 1 abc").unwrap_err(), "invalid y");
    assert_eq!(parse_control_command("click 1 2 wheel").unwrap_err(), "unknown button: wheel");
    assert_eq!(parse_control_command("texting").unwrap_err(), "usage: text <text>");
    assert_eq!(parse_control_command("keys").unwrap_err(), "usage: keys <sequence>");
    assert_eq!(
        parse_control_command("0 quit").unwrap_err(),
        "window id must be greater than zero"
    );
    assert_eq!(parse_control_command("sleep").unwrap_err(), "usage: sleep <ms>");
    assert_eq!(parse_control_command("sleep x").unwrap_err(), "invalid sleep duration");
    assert_eq!(
        text_to_key_events("\u{e9}").unwrap_err(),
        "unsupported text character: '\u{e9}'"
    );
}

#[test]
fn parses_drag_keys_close_and_numbers() {
    assert_eq!(
        parse_control_command("mouse drag 1.5 -2 3e2 .5 273").unwrap(),
        command(ControlCommandVariant::PointerDrag {
            start_x: num("1.5"),
            start_y: num("-2"),
            end_x: num("3e2"),
            end_y: num(".5"),
            button: 273,
        })
    );
    assert_eq!(
        parse_control_command("4 keys <C-t>hi").unwrap(),
        targeted_command(
            4,
            ControlCommandVariant::KeysSequence {
                actions: vec![
                    KeysSequenceAction::Chord(vec![code("ControlLeft"), code("KeyT")]),
                    KeysSequenceAction::Text("hi".to_string()),
                ],
            }
        )
    );
    assert_eq!(parse_control_command("close").unwrap(), command(ControlCommandVariant::Close));
    assert!(parse_control_command("mouse move 1e 2").is_err());
    assert!(parse_control_command("mouse move . 2").is_err());
    assert!(Number::parse("inf").is_some());
    assert!(Number::parse("-Infinity").is_some());
    assert!(Number::parse("1.").is_some());
    assert!(Number::parse("1e+5").is_some());
    assert!(Number::parse("").is_none());
    assert!(Number::parse("1,5").is_none());
}

#[test]
fn shifted_characters_wrap_in_shift() {
    let shift = code("ShiftLeft");
    assert_eq!(
        text_to_key_events("A!").unwrap(),
        [
            (shift, PressAction::Down),
            (code("KeyA"), PressAction::Press),
            (shift, PressAction::Up),
            (shift, PressAction::Down),
            (code("Digit1"), PressAction::Press),
            (shift, PressAction::Up),
        ]
    );
}
