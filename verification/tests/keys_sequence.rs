use autowc::keycodes::key_to_code;
use autowc::keys_sequence::{parse_keys_sequence, KeysSequenceAction};

fn code(name: &str) -> u32 {
    key_to_code(name).unwrap()
}

#[test]
fn parses_literal_text() {
    assert_eq!(
        parse_keys_sequence("hello world").unwrap(),
        vec![KeysSequenceAction::Text("hello world".to_string())]
    );
}

#[test]
fn parses_chords_special_keys_and_text_without_delimiters() {
    assert_eq!(
        parse_keys_sequence("<C-t>example.org<RET>").unwrap(),
        vec![
            KeysSequenceAction::Chord(vec![code("ControlLeft"), code("KeyT")]),
            KeysSequenceAction::Text("example.org".to_string()),
            KeysSequenceAction::Chord(vec![code("Enter")]),
        ]
    );
}

#[test]
fn parses_wait_directive() {
    assert_eq!(
        parse_keys_sequence("<w:500>").unwrap(),
        vec![KeysSequenceAction::Wait { duration_ms: 500 }]
    );
}

#[test]
fn supports_direct_key_code_names() {
    assert_eq!(
        parse_keys_sequence("<ControlRight-KeyL>").unwrap(),
        vec![KeysSequenceAction::Chord(vec![code("ControlRight"), code("KeyL")])]
    );
}

#[test]
fn parses_special_key_aliases() {
    assert_eq!(
        parse_keys_sequence("<ESC><TAB><SPC><BS><DEL><UP><DOWN><LEFT><RIGHT>").unwrap(),
        vec![
            KeysSequenceAction::Chord(vec![code("Escape")]),
            KeysSequenceAction::Chord(vec![code("Tab")]),
            KeysSequenceAction::Chord(vec![code("Space")]),
            KeysSequenceAction::Chord(vec![code("Backspace")]),
            KeysSequenceAction::Chord(vec![code("Delete")]),
            KeysSequenceAction::Chord(vec![code("ArrowUp")]),
            KeysSequenceAction::Chord(vec![code("ArrowDown")]),
            KeysSequenceAction::Chord(vec![code("ArrowLeft")]),
            KeysSequenceAction::Chord(vec![code("ArrowRight")]),
        ]
    );
}

#[test]
fn parses_special_key_aliases_case_insensitively() {
    assert_eq!(
        parse_keys_sequence("<ret><Escape><left>").unwrap(),
        vec![
            KeysSequenceAction::Chord(vec![code("Enter")]),
            KeysSequenceAction::Chord(vec![code("Escape")]),
            KeysSequenceAction::Chord(vec![code("ArrowLeft")]),
        ]
    );
}

#[test]
fn supports_emacs_special_key_aliases() {
    assert_eq!(
        parse_keys_sequence("<return><escape><backspace><space>").unwrap(),
        vec![
            KeysSequenceAction::Chord(vec![code("Enter")]),
            KeysSequenceAction::Chord(vec![code("Escape")]),
            KeysSequenceAction::Chord(vec![code("Backspace")]),
            KeysSequenceAction::Chord(vec![code("Space")]),
        ]
    );
}

#[test]
fn parses_function_and_media_keys() {
    assert_eq!(
        parse_keys_sequence("<F1><F12><F24><MediaPlayPause><MediaTrackNext><AudioVolumeMute>")
            .unwrap(),
        vec![
            KeysSequenceAction::Chord(vec![code("F1")]),
            KeysSequenceAction::Chord(vec![code("F12")]),
            KeysSequenceAction::Chord(vec![code("F24")]),
            KeysSequenceAction::Chord(vec![code("MediaPlayPause")]),
            KeysSequenceAction::Chord(vec![code("MediaTrackNext")]),
            KeysSequenceAction::Chord(vec![code("AudioVolumeMute")]),
        ]
    );
}

#[test]
fn parses_emacs_minus_key_chords() {
    assert_eq!(
        parse_keys_sequence("<C--><C-M-->").unwrap(),
        vec![
            KeysSequenceAction::Chord(vec![code("ControlLeft"), code("Minus")]),
            KeysSequenceAction::Chord(vec![code("ControlLeft"), code("AltLeft"), code("Minus")]),
        ]
    );
}

#[test]
fn parses_emacs_modifier_case_conventions() {
    assert_eq!(
        parse_keys_sequence("<M-x><S-x>").unwrap(),
        vec![
            KeysSequenceAction::Chord(vec![code("AltLeft"), code("KeyX")]),
            KeysSequenceAction::Chord(vec![code("ShiftLeft"), code("KeyX")]),
        ]
    );
}

#[test]
fn parses_lowercase_s_as_super_only_in_modifier_position() {
    assert_eq!(
        parse_keys_sequence("<C-s><C-s-a><C-s-s>").unwrap(),
        vec![
            KeysSequenceAction::Chord(vec![code("ControlLeft"), code("KeyS")]),
            KeysSequenceAction::Chord(vec![code("ControlLeft"), code("MetaLeft"), code("KeyA")]),
            KeysSequenceAction::Chord(vec![code("ControlLeft"), code("MetaLeft"), code("KeyS")]),
        ]
    );
}

#[test]
fn rejects_bare_minus_angle_token() {
    assert_eq!(parse_keys_sequence("<->").unwrap_err(), "invalid keys token: <->");
}

#[test]
fn escapes_literal_less_than() {
    assert_eq!(
        parse_keys_sequence(r"\<C-t>").unwrap(),
        vec![KeysSequenceAction::Text("<C-t>".to_string())]
    );
}

#[test]
fn escapes_literal_backslash_before_chord() {
    assert_eq!(
        parse_keys_sequence(r"\\<C-t>").unwrap(),
        vec![
            KeysSequenceAction::Text(r"\".to_string()),
            KeysSequenceAction::Chord(vec![code("ControlLeft"), code("KeyT")]),
        ]
    );
}

#[test]
fn keeps_backslashes_literal_unless_escaping_less_than() {
    assert_eq!(
        parse_keys_sequence(r"a\b").unwrap(),
        vec![KeysSequenceAction::Text(r"a\b".to_string())]
    );
}

#[test]
fn rejects_unclosed_angle_token() {
    assert_eq!(parse_keys_sequence("hello <RET").unwrap_err(), "unterminated keys token");
}

#[test]
fn rejects_invalid_wait_directive() {
    assert_eq!(parse_keys_sequence("<w:nope>").unwrap_err(), "invalid wait duration: <w:nope>");
}

#[test]
fn rejects_empty_and_unknown_chord_parts() {
    assert_eq!(parse_keys_sequence("<>").unwrap_err(), "empty keys token");
    assert_eq!(parse_keys_sequence("<C--a>").unwrap_err(), "invalid keys token: <C--a>");
    assert_eq!(parse_keys_sequence("<X-a>").unwrap_err(), "unknown modifier: X");
    assert_eq!(parse_keys_sequence("<C-nope>").unwrap_err(), "unknown key: nope");
    assert_eq!(parse_keys_sequence("<--->").unwrap_err(), "invalid keys token: <--->");
}

#[test]
fn first_error_wins_over_unterminated_token() {
    assert_eq!(parse_keys_sequence("<X-a> <RET").unwrap_err(), "unknown modifier: X");
}

#[test]
fn empty_sequence_has_no_actions() {
    assert_eq!(parse_keys_sequence("").unwrap(), vec![]);
    assert_eq!(
        parse_keys_sequence("<w:0>x<w:+7>").unwrap(),
        vec![
            KeysSequenceAction::Wait { duration_ms: 0 },
            KeysSequenceAction::Text("x".to_string()),
            KeysSequenceAction::Wait { duration_ms: 7 },
        ]
    );
    assert!(parse_keys_sequence("<w:18446744073709551616>").is_err());
}

#[test]
fn single_characters_name_keys() {
    assert_eq!(
        parse_keys_sequence("<C-1><C-/><A-Z>").unwrap(),
        vec![
            KeysSequenceAction::Chord(vec![code("ControlLeft"), code("Digit1")]),
            KeysSequenceAction::Chord(vec![code("ControlLeft"), code("Slash")]),
            KeysSequenceAction::Chord(vec![code("AltLeft"), code("KeyZ")]),
        ]
    );
}

#[test]
fn key_codes_are_linux_input_codes() {
    assert_eq!(key_to_code("KeyA"), Some(30));
    assert_eq!(key_to_code("Enter"), Some(28));
    assert_eq!(key_to_code("ShiftLeft"), Some(42));
    assert_eq!(key_to_code("F24"), Some(194));
    assert_eq!(key_to_code("KeyNope"), None);
}
