//! Physical key names (the W3C `KeyboardEvent.code` scheme) and the Linux
//! evdev key codes they stand for.
use vstd::prelude::*;

use crate::text::{str_to_chars, text_is};

verus! {

/// The evdev code of the key whose `KeyboardEvent.code` name is `name`.
pub closed spec fn key_code_spec(name: Seq<char>) -> Option<u32> {
    if name == "ShiftLeft"@ {
        Some(42u32)
    } else if name == "KeyA"@ {
        Some(30u32)
    } else if name == "KeyB"@ {
        Some(48u32)
    } else if name == "KeyC"@ {
        Some(46u32)
    } else if name == "KeyD"@ {
        Some(32u32)
    } else if name == "KeyE"@ {
        Some(18u32)
    } else if name == "KeyF"@ {
        Some(33u32)
    } else if name == "KeyG"@ {
        Some(34u32)
    } else if name == "KeyH"@ {
        Some(35u32)
    } else if name == "KeyI"@ {
        Some(23u32)
    } else if name == "KeyJ"@ {
        Some(36u32)
    } else if name == "KeyK"@ {
        Some(37u32)
    } else if name == "KeyL"@ {
        Some(38u32)
    } else if name == "KeyM"@ {
        Some(50u32)
    } else if name == "KeyN"@ {
        Some(49u32)
    } else if name == "KeyO"@ {
        Some(24u32)
    } else if name == "KeyP"@ {
        Some(25u32)
    } else if name == "KeyQ"@ {
        Some(16u32)
    } else if name == "KeyR"@ {
        Some(19u32)
    } else if name == "KeyS"@ {
        Some(31u32)
    } else if name == "KeyT"@ {
        Some(20u32)
    } else if name == "KeyU"@ {
        Some(22u32)
    } else if name == "KeyV"@ {
        Some(47u32)
    } else if name == "KeyW"@ {
        Some(17u32)
    } else if name == "KeyX"@ {
        Some(45u32)
    } else if name == "KeyY"@ {
        Some(21u32)
    } else if name == "KeyZ"@ {
        Some(44u32)
    } else if name == "Digit0"@ {
        Some(11u32)
    } else if name == "Digit1"@ {
        Some(2u32)
    } else if name == "Digit2"@ {
        Some(3u32)
    } else if name == "Digit3"@ {
        Some(4u32)
    } else if name == "Digit4"@ {
        Some(5u32)
    } else if name == "Digit5"@ {
        Some(6u32)
    } else if name == "Digit6"@ {
        Some(7u32)
    } else if name == "Digit7"@ {
        Some(8u32)
    } else if name == "Digit8"@ {
        Some(9u32)
    } else if name == "Digit9"@ {
        Some(10u32)
    } else if name == "Escape"@ {
        Some(1u32)
    } else if name == "Minus"@ {
        Some(12u32)
    } else if name == "Equal"@ {
        Some(13u32)
    } else if name == "Backspace"@ {
        Some(14u32)
    } else if name == "Tab"@ {
        Some(15u32)
    } else if name == "BracketLeft"@ {
        Some(26u32)
    } else if name == "BracketRight"@ {
        Some(27u32)
    } else if name == "Enter"@ {
        Some(28u32)
    } else if name == "ControlLeft"@ {
        Some(29u32)
    } else if name == "Semicolon"@ {
        Some(39u32)
    } else if name == "Quote"@ {
        Some(40u32)
    } else if name == "Backquote"@ {
        Some(41u32)
    } else if name == "Backslash"@ {
        Some(43u32)
    } else if name == "Comma"@ {
        Some(51u32)
    } else if name == "Period"@ {
        Some(52u32)
    } else if name == "Slash"@ {
        Some(53u32)
    } else if name == "ShiftRight"@ {
        Some(54u32)
    } else if name == "NumpadMultiply"@ {
        Some(55u32)
    } else if name == "AltLeft"@ {
        Some(56u32)
    } else if name == "Space"@ {
        Some(57u32)
    } else if name == "CapsLock"@ {
        Some(58u32)
    } else if name == "F1"@ {
        Some(59u32)
    } else if name == "F2"@ {
        Some(60u32)
    } else if name == "F3"@ {
        Some(61u32)
    } else if name == "F4"@ {
        Some(62u32)
    } else if name == "F5"@ {
        Some(63u32)
    } else if name == "F6"@ {
        Some(64u32)
    } else if name == "F7"@ {
        Some(65u32)
    } else if name == "F8"@ {
        Some(66u32)
    } else if name == "F9"@ {
        Some(67u32)
    } else if name == "F10"@ {
        Some(68u32)
    } else if name == "NumLock"@ {
        Some(69u32)
    } else if name == "ScrollLock"@ {
        Some(70u32)
    } else if name == "Numpad7"@ {
        Some(71u32)
    } else if name == "Numpad8"@ {
        Some(72u32)
    } else if name == "Numpad9"@ {
        Some(73u32)
    } else if name == "NumpadSubtract"@ {
        Some(74u32)
    } else if name == "Numpad4"@ {
        Some(75u32)
    } else if name == "Numpad5"@ {
        Some(76u32)
    } else if name == "Numpad6"@ {
        Some(77u32)
    } else if name == "NumpadAdd"@ {
        Some(78u32)
    } else if name == "Numpad1"@ {
        Some(79u32)
    } else if name == "Numpad2"@ {
        Some(80u32)
    } else if name == "Numpad3"@ {
        Some(81u32)
    } else if name == "Numpad0"@ {
        Some(82u32)
    } else if name == "NumpadDecimal"@ {
        Some(83u32)
    } else if name == "IntlBackslash"@ {
        Some(86u32)
    } else if name == "F11"@ {
        Some(87u32)
    } else if name == "F12"@ {
        Some(88u32)
    } else if name == "IntlRo"@ {
        Some(89u32)
    } else if name == "NumpadEnter"@ {
        Some(96u32)
    } else if name == "ControlRight"@ {
        Some(97u32)
    } else if name == "NumpadDivide"@ {
        Some(98u32)
    } else if name == "PrintScreen"@ {
        Some(99u32)
    } else if name == "AltRight"@ {
        Some(100u32)
    } else if name == "Home"@ {
        Some(102u32)
    } else if name == "ArrowUp"@ {
        Some(103u32)
    } else if name == "PageUp"@ {
        Some(104u32)
    } else if name == "ArrowLeft"@ {
        Some(105u32)
    } else if name == "ArrowRight"@ {
        Some(106u32)
    } else if name == "End"@ {
        Some(107u32)
    } else if name == "ArrowDown"@ {
        Some(108u32)
    } else if name == "PageDown"@ {
        Some(109u32)
    } else if name == "Insert"@ {
        Some(110u32)
    } else if name == "Delete"@ {
        Some(111u32)
    } else if name == "AudioVolumeMute"@ {
        Some(113u32)
    } else if name == "AudioVolumeDown"@ {
        Some(114u32)
    } else if name == "AudioVolumeUp"@ {
        Some(115u32)
    } else if name == "Power"@ {
        Some(116u32)
    } else if name == "NumpadEqual"@ {
        Some(117u32)
    } else if name == "Pause"@ {
        Some(119u32)
    } else if name == "NumpadComma"@ {
        Some(121u32)
    } else if name == "IntlYen"@ {
        Some(124u32)
    } else if name == "MetaLeft"@ {
        Some(125u32)
    } else if name == "MetaRight"@ {
        Some(126u32)
    } else if name == "ContextMenu"@ {
        Some(127u32)
    } else if name == "MediaTrackNext"@ {
        Some(163u32)
    } else if name == "MediaPlayPause"@ {
        Some(164u32)
    } else if name == "MediaTrackPrevious"@ {
        Some(165u32)
    } else if name == "MediaStop"@ {
        Some(166u32)
    } else if name == "F13"@ {
        Some(183u32)
    } else if name == "F14"@ {
        Some(184u32)
    } else if name == "F15"@ {
        Some(185u32)
    } else if name == "F16"@ {
        Some(186u32)
    } else if name == "F17"@ {
        Some(187u32)
    } else if name == "F18"@ {
        Some(188u32)
    } else if name == "F19"@ {
        Some(189u32)
    } else if name == "F20"@ {
        Some(190u32)
    } else if name == "F21"@ {
        Some(191u32)
    } else if name == "F22"@ {
        Some(192u32)
    } else if name == "F23"@ {
        Some(193u32)
    } else if name == "F24"@ {
        Some(194u32)
    } else {
        None
    }
}

/// The character that the key with evdev code `code` types on a US
/// keyboard layout, with Shift held or not; `None` for a key that types no
/// character.
pub open spec fn us_layout_char(code: u32, shifted: bool) -> Option<char> {
    if code == 30 {
        Some(if shifted { 'A' } else { 'a' })
    } else if code == 48 {
        Some(if shifted { 'B' } else { 'b' })
    } else if code == 46 {
        Some(if shifted { 'C' } else { 'c' })
    } else if code == 32 {
        Some(if shifted { 'D' } else { 'd' })
    } else if code == 18 {
        Some(if shifted { 'E' } else { 'e' })
    } else if code == 33 {
        Some(if shifted { 'F' } else { 'f' })
    } else if code == 34 {
        Some(if shifted { 'G' } else { 'g' })
    } else if code == 35 {
        Some(if shifted { 'H' } else { 'h' })
    } else if code == 23 {
        Some(if shifted { 'I' } else { 'i' })
    } else if code == 36 {
        Some(if shifted { 'J' } else { 'j' })
    } else if code == 37 {
        Some(if shifted { 'K' } else { 'k' })
    } else if code == 38 {
        Some(if shifted { 'L' } else { 'l' })
    } else if code == 50 {
        Some(if shifted { 'M' } else { 'm' })
    } else if code == 49 {
        Some(if shifted { 'N' } else { 'n' })
    } else if code == 24 {
        Some(if shifted { 'O' } else { 'o' })
    } else if code == 25 {
        Some(if shifted { 'P' } else { 'p' })
    } else if code == 16 {
        Some(if shifted { 'Q' } else { 'q' })
    } else if code == 19 {
        Some(if shifted { 'R' } else { 'r' })
    } else if code == 31 {
        Some(if shifted { 'S' } else { 's' })
    } else if code == 20 {
        Some(if shifted { 'T' } else { 't' })
    } else if code == 22 {
        Some(if shifted { 'U' } else { 'u' })
    } else if code == 47 {
        Some(if shifted { 'V' } else { 'v' })
    } else if code == 17 {
        Some(if shifted { 'W' } else { 'w' })
    } else if code == 45 {
        Some(if shifted { 'X' } else { 'x' })
    } else if code == 21 {
        Some(if shifted { 'Y' } else { 'y' })
    } else if code == 44 {
        Some(if shifted { 'Z' } else { 'z' })
    } else if code == 2 {
        Some(if shifted { '!' } else { '1' })
    } else if code == 3 {
        Some(if shifted { '@' } else { '2' })
    } else if code == 4 {
        Some(if shifted { '#' } else { '3' })
    } else if code == 5 {
        Some(if shifted { '$' } else { '4' })
    } else if code == 6 {
        Some(if shifted { '%' } else { '5' })
    } else if code == 7 {
        Some(if shifted { '^' } else { '6' })
    } else if code == 8 {
        Some(if shifted { '&' } else { '7' })
    } else if code == 9 {
        Some(if shifted { '*' } else { '8' })
    } else if code == 10 {
        Some(if shifted { '(' } else { '9' })
    } else if code == 11 {
        Some(if shifted { ')' } else { '0' })
    } else if code == 12 {
        Some(if shifted { '_' } else { '-' })
    } else if code == 13 {
        Some(if shifted { '+' } else { '=' })
    } else if code == 26 {
        Some(if shifted { '{' } else { '[' })
    } else if code == 27 {
        Some(if shifted { '}' } else { ']' })
    } else if code == 39 {
        Some(if shifted { ':' } else { ';' })
    } else if code == 40 {
        Some(if shifted { '"' } else { '\'' })
    } else if code == 41 {
        Some(if shifted { '~' } else { '`' })
    } else if code == 43 {
        Some(if shifted { '|' } else { '\\' })
    } else if code == 51 {
        Some(if shifted { '<' } else { ',' })
    } else if code == 52 {
        Some(if shifted { '>' } else { '.' })
    } else if code == 53 {
        Some(if shifted { '?' } else { '/' })
    } else if code == 57 {
        Some(' ')
    } else if code == 28 {
        Some('\n')
    } else if code == 15 && !shifted {
        Some('\t')
    } else {
        None
    }
}

/// The keys that type text have their evdev codes.
pub proof fn lemma_typing_key_codes()
    ensures
        key_code_spec(seq!['K', 'e', 'y', 'A']) == Some(30u32),
        key_code_spec(seq!['K', 'e', 'y', 'B']) == Some(48u32),
        key_code_spec(seq!['K', 'e', 'y', 'C']) == Some(46u32),
        key_code_spec(seq!['K', 'e', 'y', 'D']) == Some(32u32),
        key_code_spec(seq!['K', 'e', 'y', 'E']) == Some(18u32),
        key_code_spec(seq!['K', 'e', 'y', 'F']) == Some(33u32),
        key_code_spec(seq!['K', 'e', 'y', 'G']) == Some(34u32),
        key_code_spec(seq!['K', 'e', 'y', 'H']) == Some(35u32),
        key_code_spec(seq!['K', 'e', 'y', 'I']) == Some(23u32),
        key_code_spec(seq!['K', 'e', 'y', 'J']) == Some(36u32),
        key_code_spec(seq!['K', 'e', 'y', 'K']) == Some(37u32),
        key_code_spec(seq!['K', 'e', 'y', 'L']) == Some(38u32),
        key_code_spec(seq!['K', 'e', 'y', 'M']) == Some(50u32),
        key_code_spec(seq!['K', 'e', 'y', 'N']) == Some(49u32),
        key_code_spec(seq!['K', 'e', 'y', 'O']) == Some(24u32),
        key_code_spec(seq!['K', 'e', 'y', 'P']) == Some(25u32),
        key_code_spec(seq!['K', 'e', 'y', 'Q']) == Some(16u32),
        key_code_spec(seq!['K', 'e', 'y', 'R']) == Some(19u32),
        key_code_spec(seq!['K', 'e', 'y', 'S']) == Some(31u32),
        key_code_spec(seq!['K', 'e', 'y', 'T']) == Some(20u32),
        key_code_spec(seq!['K', 'e', 'y', 'U']) == Some(22u32),
        key_code_spec(seq!['K', 'e', 'y', 'V']) == Some(47u32),
        key_code_spec(seq!['K', 'e', 'y', 'W']) == Some(17u32),
        key_code_spec(seq!['K', 'e', 'y', 'X']) == Some(45u32),
        key_code_spec(seq!['K', 'e', 'y', 'Y']) == Some(21u32),
        key_code_spec(seq!['K', 'e', 'y', 'Z']) == Some(44u32),
        key_code_spec(seq!['D', 'i', 'g', 'i', 't', '0']) == Some(11u32),
        key_code_spec(seq!['D', 'i', 'g', 'i', 't', '1']) == Some(2u32),
        key_code_spec(seq!['D', 'i', 'g', 'i', 't', '2']) == Some(3u32),
        key_code_spec(seq!['D', 'i', 'g', 'i', 't', '3']) == Some(4u32),
        key_code_spec(seq!['D', 'i', 'g', 'i', 't', '4']) == Some(5u32),
        key_code_spec(seq!['D', 'i', 'g', 'i', 't', '5']) == Some(6u32),
        key_code_spec(seq!['D', 'i', 'g', 'i', 't', '6']) == Some(7u32),
        key_code_spec(seq!['D', 'i', 'g', 'i', 't', '7']) == Some(8u32),
        key_code_spec(seq!['D', 'i', 'g', 'i', 't', '8']) == Some(9u32),
        key_code_spec(seq!['D', 'i', 'g', 'i', 't', '9']) == Some(10u32),
        key_code_spec("Digit0"@) == Some(11u32),
        key_code_spec("Digit1"@) == Some(2u32),
        key_code_spec("Digit2"@) == Some(3u32),
        key_code_spec("Digit3"@) == Some(4u32),
        key_code_spec("Digit4"@) == Some(5u32),
        key_code_spec("Digit5"@) == Some(6u32),
        key_code_spec("Digit6"@) == Some(7u32),
        key_code_spec("Digit7"@) == Some(8u32),
        key_code_spec("Digit8"@) == Some(9u32),
        key_code_spec("Digit9"@) == Some(10u32),
        key_code_spec("Space"@) == Some(57u32),
        key_code_spec("Enter"@) == Some(28u32),
        key_code_spec("Tab"@) == Some(15u32),
        key_code_spec("Minus"@) == Some(12u32),
        key_code_spec("Equal"@) == Some(13u32),
        key_code_spec("BracketLeft"@) == Some(26u32),
        key_code_spec("BracketRight"@) == Some(27u32),
        key_code_spec("Backslash"@) == Some(43u32),
        key_code_spec("Semicolon"@) == Some(39u32),
        key_code_spec("Quote"@) == Some(40u32),
        key_code_spec("Backquote"@) == Some(41u32),
        key_code_spec("Comma"@) == Some(51u32),
        key_code_spec("Period"@) == Some(52u32),
        key_code_spec("Slash"@) == Some(53u32),
{
    reveal_strlit("ShiftLeft");
    reveal_strlit("KeyA");
    reveal_strlit("KeyB");
    reveal_strlit("KeyC");
    reveal_strlit("KeyD");
    reveal_strlit("KeyE");
    reveal_strlit("KeyF");
    reveal_strlit("KeyG");
    reveal_strlit("KeyH");
    reveal_strlit("KeyI");
    reveal_strlit("KeyJ");
    reveal_strlit("KeyK");
    reveal_strlit("KeyL");
    reveal_strlit("KeyM");
    reveal_strlit("KeyN");
    reveal_strlit("KeyO");
    reveal_strlit("KeyP");
    reveal_strlit("KeyQ");
    reveal_strlit("KeyR");
    reveal_strlit("KeyS");
    reveal_strlit("KeyT");
    reveal_strlit("KeyU");
    reveal_strlit("KeyV");
    reveal_strlit("KeyW");
    reveal_strlit("KeyX");
    reveal_strlit("KeyY");
    reveal_strlit("KeyZ");
    reveal_strlit("Digit0");
    reveal_strlit("Digit1");
    reveal_strlit("Digit2");
    reveal_strlit("Digit3");
    reveal_strlit("Digit4");
    reveal_strlit("Digit5");
    reveal_strlit("Digit6");
    reveal_strlit("Digit7");
    reveal_strlit("Digit8");
    reveal_strlit("Digit9");
    reveal_strlit("Escape");
    reveal_strlit("Minus");
    reveal_strlit("Equal");
    reveal_strlit("Backspace");
    reveal_strlit("Tab");
    reveal_strlit("BracketLeft");
    reveal_strlit("BracketRight");
    reveal_strlit("Enter");
    reveal_strlit("ControlLeft");
    reveal_strlit("Semicolon");
    reveal_strlit("Quote");
    reveal_strlit("Backquote");
    reveal_strlit("Backslash");
    reveal_strlit("Comma");
    reveal_strlit("Period");
    reveal_strlit("Slash");
    reveal_strlit("ShiftRight");
    reveal_strlit("NumpadMultiply");
    reveal_strlit("AltLeft");
    reveal_strlit("Space");
    assert("ShiftLeft"@.len() == 9 && "ShiftLeft"@[0] == 'S' && "ShiftLeft"@[1] == 'h' && "ShiftLeft"@[3] == 'f' && "ShiftLeft"@[5] == 'L');
    assert("KeyA"@.len() == 4 && "KeyA"@[0] == 'K' && "KeyA"@[1] == 'e' && "KeyA"@[3] == 'A');
    assert("KeyB"@.len() == 4 && "KeyB"@[0] == 'K' && "KeyB"@[1] == 'e' && "KeyB"@[3] == 'B');
    assert("KeyC"@.len() == 4 && "KeyC"@[0] == 'K' && "KeyC"@[1] == 'e' && "KeyC"@[3] == 'C');
    assert("KeyD"@.len() == 4 && "KeyD"@[0] == 'K' && "KeyD"@[1] == 'e' && "KeyD"@[3] == 'D');
    assert("KeyE"@.len() == 4 && "KeyE"@[0] == 'K' && "KeyE"@[1] == 'e' && "KeyE"@[3] == 'E');
    assert("KeyF"@.len() == 4 && "KeyF"@[0] == 'K' && "KeyF"@[1] == 'e' && "KeyF"@[3] == 'F');
    assert("KeyG"@.len() == 4 && "KeyG"@[0] == 'K' && "KeyG"@[1] == 'e' && "KeyG"@[3] == 'G');
    assert("KeyH"@.len() == 4 && "KeyH"@[0] == 'K' && "KeyH"@[1] == 'e' && "KeyH"@[3] == 'H');
    assert("KeyI"@.len() == 4 && "KeyI"@[0] == 'K' && "KeyI"@[1] == 'e' && "KeyI"@[3] == 'I');
    assert("KeyJ"@.len() == 4 && "KeyJ"@[0] == 'K' && "KeyJ"@[1] == 'e' && "KeyJ"@[3] == 'J');
    assert("KeyK"@.len() == 4 && "KeyK"@[0] == 'K' && "KeyK"@[1] == 'e' && "KeyK"@[3] == 'K');
    assert("KeyL"@.len() == 4 && "KeyL"@[0] == 'K' && "KeyL"@[1] == 'e' && "KeyL"@[3] == 'L');
    assert("KeyM"@.len() == 4 && "KeyM"@[0] == 'K' && "KeyM"@[1] == 'e' && "KeyM"@[3] == 'M');
    assert("KeyN"@.len() == 4 && "KeyN"@[0] == 'K' && "KeyN"@[1] == 'e' && "KeyN"@[3] == 'N');
    assert("KeyO"@.len() == 4 && "KeyO"@[0] == 'K' && "KeyO"@[1] == 'e' && "KeyO"@[3] == 'O');
    assert("KeyP"@.len() == 4 && "KeyP"@[0] == 'K' && "KeyP"@[1] == 'e' && "KeyP"@[3] == 'P');
    assert("KeyQ"@.len() == 4 && "KeyQ"@[0] == 'K' && "KeyQ"@[1] == 'e' && "KeyQ"@[3] == 'Q');
    assert("KeyR"@.len() == 4 && "KeyR"@[0] == 'K' && "KeyR"@[1] == 'e' && "KeyR"@[3] == 'R');
    assert("KeyS"@.len() == 4 && "KeyS"@[0] == 'K' && "KeyS"@[1] == 'e' && "KeyS"@[3] == 'S');
    assert("KeyT"@.len() == 4 && "KeyT"@[0] == 'K' && "KeyT"@[1] == 'e' && "KeyT"@[3] == 'T');
    assert("KeyU"@.len() == 4 && "KeyU"@[0] == 'K' && "KeyU"@[1] == 'e' && "KeyU"@[3] == 'U');
    assert("KeyV"@.len() == 4 && "KeyV"@[0] == 'K' && "KeyV"@[1] == 'e' && "KeyV"@[3] == 'V');
    assert("KeyW"@.len() == 4 && "KeyW"@[0] == 'K' && "KeyW"@[1] == 'e' && "KeyW"@[3] == 'W');
    assert("KeyX"@.len() == 4 && "KeyX"@[0] == 'K' && "KeyX"@[1] == 'e' && "KeyX"@[3] == 'X');
    assert("KeyY"@.len() == 4 && "KeyY"@[0] == 'K' && "KeyY"@[1] == 'e' && "KeyY"@[3] == 'Y');
    assert("KeyZ"@.len() == 4 && "KeyZ"@[0] == 'K' && "KeyZ"@[1] == 'e' && "KeyZ"@[3] == 'Z');
    assert("Digit0"@.len() == 6 && "Digit0"@[0] == 'D' && "Digit0"@[1] == 'i' && "Digit0"@[3] == 'i' && "Digit0"@[5] == '0');
    assert("Digit1"@.len() == 6 && "Digit1"@[0] == 'D' && "Digit1"@[1] == 'i' && "Digit1"@[3] == 'i' && "Digit1"@[5] == '1');
    assert("Digit2"@.len() == 6 && "Digit2"@[0] == 'D' && "Digit2"@[1] == 'i' && "Digit2"@[3] == 'i' && "Digit2"@[5] == '2');
    assert("Digit3"@.len() == 6 && "Digit3"@[0] == 'D' && "Digit3"@[1] == 'i' && "Digit3"@[3] == 'i' && "Digit3"@[5] == '3');
    assert("Digit4"@.len() == 6 && "Digit4"@[0] == 'D' && "Digit4"@[1] == 'i' && "Digit4"@[3] == 'i' && "Digit4"@[5] == '4');
    assert("Digit5"@.len() == 6 && "Digit5"@[0] == 'D' && "Digit5"@[1] == 'i' && "Digit5"@[3] == 'i' && "Digit5"@[5] == '5');
    assert("Digit6"@.len() == 6 && "Digit6"@[0] == 'D' && "Digit6"@[1] == 'i' && "Digit6"@[3] == 'i' && "Digit6"@[5] == '6');
    assert("Digit7"@.len() == 6 && "Digit7"@[0] == 'D' && "Digit7"@[1] == 'i' && "Digit7"@[3] == 'i' && "Digit7"@[5] == '7');
    assert("Digit8"@.len() == 6 && "Digit8"@[0] == 'D' && "Digit8"@[1] == 'i' && "Digit8"@[3] == 'i' && "Digit8"@[5] == '8');
    assert("Digit9"@.len() == 6 && "Digit9"@[0] == 'D' && "Digit9"@[1] == 'i' && "Digit9"@[3] == 'i' && "Digit9"@[5] == '9');
    assert("Escape"@.len() == 6 && "Escape"@[0] == 'E' && "Escape"@[1] == 's' && "Escape"@[3] == 'a' && "Escape"@[5] == 'e');
    assert("Minus"@.len() == 5 && "Minus"@[0] == 'M' && "Minus"@[1] == 'i' && "Minus"@[3] == 'u');
    assert("Equal"@.len() == 5 && "Equal"@[0] == 'E' && "Equal"@[1] == 'q' && "Equal"@[3] == 'a');
    assert("Backspace"@.len() == 9 && "Backspace"@[0] == 'B' && "Backspace"@[1] == 'a' && "Backspace"@[3] == 'k' && "Backspace"@[5] == 'p');
    assert("Tab"@.len() == 3 && "Tab"@[0] == 'T' && "Tab"@[1] == 'a');
    assert("BracketLeft"@.len() == 11 && "BracketLeft"@[0] == 'B' && "BracketLeft"@[1] == 'r' && "BracketLeft"@[3] == 'c' && "BracketLeft"@[5] == 'e');
    assert("BracketRight"@.len() == 12 && "BracketRight"@[0] == 'B' && "BracketRight"@[1] == 'r' && "BracketRight"@[3] == 'c' && "BracketRight"@[5] == 'e');
    assert("Enter"@.len() == 5 && "Enter"@[0] == 'E' && "Enter"@[1] == 'n' && "Enter"@[3] == 'e');
    assert("ControlLeft"@.len() == 11 && "ControlLeft"@[0] == 'C' && "ControlLeft"@[1] == 'o' && "ControlLeft"@[3] == 't' && "ControlLeft"@[5] == 'o');
    assert("Semicolon"@.len() == 9 && "Semicolon"@[0] == 'S' && "Semicolon"@[1] == 'e' && "Semicolon"@[3] == 'i' && "Semicolon"@[5] == 'o');
    assert("Quote"@.len() == 5 && "Quote"@[0] == 'Q' && "Quote"@[1] == 'u' && "Quote"@[3] == 't');
    assert("Backquote"@.len() == 9 && "Backquote"@[0] == 'B' && "Backquote"@[1] == 'a' && "Backquote"@[3] == 'k' && "Backquote"@[5] == 'u');
    assert("Backslash"@.len() == 9 && "Backslash"@[0] == 'B' && "Backslash"@[1] == 'a' && "Backslash"@[3] == 'k' && "Backslash"@[5] == 'l');
    assert("Comma"@.len() == 5 && "Comma"@[0] == 'C' && "Comma"@[1] == 'o' && "Comma"@[3] == 'm');
    assert("Period"@.len() == 6 && "Period"@[0] == 'P' && "Period"@[1] == 'e' && "Period"@[3] == 'i' && "Period"@[5] == 'd');
    assert("Slash"@.len() == 5 && "Slash"@[0] == 'S' && "Slash"@[1] == 'l' && "Slash"@[3] == 's');
    assert("ShiftRight"@.len() == 10 && "ShiftRight"@[0] == 'S' && "ShiftRight"@[1] == 'h' && "ShiftRight"@[3] == 'f' && "ShiftRight"@[5] == 'R');
    assert("NumpadMultiply"@.len() == 14 && "NumpadMultiply"@[0] == 'N' && "NumpadMultiply"@[1] == 'u' && "NumpadMultiply"@[3] == 'p' && "NumpadMultiply"@[5] == 'd');
    assert("AltLeft"@.len() == 7 && "AltLeft"@[0] == 'A' && "AltLeft"@[1] == 'l' && "AltLeft"@[3] == 'L' && "AltLeft"@[5] == 'f');
    assert("Space"@.len() == 5 && "Space"@[0] == 'S' && "Space"@[1] == 'p' && "Space"@[3] == 'c');
    assert(seq!['K', 'e', 'y', 'A'] =~= "KeyA"@);
    assert(seq!['K', 'e', 'y', 'B'] =~= "KeyB"@);
    assert(seq!['K', 'e', 'y', 'C'] =~= "KeyC"@);
    assert(seq!['K', 'e', 'y', 'D'] =~= "KeyD"@);
    assert(seq!['K', 'e', 'y', 'E'] =~= "KeyE"@);
    assert(seq!['K', 'e', 'y', 'F'] =~= "KeyF"@);
    assert(seq!['K', 'e', 'y', 'G'] =~= "KeyG"@);
    assert(seq!['K', 'e', 'y', 'H'] =~= "KeyH"@);
    assert(seq!['K', 'e', 'y', 'I'] =~= "KeyI"@);
    assert(seq!['K', 'e', 'y', 'J'] =~= "KeyJ"@);
    assert(seq!['K', 'e', 'y', 'K'] =~= "KeyK"@);
    assert(seq!['K', 'e', 'y', 'L'] =~= "KeyL"@);
    assert(seq!['K', 'e', 'y', 'M'] =~= "KeyM"@);
    assert(seq!['K', 'e', 'y', 'N'] =~= "KeyN"@);
    assert(seq!['K', 'e', 'y', 'O'] =~= "KeyO"@);
    assert(seq!['K', 'e', 'y', 'P'] =~= "KeyP"@);
    assert(seq!['K', 'e', 'y', 'Q'] =~= "KeyQ"@);
    assert(seq!['K', 'e', 'y', 'R'] =~= "KeyR"@);
    assert(seq!['K', 'e', 'y', 'S'] =~= "KeyS"@);
    assert(seq!['K', 'e', 'y', 'T'] =~= "KeyT"@);
    assert(seq!['K', 'e', 'y', 'U'] =~= "KeyU"@);
    assert(seq!['K', 'e', 'y', 'V'] =~= "KeyV"@);
    assert(seq!['K', 'e', 'y', 'W'] =~= "KeyW"@);
    assert(seq!['K', 'e', 'y', 'X'] =~= "KeyX"@);
    assert(seq!['K', 'e', 'y', 'Y'] =~= "KeyY"@);
    assert(seq!['K', 'e', 'y', 'Z'] =~= "KeyZ"@);
    assert(seq!['D', 'i', 'g', 'i', 't', '0'] =~= "Digit0"@);
    assert(seq!['D', 'i', 'g', 'i', 't', '1'] =~= "Digit1"@);
    assert(seq!['D', 'i', 'g', 'i', 't', '2'] =~= "Digit2"@);
    assert(seq!['D', 'i', 'g', 'i', 't', '3'] =~= "Digit3"@);
    assert(seq!['D', 'i', 'g', 'i', 't', '4'] =~= "Digit4"@);
    assert(seq!['D', 'i', 'g', 'i', 't', '5'] =~= "Digit5"@);
    assert(seq!['D', 'i', 'g', 'i', 't', '6'] =~= "Digit6"@);
    assert(seq!['D', 'i', 'g', 'i', 't', '7'] =~= "Digit7"@);
    assert(seq!['D', 'i', 'g', 'i', 't', '8'] =~= "Digit8"@);
    assert(seq!['D', 'i', 'g', 'i', 't', '9'] =~= "Digit9"@);
}

/// The left Shift key is known.
pub proof fn lemma_shift_left_code()
    ensures
        key_code_spec("ShiftLeft"@) == Some(42u32),
{
}

/// The evdev code of the key with `KeyboardEvent.code` name `name`, if it is
/// one this library knows.
pub fn key_to_code(name: &str) -> (code: Option<u32>)
    ensures
        code == key_code_spec(name@),
{
    let n = str_to_chars(name);
    key_code_of(&n)
}

/// As `key_to_code`, for a name held as characters.
pub fn key_code_of(name: &[char]) -> (code: Option<u32>)
    ensures
        code == key_code_spec(name@),
{
    if text_is(name, "ShiftLeft") {
        return Some(42);
    }
    if text_is(name, "KeyA") {
        return Some(30);
    }
    if text_is(name, "KeyB") {
        return Some(48);
    }
    if text_is(name, "KeyC") {
        return Some(46);
    }
    if text_is(name, "KeyD") {
        return Some(32);
    }
    if text_is(name, "KeyE") {
        return Some(18);
    }
    if text_is(name, "KeyF") {
        return Some(33);
    }
    if text_is(name, "KeyG") {
        return Some(34);
    }
    if text_is(name, "KeyH") {
        return Some(35);
    }
    if text_is(name, "KeyI") {
        return Some(23);
    }
    if text_is(name, "KeyJ") {
        return Some(36);
    }
    if text_is(name, "KeyK") {
        return Some(37);
    }
    if text_is(name, "KeyL") {
        return Some(38);
    }
    if text_is(name, "KeyM") {
        return Some(50);
    }
    if text_is(name, "KeyN") {
        return Some(49);
    }
    if text_is(name, "KeyO") {
        return Some(24);
    }
    if text_is(name, "KeyP") {
        return Some(25);
    }
    if text_is(name, "KeyQ") {
        return Some(16);
    }
    if text_is(name, "KeyR") {
        return Some(19);
    }
    if text_is(name, "KeyS") {
        return Some(31);
    }
    if text_is(name, "KeyT") {
        return Some(20);
    }
    if text_is(name, "KeyU") {
        return Some(22);
    }
    if text_is(name, "KeyV") {
        return Some(47);
    }
    if text_is(name, "KeyW") {
        return Some(17);
    }
    if text_is(name, "KeyX") {
        return Some(45);
    }
    if text_is(name, "KeyY") {
        return Some(21);
    }
    if text_is(name, "KeyZ") {
        return Some(44);
    }
    if text_is(name, "Digit0") {
        return Some(11);
    }
    if text_is(name, "Digit1") {
        return Some(2);
    }
    if text_is(name, "Digit2") {
        return Some(3);
    }
    if text_is(name, "Digit3") {
        return Some(4);
    }
    if text_is(name, "Digit4") {
        return Some(5);
    }
    if text_is(name, "Digit5") {
        return Some(6);
    }
    if text_is(name, "Digit6") {
        return Some(7);
    }
    if text_is(name, "Digit7") {
        return Some(8);
    }
    if text_is(name, "Digit8") {
        return Some(9);
    }
    if text_is(name, "Digit9") {
        return Some(10);
    }
    if text_is(name, "Escape") {
        return Some(1);
    }
    if text_is(name, "Minus") {
        return Some(12);
    }
    if text_is(name, "Equal") {
        return Some(13);
    }
    if text_is(name, "Backspace") {
        return Some(14);
    }
    if text_is(name, "Tab") {
        return Some(15);
    }
    if text_is(name, "BracketLeft") {
        return Some(26);
    }
    if text_is(name, "BracketRight") {
        return Some(27);
    }
    if text_is(name, "Enter") {
        return Some(28);
    }
    if text_is(name, "ControlLeft") {
        return Some(29);
    }
    if text_is(name, "Semicolon") {
        return Some(39);
    }
    if text_is(name, "Quote") {
        return Some(40);
    }
    if text_is(name, "Backquote") {
        return Some(41);
    }
    if text_is(name, "Backslash") {
        return Some(43);
    }
    if text_is(name, "Comma") {
        return Some(51);
    }
    if text_is(name, "Period") {
        return Some(52);
    }
    if text_is(name, "Slash") {
        return Some(53);
    }
    if text_is(name, "ShiftRight") {
        return Some(54);
    }
    if text_is(name, "NumpadMultiply") {
        return Some(55);
    }
    if text_is(name, "AltLeft") {
        return Some(56);
    }
    if text_is(name, "Space") {
        return Some(57);
    }
    if text_is(name, "CapsLock") {
        return Some(58);
    }
    if text_is(name, "F1") {
        return Some(59);
    }
    if text_is(name, "F2") {
        return Some(60);
    }
    if text_is(name, "F3") {
        return Some(61);
    }
    if text_is(name, "F4") {
        return Some(62);
    }
    if text_is(name, "F5") {
        return Some(63);
    }
    if text_is(name, "F6") {
        return Some(64);
    }
    if text_is(name, "F7") {
        return Some(65);
    }
    if text_is(name, "F8") {
        return Some(66);
    }
    if text_is(name, "F9") {
        return Some(67);
    }
    if text_is(name, "F10") {
        return Some(68);
    }
    if text_is(name, "NumLock") {
        return Some(69);
    }
    if text_is(name, "ScrollLock") {
        return Some(70);
    }
    if text_is(name, "Numpad7") {
        return Some(71);
    }
    if text_is(name, "Numpad8") {
        return Some(72);
    }
    if text_is(name, "Numpad9") {
        return Some(73);
    }
    if text_is(name, "NumpadSubtract") {
        return Some(74);
    }
    if text_is(name, "Numpad4") {
        return Some(75);
    }
    if text_is(name, "Numpad5") {
        return Some(76);
    }
    if text_is(name, "Numpad6") {
        return Some(77);
    }
    if text_is(name, "NumpadAdd") {
        return Some(78);
    }
    if text_is(name, "Numpad1") {
        return Some(79);
    }
    if text_is(name, "Numpad2") {
        return Some(80);
    }
    if text_is(name, "Numpad3") {
        return Some(81);
    }
    if text_is(name, "Numpad0") {
        return Some(82);
    }
    if text_is(name, "NumpadDecimal") {
        return Some(83);
    }
    if text_is(name, "IntlBackslash") {
        return Some(86);
    }
    if text_is(name, "F11") {
        return Some(87);
    }
    if text_is(name, "F12") {
        return Some(88);
    }
    if text_is(name, "IntlRo") {
        return Some(89);
    }
    if text_is(name, "NumpadEnter") {
        return Some(96);
    }
    if text_is(name, "ControlRight") {
        return Some(97);
    }
    if text_is(name, "NumpadDivide") {
        return Some(98);
    }
    if text_is(name, "PrintScreen") {
        return Some(99);
    }
    if text_is(name, "AltRight") {
        return Some(100);
    }
    if text_is(name, "Home") {
        return Some(102);
    }
    if text_is(name, "ArrowUp") {
        return Some(103);
    }
    if text_is(name, "PageUp") {
        return Some(104);
    }
    if text_is(name, "ArrowLeft") {
        return Some(105);
    }
    if text_is(name, "ArrowRight") {
        return Some(106);
    }
    if text_is(name, "End") {
        return Some(107);
    }
    if text_is(name, "ArrowDown") {
        return Some(108);
    }
    if text_is(name, "PageDown") {
        return Some(109);
    }
    if text_is(name, "Insert") {
        return Some(110);
    }
    if text_is(name, "Delete") {
        return Some(111);
    }
    if text_is(name, "AudioVolumeMute") {
        return Some(113);
    }
    if text_is(name, "AudioVolumeDown") {
        return Some(114);
    }
    if text_is(name, "AudioVolumeUp") {
        return Some(115);
    }
    if text_is(name, "Power") {
        return Some(116);
    }
    if text_is(name, "NumpadEqual") {
        return Some(117);
    }
    if text_is(name, "Pause") {
        return Some(119);
    }
    if text_is(name, "NumpadComma") {
        return Some(121);
    }
    if text_is(name, "IntlYen") {
        return Some(124);
    }
    if text_is(name, "MetaLeft") {
        return Some(125);
    }
    if text_is(name, "MetaRight") {
        return Some(126);
    }
    if text_is(name, "ContextMenu") {
        return Some(127);
    }
    if text_is(name, "MediaTrackNext") {
        return Some(163);
    }
    if text_is(name, "MediaPlayPause") {
        return Some(164);
    }
    if text_is(name, "MediaTrackPrevious") {
        return Some(165);
    }
    if text_is(name, "MediaStop") {
        return Some(166);
    }
    if text_is(name, "F13") {
        return Some(183);
    }
    if text_is(name, "F14") {
        return Some(184);
    }
    if text_is(name, "F15") {
        return Some(185);
    }
    if text_is(name, "F16") {
        return Some(186);
    }
    if text_is(name, "F17") {
        return Some(187);
    }
    if text_is(name, "F18") {
        return Some(188);
    }
    if text_is(name, "F19") {
        return Some(189);
    }
    if text_is(name, "F20") {
        return Some(190);
    }
    if text_is(name, "F21") {
        return Some(191);
    }
    if text_is(name, "F22") {
        return Some(192);
    }
    if text_is(name, "F23") {
        return Some(193);
    }
    if text_is(name, "F24") {
        return Some(194);
    }
    None
}

} // verus!
