//! Control commands: their types, the line-oriented plain-text syntax, and
//! turning text into key events.
use vstd::prelude::*;

use crate::keycodes::{
    key_code_of, key_code_spec, key_to_code, lemma_shift_left_code, lemma_typing_key_codes,
    us_layout_char,
};
use crate::keys_sequence::{
    actions_view, keys_sequence_spec, parse_keys_sequence, KeysAction, KeysSequenceAction,
};
use crate::text::{
    ascii_upper, char_debug, char_debug_text, chars_to_string, find_whitespace, find_ws,
    fixed, is_float_literal, is_float_literal_chars, is_whitespace, is_ws, join_str,
    lemma_find_ws_bound, lemma_trim_props, lemma_trim_start_props, lemma_words_nonempty, parse_u32, parse_u64,
    parse_unsigned, prefixed, slice_of, split_whitespace_chars, str_to_chars,
    strip_prefix, strip_prefix_chars, text_is, texts, to_ascii_upper, trim, trim_chars,
    trim_start, trim_start_chars, words,
};

verus! {

/// Linux input code of the left mouse button.
pub const BTN_LEFT: u32 = 0x110;

/// Linux input code of the right mouse button.
pub const BTN_RIGHT: u32 = 0x111;

/// Linux input code of the middle mouse button.
pub const BTN_MIDDLE: u32 = 0x112;

/// How a key or button is actuated.
#[derive(Debug, Clone, Copy, PartialEq, Eq, Structural)]
pub enum PressAction {
    Down,
    Up,
    Press,
}

/// State of a key in a key event.
#[derive(Debug, Clone, Copy, PartialEq, Eq, Structural)]
pub enum KeyState {
    Pressed,
    Released,
}

/// State of a pointer button in a button event.
#[derive(Debug, Clone, Copy, PartialEq, Eq, Structural)]
pub enum ButtonState {
    Pressed,
    Released,
}

pub open spec fn key_states_spec(a: PressAction) -> Seq<KeyState> {
    match a {
        PressAction::Down => seq![KeyState::Pressed],
        PressAction::Up => seq![KeyState::Released],
        PressAction::Press => seq![KeyState::Pressed, KeyState::Released],
    }
}

pub open spec fn button_states_spec(a: PressAction) -> Seq<ButtonState> {
    match a {
        PressAction::Down => seq![ButtonState::Pressed],
        PressAction::Up => seq![ButtonState::Released],
        PressAction::Press => seq![ButtonState::Pressed, ButtonState::Released],
    }
}

impl PressAction {
    /// The key transitions this action sends, in order.
    pub fn key_states(self) -> (r: Vec<KeyState>)
        ensures
            r@ == key_states_spec(self),
    {
        let mut r: Vec<KeyState> = Vec::new();
        match self {
            PressAction::Down => r.push(KeyState::Pressed),
            PressAction::Up => r.push(KeyState::Released),
            PressAction::Press => {
                r.push(KeyState::Pressed);
                r.push(KeyState::Released);
            },
        }
        assert(r@ =~= key_states_spec(self));
        r
    }

    /// The button transitions this action sends, in order.
    pub fn button_states(self) -> (r: Vec<ButtonState>)
        ensures
            r@ == button_states_spec(self),
    {
        let mut r: Vec<ButtonState> = Vec::new();
        match self {
            PressAction::Down => r.push(ButtonState::Pressed),
            PressAction::Up => r.push(ButtonState::Released),
            PressAction::Press => {
                r.push(ButtonState::Pressed);
                r.push(ButtonState::Released);
            },
        }
        assert(r@ =~= button_states_spec(self));
        r
    }
}

/// A number as written in a command: a literal that 64-bit floating point
/// parsing accepts. The value is read from `text` where it is used.
#[derive(Debug, Clone, PartialEq)]
pub struct Number {
    pub text: String,
}

impl View for Number {
    type V = Seq<char>;

    open spec fn view(&self) -> Seq<char> {
        self.text@
    }
}

impl Number {
    /// The number written as `text`, when `text` is a valid number.
    pub fn parse(text: &str) -> (r: Option<Number>)
        ensures
            r is Some <==> is_float_literal(text@),
            r matches Some(n) ==> n@ == text@,
    {
        let v = str_to_chars(text);
        if is_float_literal_chars(&v) {
            Some(Number { text: chars_to_string(&v) })
        } else {
            None
        }
    }
}

/// What a control command asks for.
#[derive(Debug, Clone, PartialEq)]
pub enum ControlCommandVariant {
    Key { code: u32, action: PressAction },
    Chord { codes: Vec<u32> },
    Text(String),
    KeysSequence { actions: Vec<KeysSequenceAction> },
    PointerMove { x: Number, y: Number },
    PointerButton { button: u32, action: PressAction },
    PointerDrag { start_x: Number, start_y: Number, end_x: Number, end_y: Number, button: u32 },
    Click { x: Number, y: Number, button: u32 },
    Scroll { dx: Number, dy: Number },
    Screenshot { path: Option<String> },
    Sleep { duration_ms: u64 },
    Launch { command: Vec<String> },
    List,
    Close,
    Quit,
}

/// Mathematical value of a [`ControlCommandVariant`].
pub enum VariantView {
    Key { code: u32, action: PressAction },
    Chord { codes: Seq<u32> },
    Text(Seq<char>),
    KeysSequence { actions: Seq<KeysAction> },
    PointerMove { x: Seq<char>, y: Seq<char> },
    PointerButton { button: u32, action: PressAction },
    PointerDrag {
        start_x: Seq<char>,
        start_y: Seq<char>,
        end_x: Seq<char>,
        end_y: Seq<char>,
        button: u32,
    },
    Click { x: Seq<char>, y: Seq<char>, button: u32 },
    Scroll { dx: Seq<char>, dy: Seq<char> },
    Screenshot { path: Option<Seq<char>> },
    Sleep { duration_ms: u64 },
    Launch { command: Seq<Seq<char>> },
    List,
    Close,
    Quit,
}

pub open spec fn strings_view(v: Seq<String>) -> Seq<Seq<char>> {
    v.map_values(|s: String| s@)
}

pub open spec fn opt_string_view(o: Option<String>) -> Option<Seq<char>> {
    match o {
        Some(s) => Some(s@),
        None => None,
    }
}

impl View for ControlCommandVariant {
    type V = VariantView;

    open spec fn view(&self) -> VariantView {
        match self {
            ControlCommandVariant::Key { code, action } => VariantView::Key {
                code: *code,
                action: *action,
            },
            ControlCommandVariant::Chord { codes } => VariantView::Chord { codes: codes@ },
            ControlCommandVariant::Text(t) => VariantView::Text(t@),
            ControlCommandVariant::KeysSequence { actions } => VariantView::KeysSequence {
                actions: actions_view(actions@),
            },
            ControlCommandVariant::PointerMove { x, y } => VariantView::PointerMove { x: x@, y: y@ },
            ControlCommandVariant::PointerButton { button, action } => VariantView::PointerButton {
                button: *button,
                action: *action,
            },
            ControlCommandVariant::PointerDrag { start_x, start_y, end_x, end_y, button } =>
                VariantView::PointerDrag {
                start_x: start_x@,
                start_y: start_y@,
                end_x: end_x@,
                end_y: end_y@,
                button: *button,
            },
            ControlCommandVariant::Click { x, y, button } => VariantView::Click {
                x: x@,
                y: y@,
                button: *button,
            },
            ControlCommandVariant::Scroll { dx, dy } => VariantView::Scroll { dx: dx@, dy: dy@ },
            ControlCommandVariant::Screenshot { path } => VariantView::Screenshot {
                path: opt_string_view(*path),
            },
            ControlCommandVariant::Sleep { duration_ms } => VariantView::Sleep {
                duration_ms: *duration_ms,
            },
            ControlCommandVariant::Launch { command } => VariantView::Launch {
                command: strings_view(command@),
            },
            ControlCommandVariant::List => VariantView::List,
            ControlCommandVariant::Close => VariantView::Close,
            ControlCommandVariant::Quit => VariantView::Quit,
        }
    }
}

/// A control command with the window it targets (`None`: the default window).
#[derive(Debug, Clone, PartialEq)]
pub struct ControlCommand {
    pub window: Option<u64>,
    pub variant: ControlCommandVariant,
}

/// Mathematical value of a [`ControlCommand`].
pub struct CommandView {
    pub window: Option<u64>,
    pub variant: VariantView,
}

impl View for ControlCommand {
    type V = CommandView;

    open spec fn view(&self) -> CommandView {
        CommandView { window: self.window, variant: self.variant@ }
    }
}

pub open spec fn targeted_spec(window: Option<u64>, variant: VariantView) -> Result<CommandView, Seq<char>> {
    match window {
        Some(w) => if w == 0 {
            Err("window id must be greater than zero"@)
        } else {
            Ok(CommandView { window: Some(w), variant })
        },
        None => Ok(CommandView { window: None, variant }),
    }
}

impl ControlCommand {
    /// A command for the default window.
    pub fn new(variant: ControlCommandVariant) -> (r: Self)
        ensures
            r@ == (CommandView { window: None, variant: variant@ }),
    {
        ControlCommand { window: None, variant }
    }

    /// A command for `window`; window ids start at one.
    pub fn targeted(window: Option<u64>, variant: ControlCommandVariant) -> (r: Result<Self, String>)
        ensures
            match r {
                Ok(c) => targeted_spec(window, variant@) == Ok::<CommandView, Seq<char>>(c@),
                Err(e) => targeted_spec(window, variant@) == Err::<CommandView, Seq<char>>(e@),
            },
    {
        match window {
            Some(w) => {
                if w == 0 {
                    Err(fixed("window id must be greater than zero"))
                } else {
                    Ok(ControlCommand { window: Some(w), variant })
                }
            },
            None => Ok(ControlCommand::new(variant)),
        }
    }
}

// ---------------------------------------------------------------------------
// Text to key events.

/// The key that types `c`, and whether Shift must be held for it.
pub open spec fn char_key_name(c: char) -> Option<(Seq<char>, bool)> {
    if 'a' <= c <= 'z' {
        Some((seq!['K', 'e', 'y', ascii_upper(c)], false))
    } else if 'A' <= c <= 'Z' {
        Some((seq!['K', 'e', 'y', c], true))
    } else if '0' <= c <= '9' {
        Some((seq!['D', 'i', 'g', 'i', 't', c], false))
    } else if c == ' ' {
        Some(("Space"@, false))
    } else if c == '\n' {
        Some(("Enter"@, false))
    } else if c == '\t' {
        Some(("Tab"@, false))
    } else if c == '-' {
        Some(("Minus"@, false))
    } else if c == '_' {
        Some(("Minus"@, true))
    } else if c == '=' {
        Some(("Equal"@, false))
    } else if c == '+' {
        Some(("Equal"@, true))
    } else if c == '[' {
        Some(("BracketLeft"@, false))
    } else if c == '{' {
        Some(("BracketLeft"@, true))
    } else if c == ']' {
        Some(("BracketRight"@, false))
    } else if c == '}' {
        Some(("BracketRight"@, true))
    } else if c == '\\' {
        Some(("Backslash"@, false))
    } else if c == '|' {
        Some(("Backslash"@, true))
    } else if c == ';' {
        Some(("Semicolon"@, false))
    } else if c == ':' {
        Some(("Semicolon"@, true))
    } else if c == '\'' {
        Some(("Quote"@, false))
    } else if c == '"' {
        Some(("Quote"@, true))
    } else if c == '`' {
        Some(("Backquote"@, false))
    } else if c == '~' {
        Some(("Backquote"@, true))
    } else if c == ',' {
        Some(("Comma"@, false))
    } else if c == '<' {
        Some(("Comma"@, true))
    } else if c == '.' {
        Some(("Period"@, false))
    } else if c == '>' {
        Some(("Period"@, true))
    } else if c == '/' {
        Some(("Slash"@, false))
    } else if c == '?' {
        Some(("Slash"@, true))
    } else if c == '!' {
        Some(("Digit1"@, true))
    } else if c == '@' {
        Some(("Digit2"@, true))
    } else if c == '#' {
        Some(("Digit3"@, true))
    } else if c == '$' {
        Some(("Digit4"@, true))
    } else if c == '%' {
        Some(("Digit5"@, true))
    } else if c == '^' {
        Some(("Digit6"@, true))
    } else if c == '&' {
        Some(("Digit7"@, true))
    } else if c == '*' {
        Some(("Digit8"@, true))
    } else if c == '(' {
        Some(("Digit9"@, true))
    } else if c == ')' {
        Some(("Digit0"@, true))
    } else {
        None
    }
}

/// Key code and shift flag of the key that types `c`.
pub open spec fn char_to_key_spec(c: char) -> Option<(u32, bool)> {
    match char_key_name(c) {
        Some((n, shifted)) => match key_code_spec(n) {
            Some(code) => Some((code, shifted)),
            None => None,
        },
        None => None,
    }
}

fn named(name: &str, shifted: bool) -> (r: Option<(u32, bool)>)
    ensures
        r == (match key_code_spec(name@) {
            Some(code) => Some((code, shifted)),
            None => None::<(u32, bool)>,
        }),
{
    match key_to_code(name) {
        Some(code) => Some((code, shifted)),
        None => None,
    }
}

fn prefixed_named(prefix: &str, c: char, shifted: bool) -> (r: Option<(u32, bool)>)
    ensures
        r == (match key_code_spec(prefix@.push(c)) {
            Some(code) => Some((code, shifted)),
            None => None::<(u32, bool)>,
        }),
{
    let mut name = str_to_chars(prefix);
    name.push(c);
    match key_code_of(&name) {
        Some(code) => Some((code, shifted)),
        None => None,
    }
}

/// Key code and shift flag of the key that types `ch`.
pub fn char_to_key(ch: char) -> (r: Option<(u32, bool)>)
    ensures
        r == char_to_key_spec(ch),
{
    proof {
        reveal_strlit("Key");
        reveal_strlit("Digit");
        assert("Key"@.push(ascii_upper(ch)) =~= seq!['K', 'e', 'y', ascii_upper(ch)]);
        assert("Key"@.push(ch) =~= seq!['K', 'e', 'y', ch]);
        assert("Digit"@.push(ch) =~= seq!['D', 'i', 'g', 'i', 't', ch]);
    }
    if 'a' <= ch && ch <= 'z' {
        prefixed_named("Key", to_ascii_upper(ch), false)
    } else if 'A' <= ch && ch <= 'Z' {
        prefixed_named("Key", ch, true)
    } else if '0' <= ch && ch <= '9' {
        prefixed_named("Digit", ch, false)
    } else if ch == ' ' {
        named("Space", false)
    } else if ch == '\n' {
        named("Enter", false)
    } else if ch == '\t' {
        named("Tab", false)
    } else if ch == '-' {
        named("Minus", false)
    } else if ch == '_' {
        named("Minus", true)
    } else if ch == '=' {
        named("Equal", false)
    } else if ch == '+' {
        named("Equal", true)
    } else if ch == '[' {
        named("BracketLeft", false)
    } else if ch == '{' {
        named("BracketLeft", true)
    } else if ch == ']' {
        named("BracketRight", false)
    } else if ch == '}' {
        named("BracketRight", true)
    } else if ch == '\\' {
        named("Backslash", false)
    } else if ch == '|' {
        named("Backslash", true)
    } else if ch == ';' {
        named("Semicolon", false)
    } else if ch == ':' {
        named("Semicolon", true)
    } else if ch == '\'' {
        named("Quote", false)
    } else if ch == '"' {
        named("Quote", true)
    } else if ch == '`' {
        named("Backquote", false)
    } else if ch == '~' {
        named("Backquote", true)
    } else if ch == ',' {
        named("Comma", false)
    } else if ch == '<' {
        named("Comma", true)
    } else if ch == '.' {
        named("Period", false)
    } else if ch == '>' {
        named("Period", true)
    } else if ch == '/' {
        named("Slash", false)
    } else if ch == '?' {
        named("Slash", true)
    } else if ch == '!' {
        named("Digit1", true)
    } else if ch == '@' {
        named("Digit2", true)
    } else if ch == '#' {
        named("Digit3", true)
    } else if ch == '$' {
        named("Digit4", true)
    } else if ch == '%' {
        named("Digit5", true)
    } else if ch == '^' {
        named("Digit6", true)
    } else if ch == '&' {
        named("Digit7", true)
    } else if ch == '*' {
        named("Digit8", true)
    } else if ch == '(' {
        named("Digit9", true)
    } else if ch == ')' {
        named("Digit0", true)
    } else {
        None
    }
}

/// The key code of the left Shift key.
pub open spec fn shift_code() -> u32 {
    key_code_spec("ShiftLeft"@).unwrap()
}

/// Events that type one character: a press of its key, wrapped in Shift
/// down and up when the character needs Shift.
pub open spec fn char_events(code: u32, shifted: bool) -> Seq<(u32, PressAction)> {
    if shifted {
        seq![(shift_code(), PressAction::Down), (code, PressAction::Press), (shift_code(), PressAction::Up)]
    } else {
        seq![(code, PressAction::Press)]
    }
}

pub open spec fn unsupported_char_message(c: char) -> Seq<char> {
    "unsupported text character: "@ + char_debug_text(c)
}

/// Key events that type `text`, or the error for its first character that
/// has no key.
pub open spec fn text_events_spec(text: Seq<char>) -> Result<Seq<(u32, PressAction)>, Seq<char>>
    decreases text.len(),
{
    if text.len() == 0 {
        Ok(Seq::empty())
    } else {
        match text_events_spec(text.drop_last()) {
            Err(e) => Err(e),
            Ok(evs) => match char_to_key_spec(text.last()) {
                Some((code, shifted)) => Ok(evs + char_events(code, shifted)),
                None => Err(unsupported_char_message(text.last())),
            },
        }
    }
}

proof fn lemma_text_events_err_extends(text: Seq<char>, n: int)
    requires
        0 <= n <= text.len(),
        text_events_spec(text.take(n)) is Err,
    ensures
        text_events_spec(text) == text_events_spec(text.take(n)),
    decreases text.len() - n,
{
    if n < text.len() {
        assert(text.take(n + 1).drop_last() =~= text.take(n));
        lemma_text_events_err_extends(text, n + 1);
    } else {
        assert(text.take(n) =~= text);
    }
}

/// Key events that type `text`: each character's key pressed, with Shift held
/// around characters that need it.
pub fn text_to_key_events(text: &str) -> (r: Result<Vec<(u32, PressAction)>, String>)
    ensures
        match r {
            Ok(evs) => text_events_spec(text@) == Ok::<Seq<(u32, PressAction)>, Seq<char>>(evs@),
            Err(e) => text_events_spec(text@) == Err::<Seq<(u32, PressAction)>, Seq<char>>(e@),
        },
{
    let chars = str_to_chars(text);
    text_chars_to_key_events(&chars)
}

/// As [`text_to_key_events`], for text held as characters.
pub fn text_chars_to_key_events(chars: &[char]) -> (r: Result<Vec<(u32, PressAction)>, String>)
    ensures
        match r {
            Ok(evs) => text_events_spec(chars@) == Ok::<Seq<(u32, PressAction)>, Seq<char>>(evs@),
            Err(e) => text_events_spec(chars@) == Err::<Seq<(u32, PressAction)>, Seq<char>>(e@),
        },
{
    proof {
        lemma_shift_left_code();
    }
    let shift = key_to_code("ShiftLeft").unwrap();
    let mut events: Vec<(u32, PressAction)> = Vec::new();
    let mut i: usize = 0;
    while i < chars.len()
        invariant
            i <= chars@.len(),
            key_code_spec("ShiftLeft"@) == Some(shift),
            text_events_spec(chars@.take(i as int)) == Ok::<Seq<(u32, PressAction)>, Seq<char>>(events@),
        decreases chars@.len() - i,
    {
        let ch = chars[i];
        assert(chars@.take(i + 1).drop_last() =~= chars@.take(i as int));
        assert(chars@.take(i + 1).last() == ch);
        match char_to_key(ch) {
            Some((code, shifted)) => {
                let ghost before = events@;
                if shifted {
                    events.push((shift, PressAction::Down));
                }
                events.push((code, PressAction::Press));
                if shifted {
                    events.push((shift, PressAction::Up));
                }
                assert(events@ =~= before + char_events(code, shifted));
            },
            None => {
                let d = char_debug(ch);
                let dc = str_to_chars(d.as_str());
                proof {
                    lemma_text_events_err_extends(chars@, i + 1);
                }
                return Err(prefixed("unsupported text character: ", &dc));
            },
        }
        i += 1;
    }
    assert(chars@.take(chars@.len() as int) =~= chars@);
    Ok(events)
}

// ---------------------------------------------------------------------------
// The plain-text command syntax.

pub open spec fn press_action_spec(v: Seq<char>) -> Result<PressAction, Seq<char>> {
    if v == "down"@ {
        Ok(PressAction::Down)
    } else if v == "up"@ {
        Ok(PressAction::Up)
    } else if v == "press"@ {
        Ok(PressAction::Press)
    } else {
        Err("expected action: down, up, or press"@)
    }
}

/// A button given by name (`left`, `right`, `middle`) or by number.
pub open spec fn button_spec(v: Seq<char>) -> Result<u32, Seq<char>> {
    if v == "left"@ {
        Ok(BTN_LEFT)
    } else if v == "right"@ {
        Ok(BTN_RIGHT)
    } else if v == "middle"@ {
        Ok(BTN_MIDDLE)
    } else {
        match parse_unsigned(v, u32::MAX as nat) {
            Some(n) => Ok(n as u32),
            None => Err("unknown button: "@ + v),
        }
    }
}

/// Error for arguments beyond the first `n`.
pub open spec fn no_extra_spec(args: Seq<Seq<char>>, n: int) -> Result<(), Seq<char>> {
    if args.len() > n {
        Err("unexpected argument: "@ + args[n])
    } else {
        Ok(())
    }
}

/// The number given as argument `i`, called `name` in messages.
pub open spec fn number_arg_spec(args: Seq<Seq<char>>, i: int, name: Seq<char>) -> Result<Seq<char>, Seq<char>> {
    if i >= args.len() {
        Err("expected "@ + name)
    } else if is_float_literal(args[i]) {
        Ok(args[i])
    } else {
        Err("invalid "@ + name)
    }
}

/// The optional button given as argument `i`; the left button by default.
pub open spec fn opt_button_spec(args: Seq<Seq<char>>, i: int) -> Result<u32, Seq<char>> {
    if i < args.len() {
        button_spec(args[i])
    } else {
        Ok(BTN_LEFT)
    }
}

pub open spec fn key_command_spec(args: Seq<Seq<char>>) -> Result<VariantView, Seq<char>> {
    if args.len() == 0 {
        Err("usage: key <KeyboardEvent.code> [down|up|press]"@)
    } else {
        let action = if args.len() > 1 {
            press_action_spec(args[1])
        } else {
            Ok(PressAction::Press)
        };
        if action is Err {
            Err(action->Err_0)
        } else if no_extra_spec(args, 2) is Err {
            Err(no_extra_spec(args, 2)->Err_0)
        } else {
            match key_code_spec(args[0]) {
                Some(code) => Ok(VariantView::Key { code, action: action->Ok_0 }),
                None => Err("unknown key: "@ + args[0]),
            }
        }
    }
}

/// Codes of the first `n` key names, or the first unknown one.
pub open spec fn key_codes_upto(keys: Seq<Seq<char>>, n: int) -> Result<Seq<u32>, Seq<char>>
    decreases n,
{
    if n <= 0 {
        Ok(Seq::empty())
    } else {
        match key_codes_upto(keys, n - 1) {
            Err(e) => Err(e),
            Ok(cs) => match key_code_spec(keys[n - 1]) {
                Some(c) => Ok(cs.push(c)),
                None => Err("unknown key: "@ + keys[n - 1]),
            },
        }
    }
}

pub open spec fn chord_command_spec(args: Seq<Seq<char>>) -> Result<VariantView, Seq<char>> {
    if args.len() == 0 {
        Err("usage: chord <KeyboardEvent.code> [KeyboardEvent.code ...]"@)
    } else {
        match key_codes_upto(args, args.len() as int) {
            Ok(codes) => Ok(VariantView::Chord { codes }),
            Err(e) => Err(e),
        }
    }
}

pub open spec fn mouse_usage() -> Seq<char> {
    "usage: mouse move <x> <y> | mouse button [down|up|press] [button] | mouse drag <start_x> <start_y> <end_x> <end_y> [button]"@
}

pub open spec fn mouse_command_spec(args: Seq<Seq<char>>) -> Result<VariantView, Seq<char>> {
    if args.len() > 0 && args[0] == "move"@ {
        let x = number_arg_spec(args, 1, "x"@);
        let y = number_arg_spec(args, 2, "y"@);
        if x is Err {
            Err(x->Err_0)
        } else if y is Err {
            Err(y->Err_0)
        } else if no_extra_spec(args, 3) is Err {
            Err(no_extra_spec(args, 3)->Err_0)
        } else {
            Ok(VariantView::PointerMove { x: x->Ok_0, y: y->Ok_0 })
        }
    } else if args.len() > 0 && args[0] == "button"@ {
        if args.len() > 1 && (args[1] == "down"@ || args[1] == "up"@ || args[1] == "press"@) {
            let action = press_action_spec(args[1]);
            let button = opt_button_spec(args, 2);
            if action is Err {
                Err(action->Err_0)
            } else if button is Err {
                Err(button->Err_0)
            } else if no_extra_spec(args, 3) is Err {
                Err(no_extra_spec(args, 3)->Err_0)
            } else {
                Ok(VariantView::PointerButton { button: button->Ok_0, action: action->Ok_0 })
            }
        } else if args.len() > 1 {
            let button = button_spec(args[1]);
            if button is Err {
                Err(button->Err_0)
            } else if no_extra_spec(args, 2) is Err {
                Err(no_extra_spec(args, 2)->Err_0)
            } else {
                Ok(VariantView::PointerButton { button: button->Ok_0, action: PressAction::Press })
            }
        } else {
            Ok(VariantView::PointerButton { button: BTN_LEFT, action: PressAction::Press })
        }
    } else if args.len() > 0 && args[0] == "drag"@ {
        let sx = number_arg_spec(args, 1, "start_x"@);
        let sy = number_arg_spec(args, 2, "start_y"@);
        let ex = number_arg_spec(args, 3, "end_x"@);
        let ey = number_arg_spec(args, 4, "end_y"@);
        let button = opt_button_spec(args, 5);
        if sx is Err {
            Err(sx->Err_0)
        } else if sy is Err {
            Err(sy->Err_0)
        } else if ex is Err {
            Err(ex->Err_0)
        } else if ey is Err {
            Err(ey->Err_0)
        } else if button is Err {
            Err(button->Err_0)
        } else if no_extra_spec(args, 6) is Err {
            Err(no_extra_spec(args, 6)->Err_0)
        } else {
            Ok(
                VariantView::PointerDrag {
                    start_x: sx->Ok_0,
                    start_y: sy->Ok_0,
                    end_x: ex->Ok_0,
                    end_y: ey->Ok_0,
                    button: button->Ok_0,
                },
            )
        }
    } else {
        Err(mouse_usage())
    }
}

pub open spec fn click_command_spec(args: Seq<Seq<char>>) -> Result<VariantView, Seq<char>> {
    let x = number_arg_spec(args, 0, "x"@);
    let y = number_arg_spec(args, 1, "y"@);
    let button = opt_button_spec(args, 2);
    if x is Err {
        Err(x->Err_0)
    } else if y is Err {
        Err(y->Err_0)
    } else if button is Err {
        Err(button->Err_0)
    } else if no_extra_spec(args, 3) is Err {
        Err(no_extra_spec(args, 3)->Err_0)
    } else {
        Ok(VariantView::Click { x: x->Ok_0, y: y->Ok_0, button: button->Ok_0 })
    }
}

pub open spec fn scroll_command_spec(args: Seq<Seq<char>>) -> Result<VariantView, Seq<char>> {
    let dx = number_arg_spec(args, 0, "dx"@);
    let dy = number_arg_spec(args, 1, "dy"@);
    if dx is Err {
        Err(dx->Err_0)
    } else if dy is Err {
        Err(dy->Err_0)
    } else if no_extra_spec(args, 2) is Err {
        Err(no_extra_spec(args, 2)->Err_0)
    } else {
        Ok(VariantView::Scroll { dx: dx->Ok_0, dy: dy->Ok_0 })
    }
}

pub open spec fn screenshot_command_spec(args: Seq<Seq<char>>) -> Result<VariantView, Seq<char>> {
    if no_extra_spec(args, 1) is Err {
        Err(no_extra_spec(args, 1)->Err_0)
    } else {
        Ok(
            VariantView::Screenshot {
                path: if args.len() > 0 {
                    Some(args[0])
                } else {
                    None
                },
            },
        )
    }
}

pub open spec fn sleep_command_spec(args: Seq<Seq<char>>) -> Result<VariantView, Seq<char>> {
    if args.len() == 0 {
        Err("usage: sleep <ms>"@)
    } else {
        match parse_unsigned(args[0], u64::MAX as nat) {
            None => Err("invalid sleep duration"@),
            Some(ms) => if no_extra_spec(args, 1) is Err {
                Err(no_extra_spec(args, 1)->Err_0)
            } else {
                Ok(VariantView::Sleep { duration_ms: ms as u64 })
            },
        }
    }
}

pub open spec fn launch_command_spec(args: Seq<Seq<char>>) -> Result<VariantView, Seq<char>> {
    if args.len() == 0 {
        Err("usage: launch <command> [args...]"@)
    } else {
        Ok(VariantView::Launch { command: args })
    }
}

/// The command a word-split line names, with its arguments.
pub open spec fn word_command_spec(command: Seq<char>, args: Seq<Seq<char>>) -> Result<VariantView, Seq<char>> {
    if command == "key"@ {
        key_command_spec(args)
    } else if command == "chord"@ {
        chord_command_spec(args)
    } else if command == "mouse"@ {
        mouse_command_spec(args)
    } else if command == "click"@ {
        click_command_spec(args)
    } else if command == "scroll"@ {
        scroll_command_spec(args)
    } else if command == "screenshot"@ {
        screenshot_command_spec(args)
    } else if command == "sleep"@ {
        sleep_command_spec(args)
    } else if command == "launch"@ {
        launch_command_spec(args)
    } else if command == "list"@ {
        if no_extra_spec(args, 0) is Err {
            Err(no_extra_spec(args, 0)->Err_0)
        } else {
            Ok(VariantView::List)
        }
    } else if command == "close"@ {
        if no_extra_spec(args, 0) is Err {
            Err(no_extra_spec(args, 0)->Err_0)
        } else {
            Ok(VariantView::Close)
        }
    } else {
        Err("unknown command: "@ + command)
    }
}

/// A leading window id: the text before the first whitespace character, when
/// it is a number; the rest of the line follows with leading whitespace
/// removed.
pub open spec fn window_prefix_spec(line: Seq<char>) -> Result<(Option<u64>, Seq<char>), Seq<char>> {
    let p = find_ws(line);
    if p < 0 {
        Ok((None, line))
    } else {
        match parse_unsigned(line.take(p), u64::MAX as nat) {
            None => Ok((None, line)),
            Some(w) => if w == 0 {
                Err("window id must be greater than zero"@)
            } else {
                Ok((Some(w as u64), trim_start(line.skip(p + 1))))
            },
        }
    }
}

/// The command variant of a line without its window prefix.
pub open spec fn line_variant_spec(rest: Seq<char>) -> Result<VariantView, Seq<char>> {
    if rest == "quit"@ {
        Ok(VariantView::Quit)
    } else if strip_prefix(rest, "text"@) is Some {
        let a = strip_prefix(rest, "text"@)->Some_0;
        if a.len() > 0 && is_ws(a[0]) {
            Ok(VariantView::Text(a.drop_first()))
        } else {
            Err("usage: text <text>"@)
        }
    } else if strip_prefix(rest, "keys"@) is Some {
        let a = strip_prefix(rest, "keys"@)->Some_0;
        if a.len() > 0 && is_ws(a[0]) {
            match keys_sequence_spec(a.drop_first()) {
                Ok(actions) => Ok(VariantView::KeysSequence { actions }),
                Err(e) => Err(e),
            }
        } else {
            Err("usage: keys <sequence>"@)
        }
    } else {
        let ws = words(rest);
        word_command_spec(ws[0], ws.drop_first())
    }
}

/// What a plain-text control line means: nothing for a blank line or a
/// `#` comment, else a command, or the error that rejects the line.
pub open spec fn plain_command_spec(line: Seq<char>) -> Result<Option<CommandView>, Seq<char>> {
    let t = trim(line);
    if t.len() == 0 || t[0] == '#' {
        Ok(None)
    } else {
        match window_prefix_spec(t) {
            Err(e) => Err(e),
            Ok((window, rest)) => match line_variant_spec(rest) {
                Err(e) => Err(e),
                Ok(v) => Ok(Some(CommandView { window, variant: v })),
            },
        }
    }
}

fn parse_press_action(v: &[char]) -> (r: Result<PressAction, String>)
    ensures
        match r {
            Ok(a) => press_action_spec(v@) == Ok::<PressAction, Seq<char>>(a),
            Err(e) => press_action_spec(v@) == Err::<PressAction, Seq<char>>(e@),
        },
{
    if text_is(v, "down") {
        Ok(PressAction::Down)
    } else if text_is(v, "up") {
        Ok(PressAction::Up)
    } else if text_is(v, "press") {
        Ok(PressAction::Press)
    } else {
        Err(fixed("expected action: down, up, or press"))
    }
}

/// A mouse button given by name or number.
pub fn parse_button(v: &[char]) -> (r: Result<u32, String>)
    ensures
        match r {
            Ok(b) => button_spec(v@) == Ok::<u32, Seq<char>>(b),
            Err(e) => button_spec(v@) == Err::<u32, Seq<char>>(e@),
        },
{
    if text_is(v, "left") {
        Ok(BTN_LEFT)
    } else if text_is(v, "right") {
        Ok(BTN_RIGHT)
    } else if text_is(v, "middle") {
        Ok(BTN_MIDDLE)
    } else {
        match parse_u32(v) {
            Some(n) => Ok(n),
            None => Err(prefixed("unknown button: ", v)),
        }
    }
}

fn ensure_no_extra(args: &Vec<Vec<char>>, n: usize) -> (r: Result<(), String>)
    ensures
        match r {
            Ok(_) => no_extra_spec(texts(args@), n as int) is Ok,
            Err(e) => no_extra_spec(texts(args@), n as int) == Err::<(), Seq<char>>(e@),
        },
{
    if args.len() > n {
        Err(prefixed("unexpected argument: ", &args[n]))
    } else {
        Ok(())
    }
}

fn number_arg(args: &Vec<Vec<char>>, i: usize, name: &str) -> (r: Result<Number, String>)
    ensures
        match r {
            Ok(n) => number_arg_spec(texts(args@), i as int, name@) == Ok::<Seq<char>, Seq<char>>(n@),
            Err(e) => number_arg_spec(texts(args@), i as int, name@) == Err::<Seq<char>, Seq<char>>(e@),
        },
{
    if i >= args.len() {
        return Err(join_str("expected ", name));
    }
    let a = &args[i];
    if is_float_literal_chars(a) {
        Ok(Number { text: chars_to_string(a) })
    } else {
        Err(join_str("invalid ", name))
    }
}

fn opt_button(args: &Vec<Vec<char>>, i: usize) -> (r: Result<u32, String>)
    ensures
        match r {
            Ok(b) => opt_button_spec(texts(args@), i as int) == Ok::<u32, Seq<char>>(b),
            Err(e) => opt_button_spec(texts(args@), i as int) == Err::<u32, Seq<char>>(e@),
        },
{
    if i < args.len() {
        parse_button(&args[i])
    } else {
        Ok(BTN_LEFT)
    }
}

/// The parsed variant, stated against a spec result.
pub open spec fn variant_matches(r: Result<ControlCommandVariant, String>, s: Result<VariantView, Seq<char>>) -> bool {
    match r {
        Ok(v) => s == Ok::<VariantView, Seq<char>>(v@),
        Err(e) => s == Err::<VariantView, Seq<char>>(e@),
    }
}

fn parse_key_command(args: &Vec<Vec<char>>) -> (r: Result<ControlCommandVariant, String>)
    ensures
        variant_matches(r, key_command_spec(texts(args@))),
{
    if args.len() == 0 {
        return Err(fixed("usage: key <KeyboardEvent.code> [down|up|press]"));
    }
    let action = if args.len() > 1 {
        parse_press_action(&args[1])?
    } else {
        PressAction::Press
    };
    ensure_no_extra(args, 2)?;
    match key_code_of(&args[0]) {
        Some(code) => Ok(ControlCommandVariant::Key { code, action }),
        None => Err(prefixed("unknown key: ", &args[0])),
    }
}

proof fn lemma_key_codes_err_extends(keys: Seq<Seq<char>>, n: int, m: int)
    requires
        0 <= n <= m,
        key_codes_upto(keys, n) is Err,
    ensures
        key_codes_upto(keys, m) == key_codes_upto(keys, n),
    decreases m - n,
{
    if m > n {
        lemma_key_codes_err_extends(keys, n, m - 1);
    }
}

fn parse_chord_command(args: &Vec<Vec<char>>) -> (r: Result<ControlCommandVariant, String>)
    ensures
        variant_matches(r, chord_command_spec(texts(args@))),
{
    if args.len() == 0 {
        return Err(fixed("usage: chord <KeyboardEvent.code> [KeyboardEvent.code ...]"));
    }
    let ghost keys = texts(args@);
    let mut codes: Vec<u32> = Vec::new();
    let mut i: usize = 0;
    while i < args.len()
        invariant
            keys == texts(args@),
            i <= args@.len(),
            key_codes_upto(keys, i as int) == Ok::<Seq<u32>, Seq<char>>(codes@),
        decreases args@.len() - i,
    {
        assert(keys[i as int] == args@[i as int]@);
        match key_code_of(&args[i]) {
            Some(c) => codes.push(c),
            None => {
                proof {
                    lemma_key_codes_err_extends(keys, i + 1, keys.len() as int);
                }
                return Err(prefixed("unknown key: ", &args[i]));
            },
        }
        i += 1;
    }
    Ok(ControlCommandVariant::Chord { codes })
}

fn parse_mouse_command(args: &Vec<Vec<char>>) -> (r: Result<ControlCommandVariant, String>)
    ensures
        variant_matches(r, mouse_command_spec(texts(args@))),
{
    let ghost a = texts(args@);
    if args.len() > 0 && text_is(&args[0], "move") {
        assert(a[0] == "move"@);
        let x = number_arg(args, 1, "x")?;
        let y = number_arg(args, 2, "y")?;
        ensure_no_extra(args, 3)?;
        Ok(ControlCommandVariant::PointerMove { x, y })
    } else if args.len() > 0 && text_is(&args[0], "button") {
        assert(a[0] != "move"@);
        if args.len() > 1 && (text_is(&args[1], "down") || text_is(&args[1], "up") || text_is(
            &args[1],
            "press",
        )) {
            let action = parse_press_action(&args[1])?;
            let button = opt_button(args, 2)?;
            ensure_no_extra(args, 3)?;
            Ok(ControlCommandVariant::PointerButton { button, action })
        } else if args.len() > 1 {
            let button = parse_button(&args[1])?;
            ensure_no_extra(args, 2)?;
            Ok(ControlCommandVariant::PointerButton { button, action: PressAction::Press })
        } else {
            Ok(ControlCommandVariant::PointerButton { button: BTN_LEFT, action: PressAction::Press })
        }
    } else if args.len() > 0 && text_is(&args[0], "drag") {
        let start_x = number_arg(args, 1, "start_x")?;
        let start_y = number_arg(args, 2, "start_y")?;
        let end_x = number_arg(args, 3, "end_x")?;
        let end_y = number_arg(args, 4, "end_y")?;
        let button = opt_button(args, 5)?;
        ensure_no_extra(args, 6)?;
        Ok(ControlCommandVariant::PointerDrag { start_x, start_y, end_x, end_y, button })
    } else {
        Err(fixed(
            "usage: mouse move <x> <y> | mouse button [down|up|press] [button] | mouse drag <start_x> <start_y> <end_x> <end_y> [button]",
        ))
    }
}

fn parse_click_command(args: &Vec<Vec<char>>) -> (r: Result<ControlCommandVariant, String>)
    ensures
        variant_matches(r, click_command_spec(texts(args@))),
{
    let x = number_arg(args, 0, "x")?;
    let y = number_arg(args, 1, "y")?;
    let button = opt_button(args, 2)?;
    ensure_no_extra(args, 3)?;
    Ok(ControlCommandVariant::Click { x, y, button })
}

fn parse_scroll_command(args: &Vec<Vec<char>>) -> (r: Result<ControlCommandVariant, String>)
    ensures
        variant_matches(r, scroll_command_spec(texts(args@))),
{
    let dx = number_arg(args, 0, "dx")?;
    let dy = number_arg(args, 1, "dy")?;
    ensure_no_extra(args, 2)?;
    Ok(ControlCommandVariant::Scroll { dx, dy })
}

fn parse_screenshot_command(args: &Vec<Vec<char>>) -> (r: Result<ControlCommandVariant, String>)
    ensures
        variant_matches(r, screenshot_command_spec(texts(args@))),
{
    let path = if args.len() > 0 {
        Some(chars_to_string(&args[0]))
    } else {
        None
    };
    ensure_no_extra(args, 1)?;
    Ok(ControlCommandVariant::Screenshot { path })
}

fn parse_sleep_command(args: &Vec<Vec<char>>) -> (r: Result<ControlCommandVariant, String>)
    ensures
        variant_matches(r, sleep_command_spec(texts(args@))),
{
    if args.len() == 0 {
        return Err(fixed("usage: sleep <ms>"));
    }
    let duration_ms = match parse_u64(&args[0]) {
        Some(ms) => ms,
        None => {
            return Err(fixed("invalid sleep duration"));
        },
    };
    ensure_no_extra(args, 1)?;
    Ok(ControlCommandVariant::Sleep { duration_ms })
}

fn parse_launch_command(args: &Vec<Vec<char>>) -> (r: Result<ControlCommandVariant, String>)
    ensures
        variant_matches(r, launch_command_spec(texts(args@))),
{
    if args.len() == 0 {
        return Err(fixed("usage: launch <command> [args...]"));
    }
    let mut command: Vec<String> = Vec::new();
    let mut i: usize = 0;
    while i < args.len()
        invariant
            i <= args@.len(),
            strings_view(command@) == texts(args@).take(i as int),
        decreases args@.len() - i,
    {
        let ghost before = command@;
        let word = chars_to_string(&args[i]);
        command.push(word);
        assert(command@ == before.push(word));
        assert(strings_view(command@) =~= strings_view(before).push(word@));
        assert(texts(args@).take(i + 1) =~= texts(args@).take(i as int).push(args@[i as int]@));
        i += 1;
    }
    assert(texts(args@).take(args@.len() as int) =~= texts(args@));
    Ok(ControlCommandVariant::Launch { command })
}

/// The words after the first.
fn tail_words(ws: &Vec<Vec<char>>) -> (r: Vec<Vec<char>>)
    requires
        ws@.len() > 0,
    ensures
        texts(r@) == texts(ws@).drop_first(),
{
    let mut r: Vec<Vec<char>> = Vec::new();
    let mut i: usize = 1;
    while i < ws.len()
        invariant
            1 <= i <= ws@.len(),
            texts(r@) == texts(ws@).subrange(1, i as int),
        decreases ws@.len() - i,
    {
        let w = slice_of(&ws[i], 0, ws[i].len());
        assert(w@ =~= ws@[i as int]@);
        let ghost before = r@;
        r.push(w);
        assert(r@ == before.push(w));
        assert(texts(r@) =~= texts(before).push(w@));
        assert(texts(ws@).subrange(1, i + 1) =~= texts(ws@).subrange(1, i as int).push(ws@[i as int]@));
        i += 1;
    }
    assert(texts(ws@).subrange(1, ws@.len() as int) =~= texts(ws@).drop_first());
    r
}

fn parse_word_command(command: &[char], args: &Vec<Vec<char>>) -> (r: Result<ControlCommandVariant, String>)
    ensures
        variant_matches(r, word_command_spec(command@, texts(args@))),
{
    if text_is(command, "key") {
        parse_key_command(args)
    } else if text_is(command, "chord") {
        parse_chord_command(args)
    } else if text_is(command, "mouse") {
        parse_mouse_command(args)
    } else if text_is(command, "click") {
        parse_click_command(args)
    } else if text_is(command, "scroll") {
        parse_scroll_command(args)
    } else if text_is(command, "screenshot") {
        parse_screenshot_command(args)
    } else if text_is(command, "sleep") {
        parse_sleep_command(args)
    } else if text_is(command, "launch") {
        parse_launch_command(args)
    } else if text_is(command, "list") {
        ensure_no_extra(args, 0)?;
        Ok(ControlCommandVariant::List)
    } else if text_is(command, "close") {
        ensure_no_extra(args, 0)?;
        Ok(ControlCommandVariant::Close)
    } else {
        Err(prefixed("unknown command: ", command))
    }
}

fn parse_plain_window_prefix(line: &[char]) -> (r: Result<(Option<u64>, Vec<char>), String>)
    ensures
        match r {
            Ok((w, rest)) => window_prefix_spec(line@) == Ok::<(Option<u64>, Seq<char>), Seq<char>>((w, rest@)),
            Err(e) => window_prefix_spec(line@) == Err::<(Option<u64>, Seq<char>), Seq<char>>(e@),
        },
{
    let found = find_whitespace(line);
    let p = match found {
        Some(p) => p,
        None => {
            assert(line@.subrange(0, line@.len() as int) =~= line@);
            return Ok((None, slice_of(line, 0, line.len())));
        },
    };
    assert(line@.subrange(0, line@.len() as int) =~= line@);
    let n = line.len();
    assert(p < n);
    let first = slice_of(line, 0, p);
    assert(first@ =~= line@.take(p as int));
    match parse_u64(&first) {
        None => Ok((None, slice_of(line, 0, line.len()))),
        Some(w) => {
            if w == 0 {
                Err(fixed("window id must be greater than zero"))
            } else {
                let after = slice_of(line, p + 1, n);
                assert(after@ =~= line@.skip(p + 1));
                Ok((Some(w), trim_start_chars(&after)))
            }
        },
    }
}

fn parse_line_variant(rest: &[char]) -> (r: Result<ControlCommandVariant, String>)
    requires
        rest@.len() > 0,
        !is_ws(rest@[0]),
    ensures
        variant_matches(r, line_variant_spec(rest@)),
{
    if text_is(rest, "quit") {
        return Ok(ControlCommandVariant::Quit);
    }
    if let Some(a) = strip_prefix_chars(rest, "text") {
        if a.len() > 0 && is_whitespace(a[0]) {
            let t = slice_of(&a, 1, a.len());
            assert(t@ =~= a@.drop_first());
            return Ok(ControlCommandVariant::Text(chars_to_string(&t)));
        }
        return Err(fixed("usage: text <text>"));
    }
    if let Some(a) = strip_prefix_chars(rest, "keys") {
        if a.len() > 0 && is_whitespace(a[0]) {
            let t = slice_of(&a, 1, a.len());
            assert(t@ =~= a@.drop_first());
            let ts = chars_to_string(&t);
            let actions = parse_keys_sequence(ts.as_str())?;
            return Ok(ControlCommandVariant::KeysSequence { actions });
        }
        return Err(fixed("usage: keys <sequence>"));
    }
    let ws = split_whitespace_chars(rest);
    proof {
        lemma_words_nonempty(rest@);
    }
    let args = tail_words(&ws);
    parse_word_command(&ws[0], &args)
}

/// Parses one plain-text control line. Blank lines and lines starting with
/// `#` are no command; a leading number selects the target window.
pub fn parse_control_command(line: &str) -> (r: Result<Option<ControlCommand>, String>)
    ensures
        match r {
            Ok(None) => plain_command_spec(line@) == Ok::<Option<CommandView>, Seq<char>>(None),
            Ok(Some(c)) => plain_command_spec(line@) == Ok::<Option<CommandView>, Seq<char>>(Some(c@)),
            Err(e) => plain_command_spec(line@) == Err::<Option<CommandView>, Seq<char>>(e@),
        },
{
    let chars = str_to_chars(line);
    let t = trim_chars(&chars);
    if t.len() == 0 || t[0] == '#' {
        return Ok(None);
    }
    proof {
        lemma_trim_props(line@);
    }
    let (window, rest) = parse_plain_window_prefix(&t)?;
    proof {
        let p = find_ws(t@);
        lemma_find_ws_bound(t@);
        if p >= 0 {
            if parse_unsigned(t@.take(p), u64::MAX as nat) is Some {
                let after = t@.skip(p + 1);
                assert(after.len() > 0) by {
                    if p + 1 >= t@.len() {
                        assert(t@.last() == t@[p]);
                    }
                }
                assert(after.last() == t@[t@.len() - 1]);
                lemma_trim_start_props(after);
            }
        }
    }
    let variant = parse_line_variant(&rest)?;
    Ok(Some(ControlCommand { window, variant }))
}


/// A mouse command that names no button uses the left one: leaving the
/// button out parses exactly as naming `left` (for `mouse button`, `mouse
/// button <action>` and `mouse drag <start_x> <start_y> <end_x> <end_y>`),
/// and a `click <x> <y>` likewise parses as `click <x> <y> left`.
pub proof fn lemma_default_button_is_left(args: Seq<Seq<char>>)
    ensures
        args.len() == 5 && args[0] == "drag"@ ==> mouse_command_spec(args)
            == mouse_command_spec(args.push("left"@)),
        args.len() == 1 && args[0] == "button"@ ==> mouse_command_spec(args)
            == mouse_command_spec(args.push("left"@)),
        args.len() == 2 && args[0] == "button"@ && press_action_spec(args[1]) is Ok
            ==> mouse_command_spec(args) == mouse_command_spec(args.push("left"@)),
        args.len() == 2 ==> click_command_spec(args) == click_command_spec(args.push("left"@)),
{
    reveal_strlit("drag");
    reveal_strlit("move");
    reveal_strlit("button");
    reveal_strlit("left");
    reveal_strlit("down");
    reveal_strlit("up");
    reveal_strlit("press");
    let a = args.push("left"@);
    assert(a.len() == args.len() + 1);
    if args.len() >= 1 {
        assert(a[0] == args[0]);
    }
    assert("drag"@[0] != "move"@[0]);
    assert("drag"@.len() != "button"@.len());
    assert("left"@.len() != "down"@.len() || "left"@[0] != "down"@[0]);
    assert("left"@.len() != "up"@.len());
    assert("left"@.len() != "press"@.len());
    if args.len() >= 2 {
        assert(a[1] == args[1]);
    }
    if args.len() >= 5 {
        assert(a[2] == args[2]);
        assert(a[3] == args[3]);
        assert(a[4] == args[4]);
    }
}


/// Typing a character presses the key that types it on a US layout: the key
/// and Shift state chosen for `c` are ones whose character is `c`, and every
/// character some key types (with or without Shift) can be typed.
pub proof fn lemma_typed_char_is_layout_char(c: char, code: u32, shifted: bool)
    ensures
        char_to_key_spec(c) == Some((code, shifted)) ==> us_layout_char(code, shifted) == Some(c),
        us_layout_char(code, shifted) == Some(c) ==> char_to_key_spec(c) is Some,
{
    lemma_typing_key_codes();
    if 'a' <= c <= 'z' {
        assert(c == 'a'
            || c == 'b'
            || c == 'c'
            || c == 'd'
            || c == 'e'
            || c == 'f'
            || c == 'g'
            || c == 'h'
            || c == 'i'
            || c == 'j'
            || c == 'k'
            || c == 'l'
            || c == 'm'
            || c == 'n'
            || c == 'o'
            || c == 'p'
            || c == 'q'
            || c == 'r'
            || c == 's'
            || c == 't'
            || c == 'u'
            || c == 'v'
            || c == 'w'
            || c == 'x'
            || c == 'y'
            || c == 'z');
    } else if 'A' <= c <= 'Z' {
        assert(c == 'A'
            || c == 'B'
            || c == 'C'
            || c == 'D'
            || c == 'E'
            || c == 'F'
            || c == 'G'
            || c == 'H'
            || c == 'I'
            || c == 'J'
            || c == 'K'
            || c == 'L'
            || c == 'M'
            || c == 'N'
            || c == 'O'
            || c == 'P'
            || c == 'Q'
            || c == 'R'
            || c == 'S'
            || c == 'T'
            || c == 'U'
            || c == 'V'
            || c == 'W'
            || c == 'X'
            || c == 'Y'
            || c == 'Z');
    } else if '0' <= c <= '9' {
        assert(c == '0'
            || c == '1'
            || c == '2'
            || c == '3'
            || c == '4'
            || c == '5'
            || c == '6'
            || c == '7'
            || c == '8'
            || c == '9');
    }
}


/// Whether Shift is held after `evs`, starting with it held or not.
pub open spec fn shift_held_after(evs: Seq<(u32, PressAction)>, held: bool) -> bool
    decreases evs.len(),
{
    if evs.len() == 0 {
        held
    } else {
        let h = shift_held_after(evs.drop_last(), held);
        let (code, action) = evs.last();
        if code == shift_code() {
            match action {
                PressAction::Down => true,
                PressAction::Up => false,
                PressAction::Press => h,
            }
        } else {
            h
        }
    }
}

/// The text that `evs` types on a US layout: each press of a key other than
/// Shift types that key's character in the Shift state of the moment.
pub open spec fn typed_text(evs: Seq<(u32, PressAction)>, held: bool) -> Seq<char>
    decreases evs.len(),
{
    if evs.len() == 0 {
        Seq::empty()
    } else {
        let prev = typed_text(evs.drop_last(), held);
        let h = shift_held_after(evs.drop_last(), held);
        let (code, action) = evs.last();
        if code != shift_code() && action == PressAction::Press {
            match us_layout_char(code, h) {
                Some(c) => prev.push(c),
                None => prev,
            }
        } else {
            prev
        }
    }
}

/// The key events made for a text type exactly that text on a US layout, and
/// leave Shift released.
pub proof fn lemma_text_events_type_the_text(text: Seq<char>)
    requires
        text_events_spec(text) is Ok,
    ensures
        typed_text(text_events_spec(text)->Ok_0, false) == text,
        !shift_held_after(text_events_spec(text)->Ok_0, false),
    decreases text.len(),
{
    lemma_shift_left_code();
    if text.len() > 0 {
        let prefix = text.drop_last();
        let c = text.last();
        lemma_text_events_type_the_text(prefix);
        let before = text_events_spec(prefix)->Ok_0;
        let (code, shifted) = char_to_key_spec(c)->Some_0;
        lemma_typed_char_is_layout_char(c, code, shifted);
        assert(code != shift_code());
        let evs = before + char_events(code, shifted);
        if shifted {
            let e1 = before.push((shift_code(), PressAction::Down));
            let e2 = e1.push((code, PressAction::Press));
            assert(evs =~= e2.push((shift_code(), PressAction::Up)));
            assert(evs.drop_last() =~= e2);
            assert(e2.drop_last() =~= e1);
            assert(e1.drop_last() =~= before);
            assert(shift_held_after(e1, false));
            assert(typed_text(e1, false) == prefix);
            assert(shift_held_after(e2, false));
            assert(typed_text(e2, false) == prefix.push(c));
        } else {
            assert(evs =~= before.push((code, PressAction::Press)));
            assert(evs.drop_last() =~= before);
        }
        assert(prefix.push(c) =~= text);
    }
}

} // verus!
