//! Control commands in the JSON protocol: the fields of a decoded command
//! line, and their checking into a [`ControlCommand`].
use vstd::prelude::*;

use crate::control::{
    button_spec, parse_button, strings_view, targeted_spec, CommandView, ControlCommand,
    ControlCommandVariant, Number, PressAction, VariantView, BTN_LEFT,
};
use crate::keycodes::{key_code_spec, key_to_code};
use crate::text::{prefixed, str_to_chars};

verus! {

/// A mouse button as JSON gives it: a name or a code.
#[derive(Debug, Clone, PartialEq, Eq)]
pub enum JsonMouseButton {
    Name(String),
    Code(u32),
}

/// The fields of a decoded JSON command, by its `type`.
#[derive(Debug, Clone, PartialEq)]
pub enum JsonControlCommandVariant {
    Key { key: String, action: PressAction },
    Chord { keys: Vec<String> },
    Text { text: String },
    MouseMove { x: Number, y: Number },
    MouseButton { action: PressAction, button: Option<JsonMouseButton> },
    Click { x: Number, y: Number, button: Option<JsonMouseButton> },
    Scroll { dx: Number, dy: Number },
    Screenshot { path: Option<String> },
    Sleep { ms: u64 },
    Launch { command: Vec<String> },
    List,
    Close,
    Quit,
}

/// A decoded JSON command line.
#[derive(Debug, Clone, PartialEq)]
pub struct JsonControlCommand {
    pub window: Option<u64>,
    pub variant: JsonControlCommandVariant,
}

/// `unknown key: <key>`.
pub open spec fn unknown_key(key: Seq<char>) -> Seq<char> {
    "unknown key: "@ + key
}

pub open spec fn json_button_spec(b: Option<JsonMouseButton>) -> Result<u32, Seq<char>> {
    match b {
        Some(JsonMouseButton::Name(n)) => button_spec(n@),
        Some(JsonMouseButton::Code(c)) => Ok(c),
        None => Ok(BTN_LEFT),
    }
}

/// The codes of the chord's keys, or the error for the first unknown one.
pub open spec fn chord_codes_spec(keys: Seq<Seq<char>>) -> Result<Seq<u32>, Seq<char>>
    decreases keys.len(),
{
    if keys.len() == 0 {
        Ok(Seq::empty())
    } else {
        match chord_codes_spec(keys.drop_last()) {
            Err(e) => Err(e),
            Ok(codes) => match key_code_spec(keys.last()) {
                Some(c) => Ok(codes.push(c)),
                None => Err(unknown_key(keys.last())),
            },
        }
    }
}

/// The command a decoded JSON line stands for, or why it is refused.
pub open spec fn json_variant_spec(v: JsonControlCommandVariant) -> Result<VariantView, Seq<char>> {
    match v {
        JsonControlCommandVariant::Key { key, action } => match key_code_spec(key@) {
            Some(code) => Ok(VariantView::Key { code, action }),
            None => Err(unknown_key(key@)),
        },
        JsonControlCommandVariant::Chord { keys } => if keys@.len() == 0 {
            Err("chord requires at least one key"@)
        } else {
            match chord_codes_spec(strings_view(keys@)) {
                Ok(codes) => Ok(VariantView::Chord { codes }),
                Err(e) => Err(e),
            }
        },
        JsonControlCommandVariant::Text { text } => Ok(VariantView::Text(text@)),
        JsonControlCommandVariant::MouseMove { x, y } => Ok(
            VariantView::PointerMove { x: x@, y: y@ },
        ),
        JsonControlCommandVariant::MouseButton { action, button } => match json_button_spec(
            button,
        ) {
            Ok(b) => Ok(VariantView::PointerButton { button: b, action }),
            Err(e) => Err(e),
        },
        JsonControlCommandVariant::Click { x, y, button } => match json_button_spec(button) {
            Ok(b) => Ok(VariantView::Click { x: x@, y: y@, button: b }),
            Err(e) => Err(e),
        },
        JsonControlCommandVariant::Scroll { dx, dy } => Ok(
            VariantView::Scroll { dx: dx@, dy: dy@ },
        ),
        JsonControlCommandVariant::Screenshot { path } => Ok(
            VariantView::Screenshot {
                path: match path {
                    Some(p) => Some(p@),
                    None => None,
                },
            },
        ),
        JsonControlCommandVariant::Sleep { ms } => Ok(VariantView::Sleep { duration_ms: ms }),
        JsonControlCommandVariant::Launch { command } => if command@.len() == 0 {
            Err("launch requires at least one command argument"@)
        } else {
            Ok(VariantView::Launch { command: strings_view(command@) })
        },
        JsonControlCommandVariant::List => Ok(VariantView::List),
        JsonControlCommandVariant::Close => Ok(VariantView::Close),
        JsonControlCommandVariant::Quit => Ok(VariantView::Quit),
    }
}

/// A decoded JSON line checked into a command: the variant first, then the
/// window id.
pub open spec fn json_command_spec(c: JsonControlCommand) -> Result<CommandView, Seq<char>> {
    match json_variant_spec(c.variant) {
        Err(e) => Err(e),
        Ok(v) => targeted_spec(c.window, v),
    }
}

fn key_code_or_error(key: &String) -> (r: Result<u32, String>)
    ensures
        match key_code_spec(key@) {
            Some(c) => r == Ok::<u32, String>(c),
            None => r matches Err(e) && e@ == unknown_key(key@),
        },
{
    match key_to_code(key.as_str()) {
        Some(c) => Ok(c),
        None => {
            let kv = str_to_chars(key.as_str());
            Err(prefixed("unknown key: ", &kv))
        },
    }
}

fn chord_codes(keys: &Vec<String>) -> (r: Result<Vec<u32>, String>)
    ensures
        match chord_codes_spec(strings_view(keys@)) {
            Ok(codes) => r matches Ok(v) && v@ == codes,
            Err(e) => r matches Err(m) && m@ == e,
        },
{
    let mut codes: Vec<u32> = Vec::new();
    let mut i: usize = 0;
    while i < keys.len()
        invariant
            i <= keys@.len(),
            chord_codes_spec(strings_view(keys@.take(i as int))) == Ok::<Seq<u32>, Seq<char>>(
                codes@,
            ),
        decreases keys@.len() - i,
    {
        let ghost next = strings_view(keys@.take(i + 1));
        assert(next.drop_last() =~= strings_view(keys@.take(i as int)));
        assert(next.last() == keys@[i as int]@);
        match key_code_or_error(&keys[i]) {
            Ok(c) => codes.push(c),
            Err(e) => {
                proof {
                    lemma_chord_codes_error_persists(strings_view(keys@), i + 1);
                    assert(strings_view(keys@).take(i + 1) =~= next);
                }
                return Err(e);
            },
        }
        i += 1;
    }
    assert(keys@.take(keys@.len() as int) =~= keys@);
    Ok(codes)
}

proof fn lemma_chord_codes_error_persists(keys: Seq<Seq<char>>, n: int)
    requires
        0 <= n <= keys.len(),
        chord_codes_spec(keys.take(n)) is Err,
    ensures
        chord_codes_spec(keys) == chord_codes_spec(keys.take(n)),
    decreases keys.len() - n,
{
    if n < keys.len() {
        assert(keys.take(n + 1).drop_last() =~= keys.take(n));
        lemma_chord_codes_error_persists(keys, n + 1);
    } else {
        assert(keys.take(n) =~= keys);
    }
}

fn json_button(b: Option<JsonMouseButton>) -> (r: Result<u32, String>)
    ensures
        match json_button_spec(b) {
            Ok(v) => r == Ok::<u32, String>(v),
            Err(e) => r matches Err(m) && m@ == e,
        },
{
    match b {
        Some(JsonMouseButton::Name(n)) => {
            let nv = str_to_chars(n.as_str());
            parse_button(&nv)
        },
        Some(JsonMouseButton::Code(c)) => Ok(c),
        None => Ok(BTN_LEFT),
    }
}

impl JsonControlCommand {
    /// Checks the decoded fields: keys must be known, buttons valid, a chord
    /// and a launch non-empty, and a window id positive.
    pub fn into_control_command(self) -> (r: Result<ControlCommand, String>)
        ensures
            match json_command_spec(self) {
                Ok(c) => r matches Ok(cmd) && cmd@ == c,
                Err(e) => r matches Err(m) && m@ == e,
            },
    {
        let ghost orig = self;
        let JsonControlCommand { window, variant } = self;
        let v = match variant {
            JsonControlCommandVariant::Key { key, action } => {
                match key_code_or_error(&key) {
                    Ok(code) => ControlCommandVariant::Key { code, action },
                    Err(e) => {
                        return Err(e);
                    },
                }
            },
            JsonControlCommandVariant::Chord { keys } => {
                if keys.len() == 0 {
                    return Err(crate::text::fixed("chord requires at least one key"));
                }
                match chord_codes(&keys) {
                    Ok(codes) => ControlCommandVariant::Chord { codes },
                    Err(e) => {
                        return Err(e);
                    },
                }
            },
            JsonControlCommandVariant::Text { text } => ControlCommandVariant::Text(text),
            JsonControlCommandVariant::MouseMove { x, y } => ControlCommandVariant::PointerMove {
                x,
                y,
            },
            JsonControlCommandVariant::MouseButton { action, button } => {
                match json_button(button) {
                    Ok(b) => ControlCommandVariant::PointerButton { button: b, action },
                    Err(e) => {
                        return Err(e);
                    },
                }
            },
            JsonControlCommandVariant::Click { x, y, button } => {
                match json_button(button) {
                    Ok(b) => ControlCommandVariant::Click { x, y, button: b },
                    Err(e) => {
                        return Err(e);
                    },
                }
            },
            JsonControlCommandVariant::Scroll { dx, dy } => ControlCommandVariant::Scroll { dx, dy },
            JsonControlCommandVariant::Screenshot { path } => ControlCommandVariant::Screenshot {
                path,
            },
            JsonControlCommandVariant::Sleep { ms } => ControlCommandVariant::Sleep {
                duration_ms: ms,
            },
            JsonControlCommandVariant::Launch { command } => {
                if command.len() == 0 {
                    return Err(
                        crate::text::fixed("launch requires at least one command argument"),
                    );
                }
                ControlCommandVariant::Launch { command }
            },
            JsonControlCommandVariant::List => ControlCommandVariant::List,
            JsonControlCommandVariant::Close => ControlCommandVariant::Close,
            JsonControlCommandVariant::Quit => ControlCommandVariant::Quit,
        };
        assert(json_variant_spec(orig.variant) == Ok::<VariantView, Seq<char>>(v@));
        ControlCommand::targeted(window, v)
    }
}

} // verus!
