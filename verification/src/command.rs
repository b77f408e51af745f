//! Automation commands as an agent sends them, and the JSON control lines
//! that carry them to the compositor.
use vstd::prelude::*;

use crate::control::{press_action_spec, PressAction};
use crate::text::{
    chars_to_string, decimal, fixed, is_json_number, is_json_number_chars, json_quote,
    json_string_text, lemma_json_string_single_line, lemma_single_line_concat, push_decimal,
    push_str, single_line, split_whitespace_chars, str_to_chars, text_is, words,
};

verus! {

/// A key transition.
#[derive(Debug, Clone, Copy, PartialEq, Eq, Structural)]
pub enum KeyAction {
    Down,
    Up,
    Press,
}

/// A mouse button transition.
#[derive(Debug, Clone, Copy, PartialEq, Eq, Structural)]
pub enum MouseButtonAction {
    Down,
    Up,
    Press,
}

/// A mouse button known by name.
#[derive(Debug, Clone, Copy, PartialEq, Eq, Structural)]
pub enum NamedMouseButton {
    Left,
    Right,
    Middle,
}

/// A mouse button, by name or by its Linux input code.
#[derive(Debug, Clone, Copy, PartialEq, Eq, Structural)]
pub enum MouseButton {
    Named(NamedMouseButton),
    Other(u32),
}

/// A coordinate or scroll amount, held as the JSON text that encodes it: a
/// JSON number (such as `12.5`), or `null` for a value that is not finite.
#[derive(Debug, PartialEq)]
pub struct Coordinate {
    json: String,
}

/// Whether `s` is the JSON text of a coordinate: a JSON number or `null`.
pub open spec fn coordinate_text(s: Seq<char>) -> bool {
    is_json_number(s) || s == "null"@
}

impl View for Coordinate {
    type V = Seq<char>;

    closed spec fn view(&self) -> Seq<char> {
        self.json@
    }
}

impl Clone for Coordinate {
    fn clone(&self) -> (r: Self)
        ensures
            r@ == self@,
    {
        proof {
            use_type_invariant(self);
        }
        Coordinate { json: self.json.clone() }
    }
}

impl Coordinate {
    /// Every coordinate holds a JSON number or `null`.
    #[verifier::type_invariant]
    spec fn well_formed(self) -> bool {
        coordinate_text(self.json@)
    }

    /// The coordinate written as `text`, when `text` is a JSON number or
    /// `null`.
    pub fn parse(text: &str) -> (r: Option<Coordinate>)
        ensures
            r is Some <==> coordinate_text(text@),
            r matches Some(c) ==> c@ == text@,
    {
        let v = str_to_chars(text);
        if is_json_number_chars(&v) || text_is(&v, "null") {
            Some(Coordinate { json: chars_to_string(&v) })
        } else {
            None
        }
    }

    /// The JSON text of the coordinate.
    pub fn json(&self) -> (r: &str)
        ensures
            r@ == self@,
            coordinate_text(r@),
    {
        proof {
            use_type_invariant(self);
        }
        self.json.as_str()
    }
}

/// One automation step.
#[derive(Debug, Clone, PartialEq)]
pub enum AutomationCommand {
    Key { key: String, action: KeyAction },
    Chord { keys: Vec<String> },
    Text { text: String },
    MouseMove { x: Coordinate, y: Coordinate },
    MouseButton { action: MouseButtonAction, button: MouseButton },
    Click { x: Coordinate, y: Coordinate, button: MouseButton },
    Scroll { dx: Coordinate, dy: Coordinate },
    Sleep { ms: u64 },
}

pub open spec fn action_name(down: bool, up: bool) -> Seq<char> {
    if down {
        "down"@
    } else if up {
        "up"@
    } else {
        "press"@
    }
}

pub open spec fn key_action_name(a: KeyAction) -> Seq<char> {
    action_name(a is Down, a is Up)
}

pub open spec fn mouse_action_name(a: MouseButtonAction) -> Seq<char> {
    action_name(a is Down, a is Up)
}

pub open spec fn named_button_name(b: NamedMouseButton) -> Seq<char> {
    match b {
        NamedMouseButton::Left => "left"@,
        NamedMouseButton::Right => "right"@,
        NamedMouseButton::Middle => "middle"@,
    }
}

/// How the compositor names a button: its name, or its code in decimal.
pub open spec fn button_name(b: MouseButton) -> Seq<char> {
    match b {
        MouseButton::Named(n) => named_button_name(n),
        MouseButton::Other(code) => decimal(code as nat),
    }
}

/// The JSON value of a button: a string for a named button, a number otherwise.
pub open spec fn button_json(b: MouseButton) -> Seq<char> {
    match b {
        MouseButton::Named(n) => "\""@ + named_button_name(n) + "\""@,
        MouseButton::Other(code) => decimal(code as nat),
    }
}

/// `"<key>":<value>`, for a key that needs no escaping.
pub open spec fn json_field(key: Seq<char>, value: Seq<char>) -> Seq<char> {
    "\""@ + key + "\":"@ + value
}

/// The items separated by commas.
pub open spec fn comma_joined(items: Seq<Seq<char>>) -> Seq<char>
    decreases items.len(),
{
    if items.len() == 0 {
        Seq::empty()
    } else if items.len() == 1 {
        items[0]
    } else {
        comma_joined(items.drop_last()) + ","@ + items.last()
    }
}

/// A JSON object made of the given fields, in order.
pub open spec fn json_object(fields: Seq<Seq<char>>) -> Seq<char> {
    "{"@ + comma_joined(fields) + "}"@
}

/// A JSON array of strings.
pub open spec fn json_string_array(items: Seq<Seq<char>>) -> Seq<char> {
    "["@ + comma_joined(items.map_values(|s: Seq<char>| json_string_text(s))) + "]"@
}

/// The `window` field, present when a window is targeted.
pub open spec fn window_fields(window: Option<u64>) -> Seq<Seq<char>> {
    match window {
        Some(w) => seq![json_field("window"@, decimal(w as nat))],
        None => Seq::empty(),
    }
}

pub open spec fn type_field(t: Seq<char>) -> Seq<char> {
    json_field("type"@, "\""@ + t + "\""@)
}

/// A control line of type `t`: the fields before `type` (in key order), the
/// type, the target window, then the fields that sort after `window`.
pub open spec fn control_line(
    before: Seq<Seq<char>>,
    t: Seq<char>,
    window: Option<u64>,
    after: Seq<Seq<char>>,
) -> Seq<char> {
    json_object(before + seq![type_field(t)] + window_fields(window) + after)
}

/// Whether `s` is exactly one whitespace-free word, possibly surrounded by
/// whitespace.
pub open spec fn is_token(s: Seq<char>) -> bool {
    words(s).len() == 1
}

pub open spec fn strings_view(v: Seq<String>) -> Seq<Seq<char>> {
    v.map_values(|s: String| s@)
}

/// The control line for a command, or the reason it cannot be sent. Object
/// keys come in lexicographic order, as `serde_json` writes a map.
pub open spec fn automation_line(cmd: AutomationCommand, window: Option<u64>) -> Result<
    Seq<char>,
    Seq<char>,
> {
    match cmd {
        AutomationCommand::Key { key, action } => if !is_token(key@) {
            Err("key must be one non-empty token"@)
        } else {
            Ok(
                control_line(
                    seq![
                        json_field("action"@, "\""@ + key_action_name(action) + "\""@),
                        json_field("key"@, json_string_text(key@)),
                    ],
                    "key"@,
                    window,
                    Seq::empty(),
                ),
            )
        },
        AutomationCommand::Chord { keys } => if keys@.len() == 0 {
            Err("chord requires at least one key"@)
        } else if exists|i: int| 0 <= i < keys@.len() && !is_token(#[trigger] keys@[i]@) {
            Err("chord keys must be non-empty tokens"@)
        } else {
            Ok(
                control_line(
                    seq![json_field("keys"@, json_string_array(strings_view(keys@)))],
                    "chord"@,
                    window,
                    Seq::empty(),
                ),
            )
        },
        AutomationCommand::Text { text } => Ok(
            control_line(
                seq![json_field("text"@, json_string_text(text@))],
                "text"@,
                window,
                Seq::empty(),
            ),
        ),
        AutomationCommand::MouseMove { x, y } => Ok(
            control_line(
                Seq::empty(),
                "mouse_move"@,
                window,
                seq![json_field("x"@, x@), json_field("y"@, y@)],
            ),
        ),
        AutomationCommand::MouseButton { action, button } => Ok(
            control_line(
                seq![
                    json_field("action"@, "\""@ + mouse_action_name(action) + "\""@),
                    json_field("button"@, button_json(button)),
                ],
                "mouse_button"@,
                window,
                Seq::empty(),
            ),
        ),
        AutomationCommand::Click { x, y, button } => Ok(
            control_line(
                seq![json_field("button"@, button_json(button))],
                "click"@,
                window,
                seq![json_field("x"@, x@), json_field("y"@, y@)],
            ),
        ),
        AutomationCommand::Scroll { dx, dy } => Ok(
            control_line(
                seq![json_field("dx"@, dx@), json_field("dy"@, dy@)],
                "scroll"@,
                window,
                Seq::empty(),
            ),
        ),
        AutomationCommand::Sleep { ms } => Ok(
            control_line(
                seq![json_field("ms"@, decimal(ms as nat))],
                "sleep"@,
                window,
                Seq::empty(),
            ),
        ),
    }
}

/// A key command presses and releases its key unless told otherwise.
impl Default for KeyAction {
    fn default() -> (r: KeyAction)
        ensures
            r == KeyAction::Press,
    {
        KeyAction::Press
    }
}

/// A mouse button command presses and releases its button unless told
/// otherwise.
impl Default for MouseButtonAction {
    fn default() -> (r: MouseButtonAction)
        ensures
            r == MouseButtonAction::Press,
    {
        MouseButtonAction::Press
    }
}

/// Mouse commands use the left button unless told otherwise.
impl Default for MouseButton {
    fn default() -> (r: MouseButton)
        ensures
            r == MouseButton::Named(NamedMouseButton::Left),
    {
        MouseButton::Named(NamedMouseButton::Left)
    }
}

/// The `type` a command's control line carries.
pub open spec fn command_type(cmd: AutomationCommand) -> Seq<char> {
    match cmd {
        AutomationCommand::Key { .. } => "key"@,
        AutomationCommand::Chord { .. } => "chord"@,
        AutomationCommand::Text { .. } => "text"@,
        AutomationCommand::MouseMove { .. } => "mouse_move"@,
        AutomationCommand::MouseButton { .. } => "mouse_button"@,
        AutomationCommand::Click { .. } => "click"@,
        AutomationCommand::Scroll { .. } => "scroll"@,
        AutomationCommand::Sleep { .. } => "sleep"@,
    }
}

/// Whether `line` is a JSON object one of whose fields is `"type":"<t>"`.
pub open spec fn object_with_type(line: Seq<char>, t: Seq<char>) -> bool {
    exists|fields: Seq<Seq<char>>| line == json_object(fields) && fields.contains(type_field(t))
}

/// Whether the coordinates of `cmd` hold JSON numbers or `null`.
pub open spec fn coordinates_ok(cmd: AutomationCommand) -> bool {
    match cmd {
        AutomationCommand::MouseMove { x, y } => coordinate_text(x@) && coordinate_text(y@),
        AutomationCommand::Click { x, y, .. } => coordinate_text(x@) && coordinate_text(y@),
        AutomationCommand::Scroll { dx, dy } => coordinate_text(dx@) && coordinate_text(dy@),
        _ => true,
    }
}

proof fn lemma_literals_single_line()
    ensures
        single_line("{"@),
        single_line("}"@),
        single_line(","@),
        single_line("["@),
        single_line("]"@),
        single_line("\""@),
        single_line("\":"@),
        single_line("null"@),
        single_line("action"@),
        single_line("key"@),
        single_line("keys"@),
        single_line("text"@),
        single_line("x"@),
        single_line("y"@),
        single_line("button"@),
        single_line("dx"@),
        single_line("dy"@),
        single_line("ms"@),
        single_line("type"@),
        single_line("window"@),
        single_line("chord"@),
        single_line("mouse_move"@),
        single_line("mouse_button"@),
        single_line("click"@),
        single_line("scroll"@),
        single_line("sleep"@),
        single_line("down"@),
        single_line("up"@),
        single_line("press"@),
        single_line("left"@),
        single_line("right"@),
        single_line("middle"@),
{
    reveal_strlit("{");
    reveal_strlit("}");
    reveal_strlit(",");
    reveal_strlit("[");
    reveal_strlit("]");
    reveal_strlit("\"");
    reveal_strlit("\":");
    reveal_strlit("null");
    reveal_strlit("action");
    reveal_strlit("key");
    reveal_strlit("keys");
    reveal_strlit("text");
    reveal_strlit("x");
    reveal_strlit("y");
    reveal_strlit("button");
    reveal_strlit("dx");
    reveal_strlit("dy");
    reveal_strlit("ms");
    reveal_strlit("type");
    reveal_strlit("window");
    reveal_strlit("chord");
    reveal_strlit("mouse_move");
    reveal_strlit("mouse_button");
    reveal_strlit("click");
    reveal_strlit("scroll");
    reveal_strlit("sleep");
    reveal_strlit("down");
    reveal_strlit("up");
    reveal_strlit("press");
    reveal_strlit("left");
    reveal_strlit("right");
    reveal_strlit("middle");
}

proof fn lemma_decimal_single_line(n: nat)
    ensures
        single_line(decimal(n)),
    decreases n,
{
    if n >= 10 {
        lemma_decimal_single_line(n / 10);
        lemma_single_line_concat(decimal(n / 10), seq![crate::text::digit_char(n % 10)]);
    }
}

proof fn lemma_comma_joined_single_line(items: Seq<Seq<char>>)
    requires
        forall|k: int| 0 <= k < items.len() ==> single_line(#[trigger] items[k]),
    ensures
        single_line(comma_joined(items)),
    decreases items.len(),
{
    lemma_literals_single_line();
    if items.len() > 1 {
        let init = items.drop_last();
        assert forall|k: int| 0 <= k < init.len() implies single_line(#[trigger] init[k]) by {
            assert(init[k] == items[k]);
        }
        lemma_comma_joined_single_line(init);
        lemma_single_line_concat(comma_joined(init), ","@);
        lemma_single_line_concat(comma_joined(init) + ","@, items.last());
    } else if items.len() == 1 {
        assert(single_line(items[0]));
    }
}

proof fn lemma_json_object_single_line(fields: Seq<Seq<char>>)
    requires
        forall|k: int| 0 <= k < fields.len() ==> single_line(#[trigger] fields[k]),
    ensures
        single_line(json_object(fields)),
{
    lemma_literals_single_line();
    lemma_comma_joined_single_line(fields);
    lemma_single_line_concat("{"@, comma_joined(fields));
    lemma_single_line_concat("{"@ + comma_joined(fields), "}"@);
}

proof fn lemma_json_field_single_line(key: Seq<char>, value: Seq<char>)
    requires
        single_line(key),
        single_line(value),
    ensures
        single_line(json_field(key, value)),
{
    lemma_literals_single_line();
    lemma_single_line_concat("\""@, key);
    lemma_single_line_concat("\""@ + key, "\":"@);
    lemma_single_line_concat("\""@ + key + "\":"@, value);
}

proof fn lemma_quoted_single_line(t: Seq<char>)
    requires
        single_line(t),
    ensures
        single_line("\""@ + t + "\""@),
{
    lemma_literals_single_line();
    lemma_single_line_concat("\""@, t);
    lemma_single_line_concat("\""@ + t, "\""@);
}

proof fn lemma_coordinate_single_line(s: Seq<char>)
    requires
        coordinate_text(s),
    ensures
        single_line(s),
{
    lemma_literals_single_line();
    if is_json_number(s) {
        crate::text::lemma_json_number_chars(s);
        assert forall|i: int| 0 <= i < s.len() implies s[i] != '\n' by {
            assert(crate::text::json_number_char(s[i]));
        }
    }
}

proof fn lemma_string_array_single_line(items: Seq<Seq<char>>)
    ensures
        single_line(json_string_array(items)),
{
    lemma_literals_single_line();
    let q = items.map_values(|s: Seq<char>| json_string_text(s));
    assert forall|k: int| 0 <= k < q.len() implies single_line(#[trigger] q[k]) by {
        lemma_json_string_single_line(items[k]);
    }
    lemma_comma_joined_single_line(q);
    lemma_single_line_concat("["@, comma_joined(q));
    lemma_single_line_concat("["@ + comma_joined(q), "]"@);
}

proof fn lemma_control_line_shape(
    before: Seq<Seq<char>>,
    t: Seq<char>,
    window: Option<u64>,
    after: Seq<Seq<char>>,
)
    requires
        forall|k: int| 0 <= k < before.len() ==> single_line(#[trigger] before[k]),
        forall|k: int| 0 <= k < after.len() ==> single_line(#[trigger] after[k]),
        single_line(t),
    ensures
        single_line(control_line(before, t, window, after)),
        object_with_type(control_line(before, t, window, after), t),
{
    lemma_literals_single_line();
    let fields = before + seq![type_field(t)] + window_fields(window) + after;
    lemma_quoted_single_line(t);
    lemma_json_field_single_line("type"@, "\""@ + t + "\""@);
    match window {
        Some(w) => {
            lemma_decimal_single_line(w as nat);
            lemma_json_field_single_line("window"@, decimal(w as nat));
        },
        None => {},
    }
    let wf = window_fields(window);
    assert forall|k: int| 0 <= k < fields.len() implies single_line(#[trigger] fields[k]) by {
        if k < before.len() {
            assert(fields[k] == before[k]);
        } else if k == before.len() {
            assert(fields[k] == type_field(t));
        } else if k < before.len() + 1 + wf.len() {
            assert(fields[k] == wf[k - before.len() - 1]);
        } else {
            assert(fields[k] == after[k - before.len() - 1 - wf.len()]);
        }
    }
    lemma_json_object_single_line(fields);
    assert(fields[before.len() as int] == type_field(t));
    assert(fields.contains(type_field(t)));
}

/// An accepted command's control line is a single line holding a JSON
/// object whose `type` names the command.
pub proof fn lemma_automation_line_shape(cmd: AutomationCommand, window: Option<u64>)
    requires
        coordinates_ok(cmd),
    ensures
        automation_line(cmd, window) matches Ok(line) ==> single_line(line) && object_with_type(
            line,
            command_type(cmd),
        ),
{
    lemma_literals_single_line();
    match cmd {
        AutomationCommand::Key { key, action } => {
            lemma_quoted_single_line(key_action_name(action));
            lemma_json_field_single_line("action"@, "\""@ + key_action_name(action) + "\""@);
            lemma_json_string_single_line(key@);
            lemma_json_field_single_line("key"@, json_string_text(key@));
            let before = seq![
                json_field("action"@, "\""@ + key_action_name(action) + "\""@),
                json_field("key"@, json_string_text(key@)),
            ];
            lemma_control_line_shape(before, "key"@, window, Seq::empty());
        },
        AutomationCommand::Chord { keys } => {
            lemma_string_array_single_line(strings_view(keys@));
            lemma_json_field_single_line("keys"@, json_string_array(strings_view(keys@)));
            let before = seq![json_field("keys"@, json_string_array(strings_view(keys@)))];
            lemma_control_line_shape(before, "chord"@, window, Seq::empty());
        },
        AutomationCommand::Text { text } => {
            lemma_json_string_single_line(text@);
            lemma_json_field_single_line("text"@, json_string_text(text@));
            let before = seq![json_field("text"@, json_string_text(text@))];
            lemma_control_line_shape(before, "text"@, window, Seq::empty());
        },
        AutomationCommand::MouseMove { x, y } => {
            lemma_coordinate_single_line(x@);
            lemma_coordinate_single_line(y@);
            lemma_json_field_single_line("x"@, x@);
            lemma_json_field_single_line("y"@, y@);
            let after = seq![json_field("x"@, x@), json_field("y"@, y@)];
            lemma_control_line_shape(Seq::empty(), "mouse_move"@, window, after);
        },
        AutomationCommand::MouseButton { action, button } => {
            lemma_quoted_single_line(mouse_action_name(action));
            lemma_json_field_single_line("action"@, "\""@ + mouse_action_name(action) + "\""@);
            lemma_button_single_line(button);
            lemma_json_field_single_line("button"@, button_json(button));
            let before = seq![
                json_field("action"@, "\""@ + mouse_action_name(action) + "\""@),
                json_field("button"@, button_json(button)),
            ];
            lemma_control_line_shape(before, "mouse_button"@, window, Seq::empty());
        },
        AutomationCommand::Click { x, y, button } => {
            lemma_button_single_line(button);
            lemma_json_field_single_line("button"@, button_json(button));
            lemma_coordinate_single_line(x@);
            lemma_coordinate_single_line(y@);
            lemma_json_field_single_line("x"@, x@);
            lemma_json_field_single_line("y"@, y@);
            let before = seq![json_field("button"@, button_json(button))];
            let after = seq![json_field("x"@, x@), json_field("y"@, y@)];
            lemma_control_line_shape(before, "click"@, window, after);
        },
        AutomationCommand::Scroll { dx, dy } => {
            lemma_coordinate_single_line(dx@);
            lemma_coordinate_single_line(dy@);
            lemma_json_field_single_line("dx"@, dx@);
            lemma_json_field_single_line("dy"@, dy@);
            let before = seq![json_field("dx"@, dx@), json_field("dy"@, dy@)];
            lemma_control_line_shape(before, "scroll"@, window, Seq::empty());
        },
        AutomationCommand::Sleep { ms } => {
            lemma_decimal_single_line(ms as nat);
            lemma_json_field_single_line("ms"@, decimal(ms as nat));
            let before = seq![json_field("ms"@, decimal(ms as nat))];
            lemma_control_line_shape(before, "sleep"@, window, Seq::empty());
        },
    }
}

proof fn lemma_button_single_line(b: MouseButton)
    ensures
        single_line(button_json(b)),
{
    lemma_literals_single_line();
    match b {
        MouseButton::Named(n) => lemma_quoted_single_line(named_button_name(n)),
        MouseButton::Other(code) => lemma_decimal_single_line(code as nat),
    }
}

impl KeyAction {

    /// The name of the transition: `down`, `up` or `press`.
    pub fn to_string(self) -> (r: String)
        ensures
            r@ == key_action_name(self),
    {
        match self {
            KeyAction::Down => fixed("down"),
            KeyAction::Up => fixed("up"),
            KeyAction::Press => fixed("press"),
        }
    }
}

impl MouseButtonAction {

    /// The name of the transition: `down`, `up` or `press`.
    pub fn to_string(self) -> (r: String)
        ensures
            r@ == mouse_action_name(self),
    {
        match self {
            MouseButtonAction::Down => fixed("down"),
            MouseButtonAction::Up => fixed("up"),
            MouseButtonAction::Press => fixed("press"),
        }
    }
}

impl MouseButton {

    /// The button as the compositor's plain syntax names it.
    pub fn as_autowc(self) -> (r: String)
        ensures
            r@ == button_name(self),
    {
        match self {
            MouseButton::Named(NamedMouseButton::Left) => fixed("left"),
            MouseButton::Named(NamedMouseButton::Right) => fixed("right"),
            MouseButton::Named(NamedMouseButton::Middle) => fixed("middle"),
            MouseButton::Other(code) => {
                let mut out: Vec<char> = Vec::new();
                push_decimal(&mut out, code as u64);
                assert(out@ =~= decimal(code as nat));
                chars_to_string(&out)
            },
        }
    }
}

fn quoted_name(name: &str) -> (r: Vec<char>)
    ensures
        r@ == "\""@ + name@ + "\""@,
{
    let mut out: Vec<char> = Vec::new();
    push_str(&mut out, "\"");
    push_str(&mut out, name);
    push_str(&mut out, "\"");
    assert(out@ =~= "\""@ + name@ + "\""@);
    out
}

fn decimal_chars(n: u64) -> (r: Vec<char>)
    ensures
        r@ == decimal(n as nat),
{
    let mut out: Vec<char> = Vec::new();
    push_decimal(&mut out, n);
    assert(out@ =~= decimal(n as nat));
    out
}

fn json_string_chars(s: &str) -> (r: Vec<char>)
    ensures
        r@ == json_string_text(s@),
{
    let q = json_quote(s);
    str_to_chars(q.as_str())
}

/// The field `"<key>":<value>` for an already encoded JSON value, such as a
/// quoted string.
pub fn field(key: &str, value: &[char]) -> (r: Vec<char>)
    ensures
        r@ == json_field(key@, value@),
{
    let mut out: Vec<char> = Vec::new();
    push_str(&mut out, "\"");
    push_str(&mut out, key);
    push_str(&mut out, "\":");
    let mut i: usize = 0;
    let ghost start = out@;
    while i < value.len()
        invariant
            i <= value@.len(),
            out@ == start + value@.take(i as int),
        decreases value@.len() - i,
    {
        out.push(value[i]);
        assert(start + value@.take(i + 1) =~= (start + value@.take(i as int)).push(value@[i as int]));
        i += 1;
    }
    assert(value@.take(value@.len() as int) =~= value@);
    assert(out@ =~= json_field(key@, value@));
    out
}

fn push_chars(out: &mut Vec<char>, v: &[char])
    ensures
        final(out)@ == old(out)@ + v@,
{
    let mut i: usize = 0;
    while i < v.len()
        invariant
            i <= v@.len(),
            out@ == old(out)@ + v@.take(i as int),
        decreases v@.len() - i,
    {
        out.push(v[i]);
        assert(old(out)@ + v@.take(i + 1) =~= (old(out)@ + v@.take(i as int)).push(v@[i as int]));
        i += 1;
    }
    assert(v@.take(v@.len() as int) =~= v@);
}

pub open spec fn char_texts(v: Seq<Vec<char>>) -> Seq<Seq<char>> {
    v.map_values(|w: Vec<char>| w@)
}

fn push_comma_joined(out: &mut Vec<char>, items: &Vec<Vec<char>>)
    ensures
        final(out)@ == old(out)@ + comma_joined(char_texts(items@)),
{
    let mut i: usize = 0;
    assert(char_texts(items@.take(0)) =~= Seq::<Seq<char>>::empty());
    assert(out@ =~= old(out)@ + comma_joined(char_texts(items@.take(0))));
    while i < items.len()
        invariant
            i <= items@.len(),
            out@ == old(out)@ + comma_joined(char_texts(items@.take(i as int))),
        decreases items@.len() - i,
    {
        let ghost prev = char_texts(items@.take(i as int));
        let ghost next = char_texts(items@.take(i + 1));
        assert(next.drop_last() =~= prev);
        assert(next.last() == items@[i as int]@);
        if i > 0 {
            push_str(out, ",");
        }
        push_chars(out, &items[i]);
        proof {
            if i == 0 {
                assert(next =~= seq![items@[0]@]);
            }
        }
        assert(out@ =~= old(out)@ + comma_joined(next));
        i += 1;
    }
    assert(items@.take(items@.len() as int) =~= items@);
}

/// The JSON object made of already encoded fields, in order.
pub fn object_line(fields: &Vec<Vec<char>>) -> (r: String)
    ensures
        r@ == json_object(char_texts(fields@)),
{
    let mut out: Vec<char> = Vec::new();
    push_str(&mut out, "{");
    push_comma_joined(&mut out, fields);
    push_str(&mut out, "}");
    assert(out@ =~= json_object(char_texts(fields@)));
    chars_to_string(&out)
}

/// Appends the type field and, when present, the window field.
fn push_type_and_window(fields: &mut Vec<Vec<char>>, t: &str, window: Option<u64>)
    ensures
        char_texts(final(fields)@) == char_texts(old(fields)@) + seq![type_field(t@)]
            + window_fields(window),
{
    let tv = quoted_name(t);
    let tf = field("type", &tv);
    fields.push(tf);
    assert(char_texts(fields@) =~= char_texts(old(fields)@) + seq![type_field(t@)]);
    match window {
        Some(w) => {
            let d = decimal_chars(w);
            let wf = field("window", &d);
            let ghost mid = fields@;
            fields.push(wf);
            assert(char_texts(fields@) =~= char_texts(mid) + seq![json_field("window"@, decimal(w as nat))]);
        },
        None => {},
    }
    assert(char_texts(fields@) =~= char_texts(old(fields)@) + seq![type_field(t@)] + window_fields(window));
}

fn is_token_chars(s: &str) -> (r: bool)
    ensures
        r == is_token(s@),
{
    let v = str_to_chars(s);
    let ws = split_whitespace_chars(&v);
    ws.len() == 1
}

fn all_tokens(keys: &Vec<String>) -> (r: bool)
    ensures
        r == (forall|k: int| 0 <= k < keys@.len() ==> is_token(#[trigger] keys@[k]@)),
{
    let mut i: usize = 0;
    while i < keys.len()
        invariant
            i <= keys@.len(),
            forall|k: int| 0 <= k < i ==> is_token(#[trigger] keys@[k]@),
        decreases keys@.len() - i,
    {
        if !is_token_chars(keys[i].as_str()) {
            assert(!is_token(keys@[i as int]@));
            return false;
        }
        i += 1;
    }
    true
}

fn json_string_array_chars(items: &Vec<String>) -> (r: Vec<char>)
    ensures
        r@ == json_string_array(strings_view(items@)),
{
    let mut quoted: Vec<Vec<char>> = Vec::new();
    let mut i: usize = 0;
    while i < items.len()
        invariant
            i <= items@.len(),
            quoted@.len() == i,
            forall|k: int| 0 <= k < i ==> #[trigger] quoted@[k]@ == json_string_text(items@[k]@),
        decreases items@.len() - i,
    {
        let q = json_string_chars(items[i].as_str());
        quoted.push(q);
        i += 1;
    }
    assert(char_texts(quoted@) =~= strings_view(items@).map_values(|s: Seq<char>| json_string_text(s)));
    let mut out: Vec<char> = Vec::new();
    push_str(&mut out, "[");
    push_comma_joined(&mut out, &quoted);
    push_str(&mut out, "]");
    assert(out@ =~= json_string_array(strings_view(items@)));
    out
}

impl AutomationCommand {
    /// The control line that sends this command, aimed at `window` when given.
    #[verifier::spinoff_prover]
    pub fn to_autowc_line(&self, window: Option<u64>) -> (r: Result<String, String>)
        ensures
            r is Ok <==> automation_line(*self, window) is Ok,
            r matches Ok(line) ==> automation_line(*self, window) == Ok::<Seq<char>, Seq<char>>(
                line@,
            ),
            r matches Err(e) ==> automation_line(*self, window) == Err::<Seq<char>, Seq<char>>(
                e@,
            ),
            r matches Ok(line) ==> single_line(line@),
            r matches Ok(line) ==> object_with_type(line@, command_type(*self)),
    {
        proof {
            match self {
                AutomationCommand::MouseMove { x, y } => {
                    use_type_invariant(x);
                    use_type_invariant(y);
                },
                AutomationCommand::Click { x, y, .. } => {
                    use_type_invariant(x);
                    use_type_invariant(y);
                },
                AutomationCommand::Scroll { dx, dy } => {
                    use_type_invariant(dx);
                    use_type_invariant(dy);
                },
                _ => {},
            }
            lemma_automation_line_shape(*self, window);
        }
        let mut fields: Vec<Vec<char>> = Vec::new();
        match self {
            AutomationCommand::Key { key, action } => {
                if !is_token_chars(key.as_str()) {
                    let e = fixed("key must be one non-empty token");
                    assert(automation_line(*self, window) == Err::<Seq<char>, Seq<char>>(e@));
                    return Err(e);
                }
                let an = action.to_string();
                let av = quoted_name(an.as_str());
                fields.push(field("action", &av));
                let kv = json_string_chars(key.as_str());
                fields.push(field("key", &kv));
                let ghost before = char_texts(fields@);
                assert(before =~= seq![
                    json_field("action"@, "\""@ + key_action_name(*action) + "\""@),
                    json_field("key"@, json_string_text(key@)),
                ]);
                push_type_and_window(&mut fields, "key", window);
                let line = object_line(&fields);
                assert(char_texts(fields@) =~= before + seq![type_field("key"@)]
                    + window_fields(window) + Seq::<Seq<char>>::empty());
                assert(automation_line(*self, window) == Ok::<Seq<char>, Seq<char>>(line@));
                Ok(line)
            },
            AutomationCommand::Chord { keys } => {
                if keys.len() == 0 {
                    return Err(fixed("chord requires at least one key"));
                }
                if !all_tokens(keys) {
                    return Err(fixed("chord keys must be non-empty tokens"));
                }
                let kv = json_string_array_chars(keys);
                fields.push(field("keys", &kv));
                let ghost before = char_texts(fields@);
                assert(before =~= seq![json_field("keys"@, json_string_array(strings_view(keys@)))]);
                push_type_and_window(&mut fields, "chord", window);
                let line = object_line(&fields);
                assert(char_texts(fields@) =~= before + seq![type_field("chord"@)]
                    + window_fields(window) + Seq::<Seq<char>>::empty());
                assert(automation_line(*self, window) == Ok::<Seq<char>, Seq<char>>(line@));
                Ok(line)
            },
            AutomationCommand::Text { text } => {
                let tv = json_string_chars(text.as_str());
                fields.push(field("text", &tv));
                let ghost before = char_texts(fields@);
                assert(before =~= seq![json_field("text"@, json_string_text(text@))]);
                push_type_and_window(&mut fields, "text", window);
                let line = object_line(&fields);
                assert(char_texts(fields@) =~= before + seq![type_field("text"@)]
                    + window_fields(window) + Seq::<Seq<char>>::empty());
                assert(automation_line(*self, window) == Ok::<Seq<char>, Seq<char>>(line@));
                Ok(line)
            },
            AutomationCommand::MouseMove { x, y } => {
                push_type_and_window(&mut fields, "mouse_move", window);
                let ghost mid = char_texts(fields@);
                let xv = str_to_chars(x.json());
                fields.push(field("x", &xv));
                let yv = str_to_chars(y.json());
                fields.push(field("y", &yv));
                let line = object_line(&fields);
                assert(char_texts(fields@) =~= Seq::<Seq<char>>::empty() + seq![
                    type_field("mouse_move"@)] + window_fields(window) + seq![
                    json_field("x"@, x@), json_field("y"@, y@)]);
                assert(automation_line(*self, window) == Ok::<Seq<char>, Seq<char>>(line@));
                Ok(line)
            },
            AutomationCommand::MouseButton { action, button } => {
                let an = action.to_string();
                let av = quoted_name(an.as_str());
                fields.push(field("action", &av));
                let bv = button_json_chars(*button);
                fields.push(field("button", &bv));
                let ghost before = char_texts(fields@);
                assert(before =~= seq![
                    json_field("action"@, "\""@ + mouse_action_name(*action) + "\""@),
                    json_field("button"@, button_json(*button)),
                ]);
                push_type_and_window(&mut fields, "mouse_button", window);
                let line = object_line(&fields);
                assert(char_texts(fields@) =~= before + seq![type_field("mouse_button"@)]
                    + window_fields(window) + Seq::<Seq<char>>::empty());
                assert(automation_line(*self, window) == Ok::<Seq<char>, Seq<char>>(line@));
                Ok(line)
            },
            AutomationCommand::Click { x, y, button } => {
                let bv = button_json_chars(*button);
                fields.push(field("button", &bv));
                let ghost before = char_texts(fields@);
                assert(before =~= seq![json_field("button"@, button_json(*button))]);
                push_type_and_window(&mut fields, "click", window);
                let xv = str_to_chars(x.json());
                fields.push(field("x", &xv));
                let yv = str_to_chars(y.json());
                fields.push(field("y", &yv));
                let line = object_line(&fields);
                assert(char_texts(fields@) =~= before + seq![type_field("click"@)]
                    + window_fields(window) + seq![
                    json_field("x"@, x@), json_field("y"@, y@)]);
                assert(automation_line(*self, window) == Ok::<Seq<char>, Seq<char>>(line@));
                Ok(line)
            },
            AutomationCommand::Scroll { dx, dy } => {
                let xv = str_to_chars(dx.json());
                fields.push(field("dx", &xv));
                let yv = str_to_chars(dy.json());
                fields.push(field("dy", &yv));
                let ghost before = char_texts(fields@);
                assert(before =~= seq![json_field("dx"@, dx@), json_field("dy"@, dy@)]);
                push_type_and_window(&mut fields, "scroll", window);
                let line = object_line(&fields);
                assert(char_texts(fields@) =~= before + seq![type_field("scroll"@)]
                    + window_fields(window) + Seq::<Seq<char>>::empty());
                assert(automation_line(*self, window) == Ok::<Seq<char>, Seq<char>>(line@));
                Ok(line)
            },
            AutomationCommand::Sleep { ms } => {
                let mv = decimal_chars(*ms);
                fields.push(field("ms", &mv));
                let ghost before = char_texts(fields@);
                assert(before =~= seq![json_field("ms"@, decimal(*ms as nat))]);
                push_type_and_window(&mut fields, "sleep", window);
                let line = object_line(&fields);
                assert(char_texts(fields@) =~= before + seq![type_field("sleep"@)]
                    + window_fields(window) + Seq::<Seq<char>>::empty());
                assert(automation_line(*self, window) == Ok::<Seq<char>, Seq<char>>(line@));
                Ok(line)
            },
        }
    }
}

fn button_json_chars(b: MouseButton) -> (r: Vec<char>)
    ensures
        r@ == button_json(b),
{
    match b {
        MouseButton::Named(NamedMouseButton::Left) => quoted_name("left"),
        MouseButton::Named(NamedMouseButton::Right) => quoted_name("right"),
        MouseButton::Named(NamedMouseButton::Middle) => quoted_name("middle"),
        MouseButton::Other(code) => decimal_chars(code as u64),
    }
}


/// The control line that asks for a screenshot, written to `path` when given.
pub open spec fn screenshot_line_spec(path: Option<Seq<char>>, window: Option<u64>) -> Seq<char> {
    control_line(
        match path {
            Some(p) => seq![json_field("path"@, json_string_text(p))],
            None => Seq::empty(),
        },
        "screenshot"@,
        window,
        Seq::empty(),
    )
}

/// The control line that asks for a screenshot of `window` (or of the default
/// window), written to `path` when given.
pub fn screenshot_line(path: Option<&str>, window: Option<u64>) -> (r: Result<String, String>)
    ensures
        r matches Ok(line) && line@ == screenshot_line_spec(
            match path {
                Some(p) => Some(p@),
                None => None,
            },
            window,
        ),
{
    let mut fields: Vec<Vec<char>> = Vec::new();
    match path {
        Some(p) => {
            let pv = json_string_chars(p);
            fields.push(field("path", &pv));
            assert(char_texts(fields@) =~= seq![json_field("path"@, json_string_text(p@))]);
        },
        None => {
            assert(char_texts(fields@) =~= Seq::<Seq<char>>::empty());
        },
    }
    let ghost before = char_texts(fields@);
    push_type_and_window(&mut fields, "screenshot", window);
    let line = object_line(&fields);
    assert(char_texts(fields@) =~= before + seq![type_field("screenshot"@)] + window_fields(window)
        + Seq::<Seq<char>>::empty());
    Ok(line)
}

/// The control line that asks for the list of windows.
pub fn list_line() -> (r: String)
    ensures
        r@ == "{\"type\":\"list\"}"@,
{
    fixed("{\"type\":\"list\"}")
}

/// The control line that asks `window` (or the default window) to close.
pub fn close_line(window: Option<u64>) -> (r: String)
    ensures
        r@ == control_line(Seq::empty(), "close"@, window, Seq::empty()),
{
    let mut fields: Vec<Vec<char>> = Vec::new();
    assert(char_texts(fields@) =~= Seq::<Seq<char>>::empty());
    push_type_and_window(&mut fields, "close", window);
    let line = object_line(&fields);
    assert(char_texts(fields@) =~= Seq::<Seq<char>>::empty() + seq![type_field("close"@)]
        + window_fields(window) + Seq::<Seq<char>>::empty());
    line
}

/// The control line that starts `command` (program and arguments) inside the
/// compositor. The compositor refuses a launch without a program, so an empty
/// command is refused here already.
pub fn launch_line(command: &Vec<String>) -> (r: Result<String, String>)
    ensures
        command@.len() == 0 ==> (r matches Err(e) && e@
            == "launch requires at least one command argument"@),
        command@.len() > 0 ==> (r matches Ok(line) && line@ == control_line(
            seq![json_field("command"@, json_string_array(strings_view(command@)))],
            "launch"@,
            None,
            Seq::empty(),
        )),
{
    if command.len() == 0 {
        return Err(fixed("launch requires at least one command argument"));
    }
    let mut fields: Vec<Vec<char>> = Vec::new();
    let cv = json_string_array_chars(command);
    fields.push(field("command", &cv));
    let ghost before = char_texts(fields@);
    assert(before =~= seq![json_field("command"@, json_string_array(strings_view(command@)))]);
    push_type_and_window(&mut fields, "launch", None);
    let line = object_line(&fields);
    assert(char_texts(fields@) =~= before + seq![type_field("launch"@)] + window_fields(None)
        + Seq::<Seq<char>>::empty());
    Ok(line)
}


/// The press action of the compositor's plain syntax that a key or button
/// transition corresponds to.
pub open spec fn key_action_as_press(a: KeyAction) -> PressAction {
    match a {
        KeyAction::Down => PressAction::Down,
        KeyAction::Up => PressAction::Up,
        KeyAction::Press => PressAction::Press,
    }
}

pub open spec fn mouse_action_as_press(a: MouseButtonAction) -> PressAction {
    match a {
        MouseButtonAction::Down => PressAction::Down,
        MouseButtonAction::Up => PressAction::Up,
        MouseButtonAction::Press => PressAction::Press,
    }
}

/// The name written for a transition reads back, in the compositor's
/// `down|up|press` syntax, as that same transition; so distinct transitions
/// are written differently.
pub proof fn lemma_action_names_round_trip(k: KeyAction, k2: KeyAction, m: MouseButtonAction, m2: MouseButtonAction)
    ensures
        press_action_spec(key_action_name(k)) == Ok::<PressAction, Seq<char>>(key_action_as_press(k)),
        press_action_spec(mouse_action_name(m)) == Ok::<PressAction, Seq<char>>(mouse_action_as_press(m)),
        key_action_name(k) == key_action_name(k2) ==> k == k2,
        mouse_action_name(m) == mouse_action_name(m2) ==> m == m2,
{
    reveal_strlit("down");
    reveal_strlit("up");
    reveal_strlit("press");
    assert("down"@.len() == 4);
    assert("up"@.len() == 2);
    assert("press"@.len() == 5);
}

} // verus!
