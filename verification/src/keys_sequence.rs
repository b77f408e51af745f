//! The `keys` mini-language: literal text, `<...>` chords such as `<C-t>`,
//! special keys such as `<RET>`, waits such as `<w:500>`, and the escapes
//! `\<` and `\\`.
use vstd::prelude::*;

use crate::keycodes::{key_code_of, key_code_spec, key_to_code};
use crate::text::{
    ascii_upper, chars_to_string, find_char, lemma_find_char_at, lemma_find_char_none,
    lower_chars, lower_text, message, prefixed, parse_u64, parse_unsigned, slice_of, split_on,
    split_on_char, has_suffix, lemma_split_on_prefix, str_to_chars, strip_prefix, strip_prefix_chars, strip_suffix,
    strip_suffix_chars, text_is, to_ascii_upper, fixed,
};

verus! {

/// One step of a parsed key sequence.
#[derive(Debug, Clone, PartialEq, Eq)]
pub enum KeysSequenceAction {
    /// Text typed character by character.
    Text(String),
    /// Keys pressed together: modifiers first, the key last.
    Chord(Vec<u32>),
    /// A pause.
    Wait { duration_ms: u64 },
}

/// Mathematical value of a [`KeysSequenceAction`].
pub enum KeysAction {
    Text(Seq<char>),
    Chord(Seq<u32>),
    Wait(u64),
}

impl View for KeysSequenceAction {
    type V = KeysAction;

    open spec fn view(&self) -> KeysAction {
        match self {
            KeysSequenceAction::Text(t) => KeysAction::Text(t@),
            KeysSequenceAction::Chord(c) => KeysAction::Chord(c@),
            KeysSequenceAction::Wait { duration_ms } => KeysAction::Wait(*duration_ms),
        }
    }
}

pub open spec fn actions_view(v: Seq<KeysSequenceAction>) -> Seq<KeysAction> {
    v.map_values(|a: KeysSequenceAction| a@)
}

/// The `KeyboardEvent.code` name a chord modifier stands for.
pub open spec fn modifier_key_name(m: Seq<char>) -> Option<Seq<char>> {
    if m == "ControlLeft"@ || m == "ControlRight"@ || m == "ShiftLeft"@ || m == "ShiftRight"@
        || m == "AltLeft"@ || m == "AltRight"@ || m == "MetaLeft"@ || m == "MetaRight"@ {
        Some(m)
    } else if m == "C"@ || m == "Ctrl"@ || m == "Control"@ {
        Some("ControlLeft"@)
    } else if m == "S"@ || m == "Shift"@ {
        Some("ShiftLeft"@)
    } else if m == "A"@ || m == "M"@ || m == "Alt"@ {
        Some("AltLeft"@)
    } else if m == "s"@ || m == "Meta"@ || m == "Super"@ || m == "Win"@ {
        Some("MetaLeft"@)
    } else {
        None
    }
}

pub open spec fn modifier_code(m: Seq<char>) -> Option<u32> {
    match modifier_key_name(m) {
        Some(n) => key_code_spec(n),
        None => None,
    }
}

/// The key that a case-folded special-key alias such as `ret` or `esc` names.
pub open spec fn alias_key_name(lower: Seq<char>) -> Option<Seq<char>> {
    if lower == "ret"@ || lower == "return"@ || lower == "enter"@ {
        Some("Enter"@)
    } else if lower == "tab"@ {
        Some("Tab"@)
    } else if lower == "spc"@ || lower == "space"@ {
        Some("Space"@)
    } else if lower == "esc"@ || lower == "escape"@ {
        Some("Escape"@)
    } else if lower == "bs"@ || lower == "backspace"@ {
        Some("Backspace"@)
    } else if lower == "del"@ || lower == "delete"@ {
        Some("Delete"@)
    } else if lower == "up"@ {
        Some("ArrowUp"@)
    } else if lower == "down"@ {
        Some("ArrowDown"@)
    } else if lower == "left"@ {
        Some("ArrowLeft"@)
    } else if lower == "right"@ {
        Some("ArrowRight"@)
    } else {
        None
    }
}

/// The key that a single unshifted character names.
pub open spec fn single_char_key_name(c: char) -> Option<Seq<char>> {
    if 'a' <= c <= 'z' {
        Some(seq!['K', 'e', 'y', ascii_upper(c)])
    } else if 'A' <= c <= 'Z' {
        Some(seq!['K', 'e', 'y', c])
    } else if '0' <= c <= '9' {
        Some(seq!['D', 'i', 'g', 'i', 't', c])
    } else if c == '-' {
        Some("Minus"@)
    } else if c == '=' {
        Some("Equal"@)
    } else if c == '[' {
        Some("BracketLeft"@)
    } else if c == ']' {
        Some("BracketRight"@)
    } else if c == '\\' {
        Some("Backslash"@)
    } else if c == ';' {
        Some("Semicolon"@)
    } else if c == '\'' {
        Some("Quote"@)
    } else if c == '`' {
        Some("Backquote"@)
    } else if c == ',' {
        Some("Comma"@)
    } else if c == '.' {
        Some("Period"@)
    } else if c == '/' {
        Some("Slash"@)
    } else {
        None
    }
}

/// The key code the last part of a chord names: a `KeyboardEvent.code`
/// name, else a case-insensitive alias, else a single character.
pub open spec fn key_code_for(k: Seq<char>) -> Option<u32> {
    if key_code_spec(k) is Some {
        key_code_spec(k)
    } else {
        match alias_key_name(lower_text(k)) {
            Some(n) => key_code_spec(n),
            None => if k.len() == 1 {
                match single_char_key_name(k[0]) {
                    Some(n) => key_code_spec(n),
                    None => None,
                }
            } else {
                None
            },
        }
    }
}

pub open spec fn invalid_token(token: Seq<char>) -> Seq<char> {
    "invalid keys token: <"@ + token + ">"@
}

pub open spec fn has_empty_part(ps: Seq<Seq<char>>) -> bool {
    exists|i: int| 0 <= i < ps.len() && (#[trigger] ps[i]).len() == 0
}

/// The `-`-separated parts of a chord token; a trailing `--` ends the token
/// with the minus key.
pub open spec fn chord_parts_spec(token: Seq<char>) -> Result<Seq<Seq<char>>, Seq<char>> {
    if token == "-"@ {
        Err(invalid_token(token))
    } else {
        match strip_suffix(token, "--"@) {
            Some(prefix) => {
                let ps = split_on(prefix, '-');
                if prefix.len() == 0 || has_empty_part(ps) {
                    Err(invalid_token(token))
                } else {
                    Ok(ps.push("-"@))
                }
            },
            None => {
                let ps = split_on(token, '-');
                if has_empty_part(ps) {
                    Err(invalid_token(token))
                } else {
                    Ok(ps)
                }
            },
        }
    }
}

/// Code of the `i`-th part of a chord: every part but the last is a modifier.
pub open spec fn part_code(parts: Seq<Seq<char>>, token: Seq<char>, i: int) -> Result<u32, Seq<char>> {
    if parts[i].len() == 0 {
        Err(invalid_token(token))
    } else if i < parts.len() - 1 {
        match modifier_code(parts[i]) {
            Some(c) => Ok(c),
            None => Err("unknown modifier: "@ + parts[i]),
        }
    } else {
        match key_code_for(parts[i]) {
            Some(c) => Ok(c),
            None => Err("unknown key: "@ + parts[i]),
        }
    }
}

/// Codes of the first `n` parts, or the first error among them.
pub open spec fn codes_upto(parts: Seq<Seq<char>>, token: Seq<char>, n: int) -> Result<Seq<u32>, Seq<char>>
    decreases n,
{
    if n <= 0 {
        Ok(Seq::empty())
    } else {
        match codes_upto(parts, token, n - 1) {
            Err(e) => Err(e),
            Ok(cs) => match part_code(parts, token, n - 1) {
                Ok(c) => Ok(cs.push(c)),
                Err(e) => Err(e),
            },
        }
    }
}

pub open spec fn chord_spec(token: Seq<char>) -> Result<Seq<u32>, Seq<char>> {
    if token.len() == 0 {
        Err("empty keys token"@)
    } else {
        match chord_parts_spec(token) {
            Err(e) => Err(e),
            Ok(ps) => codes_upto(ps, token, ps.len() as int),
        }
    }
}

/// What the text between `<` and `>` stands for.
pub open spec fn angle_token_spec(token: Seq<char>) -> Result<KeysAction, Seq<char>> {
    match strip_prefix(token, "w:"@) {
        Some(d) => match parse_unsigned(d, u64::MAX as nat) {
            Some(v) => Ok(KeysAction::Wait(v as u64)),
            None => Err("invalid wait duration: <"@ + token + ">"@),
        },
        None => match chord_spec(token) {
            Ok(cs) => Ok(KeysAction::Chord(cs)),
            Err(e) => Err(e),
        },
    }
}

/// A lexical unit of a key sequence.
pub enum Lexeme {
    Literal(char),
    Angle(Seq<char>),
}

pub proof fn lemma_find_char_bound(s: Seq<char>, c: char)
    ensures
        find_char(s, c) < s.len(),
        find_char(s, c) >= 0 ==> s[find_char(s, c)] == c,
    decreases s.len(),
{
    if s.len() > 0 && s[0] != c {
        lemma_find_char_bound(s.drop_first(), c);
    }
}

/// The lexemes of `s`, and whether it ends inside an unclosed `<`.
#[verifier::opaque]
pub open spec fn lex(s: Seq<char>) -> (Seq<Lexeme>, bool)
    decreases s.len(),
{
    if s.len() == 0 {
        (Seq::empty(), false)
    } else if s[0] == '\\' && s.len() >= 2 && (s[1] == '\\' || s[1] == '<') {
        let (rest, u) = lex(s.skip(2));
        (seq![Lexeme::Literal(s[1])] + rest, u)
    } else if s[0] == '<' {
        let j = find_char(s.skip(1), '>');
        if j < 0 {
            (Seq::empty(), true)
        } else {
            proof {
                lemma_find_char_bound(s.skip(1), '>');
            }
            let (rest, u) = lex(s.skip(j + 2));
            (seq![Lexeme::Angle(s.subrange(1, j + 1))] + rest, u)
        }
    } else {
        let (rest, u) = lex(s.skip(1));
        (seq![Lexeme::Literal(s[0])] + rest, u)
    }
}

/// Actions so far with the pending text appended as a text action.
pub open spec fn flush(acts: Seq<KeysAction>, text: Seq<char>) -> Seq<KeysAction> {
    if text.len() > 0 {
        acts.push(KeysAction::Text(text))
    } else {
        acts
    }
}

/// Folding lexemes left to right into completed actions and pending text.
pub open spec fn fold_lexemes(lx: Seq<Lexeme>) -> Result<(Seq<KeysAction>, Seq<char>), Seq<char>>
    decreases lx.len(),
{
    if lx.len() == 0 {
        Ok((Seq::empty(), Seq::empty()))
    } else {
        match fold_lexemes(lx.drop_last()) {
            Err(e) => Err(e),
            Ok((acts, text)) => match lx.last() {
                Lexeme::Literal(c) => Ok((acts, text.push(c))),
                Lexeme::Angle(tok) => match angle_token_spec(tok) {
                    Err(e) => Err(e),
                    Ok(a) => Ok((flush(acts, text).push(a), Seq::empty())),
                },
            },
        }
    }
}

/// The actions a key sequence stands for, or the first error in it.
pub open spec fn keys_sequence_spec(input: Seq<char>) -> Result<Seq<KeysAction>, Seq<char>> {
    let (lx, unterminated) = lex(input);
    match fold_lexemes(lx) {
        Err(e) => Err(e),
        Ok((acts, text)) => if unterminated {
            Err("unterminated keys token"@)
        } else {
            Ok(flush(acts, text))
        },
    }
}

proof fn lemma_fold_err_extends(a: Seq<Lexeme>, b: Seq<Lexeme>)
    requires
        fold_lexemes(a) is Err,
    ensures
        fold_lexemes(a + b) == fold_lexemes(a),
    decreases b.len(),
{
    if b.len() == 0 {
        assert(a + b =~= a);
    } else {
        lemma_fold_err_extends(a, b.drop_last());
        assert((a + b).drop_last() =~= a + b.drop_last());
    }
}


proof fn lemma_codes_upto_err_extends(parts: Seq<Seq<char>>, token: Seq<char>, n: int, m: int)
    requires
        0 <= n <= m,
        codes_upto(parts, token, n) is Err,
    ensures
        codes_upto(parts, token, m) == codes_upto(parts, token, n),
    decreases m - n,
{
    if m > n {
        lemma_codes_upto_err_extends(parts, token, n, m - 1);
    }
}

proof fn lemma_lex_escape(s: Seq<char>, i: int)
    requires
        0 <= i,
        i + 1 < s.len(),
        s[i] == '\\',
        s[i + 1] == '\\' || s[i + 1] == '<',
    ensures
        lex(s.skip(i)).0 == seq![Lexeme::Literal(s[i + 1])] + lex(s.skip(i + 2)).0,
        lex(s.skip(i)).1 == lex(s.skip(i + 2)).1,
{
    reveal(lex);
    assert(s.skip(i).skip(2) =~= s.skip(i + 2));
}

proof fn lemma_lex_plain(s: Seq<char>, i: int)
    requires
        0 <= i < s.len(),
        !(s[i] == '\\' && i + 1 < s.len() && (s[i + 1] == '\\' || s[i + 1] == '<')),
        s[i] != '<',
    ensures
        lex(s.skip(i)).0 == seq![Lexeme::Literal(s[i])] + lex(s.skip(i + 1)).0,
        lex(s.skip(i)).1 == lex(s.skip(i + 1)).1,
{
    reveal(lex);
    assert(s.skip(i).skip(1) =~= s.skip(i + 1));
}

proof fn lemma_lex_angle(s: Seq<char>, i: int, k: int)
    requires
        0 <= i < k < s.len(),
        s[i] == '<',
        s[k] == '>',
        forall|m: int| i + 1 <= m < k ==> s[m] != '>',
    ensures
        lex(s.skip(i)).0 == seq![Lexeme::Angle(s.subrange(i + 1, k))] + lex(s.skip(k + 1)).0,
        lex(s.skip(i)).1 == lex(s.skip(k + 1)).1,
{
    reveal(lex);
    let r = s.skip(i);
    assert forall|m: int| 0 <= m < k - (i + 1) implies r.skip(1)[m] != '>' by {
        assert(r.skip(1)[m] == s[i + 1 + m]);
    }
    assert(r.skip(1)[k - (i + 1)] == s[k]);
    lemma_find_char_at(r.skip(1), '>', k - (i + 1));
    assert(r.subrange(1, k - i) =~= s.subrange(i + 1, k));
    assert(r.skip(k - i + 1) =~= s.skip(k + 1));
}

proof fn lemma_lex_unterminated(s: Seq<char>, i: int)
    requires
        0 <= i < s.len(),
        s[i] == '<',
        forall|m: int| i + 1 <= m < s.len() ==> s[m] != '>',
    ensures
        lex(s.skip(i)).0 == Seq::<Lexeme>::empty(),
        lex(s.skip(i)).1,
{
    reveal(lex);
    let r = s.skip(i);
    assert forall|m: int| 0 <= m < r.skip(1).len() implies r.skip(1)[m] != '>' by {
        assert(r.skip(1)[m] == s[i + 1 + m]);
    }
    lemma_find_char_none(r.skip(1), '>');
}

proof fn lemma_lex_empty(s: Seq<char>)
    requires
        s.len() == 0,
    ensures
        lex(s).0 == Seq::<Lexeme>::empty(),
        !lex(s).1,
{
    reveal(lex);
}

proof fn lemma_append_one(done: Seq<Lexeme>, x: Lexeme, rest: Seq<Lexeme>)
    ensures
        done + (seq![x] + rest) == done.push(x) + rest,
        done.push(x).drop_last() == done,
        done.push(x).last() == x,
{
    assert(done + (seq![x] + rest) =~= done.push(x) + rest);
    assert(done.push(x).drop_last() =~= done);
}

proof fn lemma_literal_step(
    s: Seq<char>,
    i: int,
    j: int,
    c: char,
    done: Seq<Lexeme>,
    acts: Seq<KeysAction>,
    text: Seq<char>,
) -> (nd: Seq<Lexeme>)
    requires
        lex(s).0 == done + lex(s.skip(i)).0,
        lex(s).1 == lex(s.skip(i)).1,
        lex(s.skip(i)).0 == seq![Lexeme::Literal(c)] + lex(s.skip(j)).0,
        lex(s.skip(i)).1 == lex(s.skip(j)).1,
        fold_lexemes(done) == Ok::<(Seq<KeysAction>, Seq<char>), Seq<char>>((acts, text)),
    ensures
        nd == done.push(Lexeme::Literal(c)),
        lex(s).0 == nd + lex(s.skip(j)).0,
        lex(s).1 == lex(s.skip(j)).1,
        fold_lexemes(nd) == Ok::<(Seq<KeysAction>, Seq<char>), Seq<char>>((acts, text.push(c))),
{
    lemma_append_one(done, Lexeme::Literal(c), lex(s.skip(j)).0);
    done.push(Lexeme::Literal(c))
}

fn parse_modifier(m: &[char]) -> (r: Option<u32>)
    ensures
        r == modifier_code(m@),
{
    if text_is(m, "ControlLeft") || text_is(m, "ControlRight") || text_is(m, "ShiftLeft")
        || text_is(m, "ShiftRight") || text_is(m, "AltLeft") || text_is(m, "AltRight")
        || text_is(m, "MetaLeft") || text_is(m, "MetaRight") {
        key_code_of(m)
    } else if text_is(m, "C") || text_is(m, "Ctrl") || text_is(m, "Control") {
        key_to_code("ControlLeft")
    } else if text_is(m, "S") || text_is(m, "Shift") {
        key_to_code("ShiftLeft")
    } else if text_is(m, "A") || text_is(m, "M") || text_is(m, "Alt") {
        key_to_code("AltLeft")
    } else if text_is(m, "s") || text_is(m, "Meta") || text_is(m, "Super") || text_is(m, "Win") {
        key_to_code("MetaLeft")
    } else {
        None
    }
}

fn parse_alias(lower: &[char]) -> (r: Option<Option<u32>>)
    ensures
        match r {
            Some(c) => alias_key_name(lower@) matches Some(n) && c == key_code_spec(n),
            None => alias_key_name(lower@) is None,
        },
{
    if text_is(lower, "ret") || text_is(lower, "return") || text_is(lower, "enter") {
        Some(key_to_code("Enter"))
    } else if text_is(lower, "tab") {
        Some(key_to_code("Tab"))
    } else if text_is(lower, "spc") || text_is(lower, "space") {
        Some(key_to_code("Space"))
    } else if text_is(lower, "esc") || text_is(lower, "escape") {
        Some(key_to_code("Escape"))
    } else if text_is(lower, "bs") || text_is(lower, "backspace") {
        Some(key_to_code("Backspace"))
    } else if text_is(lower, "del") || text_is(lower, "delete") {
        Some(key_to_code("Delete"))
    } else if text_is(lower, "up") {
        Some(key_to_code("ArrowUp"))
    } else if text_is(lower, "down") {
        Some(key_to_code("ArrowDown"))
    } else if text_is(lower, "left") {
        Some(key_to_code("ArrowLeft"))
    } else if text_is(lower, "right") {
        Some(key_to_code("ArrowRight"))
    } else {
        None
    }
}

/// Key code of a named key followed by a single character (`Key`, `Digit`).
fn prefixed_key(prefix: &str, c: char) -> (r: Option<u32>)
    ensures
        r == key_code_spec(prefix@.push(c)),
{
    let mut name = str_to_chars(prefix);
    name.push(c);
    key_code_of(&name)
}

/// Key code of the key a single character names.
pub fn single_char_key(c: char) -> (r: Option<u32>)
    ensures
        r == (match single_char_key_name(c) {
            Some(n) => key_code_spec(n),
            None => None,
        }),
{
    if 'a' <= c && c <= 'z' {
        let u = to_ascii_upper(c);
        let mut name: Vec<char> = Vec::new();
        name.push('K');
        name.push('e');
        name.push('y');
        name.push(u);
        assert(name@ =~= seq!['K', 'e', 'y', ascii_upper(c)]);
        key_code_of(&name)
    } else if 'A' <= c && c <= 'Z' {
        let mut name: Vec<char> = Vec::new();
        name.push('K');
        name.push('e');
        name.push('y');
        name.push(c);
        assert(name@ =~= seq!['K', 'e', 'y', c]);
        key_code_of(&name)
    } else if '0' <= c && c <= '9' {
        let mut name: Vec<char> = Vec::new();
        name.push('D');
        name.push('i');
        name.push('g');
        name.push('i');
        name.push('t');
        name.push(c);
        assert(name@ =~= seq!['D', 'i', 'g', 'i', 't', c]);
        key_code_of(&name)
    } else if c == '-' {
        key_to_code("Minus")
    } else if c == '=' {
        key_to_code("Equal")
    } else if c == '[' {
        key_to_code("BracketLeft")
    } else if c == ']' {
        key_to_code("BracketRight")
    } else if c == '\\' {
        key_to_code("Backslash")
    } else if c == ';' {
        key_to_code("Semicolon")
    } else if c == '\'' {
        key_to_code("Quote")
    } else if c == '`' {
        key_to_code("Backquote")
    } else if c == ',' {
        key_to_code("Comma")
    } else if c == '.' {
        key_to_code("Period")
    } else if c == '/' {
        key_to_code("Slash")
    } else {
        None
    }
}

fn parse_key(k: &[char]) -> (r: Option<u32>)
    ensures
        r == key_code_for(k@),
{
    let direct = key_code_of(k);
    if direct.is_some() {
        return direct;
    }
    let lower = lower_chars(k);
    match parse_alias(&lower) {
        Some(code) => code,
        None => {
            if k.len() == 1 {
                single_char_key(k[0])
            } else {
                None
            }
        },
    }
}

fn invalid_token_message(token: &[char]) -> (r: String)
    ensures
        r@ == invalid_token(token@),
{
    message("invalid keys token: <", token, ">")
}

fn chord_parts(token: &[char]) -> (r: Result<Vec<Vec<char>>, String>)
    ensures
        match r {
            Ok(ps) => chord_parts_spec(token@) matches Ok(sp) && ps@.len() == sp.len() && (forall|i: int|
                0 <= i < sp.len() ==> #[trigger] ps@[i]@ == sp[i]),
            Err(e) => chord_parts_spec(token@) == Err::<Seq<Seq<char>>, Seq<char>>(e@),
        },
{
    if text_is(token, "-") {
        return Err(invalid_token_message(token));
    }
    let (body, with_minus) = match strip_suffix_chars(token, "--") {
        Some(prefix) => {
            if prefix.len() == 0 {
                return Err(invalid_token_message(token));
            }
            (prefix, true)
        },
        None => (slice_of(token, 0, token.len()), false),
    };
    assert(token@.subrange(0, token@.len() as int) =~= token@);
    let mut parts = split_on_char(&body, '-');
    let ghost sp = split_on(body@, '-');
    let mut i: usize = 0;
    while i < parts.len()
        invariant
            i <= parts@.len(),
            parts@.len() == sp.len(),
            forall|k: int| 0 <= k < parts@.len() ==> #[trigger] parts@[k]@ == sp[k],
            forall|k: int| 0 <= k < i ==> (#[trigger] sp[k]).len() > 0,
            sp == split_on(body@, '-'),
            token@ != "-"@,
            with_minus ==> strip_suffix(token@, "--"@) == Some(body@) && body@.len() > 0,
            !with_minus ==> strip_suffix(token@, "--"@) is None && body@ == token@,
        decreases parts@.len() - i,
    {
        if parts[i].len() == 0 {
            assert(sp[i as int].len() == 0);
            assert(has_empty_part(sp));
            return Err(invalid_token_message(token));
        }
        i += 1;
    }
    assert(!has_empty_part(sp)) by {
        if has_empty_part(sp) {
            let k = choose|k: int| 0 <= k < sp.len() && (#[trigger] sp[k]).len() == 0;
            assert(sp[k].len() > 0);
        }
    }
    if with_minus {
        let minus = str_to_chars("-");
        parts.push(minus);
        assert(sp.push("-"@)[sp.len() as int] == "-"@);
    }
    Ok(parts)
}

fn parse_chord(token: &[char]) -> (r: Result<Vec<u32>, String>)
    ensures
        match r {
            Ok(cs) => chord_spec(token@) == Ok::<Seq<u32>, Seq<char>>(cs@),
            Err(e) => chord_spec(token@) == Err::<Seq<u32>, Seq<char>>(e@),
        },
{
    if token.len() == 0 {
        return Err(fixed("empty keys token"));
    }
    let parts = chord_parts(token)?;
    let ghost sp = match chord_parts_spec(token@) {
        Ok(sp) => sp,
        Err(_) => Seq::empty(),
    };
    let mut codes: Vec<u32> = Vec::new();
    let mut i: usize = 0;
    while i < parts.len()
        invariant
            chord_parts_spec(token@) == Ok::<Seq<Seq<char>>, Seq<char>>(sp),
            parts@.len() == sp.len(),
            forall|k: int| 0 <= k < parts@.len() ==> #[trigger] parts@[k]@ == sp[k],
            i <= parts@.len(),
            codes_upto(sp, token@, i as int) == Ok::<Seq<u32>, Seq<char>>(codes@),
        decreases parts@.len() - i,
    {
        let part = &parts[i];
        assert(part@ == sp[i as int]);
        if part.len() == 0 {
            proof {
                lemma_codes_upto_err_extends(sp, token@, i as int + 1, sp.len() as int);
            }
            return Err(invalid_token_message(token));
        }
        let code = if i + 1 < parts.len() {
            match parse_modifier(part) {
                Some(c) => c,
                None => {
                    proof {
                        lemma_codes_upto_err_extends(sp, token@, i as int + 1, sp.len() as int);
                    }
                    return Err(prefixed("unknown modifier: ", part));
                },
            }
        } else {
            match parse_key(part) {
                Some(c) => c,
                None => {
                    proof {
                        lemma_codes_upto_err_extends(sp, token@, i as int + 1, sp.len() as int);
                    }
                    return Err(prefixed("unknown key: ", part));
                },
            }
        };
        codes.push(code);
        i += 1;
    }
    Ok(codes)
}

fn parse_angle_token(token: &[char]) -> (r: Result<KeysSequenceAction, String>)
    ensures
        match r {
            Ok(a) => angle_token_spec(token@) == Ok::<KeysAction, Seq<char>>(a@),
            Err(e) => angle_token_spec(token@) == Err::<KeysAction, Seq<char>>(e@),
        },
{
    if let Some(duration) = strip_prefix_chars(token, "w:") {
        return match parse_u64(&duration) {
            Some(ms) => Ok(KeysSequenceAction::Wait { duration_ms: ms }),
            None => Err(message("invalid wait duration: <", token, ">")),
        };
    }
    let codes = parse_chord(token)?;
    Ok(KeysSequenceAction::Chord(codes))
}

fn flush_text(actions: &mut Vec<KeysSequenceAction>, text: &mut Vec<char>)
    ensures
        actions_view(final(actions)@) == flush(actions_view(old(actions)@), old(text)@),
        final(text)@ == Seq::<char>::empty(),
{
    if text.len() > 0 {
        let t = chars_to_string(text);
        actions.push(KeysSequenceAction::Text(t));
        *text = Vec::new();
        assert(actions_view(final(actions)@) =~= actions_view(old(actions)@).push(KeysAction::Text(old(text)@)));
    }
}

/// Parses a key sequence into text, chord and wait actions.
pub fn parse_keys_sequence(input: &str) -> (r: Result<Vec<KeysSequenceAction>, String>)
    ensures
        match r {
            Ok(acts) => keys_sequence_spec(input@) == Ok::<Seq<KeysAction>, Seq<char>>(actions_view(acts@)),
            Err(e) => keys_sequence_spec(input@) == Err::<Seq<KeysAction>, Seq<char>>(e@),
        },
{
    let s = str_to_chars(input);
    let mut actions: Vec<KeysSequenceAction> = Vec::new();
    let mut text: Vec<char> = Vec::new();
    let ghost mut done: Seq<Lexeme> = Seq::empty();
    let mut i: usize = 0;
    assert(s@.skip(0) =~= s@);
    assert(actions_view(actions@) =~= Seq::<KeysAction>::empty());
    while i < s.len()
        invariant
            s@ == input@,
            i <= s@.len(),
            lex(s@).0 == done + lex(s@.skip(i as int)).0,
            lex(s@).1 == lex(s@.skip(i as int)).1,
            fold_lexemes(done) == Ok::<(Seq<KeysAction>, Seq<char>), Seq<char>>((actions_view(actions@), text@)),
        decreases s@.len() - i,
    {
        let ghost acts0 = actions_view(actions@);
        let ghost text0 = text@;
        if s[i] != '<' && !(s[i] == '\\' && i + 1 < s.len() && (s[i + 1] == '\\' || s[i + 1] == '<')) {
            let c = s[i];
            proof {
                lemma_lex_plain(s@, i as int);
                done = lemma_literal_step(s@, i as int, i + 1, c, done, actions_view(actions@), text@);
            }
            text.push(c);
            i += 1;
            continue;
        }
        if s[i] == '\\' && i + 1 < s.len() && (s[i + 1] == '\\' || s[i + 1] == '<') {
            let c = s[i + 1];
            proof {
                lemma_lex_escape(s@, i as int);
                done = lemma_literal_step(s@, i as int, i + 2, c, done, actions_view(actions@), text@);
            }
            text.push(c);
            i += 2;
            continue;
        }
        let mut k: usize = i + 1;
        while k < s.len() && s[k] != '>'
            invariant
                i < k <= s@.len(),
                forall|m: int| i + 1 <= m < k ==> s@[m] != '>',
            decreases s@.len() - k,
        {
            k += 1;
        }
        if k >= s.len() {
            proof {
                lemma_lex_unterminated(s@, i as int);
                assert(done + Seq::<Lexeme>::empty() =~= done);
            }
            return Err(fixed("unterminated keys token"));
        }
        let token = slice_of(&s, i + 1, k);
        let ghost next = done.push(Lexeme::Angle(token@));
        proof {
            lemma_lex_angle(s@, i as int, k as int);
            lemma_append_one(done, Lexeme::Angle(token@), lex(s@.skip(k + 1)).0);
        }
        match parse_angle_token(&token) {
            Ok(a) => {
                flush_text(&mut actions, &mut text);
                actions.push(a);
                proof {
                    assert(actions_view(actions@) =~= flush(acts0, text0).push(a@));
                    done = next;
                }
            },
            Err(e) => {
                proof {
                    lemma_fold_err_extends(next, lex(s@.skip(k + 1)).0);
                }
                return Err(e);
            },
        }
        i = k + 1;
    }
    proof {
        lemma_lex_empty(s@.skip(i as int));
        assert(done + Seq::<Lexeme>::empty() =~= done);
    }
    flush_text(&mut actions, &mut text);
    Ok(actions)
}


pub open spec fn plain_text(s: Seq<char>) -> bool {
    forall|i: int| 0 <= i < s.len() ==> #[trigger] s[i] != '<' && s[i] != '\\'
}

/// Whether `lx` holds each character of `s` as a literal lexeme.
pub open spec fn all_literals(lx: Seq<Lexeme>, s: Seq<char>) -> bool {
    &&& lx.len() == s.len()
    &&& forall|i: int| 0 <= i < s.len() ==> #[trigger] lx[i] == Lexeme::Literal(s[i])
}

proof fn lemma_cons_lexeme(x: Lexeme, t: Seq<Lexeme>)
    ensures
        (seq![x] + t).len() == t.len() + 1,
        (seq![x] + t)[0] == x,
        forall|k: int| 0 < k <= t.len() ==> #[trigger] (seq![x] + t)[k] == t[k - 1],
{
}

proof fn lemma_lex_plain_text(s: Seq<char>, i: int)
    requires
        plain_text(s),
        0 <= i <= s.len(),
    ensures
        all_literals(lex(s.skip(i)).0, s.skip(i)),
        !lex(s.skip(i)).1,
    decreases s.len() - i,
{
    if i == s.len() {
        lemma_lex_empty(s.skip(i));
    } else {
        assert(s[i] != '<' && s[i] != '\\');
        lemma_lex_plain(s, i);
        lemma_lex_plain_text(s, i + 1);
        let lx = lex(s.skip(i)).0;
        let tail = lex(s.skip(i + 1)).0;
        assert(lx == seq![Lexeme::Literal(s[i])] + tail);
        lemma_cons_lexeme(Lexeme::Literal(s[i]), tail);
        assert forall|k: int| 0 <= k < s.skip(i).len() implies #[trigger] lx[k] == Lexeme::Literal(
            s.skip(i)[k],
        ) by {
            if k > 0 {
                assert((seq![Lexeme::Literal(s[i])] + tail)[k] == tail[k - 1]);
                assert(s.skip(i + 1)[k - 1] == s.skip(i)[k]);
            }
        }
    }
}

proof fn lemma_fold_literals(lx: Seq<Lexeme>, s: Seq<char>)
    requires
        all_literals(lx, s),
    ensures
        fold_lexemes(lx) == Ok::<(Seq<KeysAction>, Seq<char>), Seq<char>>((Seq::empty(), s)),
    decreases s.len(),
{
    if s.len() > 0 {
        assert(all_literals(lx.drop_last(), s.drop_last()));
        lemma_fold_literals(lx.drop_last(), s.drop_last());
        assert(lx.last() == Lexeme::Literal(s.last()));
        assert(s.drop_last().push(s.last()) =~= s);
        assert(fold_lexemes(lx) == Ok::<(Seq<KeysAction>, Seq<char>), Seq<char>>(
            (Seq::empty(), s.drop_last().push(s.last())),
        ));
    } else {
        assert(s =~= Seq::<char>::empty());
    }
}

/// Text without `<` and without `\` is typed as it stands: one text action
/// holding the whole input, or no action for empty input.
pub proof fn lemma_plain_text_is_typed_verbatim(s: Seq<char>)
    requires
        plain_text(s),
    ensures
        keys_sequence_spec(s) == Ok::<Seq<KeysAction>, Seq<char>>(
            if s.len() > 0 {
                seq![KeysAction::Text(s)]
            } else {
                Seq::empty()
            },
        ),
{
    lemma_lex_plain_text(s, 0);
    assert(s.skip(0) =~= s);
    lemma_fold_literals(lex(s).0, s);
    if s.len() > 0 {
        assert(flush(Seq::empty(), s) =~= seq![KeysAction::Text(s)]);
    }
}


/// The parts that follow a chord's first part when the rest of the token
/// after its first `-` is `k`; `None` when the token is malformed.
spec fn chord_rest_parts(k: Seq<char>) -> Option<Seq<Seq<char>>> {
    if k == "-"@ {
        Some(seq!["-"@])
    } else {
        match strip_suffix(k, "--"@) {
            Some(k2) => {
                let ps = split_on(k2, '-');
                if has_empty_part(ps) {
                    None
                } else {
                    Some(ps.push("-"@))
                }
            },
            None => {
                let ps = split_on(k, '-');
                if has_empty_part(ps) {
                    None
                } else {
                    Some(ps)
                }
            },
        }
    }
}

proof fn lemma_empty_part_after_head(p: Seq<char>, x: Seq<Seq<char>>)
    requires
        p.len() > 0,
    ensures
        has_empty_part(seq![p] + x) == has_empty_part(x),
{
    let y = seq![p] + x;
    if has_empty_part(x) {
        let i = choose|i: int| 0 <= i < x.len() && (#[trigger] x[i]).len() == 0;
        assert(y[i + 1] == x[i]);
    }
    if has_empty_part(y) {
        let j = choose|j: int| 0 <= j < y.len() && (#[trigger] y[j]).len() == 0;
        assert(j != 0);
        assert(y[j] == x[j - 1]);
    }
}

proof fn lemma_chord_parts_after_head(p: Seq<char>, k: Seq<char>)
    requires
        p.len() > 0,
        forall|i: int| 0 <= i < p.len() ==> p[i] != '-',
    ensures
        chord_parts_spec(p + seq!['-'] + k) == (match chord_rest_parts(k) {
            Some(r) => Ok::<Seq<Seq<char>>, Seq<char>>(seq![p] + r),
            None => Err(invalid_token(p + seq!['-'] + k)),
        }),
        chord_rest_parts(k) matches Some(r) ==> r.len() > 0 && !has_empty_part(r),
{
    reveal_strlit("-");
    reveal_strlit("--");
    let t = p + seq!['-'] + k;
    assert(t.len() >= 2);
    assert("-"@.len() == 1);
    assert("--"@ =~= seq!['-', '-']);
    assert(t != "-"@);
    if k.len() >= 2 {
        assert(t.skip(t.len() - 2) =~= k.skip(k.len() - 2));
        assert(k != "-"@);
        if has_suffix(k, "--"@) {
            let k2 = k.take(k.len() - 2);
            assert(t.take(t.len() - 2) =~= p + seq!['-'] + k2);
            lemma_split_on_prefix(p, k2, '-');
            lemma_empty_part_after_head(p, split_on(k2, '-'));
            let ps = split_on(k2, '-');
            assert((seq![p] + ps).push("-"@) =~= seq![p] + ps.push("-"@));
            if !has_empty_part(ps) {
                let r = ps.push("-"@);
                assert forall|i: int| 0 <= i < r.len() implies (#[trigger] r[i]).len() > 0 by {
                    if i < ps.len() {
                        assert(r[i] == ps[i]);
                        if ps[i].len() == 0 {
                            assert(has_empty_part(ps));
                        }
                    }
                }
            }
        } else {
            lemma_split_on_prefix(p, k, '-');
            lemma_empty_part_after_head(p, split_on(k, '-'));
            assert(split_on(k, '-').len() > 0);
        }
    } else if k.len() == 1 {
        if k[0] == '-' {
            assert(k =~= "-"@);
            assert(t.skip(t.len() - 2) =~= "--"@);
            assert(t.take(t.len() - 2) =~= p);
            lemma_split_on_prefix(p, k, '-');
            lemma_empty_part_after_head(p, Seq::<Seq<char>>::empty());
            assert(!has_empty_part(seq![p] + Seq::<Seq<char>>::empty()));
            assert(seq![p] + Seq::<Seq<char>>::empty() =~= seq![p]);
            assert(seq![p].push("-"@) =~= seq![p] + seq!["-"@]);
            assert(!has_empty_part(seq!["-"@]));
        } else {
            assert(k != "-"@);
            assert(t.skip(t.len() - 2)[1] == k[0]);
            assert(t.skip(t.len() - 2) != "--"@);
            lemma_split_on_prefix(p, k, '-');
            lemma_empty_part_after_head(p, split_on(k, '-'));
            assert(split_on(k, '-').len() > 0);
        }
    } else {
        assert(k != "-"@);
        assert(t.skip(t.len() - 2)[0] == p.last());
        assert(t.skip(t.len() - 2) != "--"@);
        lemma_split_on_prefix(p, k, '-');
        lemma_empty_part_after_head(p, split_on(k, '-'));
        assert(split_on(k, '-').len() > 0);
    }
}

proof fn lemma_codes_with_other_head(
    p1: Seq<char>,
    p2: Seq<char>,
    r: Seq<Seq<char>>,
    t1: Seq<char>,
    t2: Seq<char>,
    n: int,
)
    requires
        p1.len() > 0,
        p2.len() > 0,
        r.len() > 0,
        forall|i: int| 0 <= i < r.len() ==> (#[trigger] r[i]).len() > 0,
        modifier_code(p1) == modifier_code(p2),
        0 <= n <= r.len() + 1,
    ensures
        (codes_upto(seq![p1] + r, t1, n) is Ok) == (codes_upto(seq![p2] + r, t2, n) is Ok),
        codes_upto(seq![p1] + r, t1, n) is Ok ==> codes_upto(seq![p1] + r, t1, n) == codes_upto(
            seq![p2] + r,
            t2,
            n,
        ),
        codes_upto(seq![p1] + r, t1, n) is Ok && n >= 1 ==> modifier_code(p1) == Some(
            codes_upto(seq![p1] + r, t1, n)->Ok_0[0],
        ),
    decreases n,
{
    if n > 0 {
        lemma_codes_with_other_head(p1, p2, r, t1, t2, n - 1);
        let a = seq![p1] + r;
        let b = seq![p2] + r;
        if n - 1 > 0 {
            assert(a[n - 1] == r[n - 2]);
            assert(b[n - 1] == r[n - 2]);
        }
    }
}

/// Any two spellings of a modifier that name the same key are
/// interchangeable in a chord: `<m1-k>` parses exactly when `<m2-k>` does,
/// to the same codes, the first of which is that modifier's key.
pub proof fn lemma_modifier_aliases_interchangeable(m1: Seq<char>, m2: Seq<char>, k: Seq<char>)
    requires
        m1.len() > 0,
        m2.len() > 0,
        forall|i: int| 0 <= i < m1.len() ==> m1[i] != '-',
        forall|i: int| 0 <= i < m2.len() ==> m2[i] != '-',
        modifier_key_name(m1) == modifier_key_name(m2),
    ensures
        (chord_spec(m1 + seq!['-'] + k) is Ok) == (chord_spec(m2 + seq!['-'] + k) is Ok),
        chord_spec(m1 + seq!['-'] + k) is Ok ==> chord_spec(m1 + seq!['-'] + k) == chord_spec(
            m2 + seq!['-'] + k,
        ),
        chord_spec(m1 + seq!['-'] + k) is Ok ==> modifier_code(m1) == Some(
            chord_spec(m1 + seq!['-'] + k)->Ok_0[0],
        ),
{
    let t1 = m1 + seq!['-'] + k;
    let t2 = m2 + seq!['-'] + k;
    lemma_chord_parts_after_head(m1, k);
    lemma_chord_parts_after_head(m2, k);
    assert(t1.len() > 0 && t2.len() > 0);
    match chord_rest_parts(k) {
        Some(r) => {
            assert forall|i: int| 0 <= i < r.len() implies (#[trigger] r[i]).len() > 0 by {
                if r[i].len() == 0 {
                    assert(has_empty_part(r));
                }
            }
            lemma_codes_with_other_head(m1, m2, r, t1, t2, r.len() + 1int);
            assert((seq![m1] + r).len() == r.len() + 1);
            assert((seq![m2] + r).len() == r.len() + 1);
        },
        None => {},
    }
}

/// Whether two chord tokens are the same chord: both parse or neither does,
/// and to the same codes.
pub open spec fn same_chord(t1: Seq<char>, t2: Seq<char>) -> bool {
    &&& (chord_spec(t1) is Ok) == (chord_spec(t2) is Ok)
    &&& chord_spec(t1) is Ok ==> chord_spec(t1) == chord_spec(t2)
}

/// Each short modifier spelling names the left key of its kind: `C`, `Ctrl`
/// and `Control` the left Control key, `S` and `Shift` the left Shift key,
/// `A`, `M` and `Alt` the left Alt key, `s`, `Meta`, `Super` and `Win` the
/// left Meta key. So for every key `k`, `<Ctrl-k>` is the same chord as
/// `<ControlLeft-k>` (and so as `<C-k>`), and likewise for the others, and
/// such a chord starts with that modifier's key.
pub proof fn lemma_modifier_aliases(k: Seq<char>)
    ensures
        modifier_key_name("C"@) == Some("ControlLeft"@),
        modifier_key_name("Ctrl"@) == Some("ControlLeft"@),
        modifier_key_name("Control"@) == Some("ControlLeft"@),
        modifier_key_name("S"@) == Some("ShiftLeft"@),
        modifier_key_name("Shift"@) == Some("ShiftLeft"@),
        modifier_key_name("A"@) == Some("AltLeft"@),
        modifier_key_name("M"@) == Some("AltLeft"@),
        modifier_key_name("Alt"@) == Some("AltLeft"@),
        modifier_key_name("s"@) == Some("MetaLeft"@),
        modifier_key_name("Meta"@) == Some("MetaLeft"@),
        modifier_key_name("Super"@) == Some("MetaLeft"@),
        modifier_key_name("Win"@) == Some("MetaLeft"@),
        same_chord("C-"@ + k, "ControlLeft-"@ + k),
        chord_spec("C-"@ + k) is Ok ==> key_code_spec("ControlLeft"@) == Some(chord_spec("C-"@ + k)->Ok_0[0]),
        same_chord("Ctrl-"@ + k, "ControlLeft-"@ + k),
        chord_spec("Ctrl-"@ + k) is Ok ==> key_code_spec("ControlLeft"@) == Some(chord_spec("Ctrl-"@ + k)->Ok_0[0]),
        same_chord("Control-"@ + k, "ControlLeft-"@ + k),
        chord_spec("Control-"@ + k) is Ok ==> key_code_spec("ControlLeft"@) == Some(chord_spec("Control-"@ + k)->Ok_0[0]),
        same_chord("S-"@ + k, "ShiftLeft-"@ + k),
        chord_spec("S-"@ + k) is Ok ==> key_code_spec("ShiftLeft"@) == Some(chord_spec("S-"@ + k)->Ok_0[0]),
        same_chord("Shift-"@ + k, "ShiftLeft-"@ + k),
        chord_spec("Shift-"@ + k) is Ok ==> key_code_spec("ShiftLeft"@) == Some(chord_spec("Shift-"@ + k)->Ok_0[0]),
        same_chord("A-"@ + k, "AltLeft-"@ + k),
        chord_spec("A-"@ + k) is Ok ==> key_code_spec("AltLeft"@) == Some(chord_spec("A-"@ + k)->Ok_0[0]),
        same_chord("M-"@ + k, "AltLeft-"@ + k),
        chord_spec("M-"@ + k) is Ok ==> key_code_spec("AltLeft"@) == Some(chord_spec("M-"@ + k)->Ok_0[0]),
        same_chord("Alt-"@ + k, "AltLeft-"@ + k),
        chord_spec("Alt-"@ + k) is Ok ==> key_code_spec("AltLeft"@) == Some(chord_spec("Alt-"@ + k)->Ok_0[0]),
        same_chord("s-"@ + k, "MetaLeft-"@ + k),
        chord_spec("s-"@ + k) is Ok ==> key_code_spec("MetaLeft"@) == Some(chord_spec("s-"@ + k)->Ok_0[0]),
        same_chord("Meta-"@ + k, "MetaLeft-"@ + k),
        chord_spec("Meta-"@ + k) is Ok ==> key_code_spec("MetaLeft"@) == Some(chord_spec("Meta-"@ + k)->Ok_0[0]),
        same_chord("Super-"@ + k, "MetaLeft-"@ + k),
        chord_spec("Super-"@ + k) is Ok ==> key_code_spec("MetaLeft"@) == Some(chord_spec("Super-"@ + k)->Ok_0[0]),
        same_chord("Win-"@ + k, "MetaLeft-"@ + k),
        chord_spec("Win-"@ + k) is Ok ==> key_code_spec("MetaLeft"@) == Some(chord_spec("Win-"@ + k)->Ok_0[0]),
{
    reveal_strlit("A");
    reveal_strlit("A-");
    reveal_strlit("Alt");
    reveal_strlit("Alt-");
    reveal_strlit("AltLeft");
    reveal_strlit("AltLeft-");
    reveal_strlit("AltRight");
    reveal_strlit("C");
    reveal_strlit("C-");
    reveal_strlit("Control");
    reveal_strlit("Control-");
    reveal_strlit("ControlLeft");
    reveal_strlit("ControlLeft-");
    reveal_strlit("ControlRight");
    reveal_strlit("Ctrl");
    reveal_strlit("Ctrl-");
    reveal_strlit("M");
    reveal_strlit("M-");
    reveal_strlit("Meta");
    reveal_strlit("Meta-");
    reveal_strlit("MetaLeft");
    reveal_strlit("MetaLeft-");
    reveal_strlit("MetaRight");
    reveal_strlit("S");
    reveal_strlit("S-");
    reveal_strlit("Shift");
    reveal_strlit("Shift-");
    reveal_strlit("ShiftLeft");
    reveal_strlit("ShiftLeft-");
    reveal_strlit("ShiftRight");
    reveal_strlit("Super");
    reveal_strlit("Super-");
    reveal_strlit("Win");
    reveal_strlit("Win-");
    reveal_strlit("s");
    reveal_strlit("s-");
    assert("A"@.len() == 1 && "A"@[0] == 'A');
    assert("Alt"@.len() == 3 && "Alt"@[0] == 'A');
    assert("AltLeft"@.len() == 7 && "AltLeft"@[0] == 'A');
    assert("AltRight"@.len() == 8 && "AltRight"@[0] == 'A');
    assert("C"@.len() == 1 && "C"@[0] == 'C');
    assert("Control"@.len() == 7 && "Control"@[0] == 'C');
    assert("ControlLeft"@.len() == 11 && "ControlLeft"@[0] == 'C');
    assert("ControlRight"@.len() == 12 && "ControlRight"@[0] == 'C');
    assert("Ctrl"@.len() == 4 && "Ctrl"@[0] == 'C');
    assert("M"@.len() == 1 && "M"@[0] == 'M');
    assert("Meta"@.len() == 4 && "Meta"@[0] == 'M');
    assert("MetaLeft"@.len() == 8 && "MetaLeft"@[0] == 'M');
    assert("MetaRight"@.len() == 9 && "MetaRight"@[0] == 'M');
    assert("S"@.len() == 1 && "S"@[0] == 'S');
    assert("Shift"@.len() == 5 && "Shift"@[0] == 'S');
    assert("ShiftLeft"@.len() == 9 && "ShiftLeft"@[0] == 'S');
    assert("ShiftRight"@.len() == 10 && "ShiftRight"@[0] == 'S');
    assert("Super"@.len() == 5 && "Super"@[0] == 'S');
    assert("Win"@.len() == 3 && "Win"@[0] == 'W');
    assert("s"@.len() == 1 && "s"@[0] == 's');
    assert("C-"@ =~= "C"@ + seq!['-']);
    assert("C-"@ + k =~= "C"@ + seq!['-'] + k);
    assert("Ctrl-"@ =~= "Ctrl"@ + seq!['-']);
    assert("Ctrl-"@ + k =~= "Ctrl"@ + seq!['-'] + k);
    assert("Control-"@ =~= "Control"@ + seq!['-']);
    assert("Control-"@ + k =~= "Control"@ + seq!['-'] + k);
    assert("ControlLeft-"@ =~= "ControlLeft"@ + seq!['-']);
    assert("ControlLeft-"@ + k =~= "ControlLeft"@ + seq!['-'] + k);
    assert("S-"@ =~= "S"@ + seq!['-']);
    assert("S-"@ + k =~= "S"@ + seq!['-'] + k);
    assert("Shift-"@ =~= "Shift"@ + seq!['-']);
    assert("Shift-"@ + k =~= "Shift"@ + seq!['-'] + k);
    assert("ShiftLeft-"@ =~= "ShiftLeft"@ + seq!['-']);
    assert("ShiftLeft-"@ + k =~= "ShiftLeft"@ + seq!['-'] + k);
    assert("A-"@ =~= "A"@ + seq!['-']);
    assert("A-"@ + k =~= "A"@ + seq!['-'] + k);
    assert("M-"@ =~= "M"@ + seq!['-']);
    assert("M-"@ + k =~= "M"@ + seq!['-'] + k);
    assert("Alt-"@ =~= "Alt"@ + seq!['-']);
    assert("Alt-"@ + k =~= "Alt"@ + seq!['-'] + k);
    assert("AltLeft-"@ =~= "AltLeft"@ + seq!['-']);
    assert("AltLeft-"@ + k =~= "AltLeft"@ + seq!['-'] + k);
    assert("s-"@ =~= "s"@ + seq!['-']);
    assert("s-"@ + k =~= "s"@ + seq!['-'] + k);
    assert("Meta-"@ =~= "Meta"@ + seq!['-']);
    assert("Meta-"@ + k =~= "Meta"@ + seq!['-'] + k);
    assert("Super-"@ =~= "Super"@ + seq!['-']);
    assert("Super-"@ + k =~= "Super"@ + seq!['-'] + k);
    assert("Win-"@ =~= "Win"@ + seq!['-']);
    assert("Win-"@ + k =~= "Win"@ + seq!['-'] + k);
    assert("MetaLeft-"@ =~= "MetaLeft"@ + seq!['-']);
    assert("MetaLeft-"@ + k =~= "MetaLeft"@ + seq!['-'] + k);
    assert("Super"@[1] == 'u' && "Shift"@[1] == 'h');
    lemma_modifier_aliases_interchangeable("C"@, "ControlLeft"@, k);
    lemma_modifier_aliases_interchangeable("Ctrl"@, "ControlLeft"@, k);
    lemma_modifier_aliases_interchangeable("Control"@, "ControlLeft"@, k);
    lemma_modifier_aliases_interchangeable("S"@, "ShiftLeft"@, k);
    lemma_modifier_aliases_interchangeable("Shift"@, "ShiftLeft"@, k);
    lemma_modifier_aliases_interchangeable("A"@, "AltLeft"@, k);
    lemma_modifier_aliases_interchangeable("M"@, "AltLeft"@, k);
    lemma_modifier_aliases_interchangeable("Alt"@, "AltLeft"@, k);
    lemma_modifier_aliases_interchangeable("s"@, "MetaLeft"@, k);
    lemma_modifier_aliases_interchangeable("Meta"@, "MetaLeft"@, k);
    lemma_modifier_aliases_interchangeable("Super"@, "MetaLeft"@, k);
    lemma_modifier_aliases_interchangeable("Win"@, "MetaLeft"@, k);
}


/// Every modifier spelling names one of the eight modifier keys, whose own
/// name spells that same key.
pub proof fn lemma_modifier_names_a_modifier_key(m: Seq<char>)
    ensures
        modifier_key_name(m) matches Some(n) ==> modifier_key_name(n) == Some(n),
{
}

} // verus!
