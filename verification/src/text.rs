//! Character-level text utilities: conversion between `str`/`String` and
//! character vectors, whitespace handling, splitting and decimal numbers.
use vstd::prelude::*;

verus! {

/// The characters of `s`, in order.
pub fn str_to_chars(s: &str) -> (v: Vec<char>)
    ensures
        v@ == s@,
{
    let mut v: Vec<char> = Vec::new();
    for c in it: s.chars()
        invariant
            v@ == it.seq().take(it.index() as int),
            it.seq() == s@,
    {
        v.push(c);
    }
    v
}

/// Collects characters into a `String` with std's `FromIterator<&char>` for
/// `String`; the contract claims that the string holds exactly those
/// characters, in order.
#[verifier::external_body]
pub(crate) fn chars_to_string(v: &[char]) -> (s: String)
    ensures
        s@ == v@,
{
    v.iter().collect()
}

/// Whether `a` holds exactly the characters of `lit`.
pub fn text_is(a: &[char], lit: &str) -> (r: bool)
    ensures
        r == (a@ == lit@),
{
    let b = str_to_chars(lit);
    if a.len() != b.len() {
        return false;
    }
    let mut i: usize = 0;
    while i < a.len()
        invariant
            a@.len() == b@.len(),
            b@ == lit@,
            i <= a@.len(),
            forall|j: int| 0 <= j < i ==> a@[j] == b@[j],
        decreases a@.len() - i,
    {
        if a[i] != b[i] {
            return false;
        }
        i += 1;
    }
    assert(a@ =~= b@);
    true
}

/// Copy of `v[from..to]`.
pub fn slice_of(v: &[char], from: usize, to: usize) -> (r: Vec<char>)
    requires
        from <= to <= v@.len(),
    ensures
        r@ == v@.subrange(from as int, to as int),
{
    let mut r: Vec<char> = Vec::new();
    let mut i = from;
    while i < to
        invariant
            from <= i <= to <= v@.len(),
            r@ == v@.subrange(from as int, i as int),
        decreases to - i,
    {
        r.push(v[i]);
        assert(v@.subrange(from as int, i + 1) =~= v@.subrange(from as int, i as int).push(v@[i as int]));
        i += 1;
    }
    r
}

/// Unicode `White_Space`, the property that std's `char::is_whitespace` tests.
pub open spec fn is_ws(c: char) -> bool {
    let n = c as u32;
    ||| 9 <= n <= 13
    ||| n == 32
    ||| n == 0x85
    ||| n == 0xA0
    ||| n == 0x1680
    ||| 0x2000 <= n <= 0x200A
    ||| n == 0x2028
    ||| n == 0x2029
    ||| n == 0x202F
    ||| n == 0x205F
    ||| n == 0x3000
}

pub fn is_whitespace(c: char) -> (r: bool)
    ensures
        r == is_ws(c),
{
    let n = c as u32;
    (9 <= n && n <= 13) || n == 32 || n == 0x85 || n == 0xA0 || n == 0x1680 || (0x2000 <= n
        && n <= 0x200A) || n == 0x2028 || n == 0x2029 || n == 0x202F || n == 0x205F || n == 0x3000
}

/// `s` without its leading whitespace (`str::trim_start`).
pub open spec fn trim_start(s: Seq<char>) -> Seq<char>
    decreases s.len(),
{
    if s.len() > 0 && is_ws(s[0]) {
        trim_start(s.drop_first())
    } else {
        s
    }
}

/// `s` without its trailing whitespace (`str::trim_end`).
pub open spec fn trim_end(s: Seq<char>) -> Seq<char>
    decreases s.len(),
{
    if s.len() > 0 && is_ws(s.last()) {
        trim_end(s.drop_last())
    } else {
        s
    }
}

/// `s` without leading and trailing whitespace (`str::trim`).
pub open spec fn trim(s: Seq<char>) -> Seq<char> {
    trim_end(trim_start(s))
}

proof fn lemma_trim_start_step(s: Seq<char>, i: int)
    requires
        0 <= i < s.len(),
        is_ws(s[i]),
    ensures
        trim_start(s.subrange(i, s.len() as int)) == trim_start(s.subrange(i + 1, s.len() as int)),
{
    assert(s.subrange(i, s.len() as int).drop_first() =~= s.subrange(i + 1, s.len() as int));
}

proof fn lemma_trim_end_step(s: Seq<char>, j: int)
    requires
        0 < j <= s.len(),
        is_ws(s[j - 1]),
    ensures
        trim_end(s.subrange(0, j)) == trim_end(s.subrange(0, j - 1)),
{
    assert(s.subrange(0, j).drop_last() =~= s.subrange(0, j - 1));
}

pub fn trim_start_chars(v: &[char]) -> (r: Vec<char>)
    ensures
        r@ == trim_start(v@),
{
    let mut i: usize = 0;
    assert(v@.subrange(0, v@.len() as int) =~= v@);
    while i < v.len() && is_whitespace(v[i])
        invariant
            i <= v@.len(),
            trim_start(v@) == trim_start(v@.subrange(i as int, v@.len() as int)),
        decreases v@.len() - i,
    {
        proof {
            lemma_trim_start_step(v@, i as int);
        }
        i += 1;
    }
    assert(trim_start(v@.subrange(i as int, v@.len() as int)) == v@.subrange(
        i as int,
        v@.len() as int,
    ));
    slice_of(v, i, v.len())
}

pub fn trim_end_chars(v: &[char]) -> (r: Vec<char>)
    ensures
        r@ == trim_end(v@),
{
    let mut j: usize = v.len();
    assert(v@.subrange(0, v@.len() as int) =~= v@);
    while j > 0 && is_whitespace(v[j - 1])
        invariant
            j <= v@.len(),
            trim_end(v@) == trim_end(v@.subrange(0, j as int)),
        decreases j,
    {
        proof {
            lemma_trim_end_step(v@, j as int);
        }
        j -= 1;
    }
    slice_of(v, 0, j)
}

pub fn trim_chars(v: &[char]) -> (r: Vec<char>)
    ensures
        r@ == trim(v@),
{
    let a = trim_start_chars(v);
    trim_end_chars(&a)
}

/// Whether `s` begins with `p`.
pub open spec fn has_prefix(s: Seq<char>, p: Seq<char>) -> bool {
    p.len() <= s.len() && s.take(p.len() as int) == p
}

/// `s` without the prefix `p` when it has it (`str::strip_prefix`).
pub open spec fn strip_prefix(s: Seq<char>, p: Seq<char>) -> Option<Seq<char>> {
    if has_prefix(s, p) {
        Some(s.skip(p.len() as int))
    } else {
        None
    }
}

pub fn strip_prefix_chars(v: &[char], p: &str) -> (r: Option<Vec<char>>)
    ensures
        r matches Some(x) ==> strip_prefix(v@, p@) == Some(x@),
        r is None ==> strip_prefix(v@, p@) is None,
{
    let pc = str_to_chars(p);
    if pc.len() > v.len() {
        return None;
    }
    let head = slice_of(v, 0, pc.len());
    let mut i: usize = 0;
    while i < pc.len()
        invariant
            pc@ == p@,
            head@ == v@.subrange(0, pc@.len() as int),
            pc@.len() <= v@.len(),
            i <= pc@.len(),
            forall|j: int| 0 <= j < i ==> head@[j] == pc@[j],
        decreases pc@.len() - i,
    {
        if head[i] != pc[i] {
            assert(head@[i as int] != pc@[i as int]);
            assert(v@.take(pc@.len() as int) != p@);
            return None;
        }
        i += 1;
    }
    assert(head@ =~= pc@);
    assert(v@.take(pc@.len() as int) =~= head@);
    let rest = slice_of(v, pc.len(), v.len());
    assert(rest@ =~= v@.skip(pc@.len() as int));
    Some(rest)
}

/// Splitting `s` at whitespace, scanned left to right: the completed words and
/// the word still being read.
pub open spec fn split_state(s: Seq<char>) -> (Seq<Seq<char>>, Seq<char>)
    decreases s.len(),
{
    if s.len() == 0 {
        (Seq::empty(), Seq::empty())
    } else {
        let (ws, cur) = split_state(s.drop_last());
        let c = s.last();
        if is_ws(c) {
            if cur.len() > 0 {
                (ws.push(cur), Seq::empty())
            } else {
                (ws, Seq::empty())
            }
        } else {
            (ws, cur.push(c))
        }
    }
}

/// The maximal runs of non-whitespace characters of `s`, in order
/// (`str::split_whitespace`).
pub open spec fn words(s: Seq<char>) -> Seq<Seq<char>> {
    let (ws, cur) = split_state(s);
    if cur.len() > 0 {
        ws.push(cur)
    } else {
        ws
    }
}

/// The texts held by a sequence of character vectors.
pub open spec fn texts(v: Seq<Vec<char>>) -> Seq<Seq<char>> {
    v.map_values(|w: Vec<char>| w@)
}

pub fn split_whitespace_chars(v: &[char]) -> (r: Vec<Vec<char>>)
    ensures
        r@.len() == words(v@).len(),
        forall|i: int| 0 <= i < r@.len() ==> #[trigger] r@[i]@ == words(v@)[i],
        texts(r@) == words(v@),
{
    let mut ws: Vec<Vec<char>> = Vec::new();
    let mut cur: Vec<char> = Vec::new();
    let mut i: usize = 0;
    while i < v.len()
        invariant
            i <= v@.len(),
            ws@.len() == split_state(v@.take(i as int)).0.len(),
            forall|k: int| 0 <= k < ws@.len() ==> #[trigger] ws@[k]@ == split_state(v@.take(i as int)).0[k],
            cur@ == split_state(v@.take(i as int)).1,
        decreases v@.len() - i,
    {
        assert(v@.take(i + 1).drop_last() =~= v@.take(i as int));
        assert(v@.take(i + 1).last() == v@[i as int]);
        if is_whitespace(v[i]) {
            if cur.len() > 0 {
                ws.push(cur);
                cur = Vec::new();
            }
        } else {
            cur.push(v[i]);
        }
        i += 1;
    }
    assert(v@.take(v@.len() as int) =~= v@);
    if cur.len() > 0 {
        ws.push(cur);
    }
    assert(texts(ws@) =~= words(v@));
    ws
}

/// First word of a string that is non-empty and does not start with
/// whitespace is non-empty: such a string has at least one word.
pub proof fn lemma_words_nonempty(s: Seq<char>)
    requires
        s.len() > 0,
        !is_ws(s[0]),
    ensures
        words(s).len() > 0,
        split_state(s).0.len() > 0 || split_state(s).1.len() > 0,
    decreases s.len(),
{
    if s.len() == 1 {
        assert(s.drop_last() =~= Seq::<char>::empty());
    } else {
        lemma_words_nonempty(s.drop_last());
    }
}

pub open spec fn is_digit(c: char) -> bool {
    '0' <= c <= '9'
}

pub open spec fn digit_value(c: char) -> nat {
    (c as u32 - '0' as u32) as nat
}

pub open spec fn all_digits(s: Seq<char>) -> bool {
    forall|i: int| 0 <= i < s.len() ==> is_digit(#[trigger] s[i])
}

/// The number that the decimal digits `s` denote.
pub open spec fn digits_value(s: Seq<char>) -> nat
    decreases s.len(),
{
    if s.len() == 0 {
        0
    } else {
        digits_value(s.drop_last()) * 10 + digit_value(s.last())
    }
}

/// What std's `FromStr` for an unsigned integer type whose largest value is
/// `max` gives on `s`: an optional `+`, then one or more ASCII digits whose
/// value does not exceed `max`.
pub open spec fn parse_unsigned(s: Seq<char>, max: nat) -> Option<nat> {
    let body = if s.len() > 0 && s[0] == '+' {
        s.drop_first()
    } else {
        s
    };
    if body.len() > 0 && all_digits(body) && digits_value(body) <= max {
        Some(digits_value(body))
    } else {
        None
    }
}

proof fn lemma_digits_value_prefix(s: Seq<char>, k: int)
    requires
        0 <= k <= s.len(),
    ensures
        digits_value(s.take(k)) <= digits_value(s),
    decreases s.len(),
{
    if k < s.len() {
        assert(s.drop_last().take(k) =~= s.take(k));
        lemma_digits_value_prefix(s.drop_last(), k);
    } else {
        assert(s.take(k) =~= s);
    }
}

pub fn is_ascii_digit(c: char) -> (r: bool)
    ensures
        r == is_digit(c),
{
    '0' <= c && c <= '9'
}

/// Decimal `u64` as std's `str::parse::<u64>` reads it.
pub fn parse_u64(v: &[char]) -> (r: Option<u64>)
    ensures
        match r {
            Some(x) => parse_unsigned(v@, u64::MAX as nat) == Some(x as nat),
            None => parse_unsigned(v@, u64::MAX as nat) is None,
        },
{
    let start: usize = if v.len() > 0 && v[0] == '+' {
        1
    } else {
        0
    };
    let ghost body = if v@.len() > 0 && v@[0] == '+' {
        v@.drop_first()
    } else {
        v@
    };
    assert(body =~= v@.subrange(start as int, v@.len() as int));
    if start >= v.len() {
        return None;
    }
    let mut value: u64 = 0;
    let mut i: usize = start;
    while i < v.len()
        invariant
            start <= i <= v@.len(),
            body == v@.subrange(start as int, v@.len() as int),
            body == (if v@.len() > 0 && v@[0] == '+' { v@.drop_first() } else { v@ }),
            value as nat == digits_value(body.take(i - start)),
            all_digits(body.take(i - start)),
        decreases v@.len() - i,
    {
        let c = v[i];
        assert(body[i - start] == c);
        if !is_ascii_digit(c) {
            assert(!is_digit(body[i - start]));
            assert(!all_digits(body));
            assert(parse_unsigned(v@, u64::MAX as nat) is None);
            return None;
        }
        let ghost k: int = i - start + 1;
        assert(body.take(k).drop_last() =~= body.take(i - start));
        assert(body.take(k).last() == c);
        assert(all_digits(body.take(k)));
        let d = (c as u32 - '0' as u32) as u64;
        assert(digits_value(body.take(k)) == digits_value(body.take(i - start)) * 10 + d);
        match value.checked_mul(10) {
            Some(m) => match m.checked_add(d) {
                Some(n) => {
                    value = n;
                },
                None => {
                    proof {
                        lemma_digits_value_prefix(body, k);
                    }
                    assert(parse_unsigned(v@, u64::MAX as nat) is None);
                    return None;
                },
            },
            None => {
                proof {
                    lemma_digits_value_prefix(body, k);
                }
                assert(parse_unsigned(v@, u64::MAX as nat) is None);
                return None;
            },
        }
        i += 1;
    }
    assert(body.take(i - start) =~= body);
    Some(value)
}

/// Decimal `u32` as std's `str::parse::<u32>` reads it.
pub fn parse_u32(v: &[char]) -> (r: Option<u32>)
    ensures
        match r {
            Some(x) => parse_unsigned(v@, u32::MAX as nat) == Some(x as nat),
            None => parse_unsigned(v@, u32::MAX as nat) is None,
        },
{
    match parse_u64(v) {
        Some(x) => {
            if x <= u32::MAX as u64 {
                Some(x as u32)
            } else {
                None
            }
        },
        None => None,
    }
}

pub open spec fn digit_char(d: nat) -> char {
    (d + '0' as u32) as char
}

/// Decimal representation of `n` without sign or leading zeros, as std's
/// `Display` for unsigned integers writes it.
pub open spec fn decimal(n: nat) -> Seq<char>
    decreases n,
{
    if n < 10 {
        seq![digit_char(n)]
    } else {
        decimal(n / 10).push(digit_char(n % 10))
    }
}

pub fn push_decimal(out: &mut Vec<char>, n: u64)
    ensures
        final(out)@ == old(out)@ + decimal(n as nat),
    decreases n,
{
    if n >= 10 {
        push_decimal(out, n / 10);
    }
    let d = (n % 10) as u32;
    let c = ((d + 48) as u8) as char;
    assert(c == digit_char((n % 10) as nat));
    out.push(c);
    proof {
        if n >= 10 {
            assert(decimal(n as nat) == decimal((n / 10) as nat).push(digit_char((n % 10) as nat)));
        } else {
            assert(decimal(n as nat) == seq![digit_char(n as nat)]);
        }
    }
    assert(final(out)@ =~= old(out)@ + decimal(n as nat));
}

/// ASCII letters to lower case, other characters unchanged (`char::to_ascii_lowercase`).
pub open spec fn ascii_lower(c: char) -> char {
    if 'A' <= c <= 'Z' {
        ((c as u32) + 32) as char
    } else {
        c
    }
}

/// ASCII letters to upper case, other characters unchanged (`char::to_ascii_uppercase`).
pub open spec fn ascii_upper(c: char) -> char {
    if 'a' <= c <= 'z' {
        ((c as u32) - 32) as char
    } else {
        c
    }
}

pub fn to_ascii_lower(c: char) -> (r: char)
    ensures
        r == ascii_lower(c),
{
    if 'A' <= c && c <= 'Z' {
        ((c as u8) + 32) as char
    } else {
        c
    }
}

pub fn to_ascii_upper(c: char) -> (r: char)
    ensures
        r == ascii_upper(c),
{
    if 'a' <= c && c <= 'z' {
        ((c as u8) - 32) as char
    } else {
        c
    }
}

pub open spec fn lower_text(s: Seq<char>) -> Seq<char> {
    s.map_values(|c: char| ascii_lower(c))
}

pub fn lower_chars(v: &[char]) -> (r: Vec<char>)
    ensures
        r@ == lower_text(v@),
{
    let mut r: Vec<char> = Vec::new();
    let mut i: usize = 0;
    while i < v.len()
        invariant
            i <= v@.len(),
            r@ == lower_text(v@.take(i as int)),
        decreases v@.len() - i,
    {
        r.push(to_ascii_lower(v[i]));
        assert(lower_text(v@.take(i + 1)) =~= lower_text(v@.take(i as int)).push(ascii_lower(v@[i as int])));
        i += 1;
    }
    assert(v@.take(v@.len() as int) =~= v@);
    r
}

/// `a` followed by `b`.
pub fn concat(a: &[char], b: &[char]) -> (r: Vec<char>)
    ensures
        r@ == a@ + b@,
{
    let mut r = slice_of(a, 0, a.len());
    let mut i: usize = 0;
    assert(a@.subrange(0, a@.len() as int) =~= a@);
    while i < b.len()
        invariant
            i <= b@.len(),
            r@ == a@ + b@.take(i as int),
        decreases b@.len() - i,
    {
        r.push(b[i]);
        assert(a@ + b@.take(i + 1) =~= (a@ + b@.take(i as int)).push(b@[i as int]));
        i += 1;
    }
    assert(b@.take(b@.len() as int) =~= b@);
    r
}

/// A message made of a fixed text, a variable part and a fixed text.
pub fn message(prefix: &str, middle: &[char], suffix: &str) -> (r: String)
    ensures
        r@ == prefix@ + middle@ + suffix@,
{
    let p = str_to_chars(prefix);
    let s = str_to_chars(suffix);
    let pm = concat(&p, middle);
    let all = concat(&pm, &s);
    chars_to_string(&all)
}

/// A message made of a fixed text followed by a variable part.
pub fn prefixed(prefix: &str, rest: &[char]) -> (r: String)
    ensures
        r@ == prefix@ + rest@,
{
    let p = str_to_chars(prefix);
    let all = concat(&p, rest);
    chars_to_string(&all)
}

/// A fixed message.
pub fn fixed(text: &str) -> (r: String)
    ensures
        r@ == text@,
{
    let t = str_to_chars(text);
    chars_to_string(&t)
}

/// Whether `s` ends with `p`.
pub open spec fn has_suffix(s: Seq<char>, p: Seq<char>) -> bool {
    p.len() <= s.len() && s.skip(s.len() - p.len()) == p
}

/// `s` without the suffix `p` when it has it (`str::strip_suffix`).
pub open spec fn strip_suffix(s: Seq<char>, p: Seq<char>) -> Option<Seq<char>> {
    if has_suffix(s, p) {
        Some(s.take(s.len() - p.len()))
    } else {
        None
    }
}

pub fn strip_suffix_chars(v: &[char], p: &str) -> (r: Option<Vec<char>>)
    ensures
        r matches Some(x) ==> strip_suffix(v@, p@) == Some(x@),
        r is None ==> strip_suffix(v@, p@) is None,
{
    let pc = str_to_chars(p);
    if pc.len() > v.len() {
        return None;
    }
    let start = v.len() - pc.len();
    let tail = slice_of(v, start, v.len());
    if !text_is(&tail, p) {
        assert(v@.skip(v@.len() - p@.len()) =~= tail@);
        return None;
    }
    assert(v@.skip(v@.len() - p@.len()) =~= tail@);
    let head = slice_of(v, 0, start);
    assert(head@ =~= v@.take(v@.len() - p@.len()));
    Some(head)
}

/// Splitting `s` at each `sep`, scanned left to right: the completed pieces
/// and the piece still being read.
pub open spec fn split_on_state(s: Seq<char>, sep: char) -> (Seq<Seq<char>>, Seq<char>)
    decreases s.len(),
{
    if s.len() == 0 {
        (Seq::empty(), Seq::empty())
    } else {
        let (ps, cur) = split_on_state(s.drop_last(), sep);
        if s.last() == sep {
            (ps.push(cur), Seq::empty())
        } else {
            (ps, cur.push(s.last()))
        }
    }
}

/// The pieces of `s` between occurrences of `sep`, empty pieces included
/// (`str::split` with a character pattern).
pub open spec fn split_on(s: Seq<char>, sep: char) -> Seq<Seq<char>> {
    let (ps, cur) = split_on_state(s, sep);
    ps.push(cur)
}

pub fn split_on_char(v: &[char], sep: char) -> (r: Vec<Vec<char>>)
    ensures
        r@.len() == split_on(v@, sep).len(),
        forall|i: int| 0 <= i < r@.len() ==> #[trigger] r@[i]@ == split_on(v@, sep)[i],
{
    let mut ps: Vec<Vec<char>> = Vec::new();
    let mut cur: Vec<char> = Vec::new();
    let mut i: usize = 0;
    while i < v.len()
        invariant
            i <= v@.len(),
            ps@.len() == split_on_state(v@.take(i as int), sep).0.len(),
            forall|k: int| 0 <= k < ps@.len() ==> #[trigger] ps@[k]@ == split_on_state(v@.take(i as int), sep).0[k],
            cur@ == split_on_state(v@.take(i as int), sep).1,
        decreases v@.len() - i,
    {
        assert(v@.take(i + 1).drop_last() =~= v@.take(i as int));
        assert(v@.take(i + 1).last() == v@[i as int]);
        if v[i] == sep {
            ps.push(cur);
            cur = Vec::new();
        } else {
            cur.push(v[i]);
        }
        i += 1;
    }
    assert(v@.take(v@.len() as int) =~= v@);
    ps.push(cur);
    ps
}

proof fn lemma_split_state_no_sep(p: Seq<char>, sep: char)
    requires
        forall|i: int| 0 <= i < p.len() ==> p[i] != sep,
    ensures
        split_on_state(p, sep) == (Seq::<Seq<char>>::empty(), p),
    decreases p.len(),
{
    if p.len() > 0 {
        lemma_split_state_no_sep(p.drop_last(), sep);
        assert(p.drop_last().push(p.last()) =~= p);
    }
}

proof fn lemma_split_state_append(a: Seq<char>, b: Seq<char>, sep: char)
    requires
        a.len() > 0,
        a.last() == sep,
    ensures
        split_on_state(a + b, sep) == (
            split_on_state(a, sep).0 + split_on_state(b, sep).0,
            split_on_state(b, sep).1,
        ),
    decreases b.len(),
{
    if b.len() == 0 {
        assert(a + b =~= a);
        assert(split_on_state(a, sep).0 + split_on_state(b, sep).0 =~= split_on_state(a, sep).0);
    } else {
        lemma_split_state_append(a, b.drop_last(), sep);
        assert((a + b).drop_last() =~= a + b.drop_last());
        assert((a + b).last() == b.last());
        let a0 = split_on_state(a, sep).0;
        let (b0, b1) = split_on_state(b.drop_last(), sep);
        assert((a0 + b0).push(b1) =~= a0 + b0.push(b1));
    }
}

/// Splitting a piece free of `sep`, then `sep`, then `k`: that piece, then
/// the pieces of `k`.
pub proof fn lemma_split_on_prefix(p: Seq<char>, k: Seq<char>, sep: char)
    requires
        forall|i: int| 0 <= i < p.len() ==> p[i] != sep,
    ensures
        split_on(p + seq![sep] + k, sep) == seq![p] + split_on(k, sep),
        split_on(p, sep) == seq![p],
{
    let a = p + seq![sep];
    lemma_split_state_no_sep(p, sep);
    assert(a.drop_last() =~= p);
    lemma_split_state_append(a, k, sep);
    let (k0, k1) = split_on_state(k, sep);
    assert(split_on_state(a, sep).0 =~= seq![p]);
    assert((seq![p] + k0).push(k1) =~= seq![p] + k0.push(k1));
    assert(Seq::<Seq<char>>::empty().push(p) =~= seq![p]);
}

/// Index of the first `c` in `s`, or -1 when there is none.
pub open spec fn find_char(s: Seq<char>, c: char) -> int
    decreases s.len(),
{
    if s.len() == 0 {
        -1
    } else if s[0] == c {
        0
    } else {
        let k = find_char(s.drop_first(), c);
        if k < 0 {
            -1
        } else {
            k + 1
        }
    }
}

pub proof fn lemma_find_char_at(s: Seq<char>, c: char, n: int)
    requires
        0 <= n < s.len(),
        s[n] == c,
        forall|m: int| 0 <= m < n ==> s[m] != c,
    ensures
        find_char(s, c) == n,
    decreases n,
{
    if n > 0 {
        lemma_find_char_at(s.drop_first(), c, n - 1);
    }
}

pub proof fn lemma_find_char_none(s: Seq<char>, c: char)
    requires
        forall|m: int| 0 <= m < s.len() ==> s[m] != c,
    ensures
        find_char(s, c) == -1,
    decreases s.len(),
{
    if s.len() > 0 {
        lemma_find_char_none(s.drop_first(), c);
    }
}

/// Number of ASCII digits at the start of `s`.
pub open spec fn leading_digits(s: Seq<char>) -> nat
    decreases s.len(),
{
    if s.len() > 0 && is_digit(s[0]) {
        1 + leading_digits(s.drop_first())
    } else {
        0
    }
}

/// `s` without one leading `+` or `-`.
pub open spec fn strip_sign(s: Seq<char>) -> Seq<char> {
    if s.len() > 0 && (s[0] == '+' || s[0] == '-') {
        s.drop_first()
    } else {
        s
    }
}

/// An exponent: `e` or `E`, an optional sign, one or more digits.
pub open spec fn is_exponent(e: Seq<char>) -> bool {
    e.len() > 0 && (e[0] == 'e' || e[0] == 'E') && {
        let d = strip_sign(e.drop_first());
        d.len() > 0 && all_digits(d)
    }
}

/// Digits with an optional fractional part, at least one digit in all,
/// then an optional exponent.
pub open spec fn is_decimal_float(b: Seq<char>) -> bool {
    let i = leading_digits(b);
    let has_dot = i < b.len() && b[i as int] == '.';
    let f: nat = if has_dot {
        leading_digits(b.skip(i as int + 1))
    } else {
        0
    };
    let j: int = if has_dot {
        i as int + 1 + f as int
    } else {
        i as int
    };
    i + f > 0 && (j == b.len() || is_exponent(b.skip(j)))
}

/// `inf`, `infinity` or `nan` in any case.
pub open spec fn is_special_float(b: Seq<char>) -> bool {
    let l = lower_text(b);
    l == seq!['i', 'n', 'f'] || l == seq!['i', 'n', 'f', 'i', 'n', 'i', 't', 'y'] || l == seq![
        'n',
        'a',
        'n',
    ]
}

/// Whether std's `FromStr` for 64-bit floating point accepts `s`: an optional
/// sign, then `inf`, `infinity` or `nan` in any case, or a decimal number.
pub open spec fn is_float_literal(s: Seq<char>) -> bool {
    let b = strip_sign(s);
    is_special_float(b) || is_decimal_float(b)
}

proof fn lemma_leading_digits_step(s: Seq<char>, k: int)
    requires
        0 <= k < s.len(),
    ensures
        is_digit(s[k]) ==> leading_digits(s.skip(k)) == 1 + leading_digits(s.skip(k + 1)),
        !is_digit(s[k]) ==> leading_digits(s.skip(k)) == 0,
{
    assert(s.skip(k).drop_first() =~= s.skip(k + 1));
}

proof fn lemma_leading_digits_bound(s: Seq<char>)
    ensures
        leading_digits(s) <= s.len(),
        leading_digits(s) < s.len() ==> !is_digit(s[leading_digits(s) as int]),
        all_digits(s.take(leading_digits(s) as int)),
    decreases s.len(),
{
    if s.len() > 0 && is_digit(s[0]) {
        lemma_leading_digits_bound(s.drop_first());
        let n = leading_digits(s.drop_first());
        assert forall|i: int| 0 <= i < 1 + n implies is_digit(#[trigger] s.take(1 + n as int)[i]) by {
            if i > 0 {
                assert(s.take(1 + n as int)[i] == s.drop_first().take(n as int)[i - 1]);
            }
        }
    }
}

/// Index just past the digits that start at `from`.
pub fn digits_end(v: &[char], from: usize) -> (e: usize)
    requires
        from <= v@.len(),
    ensures
        from <= e <= v@.len(),
        e - from == leading_digits(v@.skip(from as int)),
{
    let mut e = from;
    while e < v.len() && is_ascii_digit(v[e])
        invariant
            from <= e <= v@.len(),
            leading_digits(v@.skip(from as int)) == (e - from) + leading_digits(v@.skip(e as int)),
        decreases v@.len() - e,
    {
        proof {
            lemma_leading_digits_step(v@, e as int);
        }
        e += 1;
    }
    proof {
        if e < v@.len() {
            lemma_leading_digits_step(v@, e as int);
        } else {
            assert(v@.skip(e as int).len() == 0);
        }
    }
    e
}

fn is_exponent_chars(e: &[char]) -> (r: bool)
    ensures
        r == is_exponent(e@),
{
    if e.len() == 0 || !(e[0] == 'e' || e[0] == 'E') {
        return false;
    }
    let start: usize = if e.len() > 1 && (e[1] == '+' || e[1] == '-') {
        2
    } else {
        1
    };
    let ghost d = strip_sign(e@.drop_first());
    assert(d =~= e@.skip(start as int));
    if start >= e.len() {
        return false;
    }
    let end = digits_end(e, start);
    proof {
        lemma_leading_digits_bound(d);
    }
    if end == e.len() {
        assert(d.take(d.len() as int) =~= d);
        true
    } else {
        assert(!is_digit(d[(end - start) as int]));
        false
    }
}

/// Whether `v` is a number as std's `f64` `FromStr` reads it.
pub fn is_float_literal_chars(v: &[char]) -> (r: bool)
    ensures
        r == is_float_literal(v@),
{
    let start: usize = if v.len() > 0 && (v[0] == '+' || v[0] == '-') {
        1
    } else {
        0
    };
    let ghost b = strip_sign(v@);
    assert(b =~= v@.skip(start as int));
    let body = slice_of(v, start, v.len());
    assert(body@ =~= b);
    let lower = lower_chars(&body);
    if text_is(&lower, "inf") || text_is(&lower, "infinity") || text_is(&lower, "nan") {
        proof {
            reveal_strlit("inf");
            reveal_strlit("infinity");
            reveal_strlit("nan");
            assert("inf"@ =~= seq!['i', 'n', 'f']);
            assert("infinity"@ =~= seq!['i', 'n', 'f', 'i', 'n', 'i', 't', 'y']);
            assert("nan"@ =~= seq!['n', 'a', 'n']);
        }
        return true;
    }
    proof {
        reveal_strlit("inf");
        reveal_strlit("infinity");
        reveal_strlit("nan");
        assert("inf"@ =~= seq!['i', 'n', 'f']);
        assert("infinity"@ =~= seq!['i', 'n', 'f', 'i', 'n', 'i', 't', 'y']);
        assert("nan"@ =~= seq!['n', 'a', 'n']);
    }
    assert(!is_special_float(b));
    let i = digits_end(&body, 0);
    assert(body@.skip(0) =~= body@);
    let has_dot = i < body.len() && body[i] == '.';
    let j = if has_dot {
        digits_end(&body, i + 1)
    } else {
        i
    };
    if i == 0 && j <= i + 1 {
        return false;
    }
    if j == body.len() {
        return true;
    }
    let rest = slice_of(&body, j, body.len());
    assert(rest@ =~= b.skip(j as int));
    is_exponent_chars(&rest)
}

/// `s` without one leading `-`.
pub open spec fn strip_minus(s: Seq<char>) -> Seq<char> {
    if s.len() > 0 && s[0] == '-' {
        s.drop_first()
    } else {
        s
    }
}

/// A JSON number: an optional `-`, an integer part without leading zeros, an
/// optional fraction of one or more digits, an optional exponent.
pub open spec fn is_json_number(s: Seq<char>) -> bool {
    let b = strip_minus(s);
    let i = leading_digits(b);
    let has_dot = i < b.len() && b[i as int] == '.';
    let f: nat = if has_dot {
        leading_digits(b.skip(i as int + 1))
    } else {
        0
    };
    let j: int = if has_dot {
        i as int + 1 + f as int
    } else {
        i as int
    };
    &&& i > 0
    &&& (i == 1 || b[0] != '0')
    &&& (has_dot ==> f > 0)
    &&& (j == b.len() || is_exponent(b.skip(j)))
}

/// Whether `v` is a JSON number.
pub fn is_json_number_chars(v: &[char]) -> (r: bool)
    ensures
        r == is_json_number(v@),
{
    let start: usize = if v.len() > 0 && v[0] == '-' {
        1
    } else {
        0
    };
    let ghost b = strip_minus(v@);
    assert(b =~= v@.skip(start as int));
    let body = slice_of(v, start, v.len());
    assert(body@ =~= b);
    let i = digits_end(&body, 0);
    assert(body@.skip(0) =~= body@);
    if i == 0 {
        return false;
    }
    if i > 1 && body[0] == '0' {
        return false;
    }
    let has_dot = i < body.len() && body[i] == '.';
    let j = if has_dot {
        digits_end(&body, i + 1)
    } else {
        i
    };
    if has_dot && j == i + 1 {
        return false;
    }
    if j == body.len() {
        return true;
    }
    let rest = slice_of(&body, j, body.len());
    assert(rest@ =~= b.skip(j as int));
    is_exponent_chars(&rest)
}

/// Whether `c` can occur in a JSON number.
pub open spec fn json_number_char(c: char) -> bool {
    is_digit(c) || c == '-' || c == '+' || c == '.' || c == 'e' || c == 'E'
}

/// A JSON number is made of digits, signs, a dot and an exponent letter.
pub proof fn lemma_json_number_chars(s: Seq<char>)
    requires
        is_json_number(s),
    ensures
        forall|k: int| 0 <= k < s.len() ==> json_number_char(#[trigger] s[k]),
{
    let b = strip_minus(s);
    let off: int = if s.len() > 0 && s[0] == '-' {
        1
    } else {
        0
    };
    assert(b =~= s.skip(off));
    let i = leading_digits(b);
    lemma_leading_digits_bound(b);
    let has_dot = i < b.len() && b[i as int] == '.';
    let rest = b.skip(i as int + 1);
    lemma_leading_digits_bound(rest);
    let f: nat = if has_dot {
        leading_digits(rest)
    } else {
        0
    };
    let j: int = if has_dot {
        i as int + 1 + f as int
    } else {
        i as int
    };
    assert forall|k: int| 0 <= k < b.len() implies json_number_char(#[trigger] b[k]) by {
        if k < i {
            assert(b.take(i as int)[k] == b[k]);
        } else if has_dot && k == i {
        } else if has_dot && k < j {
            assert(rest.take(f as int)[k - i - 1] == b[k]);
        } else {
            let e = b.skip(j);
            assert(is_exponent(e));
            let d = strip_sign(e.drop_first());
            let m = k - j;
            assert(e[m] == b[k]);
            if m == 0 {
            } else if e.len() > 1 && (e[1] == '+' || e[1] == '-') && m == 1 {
            } else {
                let sh: int = if e.len() > 1 && (e[1] == '+' || e[1] == '-') {
                    2
                } else {
                    1
                };
                assert(d =~= e.skip(sh));
                assert(d[m - sh] == e[m]);
                assert(all_digits(d));
            }
        }
    }
    assert forall|k: int| 0 <= k < s.len() implies json_number_char(#[trigger] s[k]) by {
        if k >= off {
            assert(s[k] == b[k - off]);
        }
    }
}

pub proof fn lemma_trim_start_props(s: Seq<char>)
    ensures
        trim_start(s).len() <= s.len(),
        trim_start(s) == s.skip(s.len() - trim_start(s).len()),
        trim_start(s).len() > 0 ==> !is_ws(trim_start(s)[0]),
        s.len() > 0 && !is_ws(s.last()) ==> trim_start(s).len() > 0,
    decreases s.len(),
{
    if s.len() > 0 && is_ws(s[0]) {
        lemma_trim_start_props(s.drop_first());
        assert(s.drop_first().skip(s.drop_first().len() - trim_start(s).len()) =~= s.skip(
            s.len() - trim_start(s).len(),
        ));
        if s.len() > 1 {
            assert(s.drop_first().last() == s.last());
        }
    } else {
        assert(s.skip(0) =~= s);
    }
}

pub proof fn lemma_trim_end_props(s: Seq<char>)
    ensures
        trim_end(s).len() <= s.len(),
        trim_end(s) == s.take(trim_end(s).len() as int),
        trim_end(s).len() > 0 ==> !is_ws(trim_end(s).last()),
    decreases s.len(),
{
    if s.len() > 0 && is_ws(s.last()) {
        lemma_trim_end_props(s.drop_last());
        assert(s.drop_last().take(trim_end(s).len() as int) =~= s.take(trim_end(s).len() as int));
    } else {
        assert(s.take(s.len() as int) =~= s);
    }
}

/// A trimmed text starts and ends with a non-whitespace character.
pub proof fn lemma_trim_props(s: Seq<char>)
    ensures
        trim(s).len() > 0 ==> !is_ws(trim(s)[0]) && !is_ws(trim(s).last()),
{
    lemma_trim_start_props(s);
    lemma_trim_end_props(trim_start(s));
    if trim(s).len() > 0 {
        assert(trim(s)[0] == trim_start(s)[0]);
    }
}

/// Index of the first whitespace character of `s`, or -1 when there is none.
pub open spec fn find_ws(s: Seq<char>) -> int
    decreases s.len(),
{
    if s.len() == 0 {
        -1
    } else if is_ws(s[0]) {
        0
    } else {
        let k = find_ws(s.drop_first());
        if k < 0 {
            -1
        } else {
            k + 1
        }
    }
}

pub proof fn lemma_find_ws_bound(s: Seq<char>)
    ensures
        find_ws(s) < s.len(),
        find_ws(s) >= 0 ==> is_ws(s[find_ws(s)]),
    decreases s.len(),
{
    if s.len() > 0 && !is_ws(s[0]) {
        lemma_find_ws_bound(s.drop_first());
    }
}

proof fn lemma_find_ws_at(s: Seq<char>, n: int)
    requires
        0 <= n <= s.len(),
        n < s.len() ==> is_ws(s[n]),
        forall|m: int| 0 <= m < n ==> !is_ws(s[m]),
    ensures
        find_ws(s) == (if n < s.len() { n } else { -1 }),
    decreases n,
{
    if n > 0 {
        lemma_find_ws_at(s.drop_first(), n - 1);
    }
}

/// Index of the first whitespace character of `v`, if any.
pub fn find_whitespace(v: &[char]) -> (r: Option<usize>)
    ensures
        match r {
            Some(p) => find_ws(v@) == p && p < v@.len(),
            None => find_ws(v@) == -1,
        },
{
    let mut p: usize = 0;
    while p < v.len() && !is_whitespace(v[p])
        invariant
            p <= v@.len(),
            forall|m: int| 0 <= m < p ==> !is_ws(v@[m]),
        decreases v@.len() - p,
    {
        p += 1;
    }
    proof {
        lemma_find_ws_at(v@, p as int);
    }
    if p < v.len() {
        Some(p)
    } else {
        None
    }
}

/// What std's `Debug` for `char` writes for `c`: the character quoted and
/// escaped.
pub uninterp spec fn char_debug_text(c: char) -> Seq<char>;

/// std's `Debug` formatting of a character (`format!("{c:?}")`); the
/// contract claims only that the text depends on the character alone.
#[verifier::external_body]
pub(crate) fn char_debug(c: char) -> (r: String)
    ensures
        r@ == char_debug_text(c),
{
    format!("{c:?}")
}

/// Two fixed texts joined.
pub fn join_str(a: &str, b: &str) -> (r: String)
    ensures
        r@ == a@ + b@,
{
    let ac = str_to_chars(a);
    let bc = str_to_chars(b);
    let all = concat(&ac, &bc);
    chars_to_string(&all)
}

/// A lower-case hexadecimal digit.
pub open spec fn hex_digit(d: nat) -> char {
    if d < 10 {
        (d + '0' as u32) as char
    } else {
        ((d - 10) + 'a' as u32) as char
    }
}

/// How JSON writes one character inside a string: `"` and `\` after a
/// backslash, the control characters backspace, tab, line feed, form feed and
/// carriage return as `\b \t \n \f \r`, the other control characters below
/// U+0020 as `\u00XX`, every other character as it is.
pub open spec fn json_escape(c: char) -> Seq<char> {
    if c == '"' {
        seq!['\\', '"']
    } else if c == '\\' {
        seq!['\\', '\\']
    } else if c == '\u{8}' {
        seq!['\\', 'b']
    } else if c == '\t' {
        seq!['\\', 't']
    } else if c == '\n' {
        seq!['\\', 'n']
    } else if c == '\u{c}' {
        seq!['\\', 'f']
    } else if c == '\r' {
        seq!['\\', 'r']
    } else if (c as u32) < 0x20 {
        seq![
            '\\',
            'u',
            '0',
            '0',
            hex_digit((c as u32 / 16) as nat),
            hex_digit((c as u32 % 16) as nat),
        ]
    } else {
        seq![c]
    }
}

/// The characters of `s`, each written as JSON writes it inside a string.
pub open spec fn json_escaped(s: Seq<char>) -> Seq<char>
    decreases s.len(),
{
    if s.len() == 0 {
        Seq::empty()
    } else {
        json_escaped(s.drop_last()) + json_escape(s.last())
    }
}

/// The JSON string literal for the text `s`: the escaped text in double
/// quotes, as `serde_json` writes it.
pub open spec fn json_string_text(s: Seq<char>) -> Seq<char> {
    seq!['"'] + json_escaped(s) + seq!['"']
}

/// Whether `s` holds no line feed.
pub open spec fn single_line(s: Seq<char>) -> bool {
    forall|i: int| 0 <= i < s.len() ==> s[i] != '\n'
}

pub proof fn lemma_single_line_concat(a: Seq<char>, b: Seq<char>)
    requires
        single_line(a),
        single_line(b),
    ensures
        single_line(a + b),
{
    assert forall|i: int| 0 <= i < (a + b).len() implies (a + b)[i] != '\n' by {
        if i < a.len() {
            assert((a + b)[i] == a[i]);
        } else {
            assert((a + b)[i] == b[i - a.len()]);
        }
    }
}

proof fn lemma_json_escaped_single_line(s: Seq<char>)
    ensures
        single_line(json_escaped(s)),
    decreases s.len(),
{
    if s.len() > 0 {
        lemma_json_escaped_single_line(s.drop_last());
        let c = s.last();
        let e = json_escape(c);
        if (c as u32) < 0x20 && c != '\u{8}' && c != '\t' && c != '\n' && c != '\u{c}' && c
            != '\r' {
            assert((c as u32 / 16) < 2);
            assert(e[4] == hex_digit((c as u32 / 16) as nat));
            assert(e[5] == hex_digit((c as u32 % 16) as nat));
        }
        assert(single_line(e));
        lemma_single_line_concat(json_escaped(s.drop_last()), e);
    }
}

/// A JSON string literal holds no line feed: line feeds in the text are
/// written as `\n`.
pub proof fn lemma_json_string_single_line(s: Seq<char>)
    ensures
        single_line(json_string_text(s)),
{
    lemma_json_escaped_single_line(s);
    lemma_single_line_concat(seq!['"'], json_escaped(s));
    lemma_single_line_concat(seq!['"'] + json_escaped(s), seq!['"']);
}

/// `serde_json::to_string` of a string slice. Serializing a string into
/// memory has no failure case; the empty string stands in for the error
/// branch that `serde_json`'s signature carries.
#[verifier::external_body]
pub(crate) fn json_quote(s: &str) -> (r: String)
    ensures
        r@ == json_string_text(s@),
{
    serde_json::to_string(s).unwrap_or_default()
}

/// Appends the characters of `s` to `out`.
pub fn push_str(out: &mut Vec<char>, s: &str)
    ensures
        final(out)@ == old(out)@ + s@,
{
    let v = str_to_chars(s);
    let mut i: usize = 0;
    while i < v.len()
        invariant
            v@ == s@,
            i <= v@.len(),
            out@ == old(out)@ + v@.take(i as int),
        decreases v@.len() - i,
    {
        out.push(v[i]);
        assert(old(out)@ + v@.take(i + 1) =~= (old(out)@ + v@.take(i as int)).push(v@[i as int]));
        i += 1;
    }
    assert(v@.take(v@.len() as int) =~= v@);
}

} // verus!
