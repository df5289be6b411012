//! The JSON wire format: a value tree, a mathematical parser over character
//! sequences, and a verified executable parser proved equal to it.
//!
//! Numbers are kept as their raw numeral text: the records of this API use
//! only integer fields, which are read out of the raw text on demand.
//! Nesting is bounded by [`JSON_MAX_DEPTH`]; a deeper document is rejected.
//!
//! The spec-level parser measures everything in characters consumed (a
//! `nat`), so that its mutual recursion visibly makes progress.

use vstd::prelude::*;

verus! {

/// How deep values may nest before the parser rejects the document.
pub const JSON_MAX_DEPTH: usize = 64;

/// A parsed JSON value.
pub enum Json {
    Null,
    Bool(bool),
    /// A number, as its raw numeral text.
    Num(String),
    Str(String),
    Arr(Vec<Json>),
    Obj(Vec<(String, Json)>),
}

/// The mathematical model of a JSON value.
pub enum JsonV {
    Null,
    Bool(bool),
    Num(Seq<char>),
    Str(Seq<char>),
    Arr(Seq<JsonV>),
    Obj(Seq<(Seq<char>, JsonV)>),
}

/// The model of a parsed element list.
pub open spec fn elements_view(es: Seq<Json>) -> Seq<JsonV>
    decreases es,
{
    if es.len() == 0 {
        Seq::empty()
    } else {
        seq![es[0]@] + elements_view(es.subrange(1, es.len() as int))
    }
}

/// The model of a parsed member list.
pub open spec fn members_view(ms: Seq<(String, Json)>) -> Seq<(Seq<char>, JsonV)>
    decreases ms,
{
    if ms.len() == 0 {
        Seq::empty()
    } else {
        seq![(ms[0].0@, ms[0].1@)] + members_view(ms.subrange(1, ms.len() as int))
    }
}

impl View for Json {
    type V = JsonV;

    open spec fn view(&self) -> JsonV
        decreases self,
    {
        match self {
            Json::Null => JsonV::Null,
            Json::Bool(b) => JsonV::Bool(*b),
            Json::Num(raw) => JsonV::Num(raw@),
            Json::Str(s) => JsonV::Str(s@),
            Json::Arr(es) => JsonV::Arr(elements_view(es@)),
            Json::Obj(ms) => JsonV::Obj(members_view(ms@)),
        }
    }
}

/// Each element's model stands at its element's place.
pub proof fn lemma_elements_view(es: Seq<Json>)
    ensures
        elements_view(es).len() == es.len(),
        forall|k: int| 0 <= k < es.len() ==> elements_view(es)[k] == #[trigger] es[k]@,
    decreases es.len(),
{
    if es.len() > 0 {
        let tail = es.subrange(1, es.len() as int);
        lemma_elements_view(tail);
        assert(elements_view(es) == seq![es[0]@] + elements_view(tail));
        assert forall|k: int| 0 <= k < es.len() implies elements_view(es)[k] == #[trigger] es[k]@ by {
            if k > 0 {
                assert(tail[k - 1] == es[k]);
            }
        }
    }
}

/// Each member's model stands at its member's place.
pub proof fn lemma_members_view(ms: Seq<(String, Json)>)
    ensures
        members_view(ms).len() == ms.len(),
        forall|k: int|
            0 <= k < ms.len() ==> members_view(ms)[k] == (#[trigger] ms[k].0@, ms[k].1@),
    decreases ms.len(),
{
    if ms.len() > 0 {
        let tail = ms.subrange(1, ms.len() as int);
        lemma_members_view(tail);
        assert(members_view(ms) == seq![(ms[0].0@, ms[0].1@)] + members_view(tail));
        assert forall|k: int|
            0 <= k < ms.len() implies members_view(ms)[k] == (#[trigger] ms[k].0@, ms[k].1@) by {
            if k > 0 {
                assert(tail[k - 1] == ms[k]);
            }
        }
    }
}

/// JSON whitespace.
pub open spec fn is_ws(c: char) -> bool {
    c == ' ' || c == '\t' || c == '\n' || c == '\r'
}

/// A decimal digit.
pub open spec fn is_digit(c: char) -> bool {
    '0' <= c && c <= '9'
}

/// The value of one hexadecimal digit, if it is one.
pub open spec fn hex_digit_val(c: char) -> Option<int> {
    if '0' <= c && c <= '9' {
        Some(c as int - '0' as int)
    } else if 'a' <= c && c <= 'f' {
        Some(10 + c as int - 'a' as int)
    } else if 'A' <= c && c <= 'F' {
        Some(10 + c as int - 'A' as int)
    } else {
        None
    }
}

/// How many whitespace characters stand at `i`.
pub open spec fn ws_count(s: Seq<char>, i: int) -> nat
    decreases s.len() - i,
{
    if 0 <= i && i < s.len() && is_ws(s[i]) {
        1 + ws_count(s, i + 1)
    } else {
        0
    }
}

/// How many decimal digits stand at `i`.
pub open spec fn digits_count(s: Seq<char>, i: int) -> nat
    decreases s.len() - i,
{
    if 0 <= i && i < s.len() && is_digit(s[i]) {
        1 + digits_count(s, i + 1)
    } else {
        0
    }
}

/// The value of the four hexadecimal digits at `i`, if all four are there.
pub open spec fn spec_hex4(s: Seq<char>, i: int) -> Option<int> {
    if 0 <= i && i + 4 <= s.len() {
        match (hex_digit_val(s[i]), hex_digit_val(s[i + 1]), hex_digit_val(s[i + 2]), hex_digit_val(
            s[i + 3],
        )) {
            (Some(a), Some(b), Some(c), Some(d)) => Some(a * 4096 + b * 256 + c * 16 + d),
            _ => None,
        }
    } else {
        None
    }
}

/// Parses the rest of a string literal, the opening quote already consumed,
/// accumulating the decoded characters; yields them with the count of
/// characters consumed from `i`, closing quote included.  Escapes cover the
/// eight simple ones and `\u`, with surrogate pairs composed into one
/// scalar; raw control characters are refused.
pub open spec fn spec_string_rest(s: Seq<char>, i: int, acc: Seq<char>) -> Option<(Seq<char>, nat)>
    decreases s.len() - i,
{
    if i < 0 || i >= s.len() {
        None
    } else if s[i] == '"' {
        Some((acc, 1))
    } else if s[i] == '\\' {
        if i + 1 >= s.len() {
            None
        } else {
            let e = s[i + 1];
            let simple: Option<char> = if e == '"' {
                Some('"')
            } else if e == '\\' {
                Some('\\')
            } else if e == '/' {
                Some('/')
            } else if e == 'b' {
                Some('\u{8}')
            } else if e == 'f' {
                Some('\u{c}')
            } else if e == 'n' {
                Some('\n')
            } else if e == 'r' {
                Some('\r')
            } else if e == 't' {
                Some('\t')
            } else {
                None
            };
            match simple {
                Some(c) => match spec_string_rest(s, i + 2, acc.push(c)) {
                    Some((t, n)) => Some((t, 2 + n)),
                    None => None,
                },
                None => {
                    if e == 'u' {
                        match spec_hex4(s, i + 2) {
                            None => None,
                            Some(code) => {
                                if 0xD800 <= code && code <= 0xDBFF {
                                    // A high surrogate: the low half must follow.
                                    if i + 8 <= s.len() && s[i + 6] == '\\' && s[i + 7] == 'u' {
                                        match spec_hex4(s, i + 8) {
                                            Some(lo) => {
                                                if 0xDC00 <= lo && lo <= 0xDFFF {
                                                    let scalar = 0x10000 + (code - 0xD800) * 0x400
                                                        + (lo - 0xDC00);
                                                    match spec_string_rest(
                                                        s,
                                                        i + 12,
                                                        acc.push((scalar as u32) as char),
                                                    ) {
                                                        Some((t, n)) => Some((t, 12 + n)),
                                                        None => None,
                                                    }
                                                } else {
                                                    None
                                                }
                                            },
                                            None => None,
                                        }
                                    } else {
                                        None
                                    }
                                } else if 0xDC00 <= code && code <= 0xDFFF {
                                    None
                                } else {
                                    match spec_string_rest(
                                        s,
                                        i + 6,
                                        acc.push((code as u32) as char),
                                    ) {
                                        Some((t, n)) => Some((t, 6 + n)),
                                        None => None,
                                    }
                                }
                            },
                        }
                    } else {
                        None
                    }
                },
            }
        }
    } else if (s[i] as u32) < 0x20 {
        None
    } else {
        match spec_string_rest(s, i + 1, acc.push(s[i])) {
            Some((t, n)) => Some((t, 1 + n)),
            None => None,
        }
    }
}

/// Parses a string literal beginning at `i`; yields the decoded text and
/// the count of characters consumed, quotes included.
pub open spec fn spec_string(s: Seq<char>, i: int) -> Option<(Seq<char>, nat)> {
    if 0 <= i && i < s.len() && s[i] == '"' {
        match spec_string_rest(s, i + 1, Seq::empty()) {
            Some((t, n)) => Some((t, 1 + n)),
            None => None,
        }
    } else {
        None
    }
}

/// How many characters an exponent part standing at `i` consumes: zero when
/// none is there, `None` when one starts but is malformed.
pub open spec fn spec_exp_count(s: Seq<char>, i: int) -> Option<nat> {
    if 0 <= i && i < s.len() && (s[i] == 'e' || s[i] == 'E') {
        let sgn: nat = if i + 1 < s.len() && (s[i + 1] == '+' || s[i + 1] == '-') {
            1
        } else {
            0
        };
        let dc = digits_count(s, i + 1 + sgn);
        if dc == 0 {
            None
        } else {
            Some(1 + sgn + dc)
        }
    } else {
        Some(0)
    }
}

/// How many characters a fraction part standing at `i` consumes.
pub open spec fn spec_frac_count(s: Seq<char>, i: int) -> Option<nat> {
    if 0 <= i && i < s.len() && s[i] == '.' {
        let dc = digits_count(s, i + 1);
        if dc == 0 {
            None
        } else {
            Some(1 + dc)
        }
    } else {
        Some(0)
    }
}

/// Parses a numeral beginning at `i`: an optional minus, an integer part
/// with no leading zero, an optional fraction, an optional exponent.
/// Yields the raw numeral text and the count of characters consumed.
pub open spec fn spec_number(s: Seq<char>, i: int) -> Option<(Seq<char>, nat)> {
    if i < 0 || i >= s.len() {
        None
    } else {
        let sgn: nat = if s[i] == '-' {
            1
        } else {
            0
        };
        let p = i + sgn;
        if p >= s.len() || !is_digit(s[p]) {
            None
        } else {
            let ic: nat = if s[p] == '0' {
                1
            } else {
                digits_count(s, p)
            };
            match spec_frac_count(s, p + ic) {
                None => None,
                Some(fc) => match spec_exp_count(s, p + ic + fc) {
                    None => None,
                    Some(ec) => {
                        let n = sgn + ic + fc + ec;
                        Some((s.subrange(i, i + n), n))
                    },
                },
            }
        }
    }
}

/// Whether `s` holds the given keyword at `i`.
pub open spec fn spec_keyword_at(s: Seq<char>, i: int, kw: Seq<char>) -> bool {
    0 <= i && i + kw.len() <= s.len() && s.subrange(i, i + kw.len()) == kw
}

/// How many characters the string literal at `i` consumes (zero when none
/// parses).
pub open spec fn spec_string_len(s: Seq<char>, i: int) -> nat {
    match spec_string(s, i) {
        Some((t, n)) => n,
        None => 0,
    }
}

/// The text of the string literal at `i` (empty when none parses).
pub open spec fn spec_string_text(s: Seq<char>, i: int) -> Seq<char> {
    match spec_string(s, i) {
        Some((t, n)) => t,
        None => Seq::empty(),
    }
}

/// Parses one value beginning exactly at `i` (no leading whitespace), with
/// `d` levels of nesting still allowed.  Yields the value and the count of
/// characters consumed.
pub open spec fn spec_value(s: Seq<char>, i: int, d: nat) -> Option<(JsonV, nat)>
    decreases d, s.len() - i, 0int, 0int,
{
    if i < 0 || i >= s.len() {
        None
    } else {
        let c = s[i];
        if c == 'n' {
            if spec_keyword_at(s, i, "null"@) {
                Some((JsonV::Null, 4))
            } else {
                None
            }
        } else if c == 't' {
            if spec_keyword_at(s, i, "true"@) {
                Some((JsonV::Bool(true), 4))
            } else {
                None
            }
        } else if c == 'f' {
            if spec_keyword_at(s, i, "false"@) {
                Some((JsonV::Bool(false), 5))
            } else {
                None
            }
        } else if c == '"' {
            match spec_string(s, i) {
                Some((t, n)) => Some((JsonV::Str(t), n)),
                None => None,
            }
        } else if c == '-' || is_digit(c) {
            match spec_number(s, i) {
                Some((raw, n)) => Some((JsonV::Num(raw), n)),
                None => None,
            }
        } else if c == '[' {
            if d == 0 {
                None
            } else {
                match spec_elements(s, i + 1, (d - 1) as nat) {
                    Some((es, n)) => Some((JsonV::Arr(es), 1 + n)),
                    None => None,
                }
            }
        } else if c == '{' {
            if d == 0 {
                None
            } else {
                match spec_members(s, i + 1, (d - 1) as nat) {
                    Some((ms, n)) => Some((JsonV::Obj(ms), 1 + n)),
                    None => None,
                }
            }
        } else {
            None
        }
    }
}

/// How many characters the value at `i` consumes (zero when none parses).
pub open spec fn spec_value_len(s: Seq<char>, i: int, d: nat) -> nat
    decreases d, s.len() - i, 0int, 1int,
{
    match spec_value(s, i, d) {
        Some((v, n)) => n,
        None => 0,
    }
}

/// Parses one or more array elements, comma separated, ending at the
/// closing bracket.  Whitespace before the first element is included in
/// the count.
pub open spec fn spec_elements_more(s: Seq<char>, i: int, d: nat) -> Option<(Seq<JsonV>, nat)>
    decreases d, s.len() - i, 1int, 0int,
{
    let w0 = ws_count(s, i);
    let j0 = i + w0;
    if j0 >= s.len() {
        None
    } else {
        match spec_value(s, j0, d) {
            None => None,
            Some((v, _)) => {
                let vn = spec_value_len(s, j0, d);
                let w1 = ws_count(s, j0 + vn);
                let j2 = j0 + vn + w1;
                if j2 >= s.len() {
                    None
                } else if s[j2] == ',' {
                    match spec_elements_more(s, j2 + 1, d) {
                        None => None,
                        Some((rest, rn)) => Some((seq![v] + rest, w0 + vn + w1 + 1 + rn)),
                    }
                } else if s[j2] == ']' {
                    Some((seq![v], w0 + vn + w1 + 1))
                } else {
                    None
                }
            },
        }
    }
}

/// Parses the elements of an array, the opening bracket already consumed.
/// Yields the elements and the count of characters consumed, closing
/// bracket included.
pub open spec fn spec_elements(s: Seq<char>, i: int, d: nat) -> Option<(Seq<JsonV>, nat)>
    decreases d, s.len() - i, 2int, 0int,
{
    let w0 = ws_count(s, i);
    let j0 = i + w0;
    if j0 >= s.len() {
        None
    } else if s[j0] == ']' {
        Some((Seq::empty(), w0 + 1))
    } else {
        spec_elements_more(s, i, d)
    }
}

/// Parses one or more object members, comma separated, ending at the
/// closing brace.  Whitespace before the first key is included in the
/// count.
pub open spec fn spec_members_more(s: Seq<char>, i: int, d: nat) -> Option<
    (Seq<(Seq<char>, JsonV)>, nat),
>
    decreases d, s.len() - i, 1int, 0int,
{
    let w0 = ws_count(s, i);
    let j0 = i + w0;
    if j0 >= s.len() {
        None
    } else {
        let kn = spec_string_len(s, j0);
        if kn == 0 {
            // A parsed key consumes at least its quotes.
            None
        } else {
            let key = spec_string_text(s, j0);
            let w1 = ws_count(s, j0 + kn);
            let jc = j0 + kn + w1;
            if jc >= s.len() || s[jc] != ':' {
                None
            } else {
                let w2 = ws_count(s, jc + 1);
                let jv = jc + 1 + w2;
                if jv >= s.len() {
                    None
                } else {
                match spec_value(s, jv, d) {
                    None => None,
                    Some((v, _)) => {
                        let vn = spec_value_len(s, jv, d);
                        let w3 = ws_count(s, jv + vn);
                        let j2 = jv + vn + w3;
                        if j2 >= s.len() {
                            None
                        } else if s[j2] == ',' {
                            match spec_members_more(s, j2 + 1, d) {
                                None => None,
                                Some((rest, rn)) => Some(
                                    (
                                        seq![(key, v)] + rest,
                                        w0 + kn + w1 + 1 + w2 + vn + w3 + 1 + rn,
                                    ),
                                ),
                            }
                        } else if s[j2] == '}' {
                            Some((seq![(key, v)], w0 + kn + w1 + 1 + w2 + vn + w3 + 1))
                        } else {
                            None
                        }
                    },
                }
                }
            }
        }
    }
}

/// Parses the members of an object, the opening brace already consumed.
/// Yields the members and the count of characters consumed, closing brace
/// included.
pub open spec fn spec_members(s: Seq<char>, i: int, d: nat) -> Option<(Seq<(Seq<char>, JsonV)>, nat)>
    decreases d, s.len() - i, 2int, 0int,
{
    let w0 = ws_count(s, i);
    let j0 = i + w0;
    if j0 >= s.len() {
        None
    } else if s[j0] == '}' {
        Some((Seq::empty(), w0 + 1))
    } else {
        spec_members_more(s, i, d)
    }
}

/// Parses a whole document: one value, whitespace allowed around it, every
/// character consumed.
pub open spec fn spec_parse_json(s: Seq<char>) -> Option<JsonV> {
    let i0 = ws_count(s, 0) as int;
    match spec_value(s, i0, JSON_MAX_DEPTH as nat) {
        Some((v, n)) => {
            if i0 + n + ws_count(s, i0 + n) == s.len() {
                Some(v)
            } else {
                None
            }
        },
        None => None,
    }
}

} // verus!
