//! The executable JSON parser, proved equal to the mathematical parser of
//! [`crate::json`].

use vstd::prelude::*;
use crate::json::{
    digits_count, hex_digit_val, is_digit, is_ws, spec_hex4, spec_keyword_at, spec_number,
    spec_parse_json, spec_string, spec_string_rest, spec_value, spec_elements,
    spec_elements_more, spec_members, spec_members_more, spec_string_len, spec_string_text,
    spec_value_len, elements_view, members_view,
    lemma_elements_view, lemma_members_view, ws_count, Json, JsonV, JSON_MAX_DEPTH,
};
use crate::text::push_char;

verus! {

broadcast use vstd::utf8::char_u32_cast;

/// Relies on char::from_u32: `Some` exactly on Unicode scalar values (not a
/// surrogate, at most 0x10FFFF), and the character is that code point.
#[verifier::external_body]
fn char_from_code(c: u32) -> (r: Option<char>)
    ensures
        r is Some <==> (c < 0xD800 || (0xE000 <= c && c <= 0x10FFFF)),
        r matches Some(ch) ==> ch as u32 == c,
{
    char::from_u32(c)
}

fn exec_is_ws(c: char) -> (r: bool)
    ensures
        r == is_ws(c),
{
    c == ' ' || c == '\t' || c == '\n' || c == '\r'
}

fn exec_is_digit(c: char) -> (r: bool)
    ensures
        r == is_digit(c),
{
    '0' <= c && c <= '9'
}

/// The first position at or after `i` that holds no whitespace.
fn skip_ws(s: &str, i: usize, len: usize) -> (r: usize)
    requires
        len == s@.len(),
        i <= len,
    ensures
        i <= r <= len,
        r as int == i + ws_count(s@, i as int),
    decreases len - i,
{
    if i < len && exec_is_ws(s.get_char(i)) {
        skip_ws(s, i + 1, len)
    } else {
        i
    }
}

/// The first position at or after `i` that holds no decimal digit.
fn digits_run(s: &str, i: usize, len: usize) -> (r: usize)
    requires
        len == s@.len(),
        i <= len,
    ensures
        i <= r <= len,
        r as int == i + digits_count(s@, i as int),
    decreases len - i,
{
    if i < len && exec_is_digit(s.get_char(i)) {
        digits_run(s, i + 1, len)
    } else {
        i
    }
}

fn hex_val(c: char) -> (r: Option<u32>)
    ensures
        (match hex_digit_val(c) {
            Some(v) => r matches Some(x) && x as int == v && x < 16,
            None => r is None,
        }),
{
    if '0' <= c && c <= '9' {
        Some(c as u32 - '0' as u32)
    } else if 'a' <= c && c <= 'f' {
        Some(10 + c as u32 - 'a' as u32)
    } else if 'A' <= c && c <= 'F' {
        Some(10 + c as u32 - 'A' as u32)
    } else {
        None
    }
}

/// The value of the four hexadecimal digits at `i`, if all four are there.
fn hex4(s: &str, i: usize, len: usize) -> (r: Option<u32>)
    requires
        len == s@.len(),
        i <= len,
    ensures
        (match r {
            Some(v) => spec_hex4(s@, i as int) == Some(v as int) && v < 0x10000,
            None => spec_hex4(s@, i as int) is None,
        }),
{
    if len - i < 4 {
        return None;
    }
    let a = hex_val(s.get_char(i));
    let b = hex_val(s.get_char(i + 1));
    let c = hex_val(s.get_char(i + 2));
    let d = hex_val(s.get_char(i + 3));
    match (a, b, c, d) {
        (Some(a), Some(b), Some(c), Some(d)) => Some(a * 4096 + b * 256 + c * 16 + d),
        _ => None,
    }
}

/// Whether `s` holds the given keyword at `i`.
fn check_keyword(s: &str, i: usize, len: usize, kw: &str) -> (r: bool)
    requires
        len == s@.len(),
        i <= len,
    ensures
        r == spec_keyword_at(s@, i as int, kw@),
{
    let kl = kw.unicode_len();
    if len - i < kl {
        return false;
    }
    let mut k: usize = 0;
    while k < kl
        invariant
            len == s@.len(),
            i <= len,
            kl == kw@.len(),
            len - i >= kl,
            k <= kl,
            forall|t: int| 0 <= t < k ==> s@[i + t] == kw@[t],
        decreases kl - k,
    {
        if s.get_char(i + k) != kw.get_char(k) {
            assert(s@.subrange(i as int, i + kw@.len()) != kw@) by {
                assert(s@.subrange(i as int, i + kw@.len())[k as int] != kw@[k as int]);
            }
            return false;
        }
        k = k + 1;
    }
    assert(s@.subrange(i as int, i + kw@.len()) =~= kw@);
    true
}

/// Parses a string literal beginning at `i`.
#[verifier::rlimit(100)]
fn parse_string(s: &str, i: usize, len: usize) -> (r: Option<(String, usize)>)
    requires
        len == s@.len(),
        i <= len,
    ensures
        (match r {
            Some((t, j)) => i < j <= len && spec_string(s@, i as int) == Some(
                (t@, (j - i) as nat),
            ),
            None => spec_string(s@, i as int) is None,
        }),
{
    if i >= len || s.get_char(i) != '"' {
        return None;
    }
    let start = i + 1;
    let mut p = start;
    let mut acc = String::new();
    loop
        invariant
            len == s@.len(),
            start <= p <= len,
            start == i + 1,
            i < len,
            s@[i as int] == '"',
            (spec_string_rest(s@, start as int, Seq::empty()) == match spec_string_rest(
                s@,
                p as int,
                acc@,
            ) {
                Some((t, n)) => Some((t, ((p - start) as nat + n) as nat)),
                None => None::<(Seq<char>, nat)>,
            }),
        decreases len - p,
    {
        if p >= len {
            return None;
        }
        let c = s.get_char(p);
        if c == '"' {
            let j = p + 1;
            assert(spec_string_rest(s@, p as int, acc@) == Some((acc@, 1nat)));
            return Some((acc, j));
        } else if c == '\\' {
            if p + 1 >= len {
                assert(spec_string_rest(s@, p as int, acc@) is None);
                return None;
            }
            let e = s.get_char(p + 1);
            let simple: Option<char> = if e == '"' {
                Some('"')
            } else if e == '\\' {
                Some('\\')
            } else if e == '/' {
                Some('/')
            } else if e == 'b' {
                Some('\u{8}')
            } else if e == 'f' {
                Some('\u{c}')
            } else if e == 'n' {
                Some('\n')
            } else if e == 'r' {
                Some('\r')
            } else if e == 't' {
                Some('\t')
            } else {
                None
            };
            match simple {
                Some(ch) => {
                    let ghost old_acc = acc@;
                    proof {
                        assert(spec_string_rest(s@, p as int, old_acc) == (
                        match spec_string_rest(s@, p as int + 2, old_acc.push(ch)) {
                            Some((t, n)) => Some((t, (2 + n) as nat)),
                            None => None::<(Seq<char>, nat)>,
                        }));
                    }
                    push_char(&mut acc, ch);
                    p = p + 2;
                },
                None => {
                    if e != 'u' {
                        return None;
                    }
                    match hex4(s, p + 2, len) {
                        None => {
                            return None;
                        },
                        Some(code) => {
                            if 0xD800 <= code && code <= 0xDBFF {
                                // A high surrogate: the low half must follow.
                                if len - p < 8 || s.get_char(p + 6) != '\\' || s.get_char(p + 7)
                                    != 'u' {
                                    return None;
                                }
                                match hex4(s, p + 8, len) {
                                    None => {
                                        return None;
                                    },
                                    Some(lo) => {
                                        if !(0xDC00 <= lo && lo <= 0xDFFF) {
                                            return None;
                                        }
                                        let scalar = 0x10000 + (code - 0xD800) * 0x400 + (lo
                                            - 0xDC00);
                                        match char_from_code(scalar) {
                                            None => {
                                                assert(false);
                                                return None;
                                            },
                                            Some(ch) => {
                                                let ghost old_acc = acc@;
                                                proof {
                                                    assert(((scalar as int) as u32) == scalar);
                                                    vstd::utf8::char_u32_cast(
                                                        ch,
                                                        (scalar as int) as u32,
                                                    );
                                                    assert(spec_string_rest(s@, p as int, old_acc)
                                                        == (match spec_string_rest(
                                                        s@,
                                                        p as int + 12,
                                                        old_acc.push(ch),
                                                    ) {
                                                        Some((t, n)) => Some((t, (12 + n) as nat)),
                                                        None => None::<(Seq<char>, nat)>,
                                                    }));
                                                }
                                                push_char(&mut acc, ch);
                                                p = p + 12;
                                            },
                                        }
                                    },
                                }
                            } else if 0xDC00 <= code && code <= 0xDFFF {
                                return None;
                            } else {
                                match char_from_code(code) {
                                    None => {
                                        assert(false);
                                        return None;
                                    },
                                    Some(ch) => {
                                        let ghost old_acc = acc@;
                                        proof {
                                            assert(((code as int) as u32) == code);
                                            vstd::utf8::char_u32_cast(ch, (code as int) as u32);
                                            assert(spec_string_rest(s@, p as int, old_acc) == (
                                            match spec_string_rest(
                                                s@,
                                                p as int + 6,
                                                old_acc.push(ch),
                                            ) {
                                                Some((t, n)) => Some((t, (6 + n) as nat)),
                                                None => None::<(Seq<char>, nat)>,
                                            }));
                                        }
                                        push_char(&mut acc, ch);
                                        p = p + 6;
                                    },
                                }
                            }
                        },
                    }
                },
            }
        } else if (c as u32) < 0x20 {
            return None;
        } else {
            let ghost old_acc = acc@;
            proof {
                assert(spec_string_rest(s@, p as int, old_acc) == (match spec_string_rest(
                    s@,
                    p as int + 1,
                    old_acc.push(c),
                ) {
                    Some((t, n)) => Some((t, (1 + n) as nat)),
                    None => None::<(Seq<char>, nat)>,
                }));
            }
            push_char(&mut acc, c);
            p = p + 1;
        }
    }
}

/// Parses a numeral beginning at `i`.
#[verifier::rlimit(100)]
fn parse_number(s: &str, i: usize, len: usize) -> (r: Option<(String, usize)>)
    requires
        len == s@.len(),
        i <= len,
    ensures
        (match r {
            Some((raw, j)) => i < j <= len && spec_number(s@, i as int) == Some(
                (raw@, (j - i) as nat),
            ),
            None => spec_number(s@, i as int) is None,
        }),
{
    if i >= len {
        return None;
    }
    let p = if s.get_char(i) == '-' {
        i + 1
    } else {
        i
    };
    if p >= len || !exec_is_digit(s.get_char(p)) {
        return None;
    }
    let ie = if s.get_char(p) == '0' {
        p + 1
    } else {
        digits_run(s, p, len)
    };
    let fe = if ie < len && s.get_char(ie) == '.' {
        let de = digits_run(s, ie + 1, len);
        if de == ie + 1 {
            return None;
        }
        de
    } else {
        ie
    };
    let end = if fe < len && (s.get_char(fe) == 'e' || s.get_char(fe) == 'E') {
        let q = if fe + 1 < len && (s.get_char(fe + 1) == '+' || s.get_char(fe + 1) == '-') {
            fe + 2
        } else {
            fe + 1
        };
        let ee = digits_run(s, q, len);
        if ee == q {
            return None;
        }
        ee
    } else {
        fe
    };
    let raw = s.substring_char(i, end);
    Some((String::from_str(raw), end))
}

/// Parses one value beginning exactly at `i`, with `d` levels of nesting
/// still allowed.
#[verifier::rlimit(100)]
fn parse_value(s: &str, i: usize, d: usize, len: usize) -> (r: Option<(Json, usize)>)
    requires
        len == s@.len(),
        i <= len,
    ensures
        (match r {
            Some((v, j)) => i < j <= len && spec_value(s@, i as int, d as nat) == Some(
                (v@, (j - i) as nat),
            ),
            None => spec_value(s@, i as int, d as nat) is None,
        }),
    decreases d, len - i, 0int,
{
    if i >= len {
        return None;
    }
    let c = s.get_char(i);
    if c == 'n' {
        if check_keyword(s, i, len, "null") {
            proof {
                reveal_strlit("null");
            }
            Some((Json::Null, i + 4))
        } else {
            None
        }
    } else if c == 't' {
        if check_keyword(s, i, len, "true") {
            proof {
                reveal_strlit("true");
            }
            Some((Json::Bool(true), i + 4))
        } else {
            None
        }
    } else if c == 'f' {
        if check_keyword(s, i, len, "false") {
            proof {
                reveal_strlit("false");
            }
            Some((Json::Bool(false), i + 5))
        } else {
            None
        }
    } else if c == '"' {
        match parse_string(s, i, len) {
            Some((t, j)) => Some((Json::Str(t), j)),
            None => None,
        }
    } else if c == '-' || exec_is_digit(c) {
        match parse_number(s, i, len) {
            Some((raw, j)) => Some((Json::Num(raw), j)),
            None => None,
        }
    } else if c == '[' {
        if d == 0 {
            None
        } else {
            match parse_elements(s, i + 1, d - 1, len) {
                Some((es, j)) => Some((Json::Arr(es), j)),
                None => None,
            }
        }
    } else if c == '{' {
        if d == 0 {
            None
        } else {
            match parse_members(s, i + 1, d - 1, len) {
                Some((ms, j)) => Some((Json::Obj(ms), j)),
                None => None,
            }
        }
    } else {
        None
    }
}

/// Parses the elements of an array, the opening bracket already consumed.
#[verifier::rlimit(100)]
fn parse_elements(s: &str, i: usize, d: usize, len: usize) -> (r: Option<(Vec<Json>, usize)>)
    requires
        len == s@.len(),
        i <= len,
    ensures
        (match r {
            Some((es, j)) => i < j <= len && spec_elements(s@, i as int, d as nat) == Some(
                (elements_view(es@), (j - i) as nat),
            ),
            None => spec_elements(s@, i as int, d as nat) is None,
        }),
    decreases d, len - i, 1int,
{
    let first = skip_ws(s, i, len);
    if first >= len {
        return None;
    }
    if s.get_char(first) == ']' {
        let empty: Vec<Json> = Vec::new();
        return Some((empty, first + 1));
    }
    let mut out: Vec<Json> = Vec::new();
    let mut cur = i;
    proof {
        let entry = spec_elements_more(s@, i as int, d as nat);
        if entry is Some {
            let (rest, rn) = entry.unwrap();
            assert(elements_view(out@) + rest =~= rest);
        }
    }
    loop
        invariant
            len == s@.len(),
            i <= cur <= len,
            spec_elements(s@, i as int, d as nat) == spec_elements_more(s@, i as int, d as nat),
            (spec_elements_more(s@, i as int, d as nat) == match spec_elements_more(
                s@,
                cur as int,
                d as nat,
            ) {
                Some((rest, rn)) => Some(
                    (elements_view(out@) + rest, ((cur - i) as nat + rn) as nat),
                ),
                None => None::<(Seq<JsonV>, nat)>,
            }),
        decreases len - cur,
    {
        let j0 = skip_ws(s, cur, len);
        if j0 >= len {
            return None;
        }
        match parse_value(s, j0, d, len) {
            None => {
                return None;
            },
            Some((v, jv_end)) => {
                let ghost gv = v;
                proof {
                    assert(spec_value_len(s@, j0 as int, d as nat) == (jv_end - j0) as nat);
                }
                let j2 = skip_ws(s, jv_end, len);
                if j2 >= len {
                    return None;
                }
                let ghost old_out = out@;
                let sep = s.get_char(j2);
                if sep == ',' {
                    out.push(v);
                    proof {
                        assert(spec_elements_more(s@, cur as int, d as nat) == (
                        match spec_elements_more(s@, (j2 + 1) as int, d as nat) {
                            Some((rest, rn)) => Some(
                                (seq![gv@] + rest, (((j2 + 1) - cur) as nat + rn) as nat),
                            ),
                            None => None::<(Seq<JsonV>, nat)>,
                        }));
                        lemma_push_elements(old_out, gv);
                        let tail = spec_elements_more(s@, (j2 + 1) as int, d as nat);
                        if tail is Some {
                            let (rest, rn) = tail.unwrap();
                            assert((elements_view(old_out) + (seq![gv@] + rest)) =~= (
                            elements_view(out@) + rest));
                        }
                    }
                    cur = j2 + 1;
                } else if sep == ']' {
                    out.push(v);
                    proof {
                        assert(spec_elements_more(s@, cur as int, d as nat) == Some(
                            (seq![gv@], (((j2 + 1) - cur) as nat) as nat),
                        ));
                        lemma_push_elements(old_out, gv);
                        assert((elements_view(old_out) + seq![gv@]) =~= elements_view(out@));
                    }
                    return Some((out, j2 + 1));
                } else {
                    return None;
                }
            },
        }
    }
}

/// Pushing one element extends the model by that element's model.
proof fn lemma_push_elements(es: Seq<Json>, x: Json)
    ensures
        elements_view(es.push(x)) == elements_view(es) + seq![x@],
{
    lemma_elements_view(es);
    lemma_elements_view(es.push(x));
    assert forall|k: int|
        0 <= k < es.len() + 1 implies elements_view(es.push(x))[k] == (elements_view(es) + seq![
        x@,
    ])[k] by {
        if k < es.len() {
            assert(es.push(x)[k] == es[k]);
            assert(elements_view(es.push(x))[k] == es.push(x)[k]@);
            assert(elements_view(es)[k] == es[k]@);
        } else {
            assert(es.push(x)[k] == x);
            assert(elements_view(es.push(x))[k] == es.push(x)[k]@);
        }
    }
    assert(elements_view(es.push(x)) =~= elements_view(es) + seq![x@]);
}

/// Pushing one member extends the model by that member's model.
proof fn lemma_push_members(ms: Seq<(String, Json)>, key: String, x: Json)
    ensures
        members_view(ms.push((key, x))) == members_view(ms) + seq![(key@, x@)],
{
    lemma_members_view(ms);
    lemma_members_view(ms.push((key, x)));
    assert forall|k: int|
        0 <= k < ms.len() + 1 implies members_view(ms.push((key, x)))[k] == (members_view(ms)
        + seq![(key@, x@)])[k] by {
        if k < ms.len() {
            assert(ms.push((key, x))[k] == ms[k]);
            assert(members_view(ms.push((key, x)))[k] == (ms.push((key, x))[k].0@, ms.push(
                (key, x),
            )[k].1@));
            assert(members_view(ms)[k] == (ms[k].0@, ms[k].1@));
        } else {
            assert(ms.push((key, x))[k] == (key, x));
            assert(members_view(ms.push((key, x)))[k] == (ms.push((key, x))[k].0@, ms.push(
                (key, x),
            )[k].1@));
        }
    }
    assert(members_view(ms.push((key, x))) =~= members_view(ms) + seq![(key@, x@)]);
}

/// Parses the members of an object, the opening brace already consumed.
#[verifier::rlimit(100)]
fn parse_members(s: &str, i: usize, d: usize, len: usize) -> (r: Option<
    (Vec<(String, Json)>, usize),
>)
    requires
        len == s@.len(),
        i <= len,
    ensures
        (match r {
            Some((ms, j)) => i < j <= len && spec_members(s@, i as int, d as nat) == Some(
                (members_view(ms@), (j - i) as nat),
            ),
            None => spec_members(s@, i as int, d as nat) is None,
        }),
    decreases d, len - i, 1int,
{
    let first = skip_ws(s, i, len);
    if first >= len {
        return None;
    }
    if s.get_char(first) == '}' {
        let empty: Vec<(String, Json)> = Vec::new();
        return Some((empty, first + 1));
    }
    let mut out: Vec<(String, Json)> = Vec::new();
    let mut cur = i;
    proof {
        let entry = spec_members_more(s@, i as int, d as nat);
        if entry is Some {
            let (rest, rn) = entry.unwrap();
            assert(members_view(out@) + rest =~= rest);
        }
    }
    loop
        invariant
            len == s@.len(),
            i <= cur <= len,
            spec_members(s@, i as int, d as nat) == spec_members_more(s@, i as int, d as nat),
            (spec_members_more(s@, i as int, d as nat) == match spec_members_more(
                s@,
                cur as int,
                d as nat,
            ) {
                Some((rest, rn)) => Some(
                    (members_view(out@) + rest, ((cur - i) as nat + rn) as nat),
                ),
                None => None::<(Seq<(Seq<char>, JsonV)>, nat)>,
            }),
        decreases len - cur,
    {
        let j0 = skip_ws(s, cur, len);
        if j0 >= len {
            return None;
        }
        match parse_string(s, j0, len) {
            None => {
                return None;
            },
            Some((key, jk)) => {
                proof {
                    assert(spec_string_len(s@, j0 as int) == (jk - j0) as nat);
                    assert(spec_string_text(s@, j0 as int) == key@);
                }
                let jc = skip_ws(s, jk, len);
                if jc >= len || s.get_char(jc) != ':' {
                    return None;
                }
                let jv = skip_ws(s, jc + 1, len);
                if jv >= len {
                    return None;
                }
                match parse_value(s, jv, d, len) {
                    None => {
                        return None;
                    },
                    Some((v, jv_end)) => {
                        let ghost gk = key;
                        let ghost gv = v;
                        proof {
                            assert(spec_value_len(s@, jv as int, d as nat) == (jv_end
                                - jv) as nat);
                        }
                        let j2 = skip_ws(s, jv_end, len);
                        if j2 >= len {
                            return None;
                        }
                        let ghost old_out = out@;
                        let sep = s.get_char(j2);
                        if sep == ',' {
                            out.push((key, v));
                            proof {
                                assert(spec_members_more(s@, cur as int, d as nat) == (
                                match spec_members_more(s@, (j2 + 1) as int, d as nat) {
                                    Some((rest, rn)) => Some(
                                        (
                                            seq![(gk@, gv@)] + rest,
                                            (((j2 + 1) - cur) as nat + rn) as nat,
                                        ),
                                    ),
                                    None => None::<(Seq<(Seq<char>, JsonV)>, nat)>,
                                }));
                                lemma_push_members(old_out, gk, gv);
                                let tail = spec_members_more(s@, (j2 + 1) as int, d as nat);
                                if tail is Some {
                                    let (rest, rn) = tail.unwrap();
                                    assert((members_view(old_out) + (seq![(gk@, gv@)] + rest))
                                        =~= (members_view(out@) + rest));
                                }
                            }
                            cur = j2 + 1;
                        } else if sep == '}' {
                            out.push((key, v));
                            proof {
                                assert(spec_members_more(s@, cur as int, d as nat) == Some(
                                    (seq![(gk@, gv@)], (((j2 + 1) - cur) as nat) as nat),
                                ));
                                lemma_push_members(old_out, gk, gv);
                                assert((members_view(old_out) + seq![(gk@, gv@)])
                                    =~= members_view(out@));
                            }
                            return Some((out, j2 + 1));
                        } else {
                            return None;
                        }
                    },
                }
            },
        }
    }
}

/// Parses a whole JSON document: one value, whitespace allowed around it,
/// every character consumed.
pub fn parse_json(s: &str) -> (r: Option<Json>)
    ensures
        (match r {
            Some(v) => spec_parse_json(s@) == Some(v@),
            None => spec_parse_json(s@) is None,
        }),
{
    let len = s.unicode_len();
    let i0 = skip_ws(s, 0, len);
    match parse_value(s, i0, JSON_MAX_DEPTH, len) {
        None => None,
        Some((v, j)) => {
            let j2 = skip_ws(s, j, len);
            if j2 == len {
                Some(v)
            } else {
                None
            }
        },
    }
}

} // verus!
