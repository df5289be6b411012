//! Verified text building: appending characters, decimal rendering of
//! integers, and the slash-correct join of a relative path onto a base URL.

use vstd::prelude::*;

verus! {

/// Relies on String::push: appends exactly the one given character.
#[verifier::external_body]
pub fn push_char(s: &mut String, c: char)
    ensures
        final(s)@ == old(s)@.push(c),
{
    s.push(c);
}

/// The character for one decimal digit.
pub open spec fn digit_char(d: int) -> char {
    if d == 0 {
        '0'
    } else if d == 1 {
        '1'
    } else if d == 2 {
        '2'
    } else if d == 3 {
        '3'
    } else if d == 4 {
        '4'
    } else if d == 5 {
        '5'
    } else if d == 6 {
        '6'
    } else if d == 7 {
        '7'
    } else if d == 8 {
        '8'
    } else {
        '9'
    }
}

/// The decimal digits of a natural number, most significant first.
pub open spec fn dec_digits(n: nat) -> Seq<char>
    decreases n,
{
    if n < 10 {
        seq![digit_char(n as int)]
    } else {
        dec_digits(n / 10) + seq![digit_char((n % 10) as int)]
    }
}

/// The decimal rendering of an integer, with a leading minus sign when
/// negative.
pub open spec fn dec_int(n: int) -> Seq<char> {
    if n < 0 {
        seq!['-'] + dec_digits((-n) as nat)
    } else {
        dec_digits(n as nat)
    }
}

fn digit_to_char(d: u64) -> (c: char)
    requires
        d < 10,
    ensures
        c == digit_char(d as int),
{
    match d {
        0 => '0',
        1 => '1',
        2 => '2',
        3 => '3',
        4 => '4',
        5 => '5',
        6 => '6',
        7 => '7',
        8 => '8',
        _ => '9',
    }
}

fn push_dec_digits(s: &mut String, n: u64)
    ensures
        final(s)@ == old(s)@ + dec_digits(n as nat),
    decreases n,
{
    if n >= 10 {
        push_dec_digits(s, n / 10);
        push_char(s, digit_to_char(n % 10));
    } else {
        push_char(s, digit_to_char(n));
    }
}

/// Appends the decimal rendering of `n` to `s`.
pub fn push_dec_int(s: &mut String, n: i32)
    ensures
        final(s)@ == old(s)@ + dec_int(n as int),
{
    if n < 0 {
        push_char(s, '-');
        let m: u64 = (-(n as i64)) as u64;
        assert(m as nat == (-(n as int)) as nat);
        push_dec_digits(s, m);
    } else {
        push_dec_digits(s, n as u64);
    }
}

/// The join of a relative path onto a base URL: exactly one slash stands
/// between them, whichever side supplied it.
pub open spec fn url_join(base: Seq<char>, rel: Seq<char>) -> Seq<char> {
    let base_slash = base.len() > 0 && base.last() == '/';
    let rel_slash = rel.len() > 0 && rel.first() == '/';
    if base_slash && rel_slash {
        base + rel.drop_first()
    } else if base_slash || rel_slash {
        base + rel
    } else {
        base + seq!['/'] + rel
    }
}

/// Joins `rel` onto `base` with slash-correct composition.
pub fn join_url(base: &str, rel: &str) -> (r: String)
    ensures
        r@ == url_join(base@, rel@),
{
    let base_len = base.unicode_len();
    let rel_len = rel.unicode_len();
    let base_slash = base_len > 0 && base.get_char(base_len - 1) == '/';
    let rel_slash = rel_len > 0 && rel.get_char(0) == '/';
    let mut out = String::from_str(base);
    if base_slash && rel_slash {
        let tail = rel.substring_char(1, rel_len);
        out.append(tail);
        assert(out@ =~= base@ + rel@.drop_first());
    } else if base_slash || rel_slash {
        out.append(rel);
    } else {
        push_char(&mut out, '/');
        out.append(rel);
        assert(out@ =~= base@ + seq!['/'] + rel@);
    }
    out
}

} // verus!
