//! The Conference record: the one data unit this API returns, and its
//! decoding out of a parsed JSON value.

use vstd::prelude::*;
use crate::json::{
    is_digit, members_view, elements_view, lemma_members_view, lemma_elements_view,
    spec_parse_json, Json, JsonV,
};
use crate::parse::parse_json;
use crate::text::{dec_digits, dec_int, digit_char};

verus! {

/// One conference / call-for-papers listing.  Constructed only by decoding
/// a server response; never mutated by the library.
#[derive(Clone, Debug)]
pub struct Conf {
    pub id: i32,
    pub name: String,
    pub cfp_deadline: String,
    pub conf_start_date: String,
    pub city: String,
    pub province: String,
    pub country: String,
    pub twitter: String,
    pub website: String,
    pub cfp_details: String,
    pub speaker_benefits: String,
    pub code_of_conduct: String,
    pub created_at: String,
    pub number_of_days: i32,
}

/// The mathematical model of a Conference record.
pub struct ConfV {
    pub id: int,
    pub name: Seq<char>,
    pub cfp_deadline: Seq<char>,
    pub conf_start_date: Seq<char>,
    pub city: Seq<char>,
    pub province: Seq<char>,
    pub country: Seq<char>,
    pub twitter: Seq<char>,
    pub website: Seq<char>,
    pub cfp_details: Seq<char>,
    pub speaker_benefits: Seq<char>,
    pub code_of_conduct: Seq<char>,
    pub created_at: Seq<char>,
    pub number_of_days: int,
}

impl View for Conf {
    type V = ConfV;

    open spec fn view(&self) -> ConfV {
        ConfV {
            id: self.id as int,
            name: self.name@,
            cfp_deadline: self.cfp_deadline@,
            conf_start_date: self.conf_start_date@,
            city: self.city@,
            province: self.province@,
            country: self.country@,
            twitter: self.twitter@,
            website: self.website@,
            cfp_details: self.cfp_details@,
            speaker_benefits: self.speaker_benefits@,
            code_of_conduct: self.code_of_conduct@,
            created_at: self.created_at@,
            number_of_days: self.number_of_days as int,
        }
    }
}

/// The model of a decoded record list.
pub open spec fn confs_view(cs: Seq<Conf>) -> Seq<ConfV> {
    Seq::new(cs.len(), |k: int| cs[k]@)
}

/// How many members carry the given key.
pub open spec fn key_count(ms: Seq<(Seq<char>, JsonV)>, key: Seq<char>) -> nat
    decreases ms.len(),
{
    if ms.len() == 0 {
        0
    } else {
        key_count(ms.drop_last(), key) + (if ms.last().0 == key {
            1nat
        } else {
            0nat
        })
    }
}

/// The value of the first member carrying the given key.
pub open spec fn lookup(ms: Seq<(Seq<char>, JsonV)>, key: Seq<char>) -> Option<JsonV>
    decreases ms.len(),
{
    if ms.len() == 0 {
        None
    } else {
        match lookup(ms.drop_last(), key) {
            Some(v) => Some(v),
            None => if ms.last().0 == key {
                Some(ms.last().1)
            } else {
                None
            },
        }
    }
}

/// Every character a decimal digit.
pub open spec fn all_digits(s: Seq<char>) -> bool {
    forall|k: int| 0 <= k < s.len() ==> is_digit(s[k])
}

/// The value of a digit sequence read as a decimal number.
pub open spec fn digits_val(s: Seq<char>) -> int
    decreases s.len(),
{
    if s.len() == 0 {
        0
    } else {
        digits_val(s.drop_last()) * 10 + (s.last() as int - '0' as int)
    }
}

/// The integer a raw JSON numeral denotes, if it is a plain integer (no
/// fraction, no exponent).
pub open spec fn spec_int_of(raw: Seq<char>) -> Option<int> {
    if raw.len() > 0 && raw[0] == '-' {
        let t = raw.subrange(1, raw.len() as int);
        if t.len() > 0 && all_digits(t) {
            Some(-digits_val(t))
        } else {
            None
        }
    } else if raw.len() > 0 && all_digits(raw) {
        Some(digits_val(raw))
    } else {
        None
    }
}

/// The decimal digits of a natural number are digits and decode back to it.
proof fn lemma_dec_digits_decode(n: nat)
    ensures
        all_digits(dec_digits(n)),
        digits_val(dec_digits(n)) == n,
        dec_digits(n).len() >= 1,
        is_digit(dec_digits(n)[0]),
    decreases n,
{
    if n < 10 {
        let s = seq![digit_char(n as int)];
        assert(dec_digits(n) == s);
        assert(s.len() == 1);
        assert(s.last() == digit_char(n as int));
        assert(s.drop_last() =~= Seq::<char>::empty());
        assert(digits_val(s.drop_last()) == 0);
        assert(digit_char(n as int) as int - '0' as int == n as int);
        assert(digits_val(s) == n);
    } else {
        lemma_dec_digits_decode(n / 10);
        let head = dec_digits(n / 10);
        let s = dec_digits(n);
        assert(s == head + seq![digit_char((n % 10) as int)]);
        assert(s.drop_last() =~= head);
        assert(s.last() == digit_char((n % 10) as int));
        assert(s.last() as int - '0' as int == (n % 10) as int);
        assert(digits_val(s) == digits_val(head) * 10 + (n % 10));
        assert(forall|k: int| 0 <= k < head.len() ==> s[k] == head[k]);
        assert(all_digits(s));
    }
}

/// Law: the decimal rendering of an integer decodes back to exactly that
/// integer.  This ties the renderer the request paths use to the numeral
/// decoder the record fields use.
pub proof fn lemma_decimal_round_trip(n: int)
    ensures
        spec_int_of(dec_int(n)) == Some(n),
{
    if n >= 0 {
        lemma_dec_digits_decode(n as nat);
        let raw = dec_int(n);
        assert(raw == dec_digits(n as nat));
        assert(is_digit(raw[0]));
        assert(raw[0] != '-');
    } else {
        lemma_dec_digits_decode((-n) as nat);
        let raw = dec_int(n);
        assert(raw == seq!['-'] + dec_digits((-n) as nat));
        assert(raw[0] == '-');
        let t = raw.subrange(1, raw.len() as int);
        assert(t =~= dec_digits((-n) as nat));
        assert(spec_int_of(raw) == Some(-digits_val(t)));
    }
}

/// The text of the string member under the given key: exactly one member
/// must carry the key and its value must be a string.
pub open spec fn spec_str_field(ms: Seq<(Seq<char>, JsonV)>, key: Seq<char>) -> Option<Seq<char>> {
    if key_count(ms, key) == 1 {
        match lookup(ms, key) {
            Some(JsonV::Str(t)) => Some(t),
            _ => None,
        }
    } else {
        None
    }
}

/// The integer member under the given key: exactly one member must carry
/// the key, its value must be an integer numeral, and it must fit an i32.
pub open spec fn spec_int_field(ms: Seq<(Seq<char>, JsonV)>, key: Seq<char>) -> Option<int> {
    if key_count(ms, key) == 1 {
        match lookup(ms, key) {
            Some(JsonV::Num(raw)) => match spec_int_of(raw) {
                Some(n) => if -0x8000_0000 <= n && n <= 0x7FFF_FFFF {
                    Some(n)
                } else {
                    None
                },
                None => None,
            },
            _ => None,
        }
    } else {
        None
    }
}

/// The record a JSON value denotes: an object carrying every field of the
/// schema, each exactly once, with the right type; members under other
/// keys are ignored.
pub open spec fn spec_conf_of(v: JsonV) -> Option<ConfV> {
    match v {
        JsonV::Obj(ms) => {
            let id = spec_int_field(ms, "id"@);
            let name = spec_str_field(ms, "name"@);
            let cfp_deadline = spec_str_field(ms, "cfp_deadline"@);
            let conf_start_date = spec_str_field(ms, "conf_start_date"@);
            let city = spec_str_field(ms, "city"@);
            let province = spec_str_field(ms, "province"@);
            let country = spec_str_field(ms, "country"@);
            let twitter = spec_str_field(ms, "twitter"@);
            let website = spec_str_field(ms, "website"@);
            let cfp_details = spec_str_field(ms, "cfp_details"@);
            let speaker_benefits = spec_str_field(ms, "speaker_benefits"@);
            let code_of_conduct = spec_str_field(ms, "code_of_conduct"@);
            let created_at = spec_str_field(ms, "created_at"@);
            let number_of_days = spec_int_field(ms, "number_of_days"@);
            if id is Some && name is Some && cfp_deadline is Some && conf_start_date is Some
                && city is Some && province is Some && country is Some && twitter is Some
                && website is Some && cfp_details is Some && speaker_benefits is Some
                && code_of_conduct is Some && created_at is Some && number_of_days is Some {
                Some(
                    ConfV {
                        id: id.unwrap(),
                        name: name.unwrap(),
                        cfp_deadline: cfp_deadline.unwrap(),
                        conf_start_date: conf_start_date.unwrap(),
                        city: city.unwrap(),
                        province: province.unwrap(),
                        country: country.unwrap(),
                        twitter: twitter.unwrap(),
                        website: website.unwrap(),
                        cfp_details: cfp_details.unwrap(),
                        speaker_benefits: speaker_benefits.unwrap(),
                        code_of_conduct: code_of_conduct.unwrap(),
                        created_at: created_at.unwrap(),
                        number_of_days: number_of_days.unwrap(),
                    },
                )
            } else {
                None
            }
        },
        _ => None,
    }
}

/// The record list a JSON value denotes: an array of records.
pub open spec fn spec_confs_of(v: JsonV) -> Option<Seq<ConfV>> {
    match v {
        JsonV::Arr(es) => {
            if forall|k: int| 0 <= k < es.len() ==> spec_conf_of(#[trigger] es[k]) is Some {
                Some(Seq::new(es.len(), |k: int| spec_conf_of(es[k]).unwrap()))
            } else {
                None
            }
        },
        _ => None,
    }
}

/// The record a whole response body denotes.
pub open spec fn spec_decode_conf(s: Seq<char>) -> Option<ConfV> {
    match spec_parse_json(s) {
        Some(v) => spec_conf_of(v),
        None => None,
    }
}

/// The record list a whole response body denotes.
pub open spec fn spec_decode_confs(s: Seq<char>) -> Option<Seq<ConfV>> {
    match spec_parse_json(s) {
        Some(v) => spec_confs_of(v),
        None => None,
    }
}

/// Finds the place of the unique member under `key`: `None` when the key
/// is missing or repeated.
fn find_field(ms: &Vec<(String, Json)>, key: &String) -> (r: Option<usize>)
    ensures
        ({
            let g = members_view(ms@);
            match r {
                Some(idx) => idx < ms@.len() && key_count(g, key@) == 1 && lookup(g, key@)
                    == Some(g[idx as int].1),
                None => key_count(g, key@) != 1,
            }
        }),
{
    proof {
        lemma_members_view(ms@);
    }
    let ghost g = members_view(ms@);
    let len = ms.len();
    let mut k: usize = 0;
    let mut cnt: usize = 0;
    let mut fidx: Option<usize> = None;
    while k < len
        invariant
            len == ms@.len(),
            g == members_view(ms@),
            g.len() == len,
            forall|t: int| 0 <= t < len ==> g[t] == (#[trigger] ms@[t].0@, ms@[t].1@),
            k <= len,
            cnt <= k,
            cnt == key_count(g.subrange(0, k as int), key@),
            (match fidx {
                Some(fi) => fi < k && cnt >= 1 && g[fi as int].0 == key@ && lookup(
                    g.subrange(0, k as int),
                    key@,
                ) == Some(g[fi as int].1),
                None => cnt == 0 && lookup(g.subrange(0, k as int), key@) is None,
            }),
        decreases len - k,
    {
        proof {
            let prefix = g.subrange(0, k as int);
            let ext = g.subrange(0, k + 1);
            assert(ext.drop_last() =~= prefix);
            assert(ext.last() == g[k as int]);
        }
        if ms[k].0.eq(key) {
            cnt = cnt + 1;
            if fidx.is_none() {
                fidx = Some(k);
            }
        }
        k = k + 1;
    }
    proof {
        assert(g.subrange(0, len as int) =~= g);
    }
    if cnt == 1 {
        fidx
    } else {
        None
    }
}

/// Reads the integer a raw numeral denotes, when it is a plain integer
/// that fits an i32.
fn parse_i32(raw: &String) -> (r: Option<i32>)
    ensures
        (match spec_int_of(raw@) {
            Some(n) => if i32::MIN <= n <= i32::MAX {
                r == Some(n as i32)
            } else {
                r is None
            },
            None => r is None,
        }),
{
    let rs = raw.as_str();
    let len = rs.unicode_len();
    if len == 0 {
        return None;
    }
    let neg = rs.get_char(0) == '-';
    let start: usize = if neg {
        1
    } else {
        0
    };
    if start >= len {
        return None;
    }
    let ghost t: Seq<char> = if neg {
        raw@.subrange(1, len as int)
    } else {
        raw@
    };
    assert(t.len() == len - start);
    let mut k = start;
    let mut acc: u64 = 0;
    let mut too_big = false;
    while k < len
        invariant
            len == raw@.len(),
            raw@ == rs@,
            start <= k <= len,
            start <= 1,
            start < len,
            neg ==> start == 1 && raw@[0] == '-',
            !neg ==> start == 0 && raw@[0] != '-',
            t == (if neg {
                raw@.subrange(1, len as int)
            } else {
                raw@
            }),
            t.len() == len - start,
            all_digits(t.subrange(0, (k - start) as int)),
            !too_big ==> acc == digits_val(t.subrange(0, (k - start) as int)) && acc
                < 0x100_0000_0000,
            too_big ==> digits_val(t.subrange(0, (k - start) as int)) >= 0x1_0000_0000,
        decreases len - k,
    {
        let c = rs.get_char(k);
        if !('0' <= c && c <= '9') {
            proof {
                assert(t[(k - start) as int] == c);
                assert(!all_digits(t));
            }
            return None;
        }
        let d: u64 = (c as u32 - '0' as u32) as u64;
        let ghost pre = t.subrange(0, (k - start) as int);
        proof {
            assert(t.subrange(0, (k - start) + 1) =~= pre.push(c));
            assert(pre.push(c).drop_last() =~= pre);
            assert(pre.push(c).last() == c);
            assert(d as int == c as int - '0' as int);
            assert(digits_val(pre.push(c)) == digits_val(pre) * 10 + (c as int - '0' as int));
            lemma_digits_val_nonneg(pre);
        }
        if too_big || acc >= 0x1_0000_0000 {
            too_big = true;
        } else {
            acc = acc * 10 + d;
        }
        k = k + 1;
    }
    proof {
        assert(t.subrange(0, (len - start) as int) =~= t);
    }
    proof {
        lemma_digits_val_nonneg(t);
        if neg {
            assert(spec_int_of(raw@) == Some(-digits_val(t)));
        } else {
            assert(t == raw@);
            assert(spec_int_of(raw@) == Some(digits_val(t)));
        }
    }
    if too_big {
        return None;
    }
    if neg {
        if acc > 0x8000_0000u64 {
            None
        } else {
            Some((-(acc as i64)) as i32)
        }
    } else {
        if acc > 0x7FFF_FFFFu64 {
            None
        } else {
            Some(acc as i32)
        }
    }
}

/// A digit sequence's value is never negative.
proof fn lemma_digits_val_nonneg(s: Seq<char>)
    requires
        all_digits(s),
    ensures
        digits_val(s) >= 0,
    decreases s.len(),
{
    if s.len() > 0 {
        assert(all_digits(s.drop_last()));
        lemma_digits_val_nonneg(s.drop_last());
    }
}

/// Reads the string member under `key`.
fn get_str_field(ms: &Vec<(String, Json)>, key: &String) -> (r: Option<String>)
    ensures
        (match r {
            Some(text) => spec_str_field(members_view(ms@), key@) == Some(text@),
            None => spec_str_field(members_view(ms@), key@) is None,
        }),
{
    proof {
        lemma_members_view(ms@);
    }
    match find_field(ms, key) {
        None => None,
        Some(idx) => {
            let item = &ms[idx].1;
            proof {
                let ghost gi = idx as int;
                assert(members_view(ms@)[gi] == (ms@[gi].0@, ms@[gi].1@));
                assert(item@ == members_view(ms@)[idx as int].1);
            }
            match item {
                Json::Str(text) => {
                    proof {
                        assert(item@ == JsonV::Str(text@));
                    }
                    Some(text.clone())
                },
                _ => None,
            }
        },
    }
}

/// Reads the integer member under `key`.
fn get_i32_field(ms: &Vec<(String, Json)>, key: &String) -> (r: Option<i32>)
    ensures
        (match r {
            Some(n) => spec_int_field(members_view(ms@), key@) == Some(n as int),
            None => spec_int_field(members_view(ms@), key@) is None,
        }),
{
    proof {
        lemma_members_view(ms@);
    }
    match find_field(ms, key) {
        None => None,
        Some(idx) => {
            let item = &ms[idx].1;
            proof {
                let ghost gi = idx as int;
                assert(members_view(ms@)[gi] == (ms@[gi].0@, ms@[gi].1@));
                assert(item@ == members_view(ms@)[idx as int].1);
            }
            match item {
                Json::Num(raw) => {
                    proof {
                        assert(item@ == JsonV::Num(raw@));
                    }
                    parse_i32(raw)
                },
                _ => None,
            }
        },
    }
}

/// Decodes one Conference record out of a parsed JSON value.
pub fn conf_from_json(v: &Json) -> (r: Option<Conf>)
    ensures
        (match spec_conf_of(v@) {
            Some(c) => r matches Some(conf) && conf@ == c,
            None => r is None,
        }),
{
    match v {
        Json::Obj(ms) => {
            let id = get_i32_field(ms, &String::from_str("id"));
            let name = get_str_field(ms, &String::from_str("name"));
            let cfp_deadline = get_str_field(ms, &String::from_str("cfp_deadline"));
            let conf_start_date = get_str_field(ms, &String::from_str("conf_start_date"));
            let city = get_str_field(ms, &String::from_str("city"));
            let province = get_str_field(ms, &String::from_str("province"));
            let country = get_str_field(ms, &String::from_str("country"));
            let twitter = get_str_field(ms, &String::from_str("twitter"));
            let website = get_str_field(ms, &String::from_str("website"));
            let cfp_details = get_str_field(ms, &String::from_str("cfp_details"));
            let speaker_benefits = get_str_field(ms, &String::from_str("speaker_benefits"));
            let code_of_conduct = get_str_field(ms, &String::from_str("code_of_conduct"));
            let created_at = get_str_field(ms, &String::from_str("created_at"));
            let number_of_days = get_i32_field(ms, &String::from_str("number_of_days"));
            match (id, name, cfp_deadline, conf_start_date, city, province, country, twitter,
                website, cfp_details, speaker_benefits, code_of_conduct, created_at,
                number_of_days) {
                (
                    Some(id),
                    Some(name),
                    Some(cfp_deadline),
                    Some(conf_start_date),
                    Some(city),
                    Some(province),
                    Some(country),
                    Some(twitter),
                    Some(website),
                    Some(cfp_details),
                    Some(speaker_benefits),
                    Some(code_of_conduct),
                    Some(created_at),
                    Some(number_of_days),
                ) => Some(
                    Conf {
                        id,
                        name,
                        cfp_deadline,
                        conf_start_date,
                        city,
                        province,
                        country,
                        twitter,
                        website,
                        cfp_details,
                        speaker_benefits,
                        code_of_conduct,
                        created_at,
                        number_of_days,
                    },
                ),
                _ => None,
            }
        },
        _ => None,
    }
}

/// Decodes a list of Conference records out of a parsed JSON value.
pub fn confs_from_json(v: &Json) -> (r: Option<Vec<Conf>>)
    ensures
        (match spec_confs_of(v@) {
            Some(cs) => r matches Some(out) && confs_view(out@) == cs,
            None => r is None,
        }),
{
    match v {
        Json::Arr(es) => {
            proof {
                lemma_elements_view(es@);
                assert(v@ == JsonV::Arr(elements_view(es@)));
            }
            let ghost ev = elements_view(es@);
            let len = es.len();
            let mut out: Vec<Conf> = Vec::new();
            let mut k: usize = 0;
            while k < len
                invariant
                    v@ == JsonV::Arr(ev),
                    len == es@.len(),
                    ev == elements_view(es@),
                    ev.len() == len,
                    forall|t: int| 0 <= t < len ==> ev[t] == #[trigger] es@[t]@,
                    k <= len,
                    out@.len() == k,
                    forall|t: int|
                        0 <= t < k ==> spec_conf_of(#[trigger] ev[t]) is Some && out@[t]@
                            == spec_conf_of(ev[t]).unwrap(),
                decreases len - k,
            {
                match conf_from_json(&es[k]) {
                    None => {
                        proof {
                            assert(spec_conf_of(ev[k as int]) is None);
                        }
                        return None;
                    },
                    Some(conf) => {
                        out.push(conf);
                    },
                }
                k = k + 1;
            }
            proof {
                let cs = Seq::new(ev.len(), |t: int| spec_conf_of(ev[t]).unwrap());
                assert(confs_view(out@) =~= cs);
            }
            Some(out)
        },
        _ => None,
    }
}

/// Decodes one Conference record out of a whole response body.
pub fn decode_conf(body: &str) -> (r: Option<Conf>)
    ensures
        (match spec_decode_conf(body@) {
            Some(c) => r matches Some(conf) && conf@ == c,
            None => r is None,
        }),
{
    match parse_json(body) {
        None => None,
        Some(v) => conf_from_json(&v),
    }
}

/// Decodes a list of Conference records out of a whole response body.
pub fn decode_confs(body: &str) -> (r: Option<Vec<Conf>>)
    ensures
        (match spec_decode_confs(body@) {
            Some(cs) => r matches Some(out) && confs_view(out@) == cs,
            None => r is None,
        }),
{
    match parse_json(body) {
        None => None,
        Some(v) => confs_from_json(&v),
    }
}

} // verus!
