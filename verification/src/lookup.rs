//! Looking a value up under the first of several keyword spellings.
use vstd::prelude::*;
use crate::header_map::HeaderMap;
use crate::metadata::text_view;
use crate::numbers::{float_text, int_in_range, is_float_text, parse_i64};
use crate::text::chars_of;

verus! {

/// The characters of each of a list of string slices.
pub open spec fn str_views(keys: Seq<&str>) -> Seq<Seq<char>> {
    keys.map_values(|k: &str| k@)
}

/// The value of the first of `keys` that `m` holds with a non-empty value.
pub open spec fn lookup(m: Map<Seq<char>, Seq<char>>, keys: Seq<Seq<char>>) -> Option<Seq<char>>
    decreases keys.len(),
{
    if keys.len() == 0 {
        None
    } else if m.contains_key(keys[0]) && m[keys[0]].len() > 0 {
        Some(m[keys[0]])
    } else {
        lookup(m, keys.drop_first())
    }
}

/// The looked-up value, when `str::parse::<f64>` accepts it.
pub open spec fn lookup_float(m: Map<Seq<char>, Seq<char>>, keys: Seq<Seq<char>>) -> Option<
    Seq<char>,
> {
    match lookup(m, keys) {
        Some(v) => float_text(v),
        None => None,
    }
}

/// The text as a 64-bit signed integer, when `str::parse::<i64>` accepts it.
pub open spec fn i64_value(v: Seq<char>) -> Option<i64> {
    match int_in_range(v, true, i64::MIN as int, i64::MAX as int) {
        Some(n) => Some(n as i64),
        None => None,
    }
}

/// The looked-up value as a 64-bit signed integer, when it parses as one.
pub open spec fn lookup_i64(m: Map<Seq<char>, Seq<char>>, keys: Seq<Seq<char>>) -> Option<i64> {
    match lookup(m, keys) {
        Some(v) => i64_value(v),
        None => None,
    }
}

/// A list of one keyword spelling.
pub fn keys1(a: &'static str) -> (v: Vec<&'static str>)
    ensures
        v@ == seq![a],
{
    let v = vec![a];
    assert(v@ =~= seq![a]);
    v
}

/// A list of two keyword spellings, in order of preference.
pub fn keys2(a: &'static str, b: &'static str) -> (v: Vec<&'static str>)
    ensures
        v@ == seq![a, b],
{
    let v = vec![a, b];
    assert(v@ =~= seq![a, b]);
    v
}

/// A list of three keyword spellings, in order of preference.
pub fn keys3(a: &'static str, b: &'static str, c: &'static str) -> (v: Vec<&'static str>)
    ensures
        v@ == seq![a, b, c],
{
    let v = vec![a, b, c];
    assert(v@ =~= seq![a, b, c]);
    v
}

/// The value of the first of `keys` present in `raw` with a non-empty value.
pub fn get_text(raw: &HeaderMap, keys: &[&str]) -> (r: Option<String>)
    ensures
        text_view(r) == lookup(raw@, str_views(keys@)),
{
    let mut i: usize = 0;
    assert(str_views(keys@).skip(0) == str_views(keys@));
    while i < keys.len()
        invariant
            i <= keys@.len(),
            lookup(raw@, str_views(keys@)) == lookup(raw@, str_views(keys@).skip(i as int)),
        decreases keys.len() - i,
    {
        let ghost rest = str_views(keys@).skip(i as int);
        assert(rest[0] == keys@[i as int]@);
        assert(rest.drop_first() == str_views(keys@).skip(i + 1));
        match raw.get(keys[i]) {
            Some(v) => {
                if !v.as_str().is_empty() {
                    return Some(v);
                }
            },
            None => {},
        }
        i = i + 1;
    }
    None
}

/// The first non-empty value under `keys`, if `str::parse::<f64>` accepts it.
pub fn get_float(raw: &HeaderMap, keys: &[&str]) -> (r: Option<String>)
    ensures
        text_view(r) == lookup_float(raw@, str_views(keys@)),
{
    match get_text(raw, keys) {
        Some(v) => {
            let c = chars_of(v.as_str());
            if is_float_text(&c) {
                Some(v)
            } else {
                None
            }
        },
        None => None,
    }
}

/// Whether `str::parse::<f64>` accepts `s`.
pub fn parses_as_float(s: &String) -> (b: bool)
    ensures
        b == float_text(s@) is Some,
{
    let c = chars_of(s.as_str());
    is_float_text(&c)
}

/// `s` as a 64-bit signed integer (`str::parse::<i64>`).
pub fn text_i64(s: &String) -> (r: Option<i64>)
    ensures
        r == i64_value(s@),
{
    let c = chars_of(s.as_str());
    parse_i64(&c)
}

/// The first non-empty value under `keys`, as a 64-bit signed integer.
pub fn get_i64(raw: &HeaderMap, keys: &[&str]) -> (r: Option<i64>)
    ensures
        r == lookup_i64(raw@, str_views(keys@)),
{
    match get_text(raw, keys) {
        Some(v) => text_i64(&v),
        None => None,
    }
}

} // verus!
