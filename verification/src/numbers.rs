//! The literal grammars of Rust's numeric `FromStr` implementations: which
//! texts an integer or a float parse accepts, and the value of an integer.
use vstd::prelude::*;
use crate::text::{ascii_lower, ascii_lowercase};

verus! {

/// An ASCII decimal digit.
pub open spec fn is_digit(c: char) -> bool {
    '0' <= c <= '9'
}

/// Every character of `s` is a decimal digit.
pub open spec fn all_digits(s: Seq<char>) -> bool {
    forall|i: int| 0 <= i < s.len() ==> is_digit(#[trigger] s[i])
}

/// The value of a string of decimal digits.
pub open spec fn digits_value(s: Seq<char>) -> nat
    decreases s.len(),
{
    if s.len() == 0 {
        0
    } else {
        digits_value(s.drop_last()) * 10 + ((s.last() as u32) - 0x30) as nat
    }
}

/// The value of `s` under the grammar of `FromStr` for Rust's integer types:
/// an optional `+` (or, for a signed type, `-`) followed by at least one
/// decimal digit, and nothing else. Range checks come on top of this.
pub open spec fn int_literal(s: Seq<char>, signed: bool) -> Option<int> {
    if s.len() > 0 && (s[0] == '+' || (signed && s[0] == '-')) {
        let d = s.drop_first();
        if d.len() > 0 && all_digits(d) {
            Some(
                if s[0] == '-' {
                    -(digits_value(d) as int)
                } else {
                    digits_value(d) as int
                },
            )
        } else {
            None
        }
    } else if s.len() > 0 && all_digits(s) {
        Some(digits_value(s) as int)
    } else {
        None
    }
}

/// What `str::parse` gives for an integer type whose range is `lo..=hi`.
pub open spec fn int_in_range(s: Seq<char>, signed: bool, lo: int, hi: int) -> Option<int> {
    match int_literal(s, signed) {
        Some(v) => if lo <= v <= hi {
            Some(v)
        } else {
            None
        },
        None => None,
    }
}

/// 2^64, beyond every bound used here.
pub open spec fn magnitude_cap() -> nat {
    0x1_0000_0000_0000_0000
}

/// The value of the digits `s[from..to]`, saturated just past 2^64.
fn digits_saturated(s: &[char], from: usize, to: usize) -> (v: u128)
    requires
        from <= to <= s@.len(),
        all_digits(s@.subrange(from as int, to as int)),
    ensures
        v == if digits_value(s@.subrange(from as int, to as int)) > magnitude_cap() {
            magnitude_cap() + 1
        } else {
            digits_value(s@.subrange(from as int, to as int))
        },
{
    let cap: u128 = 0x1_0000_0000_0000_0000;
    let mut v: u128 = 0;
    let mut i = from;
    assert(s@.subrange(from as int, from as int).len() == 0);
    while i < to
        invariant
            from <= i <= to <= s@.len(),
            cap == magnitude_cap(),
            all_digits(s@.subrange(from as int, to as int)),
            v == if digits_value(s@.subrange(from as int, i as int)) > magnitude_cap() {
                magnitude_cap() + 1
            } else {
                digits_value(s@.subrange(from as int, i as int))
            },
        decreases to - i,
    {
        let ghost prev = s@.subrange(from as int, i as int);
        let ghost next = s@.subrange(from as int, i + 1);
        assert(next.drop_last() == prev);
        assert(next.last() == s@[i as int]);
        assert(is_digit(s@.subrange(from as int, to as int)[i - from]));
        let d: u128 = (s[i] as u32 - 0x30) as u128;
        assert(digits_value(next) == digits_value(prev) * 10 + d);
        if v > cap {
            assert(digits_value(next) >= digits_value(prev));
        } else {
            let w = v * 10 + d;
            v = if w > cap {
                cap + 1
            } else {
                w
            };
        }
        i = i + 1;
    }
    v
}

/// Parses `s` as `str::parse` does for an integer type with range `lo..=hi`
/// (signed when `signed`).
pub fn parse_int(s: &[char], signed: bool, lo: i128, hi: i128) -> (r: Option<i128>)
    requires
        -0x1_0000_0000_0000_0000 <= lo <= 0 <= hi <= 0x1_0000_0000_0000_0000,
    ensures
        r matches Some(v) ==> int_in_range(s@, signed, lo as int, hi as int) == Some(v as int),
        r is None ==> int_in_range(s@, signed, lo as int, hi as int) is None,
{
    if s.len() == 0 {
        return None;
    }
    let has_sign = s[0] == '+' || (signed && s[0] == '-');
    let start: usize = if has_sign {
        1
    } else {
        0
    };
    if start >= s.len() {
        return None;
    }
    let mut i = start;
    assert(s@.subrange(start as int, start as int).len() == 0);
    while i < s.len()
        invariant
            s@.len() > 0,
            has_sign == (s@[0] == '+' || (signed && s@[0] == '-')),
            start == (if has_sign { 1int } else { 0int }),
            start <= i <= s@.len(),
            all_digits(s@.subrange(start as int, i as int)),
        decreases s.len() - i,
    {
        if !('0' <= s[i] && s[i] <= '9') {
            proof {
                let d = s@.subrange(start as int, s@.len() as int);
                assert(!is_digit(d[i - start]));
                if !has_sign {
                    assert(d =~= s@);
                } else {
                    assert(d =~= s@.drop_first());
                }
            }
            return None;
        }
        assert(s@.subrange(start as int, i + 1) == s@.subrange(start as int, i as int).push(
            s@[i as int],
        ));
        i = i + 1;
    }
    let ghost d = s@.subrange(start as int, s@.len() as int);
    proof {
        if has_sign {
            assert(d =~= s@.drop_first());
        } else {
            assert(d =~= s@);
        }
    }
    let m = digits_saturated(s, start, s.len());
    let negative = has_sign && s[0] == '-';
    if negative {
        if m > (-lo) as u128 {
            None
        } else {
            Some(-(m as i128))
        }
    } else {
        if m > hi as u128 {
            None
        } else {
            Some(m as i128)
        }
    }
}

/// Parses a signed 64-bit integer (`str::parse::<i64>`).
pub fn parse_i64(s: &[char]) -> (r: Option<i64>)
    ensures
        r matches Some(v) ==> int_in_range(s@, true, i64::MIN as int, i64::MAX as int) == Some(
            v as int,
        ),
        r is None ==> int_in_range(s@, true, i64::MIN as int, i64::MAX as int) is None,
{
    match parse_int(s, true, i64::MIN as i128, i64::MAX as i128) {
        Some(v) => Some(v as i64),
        None => None,
    }
}

/// Parses a signed 32-bit integer (`str::parse::<i32>`).
pub fn parse_i32(s: &[char]) -> (r: Option<i32>)
    ensures
        r matches Some(v) ==> int_in_range(s@, true, i32::MIN as int, i32::MAX as int) == Some(
            v as int,
        ),
        r is None ==> int_in_range(s@, true, i32::MIN as int, i32::MAX as int) is None,
{
    match parse_int(s, true, i32::MIN as i128, i32::MAX as i128) {
        Some(v) => Some(v as i32),
        None => None,
    }
}

/// Parses an unsigned 64-bit integer (`str::parse::<u64>`).
pub fn parse_u64(s: &[char]) -> (r: Option<u64>)
    ensures
        r matches Some(v) ==> int_in_range(s@, false, 0, u64::MAX as int) == Some(v as int),
        r is None ==> int_in_range(s@, false, 0, u64::MAX as int) is None,
{
    match parse_int(s, false, 0, u64::MAX as i128) {
        Some(v) => Some(v as u64),
        None => None,
    }
}

/// Parses a pointer-sized unsigned integer (`str::parse::<usize>`).
pub fn parse_usize(s: &[char]) -> (r: Option<usize>)
    ensures
        r matches Some(v) ==> int_in_range(s@, false, 0, usize::MAX as int) == Some(v as int),
        r is None ==> int_in_range(s@, false, 0, usize::MAX as int) is None,
{
    match parse_int(s, false, 0, usize::MAX as i128) {
        Some(v) => Some(v as usize),
        None => None,
    }
}

// ---------------------------------------------------------------------------
// Floating-point literals
// ---------------------------------------------------------------------------

/// A `+` or `-`.
pub open spec fn is_sign(c: char) -> bool {
    c == '+' || c == '-'
}

/// An exponent part: `e` or `E`, an optional sign, then at least one digit.
pub open spec fn is_exponent(x: Seq<char>) -> bool {
    &&& x.len() >= 2
    &&& (x[0] == 'e' || x[0] == 'E')
    &&& {
        let r = x.drop_first();
        let d = if is_sign(r[0]) {
            r.drop_first()
        } else {
            r
        };
        d.len() > 0 && all_digits(d)
    }
}

/// A decimal mantissa: `Digit+`, `Digit+ '.' Digit*` or `Digit* '.' Digit+`.
pub open spec fn is_mantissa(m: Seq<char>) -> bool {
    ||| m.len() > 0 && all_digits(m)
    ||| exists|d: int|
        0 <= d < m.len() && #[trigger] m[d] == '.' && m.len() >= 2 && all_digits(m.take(d))
            && all_digits(m.skip(d + 1))
}

/// A decimal number: a mantissa followed by an optional exponent.
pub open spec fn is_number(s: Seq<char>) -> bool {
    exists|e: int|
        0 <= e <= s.len() && #[trigger] is_mantissa(s.take(e)) && (e == s.len() || is_exponent(
            s.skip(e),
        ))
}

/// `inf`, `infinity` or `nan`, in any mix of upper and lower case.
pub open spec fn is_special_float(s: Seq<char>) -> bool {
    let l = ascii_lowercase(s);
    ||| l == seq!['i', 'n', 'f']
    ||| l == seq!['i', 'n', 'f', 'i', 'n', 'i', 't', 'y']
    ||| l == seq!['n', 'a', 'n']
}

/// The texts that `str::parse::<f64>` accepts: an optional sign, then either
/// `inf`, `infinity`, `nan` (case-insensitively) or a decimal number, and
/// nothing else (no surrounding whitespace).
pub open spec fn is_float_literal(s: Seq<char>) -> bool {
    let body = if s.len() > 0 && is_sign(s[0]) {
        s.drop_first()
    } else {
        s
    };
    is_special_float(body) || is_number(body)
}

/// Whether `s[from..to]` is all decimal digits.
fn digits_between(s: &[char], from: usize, to: usize) -> (b: bool)
    requires
        from <= to <= s@.len(),
    ensures
        b == all_digits(s@.subrange(from as int, to as int)),
{
    let mut i = from;
    while i < to
        invariant
            from <= i <= to <= s@.len(),
            forall|j: int| from <= j < i ==> is_digit(#[trigger] s@[j]),
        decreases to - i,
    {
        if !('0' <= s[i] && s[i] <= '9') {
            assert(!is_digit(s@.subrange(from as int, to as int)[i - from]));
            return false;
        }
        i = i + 1;
    }
    assert forall|j: int| 0 <= j < to - from implies is_digit(
        #[trigger] s@.subrange(from as int, to as int)[j],
    ) by {
        assert(s@.subrange(from as int, to as int)[j] == s@[from + j]);
    }
    true
}

/// Whether `s[from..to]` is an exponent part.
fn exponent_between(s: &[char], from: usize, to: usize) -> (b: bool)
    requires
        from <= to <= s@.len(),
    ensures
        b == is_exponent(s@.subrange(from as int, to as int)),
{
    let ghost x = s@.subrange(from as int, to as int);
    if to - from < 2 {
        return false;
    }
    if !(s[from] == 'e' || s[from] == 'E') {
        return false;
    }
    let ghost r = x.drop_first();
    assert(r == s@.subrange(from + 1, to as int));
    let c = s[from + 1];
    if c == '+' || c == '-' {
        assert(r.drop_first() == s@.subrange(from + 2, to as int));
        from + 2 < to && digits_between(s, from + 2, to)
    } else {
        digits_between(s, from + 1, to)
    }
}

/// Whether `s[from..to]` is a decimal mantissa.
fn mantissa_between(s: &[char], from: usize, to: usize) -> (b: bool)
    requires
        from <= to <= s@.len(),
    ensures
        b == is_mantissa(s@.subrange(from as int, to as int)),
{
    let ghost m = s@.subrange(from as int, to as int);
    let mut q = from;
    while q < to && s[q] != '.'
        invariant
            from <= q <= to <= s@.len(),
            forall|j: int| from <= j < q ==> #[trigger] s@[j] != '.',
        decreases to - q,
    {
        q = q + 1;
    }
    if q == to {
        let r = to > from && digits_between(s, from, to);
        proof {
            if exists|d: int|
                0 <= d < m.len() && #[trigger] m[d] == '.' && m.len() >= 2 && all_digits(m.take(d))
                    && all_digits(m.skip(d + 1)) {
                let d = choose|d: int|
                    0 <= d < m.len() && #[trigger] m[d] == '.' && m.len() >= 2 && all_digits(
                        m.take(d),
                    ) && all_digits(m.skip(d + 1));
                assert(s@[from + d] == '.');
            }
        }
        r
    } else {
        let ghost d0 = q - from;
        assert(m[d0] == '.');
        assert(!is_digit(m[d0]));
        assert(m.take(d0) == s@.subrange(from as int, q as int));
        assert(m.skip(d0 + 1) == s@.subrange(q + 1, to as int));
        let r = to - from >= 2 && digits_between(s, from, q) && digits_between(s, q + 1, to);
        proof {
            if exists|d: int|
                0 <= d < m.len() && #[trigger] m[d] == '.' && m.len() >= 2 && all_digits(m.take(d))
                    && all_digits(m.skip(d + 1)) {
                let d = choose|d: int|
                    0 <= d < m.len() && #[trigger] m[d] == '.' && m.len() >= 2 && all_digits(
                        m.take(d),
                    ) && all_digits(m.skip(d + 1));
                if d < d0 {
                    assert(s@[from + d] == '.');
                } else if d > d0 {
                    assert(m.take(d)[d0] == '.');
                    assert(!is_digit(m.take(d)[d0]));
                }
            }
        }
        r
    }
}

/// Whether `s[from..to]` is a decimal number.
fn number_between(s: &[char], from: usize, to: usize) -> (b: bool)
    requires
        from <= to <= s@.len(),
    ensures
        b == is_number(s@.subrange(from as int, to as int)),
{
    let ghost x = s@.subrange(from as int, to as int);
    let mut p = from;
    while p < to && s[p] != 'e' && s[p] != 'E'
        invariant
            from <= p <= to <= s@.len(),
            forall|j: int| from <= j < p ==> #[trigger] s@[j] != 'e' && s@[j] != 'E',
        decreases to - p,
    {
        p = p + 1;
    }
    let ghost e0 = p - from;
    assert(x.take(e0) == s@.subrange(from as int, p as int));
    assert(x.skip(e0) == s@.subrange(p as int, to as int));
    let r = mantissa_between(s, from, p) && (p == to || exponent_between(s, p, to));
    proof {
        if r {
            assert(is_mantissa(x.take(e0)));
        } else if exists|e: int|
            0 <= e <= x.len() && #[trigger] is_mantissa(x.take(e)) && (e == x.len() || is_exponent(
                x.skip(e),
            )) {
            let e = choose|e: int|
                0 <= e <= x.len() && #[trigger] is_mantissa(x.take(e)) && (e == x.len()
                    || is_exponent(x.skip(e)));
            if e < e0 {
                assert(x.skip(e)[0] == s@[from + e]);
            } else if e > e0 {
                let m = x.take(e);
                assert(m[e0] == s@[p as int]);
                assert(!is_digit(m[e0]));
                assert(m[e0] != '.');
                if m.len() > 0 && all_digits(m) {
                } else {
                    let d = choose|d: int|
                        0 <= d < m.len() && #[trigger] m[d] == '.' && m.len() >= 2 && all_digits(
                            m.take(d),
                        ) && all_digits(m.skip(d + 1));
                    if e0 < d {
                        assert(!is_digit(m.take(d)[e0]));
                    } else {
                        assert(m.skip(d + 1)[e0 - d - 1] == m[e0]);
                    }
                }
            }
        }
    }
    r
}

/// Whether `s[from..to]`, lowercased, equals `word`.
fn lower_equals(s: &[char], from: usize, to: usize, word: &[char]) -> (b: bool)
    requires
        from <= to <= s@.len(),
    ensures
        b == (ascii_lowercase(s@.subrange(from as int, to as int)) == word@),
{
    let ghost x = s@.subrange(from as int, to as int);
    if to - from != word.len() {
        assert(ascii_lowercase(x).len() != word@.len());
        return false;
    }
    let mut i: usize = 0;
    while i < word.len()
        invariant
            i <= word@.len() == to - from,
            to <= s@.len(),
            x == s@.subrange(from as int, to as int),
            forall|j: int| 0 <= j < i ==> ascii_lower(#[trigger] x[j]) == word@[j],
        decreases word.len() - i,
    {
        let c = s[from + i];
        let l = if 'A' <= c && c <= 'Z' {
            proof {
                assert(0x41 <= c as u32 <= 0x5a);
            }
            let v: u32 = c as u32 + 32;
            char_from_code(v)
        } else {
            c
        };
        assert(x[i as int] == c);
        if l != word[i] {
            assert(ascii_lowercase(x)[i as int] != word@[i as int]);
            return false;
        }
        i = i + 1;
    }
    assert(ascii_lowercase(x) =~= word@);
    true
}

/// The character with the ASCII code `v`.
fn char_from_code(v: u32) -> (c: char)
    requires
        v < 0x80,
    ensures
        c == v as char,
{
    let b: u8 = v as u8;
    b as char
}

/// Whether `str::parse::<f64>` accepts `s`.
pub fn is_float_text(s: &[char]) -> (b: bool)
    ensures
        b == is_float_literal(s@),
{
    let start: usize = if s.len() > 0 && (s[0] == '+' || s[0] == '-') {
        1
    } else {
        0
    };
    let ghost body = s@.subrange(start as int, s@.len() as int);
    proof {
        if start == 1 {
            assert(body == s@.drop_first());
        } else {
            assert(body == s@);
        }
    }
    let inf = vec!['i', 'n', 'f'];
    let infinity = vec!['i', 'n', 'f', 'i', 'n', 'i', 't', 'y'];
    let nan = vec!['n', 'a', 'n'];
    let special = lower_equals(s, start, s.len(), &inf) || lower_equals(
        s,
        start,
        s.len(),
        &infinity,
    ) || lower_equals(s, start, s.len(), &nan);
    special || number_between(s, start, s.len())
}

/// The floating-point text of `s`, when `str::parse::<f64>` accepts it.
pub open spec fn float_text(s: Seq<char>) -> Option<Seq<char>> {
    if is_float_literal(s) {
        Some(s)
    } else {
        None
    }
}

} // verus!
