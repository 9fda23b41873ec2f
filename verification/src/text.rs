//! Character-level text handling shared by the header parsers: Unicode
//! whitespace, trimming, splitting, and the literal grammars of Rust's
//! integer and floating-point `FromStr` implementations.
use vstd::prelude::*;
use vstd::utf8::*;
use vstd::string::StringSliceAdditionalSpecFns;

verus! {

// ---------------------------------------------------------------------------
// Whitespace
// ---------------------------------------------------------------------------

/// Unicode `White_Space`, the property that `char::is_whitespace` tests.
pub open spec fn is_ws(c: char) -> bool {
    let u = c as u32;
    ||| 0x09 <= u <= 0x0d
    ||| u == 0x20
    ||| u == 0x85
    ||| u == 0xa0
    ||| u == 0x1680
    ||| 0x2000 <= u <= 0x200a
    ||| u == 0x2028
    ||| u == 0x2029
    ||| u == 0x202f
    ||| u == 0x205f
    ||| u == 0x3000
}

/// Whether `c` is Unicode whitespace.
pub fn is_whitespace(c: char) -> (b: bool)
    ensures
        b == is_ws(c),
{
    let u = c as u32;
    (0x09 <= u && u <= 0x0d) || u == 0x20 || u == 0x85 || u == 0xa0 || u == 0x1680 || (0x2000
        <= u && u <= 0x200a) || u == 0x2028 || u == 0x2029 || u == 0x202f || u == 0x205f || u
        == 0x3000
}

/// `s` without its leading whitespace.
pub open spec fn trim_start(s: Seq<char>) -> Seq<char>
    decreases s.len(),
{
    if s.len() > 0 && is_ws(s[0]) {
        trim_start(s.drop_first())
    } else {
        s
    }
}

/// `s` without its trailing whitespace.
pub open spec fn trim_end(s: Seq<char>) -> Seq<char>
    decreases s.len(),
{
    if s.len() > 0 && is_ws(s.last()) {
        trim_end(s.drop_last())
    } else {
        s
    }
}

/// `s` without leading and trailing whitespace (`str::trim`).
pub open spec fn trim(s: Seq<char>) -> Seq<char> {
    trim_end(trim_start(s))
}

/// `s` without leading and trailing occurrences of `c` (`str::trim_matches`).
pub open spec fn strip_char(s: Seq<char>, c: char) -> Seq<char>
    decreases s.len(),
{
    if s.len() > 0 && s[0] == c {
        strip_char(s.drop_first(), c)
    } else if s.len() > 0 && s.last() == c {
        strip_char(s.drop_last(), c)
    } else {
        s
    }
}

/// A copy of `s[from..to]`.
pub fn copy_range(s: &[char], from: usize, to: usize) -> (r: Vec<char>)
    requires
        from <= to <= s@.len(),
    ensures
        r@ == s@.subrange(from as int, to as int),
{
    let mut r: Vec<char> = Vec::new();
    let mut i = from;
    while i < to
        invariant
            from <= i <= to <= s@.len(),
            r@ == s@.subrange(from as int, i as int),
        decreases to - i,
    {
        r.push(s[i]);
        i = i + 1;
    }
    r
}

proof fn lemma_trim_start_skip(s: Seq<char>, i: int)
    requires
        0 <= i <= s.len(),
        forall|j: int| 0 <= j < i ==> is_ws(#[trigger] s[j]),
    ensures
        trim_start(s) == trim_start(s.skip(i)),
    decreases i,
{
    if i > 0 {
        assert(s.skip(1) == s.drop_first());
        lemma_trim_start_skip(s.drop_first(), i - 1);
        assert(s.drop_first().skip(i - 1) == s.skip(i));
    } else {
        assert(s.skip(0) == s);
    }
}

proof fn lemma_trim_end_take(s: Seq<char>, k: int)
    requires
        0 <= k <= s.len(),
        forall|j: int| k <= j < s.len() ==> is_ws(#[trigger] s[j]),
    ensures
        trim_end(s) == trim_end(s.take(k)),
    decreases s.len() - k,
{
    if k < s.len() {
        assert(s.take(s.len() - 1) == s.drop_last());
        lemma_trim_end_take(s.drop_last(), k);
        assert(s.drop_last().take(k) == s.take(k));
    } else {
        assert(s.take(k) == s);
    }
}

/// `s` with leading and trailing whitespace removed (`str::trim`).
pub fn trimmed(s: &[char]) -> (r: Vec<char>)
    ensures
        r@ == trim(s@),
{
    let mut a: usize = 0;
    while a < s.len() && is_whitespace(s[a])
        invariant
            a <= s@.len(),
            forall|j: int| 0 <= j < a ==> is_ws(#[trigger] s@[j]),
        decreases s.len() - a,
    {
        a = a + 1;
    }
    proof {
        lemma_trim_start_skip(s@, a as int);
    }
    let ghost t = s@.skip(a as int);
    assert(trim_start(t) == t);
    let mut b: usize = s.len();
    while b > a && is_whitespace(s[b - 1])
        invariant
            a <= b <= s@.len(),
            t == s@.skip(a as int),
            forall|j: int| b <= j < s@.len() ==> is_ws(#[trigger] s@[j]),
        decreases b,
    {
        b = b - 1;
    }
    proof {
        lemma_trim_end_take(t, b - a);
        assert(t.take(b - a) == s@.subrange(a as int, b as int));
    }
    copy_range(s, a, b)
}

/// `s` with leading whitespace removed (`str::trim_start`).
pub fn trimmed_start(s: &[char]) -> (r: Vec<char>)
    ensures
        r@ == trim_start(s@),
{
    let mut a: usize = 0;
    while a < s.len() && is_whitespace(s[a])
        invariant
            a <= s@.len(),
            forall|j: int| 0 <= j < a ==> is_ws(#[trigger] s@[j]),
        decreases s.len() - a,
    {
        a = a + 1;
    }
    proof {
        lemma_trim_start_skip(s@, a as int);
        assert(s@.skip(a as int) == s@.subrange(a as int, s@.len() as int));
    }
    copy_range(s, a, s.len())
}

/// `s` with trailing whitespace removed (`str::trim_end`).
pub fn trimmed_end(s: &[char]) -> (r: Vec<char>)
    ensures
        r@ == trim_end(s@),
{
    let mut b: usize = s.len();
    while b > 0 && is_whitespace(s[b - 1])
        invariant
            b <= s@.len(),
            forall|j: int| b <= j < s@.len() ==> is_ws(#[trigger] s@[j]),
        decreases b,
    {
        b = b - 1;
    }
    proof {
        lemma_trim_end_take(s@, b as int);
    }
    copy_range(s, 0, b)
}

proof fn lemma_strip_char(s: Seq<char>, c: char, a: int, b: int)
    requires
        0 <= a <= b <= s.len(),
        forall|j: int| 0 <= j < a ==> #[trigger] s[j] == c,
        forall|j: int| b <= j < s.len() ==> #[trigger] s[j] == c,
        a < b ==> s[a] != c && s[b - 1] != c,
        a == b ==> b == s.len(),
    ensures
        strip_char(s, c) == s.subrange(a, b),
    decreases s.len(),
{
    if s.len() > 0 && s[0] == c {
        assert(a > 0);
        lemma_strip_char(s.drop_first(), c, a - 1, b - 1);
        assert(s.drop_first().subrange(a - 1, b - 1) == s.subrange(a, b));
    } else if s.len() > 0 && s.last() == c {
        assert(b < s.len());
        lemma_strip_char(s.drop_last(), c, a, b);
        assert(s.drop_last().subrange(a, b) == s.subrange(a, b));
    } else {
        if s.len() > 0 {
            assert(a == 0);
            assert(b == s.len());
        }
        assert(s.subrange(a, b) == s);
    }
}

/// `s` with leading and trailing occurrences of `c` removed (`str::trim_matches`).
pub fn stripped(s: &[char], c: char) -> (r: Vec<char>)
    ensures
        r@ == strip_char(s@, c),
{
    let mut a: usize = 0;
    while a < s.len() && s[a] == c
        invariant
            a <= s@.len(),
            forall|j: int| 0 <= j < a ==> #[trigger] s@[j] == c,
        decreases s.len() - a,
    {
        a = a + 1;
    }
    let mut b: usize = s.len();
    while b > a && s[b - 1] == c
        invariant
            a <= b <= s@.len(),
            forall|j: int| b <= j < s@.len() ==> #[trigger] s@[j] == c,
        decreases b,
    {
        b = b - 1;
    }
    proof {
        lemma_strip_char(s@, c, a as int, b as int);
    }
    copy_range(s, a, b)
}

// ---------------------------------------------------------------------------
// Case mapping
// ---------------------------------------------------------------------------

/// `c` in ASCII lower case (`char::to_ascii_lowercase`).
pub open spec fn ascii_lower(c: char) -> char {
    if 'A' <= c <= 'Z' {
        ((c as u32) + 32) as char
    } else {
        c
    }
}

/// `s` in ASCII lower case (`str::to_ascii_lowercase`).
pub open spec fn ascii_lowercase(s: Seq<char>) -> Seq<char> {
    s.map_values(|c: char| ascii_lower(c))
}

/// `s` mapped to ASCII lower case.
pub fn to_ascii_lowercase(s: &[char]) -> (r: Vec<char>)
    ensures
        r@ == ascii_lowercase(s@),
{
    let mut r: Vec<char> = Vec::new();
    let mut i: usize = 0;
    while i < s.len()
        invariant
            i <= s@.len(),
            r@ == ascii_lowercase(s@.take(i as int)),
        decreases s.len() - i,
    {
        let c = s[i];
        let l = if 'A' <= c && c <= 'Z' {
            proof {
                assert(0x41 <= c as u32 <= 0x5a);
            }
            let v: u32 = c as u32 + 32;
            assert(0x61 <= v <= 0x7a);
            char_from_ascii(v)
        } else {
            c
        };
        r.push(l);
        proof {
            assert(s@.take(i + 1) == s@.take(i as int).push(c));
        }
        i = i + 1;
    }
    assert(s@.take(s@.len() as int) == s@);
    r
}

/// The character whose scalar value is the ASCII code `v`.
fn char_from_ascii(v: u32) -> (c: char)
    requires
        v < 0x80,
    ensures
        c as u32 == v,
        c == v as char,
{
    let b: u8 = v as u8;
    b as char
}

/// The Unicode upper-case mapping of a string, as `str::to_uppercase`
/// computes it.
pub uninterp spec fn uppercase(s: Seq<char>) -> Seq<char>;

/// Whether every character of `s` is ASCII.
pub open spec fn all_ascii(s: Seq<char>) -> bool {
    forall|i: int| 0 <= i < s.len() ==> (#[trigger] s[i] as u32) < 0x80
}

/// A character in ASCII upper case.
pub open spec fn ascii_upper(c: char) -> char {
    if 'a' <= c <= 'z' {
        ((c as u32) - 32) as char
    } else {
        c
    }
}

/// `s` in ASCII upper case (`str::to_ascii_uppercase`).
pub open spec fn ascii_uppercase(s: Seq<char>) -> Seq<char> {
    s.map_values(|c: char| ascii_upper(c))
}

/// Calls `str::to_uppercase`. Its result is given the name `uppercase`:
/// the Unicode case tables are not restated here. On ASCII text it is the
/// ASCII upper case: the Unicode upper case of an ASCII letter is its ASCII
/// upper case, and other ASCII characters have none (std's documentation of
/// `to_ascii_uppercase` refers to `to_uppercase` for upper-casing ASCII
/// characters together with the others).
#[verifier::external_body]
pub(crate) fn to_uppercase(s: &str) -> (r: String)
    ensures
        r@ == uppercase(s@),
        all_ascii(s@) ==> r@ == ascii_uppercase(s@),
{
    s.to_uppercase()
}

// ---------------------------------------------------------------------------
// Conversions between text forms
// ---------------------------------------------------------------------------

/// The characters of a string slice, in order.
pub fn chars_of(s: &str) -> (v: Vec<char>)
    ensures
        v@ == s@,
{
    let mut v: Vec<char> = Vec::new();
    for c in it: s.chars()
        invariant
            v@ == it.seq().take(it.index() as int),
    {
        v.push(c);
    }
    v
}

/// Collects characters into a `String` (`FromIterator<&char> for String`).
#[verifier::external_body]
pub(crate) fn string_of(chars: &[char]) -> (s: String)
    ensures
        s@ == chars@,
{
    String::from_iter(chars.iter())
}

/// Interprets bytes as UTF-8 (`std::str::from_utf8`): `Some` exactly when the
/// bytes are well-formed UTF-8, and then the string's bytes are the input.
#[verifier::external_body]
pub(crate) fn utf8_str(bytes: &[u8]) -> (r: Option<&str>)
    ensures
        r is Some <==> valid_utf8(bytes@),
        r matches Some(s) ==> s.spec_bytes() == bytes@,
{
    std::str::from_utf8(bytes).ok()
}

/// The characters that `bytes` encode in UTF-8, or the empty text when they
/// are not well-formed (`from_utf8(..).unwrap_or("")`).
pub open spec fn utf8_or_empty(bytes: Seq<u8>) -> Seq<char> {
    if valid_utf8(bytes) {
        decode_utf8(bytes)
    } else {
        Seq::empty()
    }
}

/// The characters of `bytes` as UTF-8, or none when they are not well-formed.
pub fn utf8_chars_or_empty(bytes: &[u8]) -> (r: Vec<char>)
    ensures
        r@ == utf8_or_empty(bytes@),
{
    match utf8_str(bytes) {
        Some(s) => {
            proof {
                vstd::utf8::encode_utf8_decode_utf8(s@);
            }
            chars_of(s)
        },
        None => Vec::new(),
    }
}

// ---------------------------------------------------------------------------
// Splitting
// ---------------------------------------------------------------------------

/// The pieces of `s` between occurrences of `sep`, continuing a piece `cur`
/// already begun.
pub open spec fn split_from(s: Seq<char>, sep: char, cur: Seq<char>) -> Seq<Seq<char>>
    decreases s.len(),
{
    if s.len() == 0 {
        seq![cur]
    } else if s[0] == sep {
        seq![cur] + split_from(s.drop_first(), sep, Seq::empty())
    } else {
        split_from(s.drop_first(), sep, cur.push(s[0]))
    }
}

/// The pieces of `s` between occurrences of `sep` (`str::split` on a char);
/// there is always at least one.
pub open spec fn split_on(s: Seq<char>, sep: char) -> Seq<Seq<char>> {
    split_from(s, sep, Seq::empty())
}

/// The maximal runs of non-whitespace characters of `s`, continuing a run
/// `cur` already begun.
pub open spec fn words_from(s: Seq<char>, cur: Seq<char>) -> Seq<Seq<char>>
    decreases s.len(),
{
    let done = if cur.len() > 0 { seq![cur] } else { Seq::empty() };
    if s.len() == 0 {
        done
    } else if is_ws(s[0]) {
        done + words_from(s.drop_first(), Seq::empty())
    } else {
        words_from(s.drop_first(), cur.push(s[0]))
    }
}

/// The maximal runs of non-whitespace characters of `s`, in order
/// (`str::split_whitespace`).
pub open spec fn words(s: Seq<char>) -> Seq<Seq<char>> {
    words_from(s, Seq::empty())
}

/// The views of a vector of character vectors.
pub open spec fn pieces_view(v: Seq<Vec<char>>) -> Seq<Seq<char>> {
    v.map_values(|p: Vec<char>| p@)
}

proof fn lemma_split_from_step(s: Seq<char>, sep: char, cur: Seq<char>, i: int)
    requires
        0 <= i < s.len(),
    ensures
        s[i] == sep ==> split_from(s.skip(i), sep, cur) == seq![cur] + split_from(
            s.skip(i + 1),
            sep,
            Seq::empty(),
        ),
        s[i] != sep ==> split_from(s.skip(i), sep, cur) == split_from(
            s.skip(i + 1),
            sep,
            cur.push(s[i]),
        ),
{
    assert(s.skip(i).drop_first() == s.skip(i + 1));
}

/// The pieces of `s` between occurrences of `sep`.
pub fn split_char(s: &[char], sep: char) -> (r: Vec<Vec<char>>)
    ensures
        pieces_view(r@) == split_on(s@, sep),
        r@.len() >= 1,
{
    let mut r: Vec<Vec<char>> = Vec::new();
    let mut cur: Vec<char> = Vec::new();
    let mut i: usize = 0;
    assert(s@.skip(0) == s@);
    while i < s.len()
        invariant
            i <= s@.len(),
            pieces_view(r@) + split_from(s@.skip(i as int), sep, cur@) == split_on(s@, sep),
        decreases s.len() - i,
    {
        proof {
            lemma_split_from_step(s@, sep, cur@, i as int);
        }
        if s[i] == sep {
            let piece = cur;
            cur = Vec::new();
            let ghost before = pieces_view(r@);
            let ghost rest = split_from(s@.skip(i + 1), sep, Seq::empty());
            r.push(piece);
            assert(pieces_view(r@) == before + seq![piece@]);
            assert(before + (seq![piece@] + rest) == (before + seq![piece@]) + rest);
        } else {
            cur.push(s[i]);
        }
        i = i + 1;
    }
    let ghost before = pieces_view(r@);
    assert(s@.skip(i as int).len() == 0);
    r.push(cur);
    assert(pieces_view(r@) == before + seq![cur@]);
    r
}

proof fn lemma_words_from_step(s: Seq<char>, cur: Seq<char>, i: int)
    requires
        0 <= i < s.len(),
    ensures
        is_ws(s[i]) ==> words_from(s.skip(i), cur) == (if cur.len() > 0 {
            seq![cur]
        } else {
            Seq::<Seq<char>>::empty()
        }) + words_from(s.skip(i + 1), Seq::empty()),
        !is_ws(s[i]) ==> words_from(s.skip(i), cur) == words_from(s.skip(i + 1), cur.push(s[i])),
{
    assert(s.skip(i).drop_first() == s.skip(i + 1));
}

/// The whitespace-separated words of `s`.
pub fn split_words(s: &[char]) -> (r: Vec<Vec<char>>)
    ensures
        pieces_view(r@) == words(s@),
{
    let mut r: Vec<Vec<char>> = Vec::new();
    let mut cur: Vec<char> = Vec::new();
    let mut i: usize = 0;
    assert(s@.skip(0) == s@);
    while i < s.len()
        invariant
            i <= s@.len(),
            pieces_view(r@) + words_from(s@.skip(i as int), cur@) == words(s@),
        decreases s.len() - i,
    {
        proof {
            lemma_words_from_step(s@, cur@, i as int);
        }
        if is_whitespace(s[i]) {
            if cur.len() > 0 {
                let piece = cur;
                cur = Vec::new();
                let ghost before = pieces_view(r@);
                let ghost rest = words_from(s@.skip(i + 1), Seq::empty());
                r.push(piece);
                assert(pieces_view(r@) == before + seq![piece@]);
                assert(before + (seq![piece@] + rest) == (before + seq![piece@]) + rest);
            } else {
                let ghost rest = words_from(s@.skip(i + 1), Seq::empty());
                assert(cur@ =~= Seq::empty());
                assert(Seq::<Seq<char>>::empty() + rest == rest);
            }
        } else {
            cur.push(s[i]);
        }
        i = i + 1;
    }
    assert(s@.skip(i as int).len() == 0);
    if cur.len() > 0 {
        let ghost before = pieces_view(r@);
        r.push(cur);
        assert(pieces_view(r@) == before + seq![cur@]);
    } else {
        assert(cur@ =~= Seq::empty());
        assert(pieces_view(r@) + Seq::<Seq<char>>::empty() == pieces_view(r@));
    }
    r
}

// ---------------------------------------------------------------------------
// Searching
// ---------------------------------------------------------------------------

/// Whether `t` occurs in `s`.
pub open spec fn has_part(s: Seq<char>, t: Seq<char>) -> bool {
    exists|k: int| 0 <= k && k + t.len() <= s.len() && #[trigger] s.subrange(k, k + t.len()) == t
}

/// Whether `s` starts with `t`.
pub open spec fn has_prefix(s: Seq<char>, t: Seq<char>) -> bool {
    t.len() <= s.len() && s.take(t.len() as int) == t
}

/// Whether `t` occurs in `s`.
pub(crate) fn contains_text(s: &[char], t: &[char]) -> (b: bool)
    ensures
        b == has_part(s@, t@),
{
    if t.len() > s.len() {
        return false;
    }
    let m = s.len() - t.len();
    let mut k: usize = 0;
    loop
        invariant
            k <= m,
            m == s@.len() - t@.len(),
            forall|q: int| 0 <= q < k ==> #[trigger] s@.subrange(q, q + t@.len()) != t@,
        decreases m - k,
    {
        if starts_at(s, k, t) {
            return true;
        }
        if k == m {
            assert forall|q: int| 0 <= q && q + t@.len() <= s@.len() implies #[trigger] s@.subrange(
                q,
                q + t@.len(),
            ) != t@ by {
                assert(q <= k);
            }
            return false;
        }
        k = k + 1;
    }
}

/// Whether `t` occurs in `s` at `k`.
pub(crate) fn starts_at(s: &[char], k: usize, t: &[char]) -> (b: bool)
    requires
        k + t@.len() <= s@.len(),
    ensures
        b == (s@.subrange(k as int, k + t@.len()) == t@),
{
    let sl = s.len();
    let mut i: usize = 0;
    while i < t.len()
        invariant
            k + t@.len() <= s@.len(),
            sl == s@.len(),
            i <= t@.len(),
            forall|j: int| 0 <= j < i ==> s@[k + j] == t@[j],
        decreases t.len() - i,
    {
        if s[k + i] != t[i] {
            assert(s@.subrange(k as int, k + t@.len())[i as int] != t@[i as int]);
            return false;
        }
        i = i + 1;
    }
    assert(s@.subrange(k as int, k + t@.len()) =~= t@);
    true
}

} // verus!
