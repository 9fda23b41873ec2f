//! The FITS header: 2880-byte blocks of 80-byte keyword cards, ending at the
//! `END` card.
use vstd::prelude::*;
use vstd::utf8::*;
use crate::header_map::HeaderMap;
use crate::lookup::{
    get_float, get_i64, get_text, keys1, keys2, keys3, lookup, lookup_float, lookup_i64, str_views,
};
use crate::metadata::{
    normalize_type_option, normalized_type, Angle, AngleView, ImageMetadata, MetadataView,
    strings_view,
};
use crate::numbers::{is_float_literal, is_float_text};
use crate::text::{
    all_ascii, ascii_uppercase, chars_of, copy_range, split_char, split_words, string_of, to_uppercase, trim, trim_end,
    trimmed, trimmed_end, uppercase, utf8_chars_or_empty, utf8_or_empty, utf8_str, words,
    pieces_view, split_on,
};

verus! {

/// `std::io::Error`, carried by [`FitsError::Io`].
#[verifier::external_type_specification]
#[verifier::external_body]
pub struct ExIoError(std::io::Error);

/// Why a FITS header could not be read.
pub enum FitsError {
    /// The input ended before the first header block (or the file could not be read).
    Io(std::io::Error),
    /// The first card is not `SIMPLE`.
    NotFits,
    /// No `END` card within the first `MAX_HEADER_BLOCKS` blocks.
    NoEnd,
}

/// Bytes in one header block.
pub const BLOCK_SIZE: usize = 2880;

/// Bytes in one keyword card.
pub const CARD_SIZE: usize = 80;

/// Cards in one header block.
pub const CARDS_PER_BLOCK: usize = 36;

/// Blocks searched for the `END` card before giving up.
pub const MAX_HEADER_BLOCKS: usize = 100;

/// One 80-byte keyword card.
pub type Card = [u8; 80];

/// The error `read_exact` reports when the input ends early
/// (`std::io::Error::from(ErrorKind::UnexpectedEof)`). Nothing is stated of it.
#[verifier::external_body]
pub(crate) fn unexpected_eof() -> std::io::Error {
    std::io::Error::from(std::io::ErrorKind::UnexpectedEof)
}

// ---------------------------------------------------------------------------
// Header reading
// ---------------------------------------------------------------------------

/// The kinds of [`FitsError`].
pub enum FitsFault {
    Io,
    NotFits,
    NoEnd,
}

/// The kind of a [`FitsError`].
pub open spec fn fault_of(e: FitsError) -> FitsFault {
    match e {
        FitsError::Io(_) => FitsFault::Io,
        FitsError::NotFits => FitsFault::NotFits,
        FitsError::NoEnd => FitsFault::NoEnd,
    }
}

/// `SIMPLE  `, the first eight bytes of every FITS file.
pub open spec fn simple_magic() -> Seq<u8> {
    seq![0x53u8, 0x49, 0x4d, 0x50, 0x4c, 0x45, 0x20, 0x20]
}

/// Card number `n` of the data.
pub open spec fn card_at(data: Seq<u8>, n: int) -> Seq<u8> {
    data.subrange(n * 80, n * 80 + 80)
}

/// The keyword of a card: its first eight bytes as UTF-8 (none if they are
/// not well-formed), trimmed, in upper case.
pub open spec fn keyword_of(card: Seq<u8>) -> Seq<char> {
    uppercase(trim(utf8_or_empty(card.take(8))))
}

/// Whether a card is the `END` card.
pub open spec fn is_end_card(card: Seq<u8>) -> bool {
    keyword_of(card) == "END"@
}

/// The number of cards looked at: those of the complete blocks present, up
/// to `MAX_HEADER_BLOCKS` blocks.
pub open spec fn searched_cards(data: Seq<u8>) -> int {
    let blocks: int = data.len() as int / 2880;
    (if blocks < 100 {
        blocks
    } else {
        100
    }) * 36
}

/// The first `END` card at or after card `n` and before card `limit`.
pub open spec fn first_end_from(data: Seq<u8>, n: int, limit: int) -> Option<int>
    decreases limit - n,
{
    if n >= limit {
        None
    } else if is_end_card(card_at(data, n)) {
        Some(n)
    } else {
        first_end_from(data, n + 1, limit)
    }
}

/// The cards before the `END` card, or the kind of error reading them gives.
pub open spec fn header_cards(data: Seq<u8>) -> Result<Seq<Seq<u8>>, FitsFault> {
    if data.len() < 2880 {
        Err(FitsFault::Io)
    } else if data.take(8) != simple_magic() {
        Err(FitsFault::NotFits)
    } else {
        match first_end_from(data, 0, searched_cards(data)) {
            Some(n) => Ok(Seq::new(n as nat, |i: int| card_at(data, i))),
            None => Err(FitsFault::NoEnd),
        }
    }
}

/// The bytes of each card.
pub open spec fn cards_view(cards: Seq<Card>) -> Seq<Seq<u8>> {
    cards.map_values(|c: Card| c@)
}

/// The cards of a result, or the kind of its error.
pub open spec fn cards_result_view(r: Result<Vec<Card>, FitsError>) -> Result<
    Seq<Seq<u8>>,
    FitsFault,
> {
    match r {
        Ok(v) => Ok(cards_view(v@)),
        Err(e) => Err(fault_of(e)),
    }
}

/// Copies card number `n` out of the data.
fn card_from(data: &[u8], n: usize) -> (c: Card)
    requires
        n * 80 + 80 <= data@.len(),
    ensures
        c@ == card_at(data@, n as int),
{
    let mut c: Card = [0u8; 80];
    let len = data.len();
    assert(n * 80 + 80 <= len);
    let start = n * 80;
    let mut j: usize = 0;
    while j < 80
        invariant
            j <= 80,
            start == n * 80,
            start + 80 <= data@.len(),
            len == data@.len(),
            c@.len() == 80,
            forall|k: int| 0 <= k < j ==> c@[k] == data@[start + k],
        decreases 80 - j,
    {
        c[j] = data[start + j];
        j = j + 1;
    }
    assert(c@ =~= card_at(data@, n as int));
    c
}

/// The first eight bytes of a card.
fn card_head(card: &Card) -> (v: Vec<u8>)
    ensures
        v@ == card@.take(8),
{
    let mut v: Vec<u8> = Vec::new();
    let mut j: usize = 0;
    while j < 8
        invariant
            j <= 8,
            card@.len() == 80,
            v@ == card@.take(j as int),
        decreases 8 - j,
    {
        v.push(card[j]);
        assert(card@.take(j + 1) == card@.take(j as int).push(card@[j as int]));
        j = j + 1;
    }
    v
}

/// The keyword of a card: its first eight bytes as UTF-8 (empty when they are
/// not well-formed), trimmed and in upper case.
pub fn card_keyword(card: &Card) -> (k: String)
    ensures
        k@ == keyword_of(card@),
        all_ascii(trim(utf8_or_empty(card@.take(8)))) ==> k@ == ascii_uppercase(
            trim(utf8_or_empty(card@.take(8))),
        ),
{
    let head = card_head(card);
    let chars = utf8_chars_or_empty(&head);
    let t = trimmed(&chars);
    let s = string_of(&t);
    to_uppercase(s.as_str())
}

/// Reads the header cards that precede the `END` card from the leading bytes
/// of a file (at least `MAX_HEADER_BLOCKS` blocks of them, or the whole file
/// when it is shorter).
pub fn read_header_cards(data: &[u8]) -> (r: Result<Vec<Card>, FitsError>)
    ensures
        cards_result_view(r) == header_cards(data@),
{
    if data.len() < BLOCK_SIZE {
        return Err(FitsError::Io(unexpected_eof()));
    }
    let magic: [u8; 8] = [0x53u8, 0x49, 0x4d, 0x50, 0x4c, 0x45, 0x20, 0x20];
    let mut j: usize = 0;
    while j < 8
        invariant
            j <= 8,
            data@.len() >= 2880,
            magic@ == simple_magic(),
            forall|k: int| 0 <= k < j ==> data@[k] == simple_magic()[k],
        decreases 8 - j,
    {
        if data[j] != magic[j] {
            assert(data@.take(8)[j as int] != simple_magic()[j as int]);
            return Err(FitsError::NotFits);
        }
        j = j + 1;
    }
    assert(data@.take(8) =~= simple_magic());
    let blocks = if data.len() / BLOCK_SIZE < MAX_HEADER_BLOCKS {
        data.len() / BLOCK_SIZE
    } else {
        MAX_HEADER_BLOCKS
    };
    let limit = blocks * CARDS_PER_BLOCK;
    assert(limit == searched_cards(data@));
    assert(blocks * 2880 <= data@.len()) by (nonlinear_arith)
        requires
            blocks <= data@.len() / 2880,
    ;
    let mut cards: Vec<Card> = Vec::new();
    let mut n: usize = 0;
    while n < limit
        invariant
            n <= limit,
            limit == searched_cards(data@),
            limit * 80 <= data@.len(),
            data@.len() >= 2880,
            data@.take(8) == simple_magic(),
            first_end_from(data@, 0, limit as int) == first_end_from(data@, n as int, limit as int),
            cards_view(cards@) == Seq::new(n as nat, |i: int| card_at(data@, i)),
        decreases limit - n,
    {
        let card = card_from(data, n);
        let k = card_keyword(&card);
        if k == String::from_str("END") {
            return Ok(cards);
        }
        let ghost before = cards_view(cards@);
        cards.push(card);
        assert(cards_view(cards@) =~= Seq::new((n + 1) as nat, |i: int| card_at(data@, i))) by {
            assert(cards_view(cards@) == before.push(card@));
        }
        n = n + 1;
    }
    Err(FitsError::NoEnd)
}

// ---------------------------------------------------------------------------
// Card values
// ---------------------------------------------------------------------------

/// The text of a quoted FITS string after its opening quote: up to the first
/// lone quote, with each doubled quote standing for one quote.
pub open spec fn unquote(t: Seq<char>) -> Seq<char>
    decreases t.len(),
{
    if t.len() == 0 {
        Seq::empty()
    } else if t[0] == '\'' {
        if t.len() > 1 && t[1] == '\'' {
            seq!['\''] + unquote(t.skip(2))
        } else {
            Seq::empty()
        }
    } else {
        seq![t[0]] + unquote(t.drop_first())
    }
}

/// The value of a card's value field: for a quoted string its text without
/// trailing blanks, otherwise the text before any `/` comment, trimmed.
pub open spec fn value_text(s: Seq<char>) -> Seq<char> {
    let t = trim(s);
    if t.len() > 0 && t[0] == '\'' {
        trim_end(unquote(t.drop_first()))
    } else {
        trim(split_on(t, '/')[0])
    }
}

/// The unquoted text of `t[from..]`.
fn unquoted(t: &[char], from: usize) -> (r: Vec<char>)
    requires
        from <= t@.len(),
    ensures
        r@ == unquote(t@.skip(from as int)),
{
    let mut r: Vec<char> = Vec::new();
    let mut i = from;
    assert(r@ + unquote(t@.skip(from as int)) == unquote(t@.skip(from as int)));
    while i < t.len()
        invariant
            from <= i <= t@.len(),
            r@ + unquote(t@.skip(i as int)) == unquote(t@.skip(from as int)),
        decreases t.len() - i,
    {
        let ghost rest = t@.skip(i as int);
        assert(rest[0] == t@[i as int]);
        if t[i] == '\'' {
            if i + 1 < t.len() && t[i + 1] == '\'' {
                assert(rest[1] == t@[i + 1]);
                assert(rest.skip(2) == t@.skip(i + 2));
                let ghost u = unquote(t@.skip(i + 2));
                r.push('\'');
                assert(r@ + u == (r@.drop_last() + (seq!['\''] + u))) by {
                    assert(r@ == r@.drop_last().push('\''));
                }
                i = i + 2;
            } else {
                assert(unquote(rest) == Seq::<char>::empty());
                assert(r@ + Seq::<char>::empty() == r@);
                return r;
            }
        } else {
            assert(rest.drop_first() == t@.skip(i + 1));
            let ghost u = unquote(t@.skip(i + 1));
            r.push(t[i]);
            assert(r@ + u == (r@.drop_last() + (seq![t@[i as int]] + u))) by {
                assert(r@ == r@.drop_last().push(t@[i as int]));
            }
            i = i + 1;
        }
    }
    assert(t@.skip(i as int).len() == 0);
    assert(unquote(t@.skip(i as int)) == Seq::<char>::empty());
    assert(r@ + Seq::<char>::empty() == r@);
    r
}

/// Extracts the value from a card's value field, stripping quotes from a
/// string value and a trailing `/` comment from any other.
pub fn parse_value(s: &str) -> (v: String)
    ensures
        v@ == value_text(s@),
{
    let c = chars_of(s);
    let t = trimmed(&c);
    if t.len() > 0 && t[0] == '\'' {
        let inner = unquoted(&t, 1);
        assert(t@.skip(1) == t@.drop_first());
        let e = trimmed_end(&inner);
        string_of(&e)
    } else {
        let pieces = split_char(&t, '/');
        assert(pieces@[0]@ == pieces_view(pieces@)[0]);
        let first = trimmed(&pieces[0]);
        string_of(&first)
    }
}

// ---------------------------------------------------------------------------
// Card → key/value map
// ---------------------------------------------------------------------------

/// Keywords that carry no value: blank, `COMMENT` and `HISTORY`.
pub open spec fn is_commentary(k: Seq<char>) -> bool {
    k.len() == 0 || k == "COMMENT"@ || k == "HISTORY"@
}

/// The value field of a card: bytes 10 to 80 as UTF-8.
pub open spec fn value_field(card: Seq<u8>) -> Seq<char> {
    utf8_or_empty(card.subrange(10, 80))
}

/// A card whose text the header map can be read from: well-formed UTF-8
/// with a character boundary after the keyword and, unless the card is
/// commentary, after the value indicator.
pub open spec fn card_is_text(card: Seq<u8>) -> bool {
    &&& card.len() == 80
    &&& valid_utf8(card)
    &&& is_char_boundary(card, 8)
    &&& (is_commentary(keyword_of(card)) || is_char_boundary(card, 10))
}

/// The key and value a card contributes: none for commentary or when bytes
/// 8 and 9 are not the value indicator `= `.
pub open spec fn card_entry(card: Seq<u8>) -> Option<(Seq<char>, Seq<char>)> {
    let k = keyword_of(card);
    if is_commentary(k) {
        None
    } else if card[8] == 0x3d && card[9] == 0x20 {
        Some((k, value_text(value_field(card))))
    } else {
        None
    }
}

/// The header map of a list of cards: each card's entry in turn, a later one
/// replacing an earlier one with the same key.
pub open spec fn cards_map(cards: Seq<Seq<u8>>) -> Map<Seq<char>, Seq<char>>
    decreases cards.len(),
{
    if cards.len() == 0 {
        Map::empty()
    } else {
        let m = cards_map(cards.drop_last());
        match card_entry(cards.last()) {
            Some((k, v)) => m.insert(k, v),
            None => m,
        }
    }
}

/// Bytes 10 to 80 of a card.
fn card_tail(card: &Card) -> (v: Vec<u8>)
    ensures
        v@ == card@.subrange(10, 80),
{
    let mut v: Vec<u8> = Vec::new();
    let mut j: usize = 10;
    while j < 80
        invariant
            10 <= j <= 80,
            card@.len() == 80,
            v@ == card@.subrange(10, j as int),
        decreases 80 - j,
    {
        v.push(card[j]);
        assert(card@.subrange(10, j + 1) == card@.subrange(10, j as int).push(card@[j as int]));
        j = j + 1;
    }
    v
}

/// Builds the keyword → value map of a header's cards.
pub fn cards_to_map(cards: &[Card]) -> (m: HeaderMap)
    requires
        forall|i: int| 0 <= i < cards@.len() ==> card_is_text(#[trigger] cards@[i]@),
    ensures
        m@ == cards_map(cards_view(cards@)),
{
    let mut m = HeaderMap::new();
    let mut i: usize = 0;
    while i < cards.len()
        invariant
            i <= cards@.len(),
            m@ == cards_map(cards_view(cards@).take(i as int)),
        decreases cards.len() - i,
    {
        let card = &cards[i];
        let ghost cv = cards_view(cards@);
        assert(cv.take(i + 1).drop_last() == cv.take(i as int));
        assert(cv.take(i + 1).last() == card@);
        let keyword = card_keyword(card);
        let skip = keyword.as_str().is_empty() || keyword == String::from_str("COMMENT")
            || keyword == String::from_str("HISTORY");
        if !skip && card[8] == 0x3d && card[9] == 0x20 {
            let tail = card_tail(card);
            let chars = utf8_chars_or_empty(&tail);
            let field = string_of(&chars);
            let value = parse_value(field.as_str());
            m.insert(keyword, value);
        }
        i = i + 1;
    }
    assert(cards_view(cards@).take(cards@.len() as int) == cards_view(cards@));
    m
}

/// Whether every card's text can be read (see [`card_is_text`]).
pub fn cards_are_text(cards: &[Card]) -> (b: bool)
    ensures
        b == forall|i: int| 0 <= i < cards@.len() ==> card_is_text(#[trigger] cards@[i]@),
{
    let mut i: usize = 0;
    while i < cards.len()
        invariant
            i <= cards@.len(),
            forall|j: int| 0 <= j < i ==> card_is_text(#[trigger] cards@[j]@),
        decreases cards.len() - i,
    {
        let card = &cards[i];
        let mut bytes: Vec<u8> = Vec::new();
        let mut j: usize = 0;
        while j < 80
            invariant
                j <= 80,
                card@.len() == 80,
                bytes@ == card@.take(j as int),
            decreases 80 - j,
        {
            bytes.push(card[j]);
            assert(card@.take(j + 1) == card@.take(j as int).push(card@[j as int]));
            j = j + 1;
        }
        assert(card@.take(80) == card@);
        if utf8_str(&bytes).is_none() {
            return false;
        }
        proof {
            is_char_boundary_iff_not_is_continuation_byte(card@, 8);
            is_char_boundary_iff_not_is_continuation_byte(card@, 10);
        }
        if 0x80 <= card[8] && card[8] <= 0xbf {
            return false;
        }
        let keyword = card_keyword(card);
        let commentary = keyword.as_str().is_empty() || keyword == String::from_str("COMMENT")
            || keyword == String::from_str("HISTORY");
        if !commentary && 0x80 <= card[10] && card[10] <= 0xbf {
            return false;
        }
        i = i + 1;
    }
    true
}

// ---------------------------------------------------------------------------
// Map → ImageMetadata
// ---------------------------------------------------------------------------

/// The whitespace-separated words of `s` that `str::parse::<f64>` accepts.
pub open spec fn float_words(s: Seq<char>) -> Seq<Seq<char>> {
    words(s).filter(is_float_word())
}

/// The predicate `is_float_literal`, as a value.
pub open spec fn is_float_word() -> spec_fn(Seq<char>) -> bool {
    |w: Seq<char>| is_float_literal(w)
}

/// Sexagesimal hours `HH MM SS.ss` (or `HH MM`): the numeric words, when
/// there are two or three of them.
pub open spec fn ra_angle(s: Seq<char>) -> Option<AngleView> {
    let p = float_words(s);
    if p.len() == 3 || p.len() == 2 {
        Some(AngleView::Hours(p))
    } else {
        None
    }
}

/// `t` without its leading `+` and `-` characters.
pub open spec fn strip_signs(t: Seq<char>) -> Seq<char>
    decreases t.len(),
{
    if t.len() > 0 && (t[0] == '+' || t[0] == '-') {
        strip_signs(t.drop_first())
    } else {
        t
    }
}

/// Sexagesimal degrees `+DD MM SS.ss` (or `+DD MM`): negative when the
/// trimmed text starts with `-`; the numeric words after the leading signs,
/// when there are two or three of them.
pub open spec fn dec_angle(s: Seq<char>) -> Option<AngleView> {
    let t = trim(s);
    let negative = t.len() > 0 && t[0] == '-';
    let p = float_words(strip_signs(t));
    if p.len() == 3 || p.len() == 2 {
        Some(AngleView::Sexagesimal(negative, p))
    } else {
        None
    }
}

/// The words of `s` that `str::parse::<f64>` accepts, in order.
fn numeric_words(s: &[char]) -> (r: Vec<String>)
    ensures
        strings_view(r@) == float_words(s@),
{
    let ws = split_words(s);
    let ghost all = pieces_view(ws@);
    let mut r: Vec<String> = Vec::new();
    let mut i: usize = 0;
    proof {
        reveal(Seq::filter);
        assert(all.take(0).filter(is_float_word()) =~= Seq::<Seq<char>>::empty());
    }
    while i < ws.len()
        invariant
            i <= ws@.len(),
            all == pieces_view(ws@),
            all == words(s@),
            strings_view(r@) == all.take(i as int).filter(is_float_word()),
        decreases ws.len() - i,
    {
        assert(all.take(i + 1).drop_last() == all.take(i as int));
        assert(all.take(i + 1).last() == ws@[i as int]@);
        proof {
            reveal(Seq::filter);
        }
        let ghost before = strings_view(r@);
        if is_float_text(&ws[i]) {
            r.push(string_of(&ws[i]));
            assert(strings_view(r@) == before.push(ws@[i as int]@));
        }
        i = i + 1;
    }
    assert(all.take(ws@.len() as int) == all);
    r
}

/// Sexagesimal hours `HH MM SS.ss` or `HH MM` from the text of a right
/// ascension keyword.
pub fn parse_ra_string(s: &str) -> (r: Option<Angle>)
    ensures
        r matches Some(a) ==> ra_angle(s@) == Some(a@),
        r is None ==> ra_angle(s@) is None,
{
    let c = chars_of(s);
    let parts = numeric_words(&c);
    if parts.len() == 3 || parts.len() == 2 {
        Some(Angle::Hours(parts))
    } else {
        None
    }
}

/// Sexagesimal degrees `+DD MM SS.ss` or `+DD MM` from the text of a
/// declination keyword.
pub fn parse_dec_string(s: &str) -> (r: Option<Angle>)
    ensures
        r matches Some(a) ==> dec_angle(s@) == Some(a@),
        r is None ==> dec_angle(s@) is None,
{
    let c = chars_of(s);
    let t = trimmed(&c);
    let negative = t.len() > 0 && t[0] == '-';
    let mut a: usize = 0;
    assert(t@.skip(0) == t@);
    while a < t.len() && (t[a] == '+' || t[a] == '-')
        invariant
            a <= t@.len(),
            strip_signs(t@) == strip_signs(t@.skip(a as int)),
        decreases t.len() - a,
    {
        assert(t@.skip(a as int).drop_first() == t@.skip(a + 1));
        a = a + 1;
    }
    let u = copy_range(&t, a, t.len());
    assert(u@ == t@.skip(a as int));
    let parts = numeric_words(&u);
    if parts.len() == 3 || parts.len() == 2 {
        Some(Angle::Sexagesimal { negative, parts })
    } else {
        None
    }
}

/// Right ascension: decimal degrees under `RA` or `OBJCTRA`, else sexagesimal
/// hours under `OBJCTRA`.
pub open spec fn fits_ra(m: Map<Seq<char>, Seq<char>>) -> Option<AngleView> {
    match lookup_float(m, str_views(seq!["RA", "OBJCTRA"])) {
        Some(t) => Some(AngleView::Degrees(t)),
        None => match lookup(m, str_views(seq!["OBJCTRA"])) {
            Some(s) => ra_angle(s),
            None => None,
        },
    }
}

/// Declination: decimal degrees under `DEC` or `OBJCTDEC`, else sexagesimal
/// degrees under `OBJCTDEC`.
pub open spec fn fits_dec(m: Map<Seq<char>, Seq<char>>) -> Option<AngleView> {
    match lookup_float(m, str_views(seq!["DEC", "OBJCTDEC"])) {
        Some(t) => Some(AngleView::Degrees(t)),
        None => match lookup(m, str_views(seq!["OBJCTDEC"])) {
            Some(s) => dec_angle(s),
            None => None,
        },
    }
}

/// The metadata that a FITS header map gives: each field from the first of
/// its keyword spellings that is present with a non-empty value, numeric
/// fields only when that value parses.
pub open spec fn fits_metadata(m: Map<Seq<char>, Seq<char>>) -> MetadataView {
    MetadataView {
        format: "FITS"@,
        image_type: normalized_type(lookup(m, str_views(seq!["IMAGETYP", "FRAME"]))),
        object_name: lookup(m, str_views(seq!["OBJECT", "TARGET"])),
        ra: fits_ra(m),
        dec: fits_dec(m),
        date_obs: lookup(m, str_views(seq!["DATE-OBS", "DATE_OBS", "DATE-BEG"])),
        exposure_time: lookup_float(m, str_views(seq!["EXPTIME", "EXPOSURE"])),
        gain: lookup_float(m, str_views(seq!["GAIN"])),
        offset: lookup_i64(m, str_views(seq!["OFFSET", "PEDESTAL"])),
        iso: lookup_i64(m, str_views(seq!["ISOSPEED", "ISO"])),
        filter_name: lookup(m, str_views(seq!["FILTER", "FILTNAM1"])),
        binning_x: lookup_i64(m, str_views(seq!["XBINNING"])),
        binning_y: lookup_i64(m, str_views(seq!["YBINNING"])),
        telescope: lookup(m, str_views(seq!["TELESCOP"])),
        instrument: lookup(m, str_views(seq!["INSTRUME"])),
        focal_length: lookup_float(m, str_views(seq!["FOCALLEN"])),
        aperture: lookup_float(m, str_views(seq!["APERTURE"])),
        ccd_temp: lookup_float(m, str_views(seq!["CCD-TEMP", "CCDTEMP", "TEMP"])),
        site_lat: lookup_float(m, str_views(seq!["SITELAT", "LAT-OBS", "OBSLAT"])),
        site_lon: lookup_float(m, str_views(seq!["SITELONG", "LONG-OBS", "OBSLONG"])),
        airmass: lookup_float(m, str_views(seq!["AIRMASS"])),
        width: lookup_i64(m, str_views(seq!["NAXIS1"])),
        height: lookup_i64(m, str_views(seq!["NAXIS2"])),
        bit_depth: lookup_i64(m, str_views(seq!["BITPIX"])),
        software: lookup(m, str_views(seq!["SWCREATE", "CREATOR", "PROGRAM"])),
        fwhm: None,
        eccentricity: None,
        star_count: None,
        snr: None,
        sky_background: None,
    }
}

/// Right ascension from a FITS header map.
fn extract_ra(raw: &HeaderMap) -> (r: Option<Angle>)
    ensures
        r matches Some(a) ==> fits_ra(raw@) == Some(a@),
        r is None ==> fits_ra(raw@) is None,
{
    match get_float(raw, keys2("RA", "OBJCTRA").as_slice()) {
        Some(t) => Some(Angle::Degrees(t)),
        None => {
            match get_text(raw, keys1("OBJCTRA").as_slice()) {
                Some(s) => parse_ra_string(s.as_str()),
                None => None,
            }
        },
    }
}

/// Declination from a FITS header map.
fn extract_dec(raw: &HeaderMap) -> (r: Option<Angle>)
    ensures
        r matches Some(a) ==> fits_dec(raw@) == Some(a@),
        r is None ==> fits_dec(raw@) is None,
{
    match get_float(raw, keys2("DEC", "OBJCTDEC").as_slice()) {
        Some(t) => Some(Angle::Degrees(t)),
        None => {
            match get_text(raw, keys1("OBJCTDEC").as_slice()) {
                Some(s) => parse_dec_string(s.as_str()),
                None => None,
            }
        },
    }
}

/// Builds the metadata record from a FITS header map.
pub fn extract_metadata(raw: &HeaderMap) -> (meta: ImageMetadata)
    ensures
        meta@ == fits_metadata(raw@),
{
    let ra = extract_ra(raw);
    let dec = extract_dec(raw);
    let meta = ImageMetadata {
        format: String::from_str("FITS"),
        image_type: normalize_type_option(get_text(raw, keys2("IMAGETYP", "FRAME").as_slice())),
        object_name: get_text(raw, keys2("OBJECT", "TARGET").as_slice()),
        ra,
        dec,
        date_obs: get_text(raw, keys3("DATE-OBS", "DATE_OBS", "DATE-BEG").as_slice()),
        exposure_time: get_float(raw, keys2("EXPTIME", "EXPOSURE").as_slice()),
        gain: get_float(raw, keys1("GAIN").as_slice()),
        offset: get_i64(raw, keys2("OFFSET", "PEDESTAL").as_slice()),
        iso: get_i64(raw, keys2("ISOSPEED", "ISO").as_slice()),
        filter_name: get_text(raw, keys2("FILTER", "FILTNAM1").as_slice()),
        binning_x: get_i64(raw, keys1("XBINNING").as_slice()),
        binning_y: get_i64(raw, keys1("YBINNING").as_slice()),
        telescope: get_text(raw, keys1("TELESCOP").as_slice()),
        instrument: get_text(raw, keys1("INSTRUME").as_slice()),
        focal_length: get_float(raw, keys1("FOCALLEN").as_slice()),
        aperture: get_float(raw, keys1("APERTURE").as_slice()),
        ccd_temp: get_float(raw, keys3("CCD-TEMP", "CCDTEMP", "TEMP").as_slice()),
        site_lat: get_float(raw, keys3("SITELAT", "LAT-OBS", "OBSLAT").as_slice()),
        site_lon: get_float(raw, keys3("SITELONG", "LONG-OBS", "OBSLONG").as_slice()),
        airmass: get_float(raw, keys1("AIRMASS").as_slice()),
        width: get_i64(raw, keys1("NAXIS1").as_slice()),
        height: get_i64(raw, keys1("NAXIS2").as_slice()),
        bit_depth: get_i64(raw, keys1("BITPIX").as_slice()),
        software: get_text(raw, keys3("SWCREATE", "CREATOR", "PROGRAM").as_slice()),
        fwhm: None,
        eccentricity: None,
        star_count: None,
        snr: None,
        sky_background: None,
    };
    meta
}

// ---------------------------------------------------------------------------
// Whole header
// ---------------------------------------------------------------------------

/// What reading a FITS header gives: the header map and metadata, or the
/// kind of error; none when a card before `END` is not text that can be
/// sliced at its keyword and value indicator.
pub open spec fn fits_header(data: Seq<u8>) -> Option<
    Result<(Map<Seq<char>, Seq<char>>, MetadataView), FitsFault>,
> {
    match header_cards(data) {
        Err(f) => Some(Err(f)),
        Ok(cards) => if forall|i: int| 0 <= i < cards.len() ==> card_is_text(#[trigger] cards[i]) {
            let m = cards_map(cards);
            Some(Ok((m, fits_metadata(m))))
        } else {
            None
        },
    }
}

/// The meaning of a header parse result.
pub open spec fn header_result_view(r: Option<Result<(ImageMetadata, HeaderMap), FitsError>>) -> Option<
    Result<(Map<Seq<char>, Seq<char>>, MetadataView), FitsFault>,
> {
    match r {
        Some(Ok((meta, m))) => Some(Ok((m@, meta@))),
        Some(Err(e)) => Some(Err(fault_of(e))),
        None => None,
    }
}

/// Parses a FITS header from the leading bytes of a file (at least
/// `MAX_HEADER_BLOCKS` blocks of them, or the whole file when it is shorter):
/// the structured metadata and the raw keyword map.
pub fn parse_header(data: &[u8]) -> (r: Option<Result<(ImageMetadata, HeaderMap), FitsError>>)
    ensures
        header_result_view(r) == fits_header(data@),
{
    match read_header_cards(data) {
        Err(e) => Some(Err(e)),
        Ok(cards) => {
            let ghost cv = cards_view(cards@);
            if !cards_are_text(cards.as_slice()) {
                proof {
                    let i = choose|i: int| 0 <= i < cards@.len() && !card_is_text(#[trigger] cards@[i]@);
                    assert(!card_is_text(cv[i]));
                }
                return None;
            }
            assert forall|i: int| 0 <= i < cv.len() implies card_is_text(#[trigger] cv[i]) by {
                assert(cv[i] == cards@[i]@);
            }
            let raw = cards_to_map(cards.as_slice());
            let meta = extract_metadata(&raw);
            Some(Ok((meta, raw)))
        },
    }
}

} // verus!
