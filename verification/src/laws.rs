//! Properties of the library as a whole, each stated over the spec
//! functions that the operations' contracts use.
use vstd::prelude::*;
use crate::fits::{
    card_at, card_entry, cards_map, first_end_from, fits_metadata, header_cards, is_end_card,
    searched_cards, unquote, value_text, FitsFault,
};
use crate::indexer::{agreed_extension, format_of, is_separator, lowered, ScanState};
use crate::lookup::{i64_value, lookup, str_views};
use crate::metadata::{image_type_of, is_catalogue_type};
use crate::numbers::{is_float_literal, is_mantissa, is_number, is_special_float};
use crate::preview::{
    card_text, fits_layout, layout_from, lz4_block, payload, starts_end, unshuffled, LayoutView,
};
use crate::queries::{
    active, conditions, join_and, lies_in, parameters, where_clause, FILTER_CONDITION, OBJECT_CONDITION,
    SEARCH_CONDITION, TYPE_CONDITION,
};
use crate::text::{ascii_lowercase, has_part, has_prefix, is_ws, trim, trim_end, trim_start};
use crate::xisf::{header_length_of, xisf_header, xisf_metadata, xml_header};

verus! {

// ---------------------------------------------------------------------------
// FITS headers
// ---------------------------------------------------------------------------

/// A later card that assigns a keyword replaces any earlier value of it: the
/// header map holds the value of the last card.
pub proof fn law_later_card_wins(cards: Seq<Seq<u8>>, k: Seq<char>, v: Seq<char>)
    requires
        cards.len() > 0,
        card_entry(cards.last()) == Some((k, v)),
    ensures
        cards_map(cards).contains_key(k),
        cards_map(cards)[k] == v,
{
}

proof fn lemma_first_end_from(data: Seq<u8>, n: int, limit: int)
    requires
        0 <= n,
    ensures
        first_end_from(data, n, limit) matches Some(e) ==> {
            &&& n <= e < limit
            &&& is_end_card(card_at(data, e))
            &&& forall|i: int| n <= i < e ==> !is_end_card(#[trigger] card_at(data, i))
        },
        first_end_from(data, n, limit) is None ==> forall|i: int|
            n <= i < limit ==> !is_end_card(#[trigger] card_at(data, i)),
    decreases limit - n,
{
    if n < limit {
        lemma_first_end_from(data, n + 1, limit);
    }
}

/// The header cards are the cards of the file in order, up to and not
/// including the first `END` card, which lies within the blocks searched;
/// no `END` card is among them.
pub proof fn law_cards_precede_end(data: Seq<u8>)
    ensures
        header_cards(data) matches Ok(cs) ==> {
            &&& cs.len() < searched_cards(data)
            &&& is_end_card(card_at(data, cs.len() as int))
            &&& forall|i: int| 0 <= i < cs.len() ==> #[trigger] cs[i] == card_at(data, i)
            &&& forall|i: int| 0 <= i < cs.len() ==> !is_end_card(#[trigger] cs[i])
        },
        header_cards(data) == Err::<Seq<Seq<u8>>, FitsFault>(FitsFault::NoEnd) ==> forall|i: int|
            0 <= i < searched_cards(data) ==> !is_end_card(#[trigger] card_at(data, i)),
{
    lemma_first_end_from(data, 0, searched_cards(data));
    if let Ok(cs) = header_cards(data) {
        assert forall|i: int| 0 <= i < cs.len() implies !is_end_card(#[trigger] cs[i]) by {
            assert(cs[i] == card_at(data, i));
        }
    }
}

proof fn lemma_unquote_plain(t: Seq<char>)
    requires
        !t.contains('\''),
    ensures
        unquote(t + seq!['\'']) == t,
    decreases t.len(),
{
    if t.len() == 0 {
        assert(t + seq!['\''] == seq!['\'']);
    } else {
        let rest = t.drop_first();
        assert(!rest.contains('\'')) by {
            if rest.contains('\'') {
                let j = choose|j: int| 0 <= j < rest.len() && rest[j] == '\'';
                assert(t[j + 1] == '\'');
            }
        }
        assert(t[0] != '\'') by {
            if t[0] == '\'' {
                assert(t.contains('\''));
            }
        }
        lemma_unquote_plain(rest);
        assert((t + seq!['\'']).drop_first() == rest + seq!['\'']);
        assert(seq![t[0]] + rest == t);
    }
}

proof fn lemma_trim_start_of_nonspace(s: Seq<char>)
    requires
        s.len() > 0,
        !is_ws(s[0]),
    ensures
        trim_start(s) == s,
{
}

proof fn lemma_trim_end_of_nonspace(s: Seq<char>)
    requires
        s.len() > 0,
        !is_ws(s.last()),
    ensures
        trim_end(s) == s,
{
}

/// A quoted string value without embedded quotes is its text with trailing
/// blanks removed (`'NGC 1234   '` is `NGC 1234`).
pub proof fn law_quoted_value(t: Seq<char>)
    requires
        !t.contains('\''),
    ensures
        value_text(seq!['\''] + t + seq!['\'']) == trim_end(t),
{
    let q = seq!['\''] + t + seq!['\''];
    lemma_trim_start_of_nonspace(q);
    lemma_trim_end_of_nonspace(q);
    assert(trim(q) == q);
    assert(q.drop_first() == t + seq!['\'']);
    lemma_unquote_plain(t);
}

/// The text after a quote-free `t` and its closing quote never reaches the
/// unquoted value, unless it starts with a second quote.
proof fn lemma_unquote_stops(t: Seq<char>, u: Seq<char>)
    requires
        !t.contains('\''),
        u.len() == 0 || u[0] != '\'',
    ensures
        unquote(t + seq!['\''] + u) == t,
    decreases t.len(),
{
    if t.len() == 0 {
        let s = seq!['\''] + u;
        assert(t + seq!['\''] + u =~= s);
        assert(s[0] == '\'');
        assert(s.len() > 1 ==> s[1] == u[0]);
    } else {
        let rest = t.drop_first();
        assert(!rest.contains('\'')) by {
            if rest.contains('\'') {
                let j = choose|j: int| 0 <= j < rest.len() && rest[j] == '\'';
                assert(t[j + 1] == '\'');
            }
        }
        assert(t[0] != '\'') by {
            if t[0] == '\'' {
                assert(t.contains('\''));
            }
        }
        lemma_unquote_stops(rest, u);
        assert((t + seq!['\''] + u).drop_first() =~= rest + seq!['\''] + u);
        assert((t + seq!['\''] + u)[0] == t[0]);
        assert(seq![t[0]] + rest =~= t);
    }
}

/// Trimming the end of `p + r`, where `p` ends in a non-blank, keeps all of
/// `p`: the result is the first `k` characters for some `k` at least
/// `p.len()`.
proof fn lemma_trim_end_keeps(p: Seq<char>, r: Seq<char>) -> (k: int)
    requires
        p.len() > 0,
        !is_ws(p.last()),
    ensures
        p.len() <= k <= p.len() + r.len(),
        trim_end(p + r) == (p + r).take(k),
    decreases r.len(),
{
    if r.len() == 0 {
        assert(p + r =~= p);
        assert((p + r).take(p.len() as int) =~= p);
        p.len() as int
    } else if is_ws(r.last()) {
        let k = lemma_trim_end_keeps(p, r.drop_last());
        assert((p + r).drop_last() =~= p + r.drop_last());
        assert((p + r.drop_last()).take(k) =~= (p + r).take(k));
        k
    } else {
        assert((p + r).last() == r.last());
        assert((p + r).take((p + r).len() as int) =~= p + r);
        (p + r).len() as int
    }
}

/// A quoted string value ends at its closing quote: whatever follows that
/// quote (a comment, blanks, anything but a second quote) is not part of the
/// value (`'M42     '           / Object name` is `M42`).
pub proof fn law_quoted_value_ends_at_its_quote(t: Seq<char>, r: Seq<char>)
    requires
        !t.contains('\''),
        r.len() == 0 || r[0] != '\'',
    ensures
        value_text(seq!['\''] + t + seq!['\''] + r) == trim_end(t),
{
    let p = seq!['\''] + t + seq!['\''];
    let q = p + r;
    assert(seq!['\''] + t + seq!['\''] + r =~= q);
    assert(q[0] == '\'');
    lemma_trim_start_of_nonspace(q);
    let k = lemma_trim_end_keeps(p, r);
    let u = r.take(k - p.len());
    assert(q.take(k) =~= p + u);
    assert((p + u).drop_first() =~= t + seq!['\''] + u);
    assert(u.len() > 0 ==> u[0] == r[0]);
    lemma_unquote_stops(t, u);
}

/// Two quotes inside a quoted string stand for one (`'it''s'` is `it's`).
pub proof fn law_doubled_quote(a: Seq<char>, b: Seq<char>)
    requires
        !a.contains('\''),
        !b.contains('\''),
    ensures
        value_text(seq!['\''] + a + seq!['\'', '\''] + b + seq!['\'']) == trim_end(
            a + seq!['\''] + b,
        ),
{
    let q = seq!['\''] + a + seq!['\'', '\''] + b + seq!['\''];
    lemma_trim_start_of_nonspace(q);
    lemma_trim_end_of_nonspace(q);
    assert(trim(q) == q);
    lemma_unquote_doubled(a, b);
    assert(q.drop_first() == a + seq!['\'', '\''] + b + seq!['\'']);
}

proof fn lemma_unquote_doubled(a: Seq<char>, b: Seq<char>)
    requires
        !a.contains('\''),
        !b.contains('\''),
    ensures
        unquote(a + seq!['\'', '\''] + b + seq!['\'']) == a + seq!['\''] + b,
    decreases a.len(),
{
    if a.len() == 0 {
        let s = seq!['\'', '\''] + b + seq!['\''];
        assert(a + seq!['\'', '\''] + b + seq!['\''] == s);
        assert(s.skip(2) == b + seq!['\'']);
        lemma_unquote_plain(b);
        assert(a + seq!['\''] + b == seq!['\''] + b);
    } else {
        let rest = a.drop_first();
        assert(!rest.contains('\'')) by {
            if rest.contains('\'') {
                let j = choose|j: int| 0 <= j < rest.len() && rest[j] == '\'';
                assert(a[j + 1] == '\'');
            }
        }
        assert(a[0] != '\'') by {
            if a[0] == '\'' {
                assert(a.contains('\''));
            }
        }
        lemma_unquote_doubled(rest, b);
        let s = a + seq!['\'', '\''] + b + seq!['\''];
        assert(s.drop_first() == rest + seq!['\'', '\''] + b + seq!['\'']);
        assert(s[0] == a[0]);
        assert(seq![a[0]] + (rest + seq!['\''] + b) == a + seq!['\''] + b);
    }
}

/// A FITS header's filter is its `FILTER` keyword whenever that is
/// present and non-empty.
pub proof fn law_filter_keyword(m: Map<Seq<char>, Seq<char>>)
    requires
        m.contains_key("FILTER"@),
        m["FILTER"@].len() > 0,
    ensures
        fits_metadata(m).filter_name == Some(m["FILTER"@]),
{
    assert(str_views(seq!["FILTER", "FILTNAM1"])[0] == "FILTER"@);
}

/// A FITS header's exposure time is its `EXPTIME` keyword whenever that
/// holds a number (a text `str::parse::<f64>` accepts).
pub proof fn law_exposure_keyword(m: Map<Seq<char>, Seq<char>>)
    requires
        m.contains_key("EXPTIME"@),
        is_float_literal(m["EXPTIME"@]),
    ensures
        fits_metadata(m).exposure_time == Some(m["EXPTIME"@]),
{
    lemma_float_literal_not_empty(m["EXPTIME"@]);
    assert(str_views(seq!["EXPTIME", "EXPOSURE"])[0] == "EXPTIME"@);
}

/// Whether `m` holds a non-empty value under `k`.
pub open spec fn holds(m: Map<Seq<char>, Seq<char>>, k: Seq<char>) -> bool {
    m.contains_key(k) && m[k].len() > 0
}

/// Whether `m` holds a number under `k`: a text `str::parse::<f64>` accepts.
pub open spec fn holds_number(m: Map<Seq<char>, Seq<char>>, k: Seq<char>) -> bool {
    m.contains_key(k) && is_float_literal(m[k])
}

/// A number is never the empty text.
proof fn lemma_float_literal_not_empty(v: Seq<char>)
    requires
        is_float_literal(v),
    ensures
        v.len() > 0,
{
    if v.len() == 0 {
        assert(ascii_lowercase(v).len() == 0);
        assert(!is_special_float(v));
        assert forall|e: int| 0 <= e <= v.len() implies !#[trigger] is_mantissa(v.take(e)) by {
            assert(v.take(e).len() == 0);
        }
        assert(!is_number(v));
    }
}

/// Every number a map holds is non-empty.
proof fn lemma_numbers_are_not_empty(m: Map<Seq<char>, Seq<char>>)
    ensures
        forall|k: Seq<char>| #[trigger] holds_number(m, k) ==> holds(m, k),
{
    assert forall|k: Seq<char>| #[trigger] holds_number(m, k) implies holds(m, k) by {
        lemma_float_literal_not_empty(m[k]);
    }
}

/// A lookup gives the first spelling whenever the map holds it.
proof fn lemma_first_spelling(m: Map<Seq<char>, Seq<char>>, keys: Seq<Seq<char>>)
    requires
        keys.len() > 0,
    ensures
        holds(m, keys[0]) ==> lookup(m, keys) == Some(m[keys[0]]),
{
}

/// A lookup gives the second spelling when the first is absent.
proof fn lemma_second_spelling(m: Map<Seq<char>, Seq<char>>, keys: Seq<Seq<char>>)
    requires
        keys.len() > 1,
    ensures
        !m.contains_key(keys[0]) && holds(m, keys[1]) ==> lookup(m, keys) == Some(m[keys[1]]),
{
    if !m.contains_key(keys[0]) && holds(m, keys[1]) {
        let rest = keys.drop_first();
        assert(rest[0] == keys[1]);
        assert(lookup(m, rest) == Some(m[keys[1]]));
    }
}

/// Each field of a FITS header's metadata is read from its own keyword:
/// the first spelling whenever the header holds it (non-empty; for a
/// number, a text `str::parse` accepts), else the second spelling when the
/// first is absent. The type is normalised (`IMAGETYP`/`FRAME`).
pub proof fn law_fits_fields_by_keyword(m: Map<Seq<char>, Seq<char>>)
    ensures
        holds(m, "OBJECT"@) ==> fits_metadata(m).object_name == Some(m["OBJECT"@]),
        !m.contains_key("OBJECT"@) && holds(m, "TARGET"@) ==> fits_metadata(m).object_name == Some(m["TARGET"@]),
        holds(m, "DATE-OBS"@) ==> fits_metadata(m).date_obs == Some(m["DATE-OBS"@]),
        !m.contains_key("DATE-OBS"@) && holds(m, "DATE_OBS"@) ==> fits_metadata(m).date_obs == Some(m["DATE_OBS"@]),
        holds(m, "FILTER"@) ==> fits_metadata(m).filter_name == Some(m["FILTER"@]),
        !m.contains_key("FILTER"@) && holds(m, "FILTNAM1"@) ==> fits_metadata(m).filter_name == Some(m["FILTNAM1"@]),
        holds(m, "TELESCOP"@) ==> fits_metadata(m).telescope == Some(m["TELESCOP"@]),
        holds(m, "INSTRUME"@) ==> fits_metadata(m).instrument == Some(m["INSTRUME"@]),
        holds(m, "SWCREATE"@) ==> fits_metadata(m).software == Some(m["SWCREATE"@]),
        !m.contains_key("SWCREATE"@) && holds(m, "CREATOR"@) ==> fits_metadata(m).software == Some(m["CREATOR"@]),
        holds(m, "IMAGETYP"@) ==> fits_metadata(m).image_type == Some(image_type_of(m["IMAGETYP"@])),
        !m.contains_key("IMAGETYP"@) && holds(m, "FRAME"@) ==> fits_metadata(m).image_type == Some(image_type_of(m["FRAME"@])),
        holds_number(m, "EXPTIME"@) ==> fits_metadata(m).exposure_time == Some(m["EXPTIME"@]),
        !m.contains_key("EXPTIME"@) && holds_number(m, "EXPOSURE"@) ==> fits_metadata(m).exposure_time == Some(m["EXPOSURE"@]),
        holds_number(m, "GAIN"@) ==> fits_metadata(m).gain == Some(m["GAIN"@]),
        holds_number(m, "FOCALLEN"@) ==> fits_metadata(m).focal_length == Some(m["FOCALLEN"@]),
        holds_number(m, "APERTURE"@) ==> fits_metadata(m).aperture == Some(m["APERTURE"@]),
        holds_number(m, "CCD-TEMP"@) ==> fits_metadata(m).ccd_temp == Some(m["CCD-TEMP"@]),
        !m.contains_key("CCD-TEMP"@) && holds_number(m, "CCDTEMP"@) ==> fits_metadata(m).ccd_temp == Some(m["CCDTEMP"@]),
        holds_number(m, "SITELAT"@) ==> fits_metadata(m).site_lat == Some(m["SITELAT"@]),
        !m.contains_key("SITELAT"@) && holds_number(m, "LAT-OBS"@) ==> fits_metadata(m).site_lat == Some(m["LAT-OBS"@]),
        holds_number(m, "SITELONG"@) ==> fits_metadata(m).site_lon == Some(m["SITELONG"@]),
        !m.contains_key("SITELONG"@) && holds_number(m, "LONG-OBS"@) ==> fits_metadata(m).site_lon == Some(m["LONG-OBS"@]),
        holds_number(m, "AIRMASS"@) ==> fits_metadata(m).airmass == Some(m["AIRMASS"@]),
        holds(m, "OFFSET"@) ==> fits_metadata(m).offset == i64_value(m["OFFSET"@]),
        !m.contains_key("OFFSET"@) && holds(m, "PEDESTAL"@) ==> fits_metadata(m).offset == i64_value(m["PEDESTAL"@]),
        holds(m, "ISOSPEED"@) ==> fits_metadata(m).iso == i64_value(m["ISOSPEED"@]),
        !m.contains_key("ISOSPEED"@) && holds(m, "ISO"@) ==> fits_metadata(m).iso == i64_value(m["ISO"@]),
        holds(m, "XBINNING"@) ==> fits_metadata(m).binning_x == i64_value(m["XBINNING"@]),
        holds(m, "YBINNING"@) ==> fits_metadata(m).binning_y == i64_value(m["YBINNING"@]),
        holds(m, "NAXIS1"@) ==> fits_metadata(m).width == i64_value(m["NAXIS1"@]),
        holds(m, "NAXIS2"@) ==> fits_metadata(m).height == i64_value(m["NAXIS2"@]),
        holds(m, "BITPIX"@) ==> fits_metadata(m).bit_depth == i64_value(m["BITPIX"@]),
{
    lemma_numbers_are_not_empty(m);
    lemma_first_spelling(m, str_views(seq!["OBJECT", "TARGET"]));
    lemma_second_spelling(m, str_views(seq!["OBJECT", "TARGET"]));
    lemma_first_spelling(m, str_views(seq!["DATE-OBS", "DATE_OBS", "DATE-BEG"]));
    lemma_second_spelling(m, str_views(seq!["DATE-OBS", "DATE_OBS", "DATE-BEG"]));
    lemma_first_spelling(m, str_views(seq!["FILTER", "FILTNAM1"]));
    lemma_second_spelling(m, str_views(seq!["FILTER", "FILTNAM1"]));
    lemma_first_spelling(m, str_views(seq!["TELESCOP"]));
    lemma_first_spelling(m, str_views(seq!["INSTRUME"]));
    lemma_first_spelling(m, str_views(seq!["SWCREATE", "CREATOR", "PROGRAM"]));
    lemma_second_spelling(m, str_views(seq!["SWCREATE", "CREATOR", "PROGRAM"]));
    lemma_first_spelling(m, str_views(seq!["IMAGETYP", "FRAME"]));
    lemma_second_spelling(m, str_views(seq!["IMAGETYP", "FRAME"]));
    lemma_first_spelling(m, str_views(seq!["EXPTIME", "EXPOSURE"]));
    lemma_second_spelling(m, str_views(seq!["EXPTIME", "EXPOSURE"]));
    lemma_first_spelling(m, str_views(seq!["GAIN"]));
    lemma_first_spelling(m, str_views(seq!["FOCALLEN"]));
    lemma_first_spelling(m, str_views(seq!["APERTURE"]));
    lemma_first_spelling(m, str_views(seq!["CCD-TEMP", "CCDTEMP", "TEMP"]));
    lemma_second_spelling(m, str_views(seq!["CCD-TEMP", "CCDTEMP", "TEMP"]));
    lemma_first_spelling(m, str_views(seq!["SITELAT", "LAT-OBS", "OBSLAT"]));
    lemma_second_spelling(m, str_views(seq!["SITELAT", "LAT-OBS", "OBSLAT"]));
    lemma_first_spelling(m, str_views(seq!["SITELONG", "LONG-OBS", "OBSLONG"]));
    lemma_second_spelling(m, str_views(seq!["SITELONG", "LONG-OBS", "OBSLONG"]));
    lemma_first_spelling(m, str_views(seq!["AIRMASS"]));
    lemma_first_spelling(m, str_views(seq!["OFFSET", "PEDESTAL"]));
    lemma_second_spelling(m, str_views(seq!["OFFSET", "PEDESTAL"]));
    lemma_first_spelling(m, str_views(seq!["ISOSPEED", "ISO"]));
    lemma_second_spelling(m, str_views(seq!["ISOSPEED", "ISO"]));
    lemma_first_spelling(m, str_views(seq!["XBINNING"]));
    lemma_first_spelling(m, str_views(seq!["YBINNING"]));
    lemma_first_spelling(m, str_views(seq!["NAXIS1"]));
    lemma_first_spelling(m, str_views(seq!["NAXIS2"]));
    lemma_first_spelling(m, str_views(seq!["BITPIX"]));
}

// ---------------------------------------------------------------------------
// FITS previews
// ---------------------------------------------------------------------------

/// Whether card `n` of the data is the first card whose text starts with
/// `END`.
pub open spec fn first_end_card(data: Seq<u8>, n: int) -> bool {
    &&& 0 <= n
    &&& starts_end(card_text(card_at(data, n)))
    &&& forall|j: int| 0 <= j < n ==> !starts_end(#[trigger] card_text(card_at(data, j)))
}

/// A scan from card `n0` stops at the first `END` card at or after it.
proof fn lemma_layout_stops_at_end(
    data: Seq<u8>,
    n0: int,
    limit: int,
    l: LayoutView,
    l2: LayoutView,
    n: int,
)
    requires
        layout_from(data, n0, limit, l) == Some((l2, n)),
    ensures
        n0 <= n < limit,
        starts_end(card_text(card_at(data, n))),
        forall|j: int| n0 <= j < n ==> !starts_end(#[trigger] card_text(card_at(data, j))),
    decreases limit - n0,
{
    let s = card_text(card_at(data, n0));
    if !starts_end(s) {
        let l1 = crate::preview::layout_step(l, s);
        lemma_layout_stops_at_end(data, n0 + 1, limit, l1, l2, n);
    }
}

/// The pixel data of a FITS preview starts right after the header block
/// that holds the first `END` card: when that is card `n`, the header takes
/// `n / 36 + 1` blocks of 2880 bytes (card 50 gives 2 blocks, data from byte
/// 5760), and those blocks are all in the file.
pub proof fn law_pixel_data_follows_the_end_block(data: Seq<u8>)
    ensures
        fits_layout(data) matches Ok((l, b)) ==> exists|n: int|
            #![trigger card_at(data, n)]
            first_end_card(data, n) && (b - 1) * 36 <= n < b * 36 && b * 2880 <= data.len(),
{
    let limit = (data.len() as int / 2880) * 36;
    if let Ok((l, b)) = fits_layout(data) {
        let r = layout_from(data, 0, limit, crate::preview::initial_layout());
        let (l2, n) = r.unwrap();
        lemma_layout_stops_at_end(data, 0, limit, crate::preview::initial_layout(), l2, n);
        assert(b == n / 36 + 1);
        assert((b - 1) * 36 <= n < b * 36);
        assert(b * 2880 <= data.len()) by (nonlinear_arith)
            requires
                b == n / 36 + 1,
                n < (data.len() as int / 2880) * 36,
                0 <= n,
        ;
        assert(first_end_card(data, n));
    }
}

// ---------------------------------------------------------------------------
// XISF headers
// ---------------------------------------------------------------------------

/// In the raw map of an XISF header an XISF property takes precedence over a
/// FITS keyword of the same name, and every FITS keyword without such a
/// property keeps its value.
pub proof fn law_properties_take_precedence(xml: Seq<char>, k: Seq<char>)
    ensures
        xml_header(xml) matches Ok(s) ==> xisf_header(xml) matches Ok((raw, _)) && {
            &&& s.props.contains_key(k) ==> raw.contains_key(k) && raw[k] == s.props[k]
            &&& !s.props.contains_key(k) && s.fits.contains_key(k) ==> raw.contains_key(k)
                && raw[k] == s.fits[k]
        },
{
}

/// The object name of an XISF header is the `Observation:Object:Name`
/// property whenever that is present and non-empty, whatever the FITS
/// keywords say.
pub proof fn law_object_property_wins(
    raw: Map<Seq<char>, Seq<char>>,
    props: Map<Seq<char>, Seq<char>>,
    attrs: Map<Seq<char>, Seq<char>>,
)
    requires
        props.contains_key("Observation:Object:Name"@),
        props["Observation:Object:Name"@].len() > 0,
    ensures
        xisf_metadata(raw, props, attrs).object_name == Some(props["Observation:Object:Name"@]),
{
    assert(str_views(seq!["Observation:Object:Name"])[0] == "Observation:Object:Name"@);
}

/// The camera of an XISF header is the `Instrument:Camera:Name` property
/// whenever that is present and non-empty, whatever the FITS keywords say.
pub proof fn law_camera_property_wins(
    raw: Map<Seq<char>, Seq<char>>,
    props: Map<Seq<char>, Seq<char>>,
    attrs: Map<Seq<char>, Seq<char>>,
)
    requires
        props.contains_key("Instrument:Camera:Name"@),
        props["Instrument:Camera:Name"@].len() > 0,
    ensures
        xisf_metadata(raw, props, attrs).instrument == Some(props["Instrument:Camera:Name"@]),
{
    assert(str_views(seq!["Instrument:Camera:Name"])[0] == "Instrument:Camera:Name"@);
}

/// Every XISF property the metadata maps takes precedence over the FITS
/// keywords: whenever the header holds it (non-empty; for a number, a text
/// that parses as one), the field is the property's value.
pub proof fn law_xisf_properties_win(
    raw: Map<Seq<char>, Seq<char>>,
    props: Map<Seq<char>, Seq<char>>,
    attrs: Map<Seq<char>, Seq<char>>,
)
    ensures
        holds(props, "Observation:Object:Name"@) ==> xisf_metadata(raw, props, attrs).object_name == Some(props["Observation:Object:Name"@]),
        holds(props, "Observation:Time:Start"@) ==> xisf_metadata(raw, props, attrs).date_obs == Some(props["Observation:Time:Start"@]),
        holds(props, "Instrument:Filter:Name"@) ==> xisf_metadata(raw, props, attrs).filter_name == Some(props["Instrument:Filter:Name"@]),
        holds(props, "Instrument:Telescope:Name"@) ==> xisf_metadata(raw, props, attrs).telescope == Some(props["Instrument:Telescope:Name"@]),
        holds(props, "Instrument:Camera:Name"@) ==> xisf_metadata(raw, props, attrs).instrument == Some(props["Instrument:Camera:Name"@]),
        holds(props, "Creator:Application"@) ==> xisf_metadata(raw, props, attrs).software == Some(props["Creator:Application"@]),
        holds_number(props, "Instrument:ExposureTime"@) ==> xisf_metadata(raw, props, attrs).exposure_time == Some(props["Instrument:ExposureTime"@]),
        holds_number(props, "Instrument:Camera:Gain"@) ==> xisf_metadata(raw, props, attrs).gain == Some(props["Instrument:Camera:Gain"@]),
        holds_number(props, "Instrument:Telescope:FocalLength"@) ==> xisf_metadata(raw, props, attrs).focal_length == Some(props["Instrument:Telescope:FocalLength"@]),
        holds_number(props, "Instrument:Sensor:Temperature"@) ==> xisf_metadata(raw, props, attrs).ccd_temp == Some(props["Instrument:Sensor:Temperature"@]),
        holds_number(props, "Observation:Location:Latitude"@) ==> xisf_metadata(raw, props, attrs).site_lat == Some(props["Observation:Location:Latitude"@]),
        holds_number(props, "Observation:Location:Longitude"@) ==> xisf_metadata(raw, props, attrs).site_lon == Some(props["Observation:Location:Longitude"@]),
        holds(props, "Instrument:Camera:ISOSpeed"@) && i64_value(props["Instrument:Camera:ISOSpeed"@]) is Some ==> xisf_metadata(raw, props, attrs).iso == i64_value(props["Instrument:Camera:ISOSpeed"@]),
{
    lemma_numbers_are_not_empty(props);
    lemma_first_spelling(props, str_views(seq!["Observation:Object:Name"]));
    lemma_first_spelling(props, str_views(seq!["Observation:Time:Start"]));
    lemma_first_spelling(props, str_views(seq!["Instrument:Filter:Name"]));
    lemma_first_spelling(props, str_views(seq!["Instrument:Telescope:Name"]));
    lemma_first_spelling(props, str_views(seq!["Instrument:Camera:Name"]));
    lemma_first_spelling(props, str_views(seq!["Creator:Application"]));
    lemma_first_spelling(props, str_views(seq!["Instrument:ExposureTime"]));
    lemma_first_spelling(props, str_views(seq!["Instrument:Camera:Gain"]));
    lemma_first_spelling(props, str_views(seq!["Instrument:Telescope:FocalLength"]));
    lemma_first_spelling(props, str_views(seq!["Instrument:Sensor:Temperature"]));
    lemma_first_spelling(props, str_views(seq!["Observation:Location:Latitude"]));
    lemma_first_spelling(props, str_views(seq!["Observation:Location:Longitude"]));
    lemma_first_spelling(props, str_views(seq!["Instrument:Camera:ISOSpeed"]));
}

/// An accepted XISF header length lies between 1 byte and 64 MiB.
pub proof fn law_header_length_bounds(prefix: Seq<u8>)
    ensures
        header_length_of(prefix) matches Ok(n) ==> 1 <= n <= 67108864,
{
}

// ---------------------------------------------------------------------------
// Pixel data
// ---------------------------------------------------------------------------

/// The XISF byte shuffle of items of `item` bytes: all first bytes, then all
/// second bytes, and so on.
pub open spec fn shuffled(x: Seq<u8>, item: int) -> Seq<u8> {
    let n = x.len() as int / item;
    Seq::new(x.len(), |k: int| x[(k % n) * item + k / n])
}

/// Un-shuffling undoes the byte shuffle of whole items.
pub proof fn law_unshuffle_undoes_shuffle(x: Seq<u8>, item: int)
    requires
        item > 1,
        x.len() as int % item == 0,
    ensures
        unshuffled(shuffled(x, item), item) == x,
{
    let n = x.len() as int / item;
    let s = shuffled(x, item);
    vstd::arithmetic::div_mod::lemma_fundamental_div_mod(x.len() as int, item);
    assert(n * item == x.len());
    assert forall|k: int| 0 <= k < x.len() implies #[trigger] unshuffled(s, item)[k] == x[k] by {
        vstd::arithmetic::div_mod::lemma_fundamental_div_mod(k, item);
        let i = k / item;
        let j = k % item;
        assert(0 <= j < item);
        assert(0 <= i < n) by {
            vstd::arithmetic::div_mod::lemma_div_is_ordered(k, x.len() as int - 1, item);
            vstd::arithmetic::div_mod::lemma_div_by_multiple_is_strongly_ordered(
                k,
                x.len() as int,
                n,
                item,
            );
        }
        assert(k < n * item);
        let p = j * n + i;
        assert(0 <= p < n * item) by (nonlinear_arith)
            requires
                0 <= i < n,
                0 <= j < item,
                p == j * n + i,
        ;
        vstd::arithmetic::div_mod::lemma_fundamental_div_mod_converse(p, n, j, i);
        assert(s[p] == x[(p % n) * item + p / n]);
        vstd::arithmetic::mul::lemma_mul_is_commutative(i, item);
        assert((p % n) * item + p / n == k);
    }
    assert(unshuffled(s, item) =~= x);
}

// ---------------------------------------------------------------------------
// Listing queries
// ---------------------------------------------------------------------------

/// The number of `?` placeholders in a text.
pub open spec fn placeholders(s: Seq<char>) -> nat
    decreases s.len(),
{
    if s.len() == 0 {
        0
    } else {
        placeholders(s.drop_last()) + if s.last() == '?' {
            1nat
        } else {
            0nat
        }
    }
}

/// Placeholders of a concatenation add up.
proof fn lemma_placeholders_concat(a: Seq<char>, b: Seq<char>)
    ensures
        placeholders(a + b) == placeholders(a) + placeholders(b),
    decreases b.len(),
{
    if b.len() == 0 {
        assert(a + b =~= a);
    } else {
        lemma_placeholders_concat(a, b.drop_last());
        assert((a + b).drop_last() =~= a + b.drop_last());
    }
}

/// The placeholders of the condition texts: three in the search, one each
/// in the type and filter conditions, none in the joining words.
#[verifier::spinoff_prover]
proof fn lemma_condition_placeholders()
    ensures
        placeholders(SEARCH_CONDITION@) == 3,
        placeholders(TYPE_CONDITION@) == 1,
        placeholders(FILTER_CONDITION@) == 1,
        placeholders(OBJECT_CONDITION@) == 1,
        placeholders(" AND "@) == 0,
        placeholders("WHERE "@) == 0,
{
    reveal_strlit("(object_name LIKE ?  OR file_name LIKE ?  OR instrument LIKE ?)");
    reveal_strlit("(object_name LIKE ?");
    reveal_strlit("  OR file_name LIKE ?");
    reveal_strlit("  OR instrument LIKE ?)");
    assert(SEARCH_CONDITION@ =~= "(object_name LIKE ?"@ + "  OR file_name LIKE ?"@
        + "  OR instrument LIKE ?)"@);
    lemma_placeholders_concat("(object_name LIKE ?"@ + "  OR file_name LIKE ?"@, "  OR instrument LIKE ?)"@);
    lemma_placeholders_concat("(object_name LIKE ?"@, "  OR file_name LIKE ?"@);
    reveal_strlit("LOWER(image_type) = LOWER(?)");
    reveal_strlit("filter_name = ?");
    reveal_strlit("object_name = ?");
    reveal_strlit(" AND ");
    reveal_strlit("WHERE ");
    reveal_with_fuel(placeholders, 30);
}

/// The placeholders of a list of texts, added up.
pub open spec fn total_placeholders(c: Seq<Seq<char>>) -> nat
    decreases c.len(),
{
    if c.len() == 0 {
        0
    } else {
        total_placeholders(c.drop_last()) + placeholders(c.last())
    }
}

/// Joining conditions with ` AND ` adds no placeholder.
proof fn lemma_join_placeholders(c: Seq<Seq<char>>)
    ensures
        placeholders(join_and(c)) == total_placeholders(c),
    decreases c.len(),
{
    if c.len() == 1 {
        assert(c.drop_last() =~= Seq::<Seq<char>>::empty());
        assert(total_placeholders(c.drop_last()) == 0);
        assert(c.last() == c[0]);
    } else if c.len() > 1 {
        lemma_join_placeholders(c.drop_last());
        lemma_placeholders_concat(join_and(c.drop_last()) + " AND "@, c.last());
        lemma_placeholders_concat(join_and(c.drop_last()), " AND "@);
        lemma_condition_placeholders();
    }
}

/// Placeholders of a concatenation of lists add up.
proof fn lemma_total_concat(a: Seq<Seq<char>>, b: Seq<Seq<char>>)
    ensures
        total_placeholders(a + b) == total_placeholders(a) + total_placeholders(b),
    decreases b.len(),
{
    if b.len() == 0 {
        assert(a + b =~= a);
    } else {
        lemma_total_concat(a, b.drop_last());
        assert((a + b).drop_last() =~= a + b.drop_last());
    }
}

/// The placeholders of one condition, when it is active.
proof fn lemma_optional_condition(on: bool, cond: Seq<char>)
    ensures
        total_placeholders(
            if on {
                seq![cond]
            } else {
                Seq::<Seq<char>>::empty()
            },
        ) == if on {
            placeholders(cond)
        } else {
            0
        },
{
    let one: Seq<Seq<char>> = seq![cond];
    assert(one.drop_last() =~= Seq::<Seq<char>>::empty());
    assert(total_placeholders(one.drop_last()) == 0);
}

/// The `WHERE` clause of a listing holds one `?` placeholder for each
/// parameter the query binds, whichever filters are active.
pub proof fn law_one_parameter_per_placeholder(
    search: Option<Seq<char>>,
    image_type: Option<Seq<char>>,
    filter_name: Option<Seq<char>>,
    object_name: Option<Seq<char>>,
)
    ensures
        placeholders(where_clause(conditions(search, image_type, filter_name, object_name)))
            == parameters(search, image_type, filter_name, object_name).len(),
{
    let e = Seq::<Seq<char>>::empty();
    let a = if active(search) { seq![SEARCH_CONDITION@] } else { e };
    let b = if active(image_type) { seq![TYPE_CONDITION@] } else { e };
    let f = if active(filter_name) { seq![FILTER_CONDITION@] } else { e };
    let o = if active(object_name) { seq![OBJECT_CONDITION@] } else { e };
    let c = conditions(search, image_type, filter_name, object_name);
    assert(c == a + b + f + o);
    lemma_condition_placeholders();
    lemma_optional_condition(active(search), SEARCH_CONDITION@);
    lemma_optional_condition(active(image_type), TYPE_CONDITION@);
    lemma_optional_condition(active(filter_name), FILTER_CONDITION@);
    lemma_optional_condition(active(object_name), OBJECT_CONDITION@);
    lemma_total_concat(a, b);
    lemma_total_concat(a + b, f);
    lemma_total_concat(a + b + f, o);
    lemma_join_placeholders(c);
    if c.len() > 0 {
        lemma_placeholders_concat("WHERE "@, join_and(c));
    }
}

/// Removing or counting a directory concerns only the files inside it: a
/// path under the directory lies in it, and a sibling whose name merely
/// starts with the directory's name (`M42b` beside `M42`) does not, nor does
/// the directory itself.
pub proof fn law_only_files_inside_a_directory(dir: Seq<char>, name: Seq<char>, rest: Seq<char>)
    requires
        dir.len() > 0,
        !is_separator(dir.last()),
        name.len() > 0,
        !is_separator(name[0]),
    ensures
        lies_in(dir, dir + seq!['/'] + rest),
        lies_in(dir, dir + seq!['\\'] + rest),
        !lies_in(dir, dir + name),
        !lies_in(dir, dir),
{
    assert((dir + seq!['/'] + rest).take(dir.len() as int) =~= dir);
    assert((dir + seq!['\\'] + rest).take(dir.len() as int) =~= dir);
    assert((dir + seq!['/'] + rest)[dir.len() as int] == '/');
    assert((dir + seq!['\\'] + rest)[dir.len() as int] == '\\');
    assert((dir + name)[dir.len() as int] == name[0]);
}

// ---------------------------------------------------------------------------
// Scanning
// ---------------------------------------------------------------------------

/// How many files a scan has written once it has stopped, whether it ran
/// to the end or was cancelled: the pending batch is written last.
pub open spec fn written_when_done(s: ScanState) -> int {
    if s.pending > 0 {
        s.written + s.pending
    } else {
        s.written as int
    }
}

/// Nothing parsed is lost: once a scan stops and writes its last batch,
/// every parsed file has been written.
pub proof fn law_scan_writes_every_parsed_file(s: ScanState)
    requires
        s.pending + s.written == s.result.indexed,
    ensures
        written_when_done(s) == s.result.indexed,
{
}

/// Whether a file is an image does not depend on the case of its
/// extension.
pub proof fn law_extension_case_insensitive(e: Seq<char>)
    ensures
        format_of(lowered(Some(e))) == format_of(lowered(Some(ascii_lowercase(e)))),
{
    assert(ascii_lowercase(ascii_lowercase(e)) =~= ascii_lowercase(e));
}

// ---------------------------------------------------------------------------
// Image types, software, compression
// ---------------------------------------------------------------------------

/// Every image type that a FITS or XISF header gives is one of the
/// catalogue's: Light, Dark, Flat, Bias, MasterDark, MasterFlat, MasterBias
/// or Unknown.
pub proof fn law_image_type_in_catalogue(
    m: Map<Seq<char>, Seq<char>>,
    props: Map<Seq<char>, Seq<char>>,
    attrs: Map<Seq<char>, Seq<char>>,
    text: Seq<char>,
)
    ensures
        is_catalogue_type(image_type_of(text)),
        fits_metadata(m).image_type matches Some(t) ==> is_catalogue_type(t),
        xisf_metadata(m, props, attrs).image_type matches Some(t) ==> is_catalogue_type(t),
{
}

/// The capture software of an XISF header is its `Creator:Application`
/// property whenever that is present and non-empty, whatever else the
/// header holds.
pub proof fn law_creator_application_names_software(
    raw: Map<Seq<char>, Seq<char>>,
    props: Map<Seq<char>, Seq<char>>,
    attrs: Map<Seq<char>, Seq<char>>,
    v: Seq<char>,
)
    requires
        props.contains_key("Creator:Application"@),
        props["Creator:Application"@] == v,
        v.len() > 0,
    ensures
        xisf_metadata(raw, props, attrs).software == Some(v),
{
    reveal_strlit("Creator:Application");
    let keys = str_views(seq!["Creator:Application"]);
    assert(keys =~= seq!["Creator:Application"@]);
    assert(lookup(props, keys) == Some(v));
}

/// On every path whose extension all platforms read alike, a file is an
/// image exactly when that extension, in ASCII lower case, is `fits`, `fit`
/// or `xisf`.
pub proof fn law_image_file_by_extension(path: Seq<char>)
    ensures
        agreed_extension(path) matches Some(x) ==> (format_of(lowered(x)) is Some <==> (lowered(x)
            == "fits"@ || lowered(x) == "fit"@ || lowered(x) == "xisf"@)),
{
}

/// Compression is transparent to a preview: LZ4 data decodes to what the
/// same image stored uncompressed (and, for `+sh`, un-shuffled) gives.
pub proof fn law_compression_is_transparent(
    raw: Seq<u8>,
    codec: Seq<char>,
    size: int,
    item: int,
    d: Seq<u8>,
)
    requires
        has_prefix(codec, "lz4"@),
        lz4_block(raw, size) == Ok::<Seq<u8>, Seq<char>>(d),
    ensures
        has_part(codec, "+sh"@) ==> payload(raw, Some((codec, size, item))) == payload(
            unshuffled(d, item),
            None,
        ),
        !has_part(codec, "+sh"@) ==> payload(raw, Some((codec, size, item))) == payload(d, None),
{
}

/// A codec that does not start with `lz4` is refused, with its name.
pub proof fn law_unsupported_codec(raw: Seq<u8>, codec: Seq<char>, size: int, item: int)
    requires
        !has_prefix(codec, "lz4"@),
    ensures
        payload(raw, Some((codec, size, item))) == Err::<Seq<u8>, Seq<char>>(
            "Unsupported XISF compression: "@ + codec,
        ),
{
}

} // verus!
