//! Locating and unpacking the pixel data of FITS and XISF files for a
//! preview: the header fields that describe the data, where the data lies,
//! and how XISF data is decompressed and un-shuffled.
use vstd::prelude::*;
use vstd::utf8::valid_utf8;
use crate::fits::card_at;
use crate::numbers::{float_text, int_in_range, is_float_text, parse_usize};
use crate::text::{
    chars_of, split_char, split_on, string_of, trim, trim_end, trim_start, trimmed, trimmed_end,
    trimmed_start, utf8_chars_or_empty, utf8_or_empty, utf8_str, pieces_view, contains_text,
    has_part, has_prefix, starts_at,
};
use crate::xisf::{last_attr, image_tag};
use crate::xml::{
    attributes_view, bytes_equal, ends_once, error_message, lemma_rest_ends_once, next_token, open_reader,
    pending_tokens, xml_tokens, AttributeView, TokenView, XmlAttribute, XmlToken,
};

verus! {

/// Why no preview could be made.
pub enum PreviewError {
    /// The file ended before the data that was to be read.
    Truncated,
    /// Any other reason, with its message.
    Message(String),
}

// ---------------------------------------------------------------------------
// FITS
// ---------------------------------------------------------------------------

/// The value of `key = value / comment` in a card's text: none unless the
/// card starts with `key` followed by `=` (blanks allowed between); the text
/// after `=` up to any `/`, without leading and trailing blanks.
pub open spec fn card_value_for(card: Seq<char>, key: Seq<char>) -> Option<Seq<char>> {
    if !(key.len() <= card.len() && card.take(key.len() as int) == key) {
        None
    } else {
        let rest = trim_start(card.skip(key.len() as int));
        if rest.len() == 0 || rest[0] != '=' {
            None
        } else {
            Some(trim_end(split_on(trim_start(rest.drop_first()), '/')[0]))
        }
    }
}

/// The value of `key` in a card's text, if the card assigns `key`.
pub fn fits_card_value(card: &[char], key: &str) -> (r: Option<String>)
    ensures
        match r {
            Some(v) => card_value_for(card@, key@) == Some(v@),
            None => card_value_for(card@, key@) is None,
        },
{
    let k = chars_of(key);
    if k.len() > card.len() {
        assert(key@.len() > card@.len());
        assert(card_value_for(card@, key@) is None);
        return None;
    }
    let mut i: usize = 0;
    while i < k.len()
        invariant
            i <= k@.len() <= card@.len(),
            k@ == key@,
            forall|j: int| 0 <= j < i ==> card@[j] == k@[j],
        decreases k.len() - i,
    {
        if card[i] != k[i] {
            assert(card@.take(k@.len() as int)[i as int] != k@[i as int]);
            return None;
        }
        i = i + 1;
    }
    assert(card@.take(k@.len() as int) =~= k@);
    let after_key = crate::text::copy_range(card, k.len(), card.len());
    assert(after_key@ == card@.skip(k@.len() as int));
    let rest = trimmed_start(&after_key);
    if rest.len() == 0 || rest[0] != '=' {
        return None;
    }
    let after_eq_raw = crate::text::copy_range(&rest, 1, rest.len());
    assert(after_eq_raw@ == rest@.drop_first());
    let after_eq = trimmed_start(&after_eq_raw);
    let pieces = split_char(&after_eq, '/');
    assert(pieces@[0]@ == pieces_view(pieces@)[0]);
    let v = trimmed_end(&pieces[0]);
    Some(string_of(&v))
}

/// The data layout that a FITS header gives a preview: bits per pixel,
/// dimensions, scaling texts (none for the default), and header blocks.
pub struct FitsLayout {
    pub bitpix: i32,
    pub naxis1: usize,
    pub naxis2: usize,
    /// `BZERO` when it parses as a float; none stands for 0.
    pub bzero: Option<String>,
    /// `BSCALE` when it parses as a float; none stands for 1.
    pub bscale: Option<String>,
    /// Header blocks before the data.
    pub header_blocks: usize,
}

/// The header fields gathered so far while scanning for a preview.
pub struct LayoutView {
    pub bitpix: int,
    pub naxis1: int,
    pub naxis2: int,
    pub bzero: Option<Seq<char>>,
    pub bscale: Option<Seq<char>>,
}

/// The fields before any card is read: 16 bits per pixel, no dimensions,
/// default scaling.
pub open spec fn initial_layout() -> LayoutView {
    LayoutView { bitpix: 16, naxis1: 0, naxis2: 0, bzero: None, bscale: None }
}

/// The integer value of a field text, or `default` when it does not parse
/// as an integer in `lo..=hi`.
pub open spec fn int_or(v: Seq<char>, signed: bool, lo: int, hi: int, default: int) -> int {
    match int_in_range(trim(v), signed, lo, hi) {
        Some(n) => n,
        None => default,
    }
}

/// The effect of one card's text on the gathered fields: the first of
/// `BITPIX`, `NAXIS1`, `NAXIS2`, `BZERO`, `BSCALE` it assigns is set, to
/// the default when its value does not parse.
pub open spec fn layout_step(l: LayoutView, s: Seq<char>) -> LayoutView {
    match card_value_for(s, "BITPIX"@) {
        Some(v) => LayoutView { bitpix: int_or(v, true, i32::MIN as int, i32::MAX as int, 16), ..l },
        None => match card_value_for(s, "NAXIS1"@) {
            Some(v) => LayoutView { naxis1: int_or(v, false, 0, usize::MAX as int, 0), ..l },
            None => match card_value_for(s, "NAXIS2"@) {
                Some(v) => LayoutView { naxis2: int_or(v, false, 0, usize::MAX as int, 0), ..l },
                None => match card_value_for(s, "BZERO"@) {
                    Some(v) => LayoutView { bzero: float_text(trim(v)), ..l },
                    None => match card_value_for(s, "BSCALE"@) {
                        Some(v) => LayoutView { bscale: float_text(trim(v)), ..l },
                        None => l,
                    },
                },
            },
        },
    }
}

/// A card's text for the preview scan: its bytes as UTF-8 (none if not
/// well-formed) without trailing blanks.
pub open spec fn card_text(card: Seq<u8>) -> Seq<char> {
    trim_end(utf8_or_empty(card))
}

/// Whether a card's text starts with `END`.
pub open spec fn starts_end(s: Seq<char>) -> bool {
    s.len() >= 3 && s[0] == 'E' && s[1] == 'N' && s[2] == 'D'
}

/// Scanning cards `n..limit` of the data from fields `l`: the fields and the
/// number of the card that starts with `END`, or none when no card before
/// `limit` does.
pub open spec fn layout_from(data: Seq<u8>, n: int, limit: int, l: LayoutView) -> Option<
    (LayoutView, int),
>
    decreases limit - n,
{
    if n >= limit {
        None
    } else {
        let s = card_text(card_at(data, n));
        if starts_end(s) {
            Some((l, n))
        } else {
            layout_from(data, n + 1, limit, layout_step(l, s))
        }
    }
}

/// What a FITS file gives a preview: the layout, the input ending before an
/// `END` card, or missing dimensions.
pub open spec fn fits_layout(data: Seq<u8>) -> Result<(LayoutView, int), Option<()>> {
    match layout_from(data, 0, (data.len() as int / 2880) * 36, initial_layout()) {
        None => Err(None),
        Some((l, n)) => if l.naxis1 == 0 || l.naxis2 == 0 {
            Err(Some(()))
        } else {
            Ok((l, n / 36 + 1))
        },
    }
}

/// The meaning of a [`FitsLayout`].
pub open spec fn layout_view(f: FitsLayout) -> LayoutView {
    LayoutView {
        bitpix: f.bitpix as int,
        naxis1: f.naxis1 as int,
        naxis2: f.naxis2 as int,
        bzero: match f.bzero {
            Some(t) => Some(t@),
            None => None,
        },
        bscale: match f.bscale {
            Some(t) => Some(t@),
            None => None,
        },
    }
}

/// The message for a header without image dimensions.
pub open spec fn no_dimensions_message() -> Seq<char> {
    "Could not determine image dimensions"@
}

/// The integer in a field text (`str::parse` after trimming), or `default`.
fn field_int(v: &String, signed: bool, lo: i128, hi: i128, default: i128) -> (r: i128)
    requires
        -0x1_0000_0000_0000_0000 <= lo <= 0 <= hi <= 0x1_0000_0000_0000_0000,
        lo <= default <= hi,
    ensures
        r == int_or(v@, signed, lo as int, hi as int, default as int),
        lo <= r <= hi,
{
    let c = chars_of(v.as_str());
    let t = trimmed(&c);
    match crate::numbers::parse_int(&t, signed, lo, hi) {
        Some(n) => n,
        None => default,
    }
}

/// The float text in a field (after trimming), when it parses.
fn field_float(v: &String) -> (r: Option<String>)
    ensures
        match r {
            Some(t) => float_text(trim(v@)) == Some(t@),
            None => float_text(trim(v@)) is None,
        },
{
    let c = chars_of(v.as_str());
    let t = trimmed(&c);
    if is_float_text(&t) {
        Some(string_of(&t))
    } else {
        None
    }
}

impl FitsLayout {
    /// Applies one card's text.
    fn apply(&mut self, s: &[char])
        ensures
            layout_view(*final(self)) == layout_step(layout_view(*old(self)), s@),
            final(self).header_blocks == old(self).header_blocks,
    {
        if let Some(v) = fits_card_value(s, "BITPIX") {
            self.bitpix = field_int(&v, true, i32::MIN as i128, i32::MAX as i128, 16) as i32;
        } else if let Some(v) = fits_card_value(s, "NAXIS1") {
            self.naxis1 = field_int(&v, false, 0, usize::MAX as i128, 0) as usize;
        } else if let Some(v) = fits_card_value(s, "NAXIS2") {
            self.naxis2 = field_int(&v, false, 0, usize::MAX as i128, 0) as usize;
        } else if let Some(v) = fits_card_value(s, "BZERO") {
            self.bzero = field_float(&v);
        } else if let Some(v) = fits_card_value(s, "BSCALE") {
            self.bscale = field_float(&v);
        }
    }
}

/// The bytes of card `n`.
fn card_bytes(data: &[u8], n: usize) -> (v: Vec<u8>)
    requires
        n * 80 + 80 <= data@.len(),
    ensures
        v@ == card_at(data@, n as int),
{
    let len = data.len();
    assert(n * 80 + 80 <= len);
    let start = n * 80;
    let mut v: Vec<u8> = Vec::new();
    let mut j: usize = 0;
    while j < 80
        invariant
            j <= 80,
            start == n * 80,
            start + 80 <= data@.len(),
            len == data@.len(),
            v@ == data@.subrange(start as int, start + j),
        decreases 80 - j,
    {
        v.push(data[start + j]);
        assert(data@.subrange(start as int, start + j + 1) == data@.subrange(
            start as int,
            start + j,
        ).push(data@[start + j]));
        j = j + 1;
    }
    v
}

/// Reads the fields a preview needs from a FITS file: the header is scanned
/// block by block until a card that starts with `END`.
pub fn fits_preview_layout(data: &[u8]) -> (r: Result<FitsLayout, PreviewError>)
    ensures
        match r {
            Ok(f) => fits_layout(data@) == Ok::<_, Option<()>>((layout_view(f), f.header_blocks as int)),
            Err(PreviewError::Truncated) => fits_layout(data@) == Err::<(LayoutView, int), _>(
                None::<()>,
            ),
            Err(PreviewError::Message(m)) => fits_layout(data@) == Err::<(LayoutView, int), _>(
                Some(()),
            ) && m@ == no_dimensions_message(),
        },
{
    let limit = (data.len() / 2880) * 36;
    assert(limit * 80 <= data@.len()) by (nonlinear_arith)
        requires
            limit == (data@.len() / 2880) * 36,
    ;
    let mut layout = FitsLayout {
        bitpix: 16,
        naxis1: 0,
        naxis2: 0,
        bzero: None,
        bscale: None,
        header_blocks: 0,
    };
    let mut n: usize = 0;
    while n < limit
        invariant
            n <= limit,
            limit == (data@.len() as int / 2880) * 36,
            limit * 80 <= data@.len(),
            layout_from(data@, 0, limit as int, initial_layout()) == layout_from(
                data@,
                n as int,
                limit as int,
                layout_view(layout),
            ),
        decreases limit - n,
    {
        let bytes = card_bytes(data, n);
        let chars = utf8_chars_or_empty(&bytes);
        let s = trimmed_end(&chars);
        if s.len() >= 3 && s[0] == 'E' && s[1] == 'N' && s[2] == 'D' {
            if layout.naxis1 == 0 || layout.naxis2 == 0 {
                return Err(PreviewError::Message(String::from_str("Could not determine image dimensions")));
            }
            layout.header_blocks = n / 36 + 1;
            return Ok(layout);
        }
        layout.apply(&s);
        n = n + 1;
    }
    Err(PreviewError::Truncated)
}

/// Bytes per pixel for a FITS `BITPIX`: 8, 16 and 32 are integers of 1, 2
/// and 4 bytes, -32 and -64 floats of 4 and 8 bytes.
pub open spec fn bitpix_bytes(bitpix: int) -> Option<int> {
    if bitpix == 8 {
        Some(1)
    } else if bitpix == 16 {
        Some(2)
    } else if bitpix == 32 {
        Some(4)
    } else if bitpix == -32 {
        Some(4)
    } else if bitpix == -64 {
        Some(8)
    } else {
        None
    }
}

/// Bytes per pixel for a FITS `BITPIX`, none when unsupported.
pub fn fits_pixel_bytes(bitpix: i32) -> (r: Option<usize>)
    ensures
        match r {
            Some(b) => bitpix_bytes(bitpix as int) == Some(b as int),
            None => bitpix_bytes(bitpix as int) is None,
        },
{
    match bitpix {
        8 => Some(1),
        16 => Some(2),
        32 => Some(4),
        -32 => Some(4),
        -64 => Some(8),
        _ => None,
    }
}

// ---------------------------------------------------------------------------
// XISF
// ---------------------------------------------------------------------------

/// The pixel sample formats a preview decodes.
pub enum SampleFormat {
    UInt8,
    UInt16,
    UInt32,
    Float32,
    Float64,
}

/// The format an XISF `sampleFormat` names.
pub open spec fn sample_format_of(s: Seq<char>) -> Option<SampleFormat> {
    if s == "UInt8"@ {
        Some(SampleFormat::UInt8)
    } else if s == "UInt16"@ {
        Some(SampleFormat::UInt16)
    } else if s == "UInt32"@ {
        Some(SampleFormat::UInt32)
    } else if s == "Float32"@ {
        Some(SampleFormat::Float32)
    } else if s == "Float64"@ {
        Some(SampleFormat::Float64)
    } else {
        None
    }
}

/// Bytes per sample of a format.
pub open spec fn sample_bytes(f: SampleFormat) -> int {
    match f {
        SampleFormat::UInt8 => 1,
        SampleFormat::UInt16 => 2,
        SampleFormat::UInt32 => 4,
        SampleFormat::Float32 => 4,
        SampleFormat::Float64 => 8,
    }
}

impl SampleFormat {
    /// The format an XISF `sampleFormat` attribute names.
    pub fn parse(s: &str) -> (r: Option<SampleFormat>)
        ensures
            r == sample_format_of(s@),
    {
        let f = String::from_str(s);
        if f == String::from_str("UInt8") {
            Some(SampleFormat::UInt8)
        } else if f == String::from_str("UInt16") {
            Some(SampleFormat::UInt16)
        } else if f == String::from_str("UInt32") {
            Some(SampleFormat::UInt32)
        } else if f == String::from_str("Float32") {
            Some(SampleFormat::Float32)
        } else if f == String::from_str("Float64") {
            Some(SampleFormat::Float64)
        } else {
            None
        }
    }

    /// Bytes per sample.
    pub fn bytes_per_sample(&self) -> (n: usize)
        ensures
            n == sample_bytes(*self),
    {
        match self {
            SampleFormat::UInt8 => 1,
            SampleFormat::UInt16 => 2,
            SampleFormat::UInt32 => 4,
            SampleFormat::Float32 => 4,
            SampleFormat::Float64 => 8,
        }
    }
}

/// The bytes of items of `item` bytes each, stored byte plane by byte plane
/// (all first bytes, then all second bytes, ...), put back item by item.
/// Bytes past the last whole item become 0.
pub open spec fn unshuffled(s: Seq<u8>, item: int) -> Seq<u8> {
    if item <= 1 {
        s
    } else {
        let n = s.len() as int / item;
        Seq::new(
            s.len(),
            |k: int|
                if k < n * item {
                    s[(k % item) * n + k / item]
                } else {
                    0u8
                },
        )
    }
}

/// Index arithmetic of the shuffle: item `i`, byte `j` of `n` items of
/// `item` bytes.
proof fn lemma_shuffle_index(i: int, j: int, n: int, item: int)
    requires
        0 <= i < n,
        0 <= j < item,
    ensures
        0 <= i * item + j < n * item,
        (i * item + j) % item == j,
        (i * item + j) / item == i,
        0 <= j * n + i < item * n,
{
    assert(0 <= i * item + j < n * item) by (nonlinear_arith)
        requires
            0 <= i < n,
            0 <= j < item,
    ;
    assert(0 <= j * n + i < item * n) by (nonlinear_arith)
        requires
            0 <= i < n,
            0 <= j < item,
    ;
    vstd::arithmetic::div_mod::lemma_fundamental_div_mod_converse(i * item + j, item, i, j);
}

/// Undoes the XISF byte shuffle: the input holds byte 0 of every item, then
/// byte 1 of every item, and so on; the output holds the items one after the
/// other. An item size of 0 or 1 leaves the bytes as they are.
pub fn byte_unshuffle(shuffled: &[u8], item_size: usize) -> (out: Vec<u8>)
    ensures
        out@ == unshuffled(shuffled@, item_size as int),
{
    if item_size <= 1 {
        let mut out: Vec<u8> = Vec::new();
        let mut k: usize = 0;
        while k < shuffled.len()
            invariant
                k <= shuffled@.len(),
                out@ == shuffled@.take(k as int),
            decreases shuffled.len() - k,
        {
            out.push(shuffled[k]);
            assert(shuffled@.take(k + 1) == shuffled@.take(k as int).push(shuffled@[k as int]));
            k = k + 1;
        }
        assert(shuffled@.take(shuffled@.len() as int) == shuffled@);
        return out;
    }
    let len = shuffled.len();
    let n_items = len / item_size;
    let ghost n = n_items as int;
    let ghost item = item_size as int;
    assert(n * item <= len) by (nonlinear_arith)
        requires
            n == len as int / item,
            item > 1,
    ;
    let mut out: Vec<u8> = Vec::new();
    let mut k: usize = 0;
    while k < len
        invariant
            k <= len,
            len == shuffled@.len(),
            out@.len() == k,
            forall|x: int| 0 <= x < k ==> out@[x] == 0,
        decreases len - k,
    {
        out.push(0);
        k = k + 1;
    }
    let mut i: usize = 0;
    while i < n_items
        invariant
            i <= n_items,
            n == n_items,
            item == item_size,
            item > 1,
            len == shuffled@.len(),
            n_items == len / item_size,
            n * item <= len,
            out@.len() == len,
            forall|x: int|
                0 <= x < len ==> #[trigger] out@[x] == if x < (i as int) * item {
                    shuffled@[(x % item) * n + x / item]
                } else {
                    0u8
                },
        decreases n_items - i,
    {
        let mut j: usize = 0;
        while j < item_size
            invariant
                i < n_items,
                j <= item_size,
                n == n_items,
                item == item_size,
                item > 1,
                len == shuffled@.len(),
                n_items == len / item_size,
                n * item <= len,
                out@.len() == len,
                forall|x: int|
                    0 <= x < len ==> #[trigger] out@[x] == if x < (i as int) * item + j {
                        shuffled@[(x % item) * n + x / item]
                    } else {
                        0u8
                    },
            decreases item_size - j,
        {
            proof {
                lemma_shuffle_index(i as int, j as int, n, item);
            }
            let dst = i * item_size + j;
            let src = j * n_items + i;
            out.set(dst, shuffled[src]);
            j = j + 1;
        }
        proof {
            assert((i as int) * item + item == (i as int + 1) * item) by (nonlinear_arith);
        }
        i = i + 1;
    }
    assert(out@ =~= unshuffled(shuffled@, item_size as int));
    out
}

/// How XISF pixel data is compressed: the codec name, the uncompressed
/// size, and the item size for byte shuffling.
pub struct Compression {
    pub codec: String,
    pub uncompressed: usize,
    pub item_size: usize,
}

/// What the `Image` element of an XISF header says of the pixel data.
pub struct XisfImageInfo {
    pub width: usize,
    pub height: usize,
    pub format: SampleFormat,
    /// Byte offset of the data in the file.
    pub data_offset: u64,
    /// Byte size of the data, when the location gives it.
    pub data_size: Option<usize>,
    pub compression: Option<Compression>,
}

/// The meaning of an [`XisfImageInfo`].
pub struct InfoView {
    pub width: int,
    pub height: int,
    pub format: SampleFormat,
    pub offset: int,
    pub size: Option<int>,
    pub compression: Option<(Seq<char>, int, int)>,
}

/// The meaning of an [`XisfImageInfo`].
pub open spec fn info_view(i: XisfImageInfo) -> InfoView {
    InfoView {
        width: i.width as int,
        height: i.height as int,
        format: i.format,
        offset: i.data_offset as int,
        size: match i.data_size {
            Some(n) => Some(n as int),
            None => None,
        },
        compression: match i.compression {
            Some(c) => Some((c.codec@, c.uncompressed as int, c.item_size as int)),
            None => None,
        },
    }
}

/// `geometry`, `sampleFormat`, `location`, `compression`, `attachment`.
pub open spec fn geometry_key() -> Seq<u8> {
    seq![0x67u8, 0x65, 0x6f, 0x6d, 0x65, 0x74, 0x72, 0x79]
}

pub open spec fn sample_format_key() -> Seq<u8> {
    seq![0x73u8, 0x61, 0x6d, 0x70, 0x6c, 0x65, 0x46, 0x6f, 0x72, 0x6d, 0x61, 0x74]
}

pub open spec fn location_key() -> Seq<u8> {
    seq![0x6cu8, 0x6f, 0x63, 0x61, 0x74, 0x69, 0x6f, 0x6e]
}

pub open spec fn compression_key() -> Seq<u8> {
    seq![0x63u8, 0x6f, 0x6d, 0x70, 0x72, 0x65, 0x73, 0x73, 0x69, 0x6f, 0x6e]
}

/// An unsigned integer field (`str::parse`), or `default`.
pub open spec fn uint_or(v: Seq<char>, hi: int, default: int) -> int {
    match int_in_range(v, false, 0, hi) {
        Some(n) => n,
        None => default,
    }
}

/// The text of an attribute, empty when absent.
pub open spec fn attr_or_empty(attrs: Seq<Option<AttributeView>>, key: Seq<u8>) -> Seq<char> {
    match last_attr(attrs, key) {
        Some(v) => v,
        None => Seq::empty(),
    }
}

/// What the `Image` element's attributes say of the data: dimensions from
/// `geometry` (0 when missing), the sample format (UInt16 when missing or
/// unknown), offset and size from `location`, which must be an
/// `attachment`, and the codec, uncompressed size and item size from
/// `compression`; or the message for an unsupported location.
pub open spec fn image_info(attrs: Seq<Option<AttributeView>>) -> Result<InfoView, Seq<char>> {
    let geometry = attr_or_empty(attrs, geometry_key());
    let sf = match last_attr(attrs, sample_format_key()) {
        Some(v) => v,
        None => "UInt16"@,
    };
    let location = attr_or_empty(attrs, location_key());
    let comp = attr_or_empty(attrs, compression_key());
    let parts = split_on(geometry, ':');
    let width = uint_or(parts[0], usize::MAX as int, 0);
    let height = if parts.len() > 1 {
        uint_or(parts[1], usize::MAX as int, 0)
    } else {
        0
    };
    let format = match sample_format_of(sf) {
        Some(f) => f,
        None => SampleFormat::UInt16,
    };
    let loc = split_on(location, ':');
    if loc[0] != "attachment"@ {
        Err("Unsupported XISF data location: "@ + location)
    } else {
        let offset = if loc.len() > 1 {
            uint_or(loc[1], u64::MAX as int, 0)
        } else {
            0
        };
        let size = if loc.len() > 2 {
            int_in_range(loc[2], false, 0, usize::MAX as int)
        } else {
            None
        };
        let compression = if comp.len() == 0 {
            None
        } else {
            let cp = split_on(comp, ':');
            let uncompressed = if cp.len() > 1 {
                uint_or(cp[1], usize::MAX as int, 0)
            } else {
                0
            };
            let item = if cp.len() > 2 {
                uint_or(cp[2], usize::MAX as int, sample_bytes(format))
            } else {
                sample_bytes(format)
            };
            Some((cp[0], uncompressed, item))
        };
        Ok(
            InfoView {
                width,
                height,
                format,
                offset,
                size,
                compression,
            },
        )
    }
}

/// The message when the header has no `Image` element.
pub open spec fn no_image_message() -> Seq<char> {
    "No Image element found in XISF header"@
}

/// Reading tokens for the first `Image` element: its information, the
/// message for an unsupported location or a missing element, or none for a
/// read error (whose message is the error's own).
pub open spec fn info_scan(toks: Seq<TokenView>) -> Result<InfoView, Option<Seq<char>>>
    decreases toks.len(),
{
    if toks.len() == 0 {
        Err(Some(no_image_message()))
    } else {
        match toks[0] {
            TokenView::Open(n, a) => if n == image_tag() {
                match image_info(a) {
                    Ok(i) => Ok(i),
                    Err(m) => Err(Some(m)),
                }
            } else {
                info_scan(toks.drop_first())
            },
            TokenView::Eof => Err(Some(no_image_message())),
            TokenView::Failed => Err(None),
            _ => info_scan(toks.drop_first()),
        }
    }
}

/// An unsigned integer in a text, or `default`.
fn uint_field(v: &[char], hi: i128, default: i128) -> (r: i128)
    requires
        0 <= default <= hi <= 0x1_0000_0000_0000_0000,
    ensures
        r == uint_or(v@, hi as int, default as int),
        0 <= r <= hi,
{
    match crate::numbers::parse_int(v, false, 0, hi) {
        Some(n) => n,
        None => default,
    }
}

/// The text of the last readable attribute named `key`, empty when absent.
fn attribute_text(attributes: &[Option<XmlAttribute>], key: &[u8]) -> (r: String)
    ensures
        r@ == attr_or_empty(attributes_view(attributes@), key@),
{
    match crate::xisf::last_attribute(attributes, key) {
        Some(v) => v,
        None => String::new(),
    }
}

/// The data information from an `Image` element's attributes.
fn image_info_of(attributes: &[Option<XmlAttribute>]) -> (r: Result<XisfImageInfo, String>)
    ensures
        match (r, image_info(attributes_view(attributes@))) {
            (Ok(i), Ok(v)) => info_view(i) == v,
            (Err(m), Err(t)) => m@ == t,
            _ => false,
        },
{
    let ghost av = attributes_view(attributes@);
    let geometry_k: [u8; 8] = [0x67u8, 0x65, 0x6f, 0x6d, 0x65, 0x74, 0x72, 0x79];
    let sample_k: [u8; 12] = [0x73u8, 0x61, 0x6d, 0x70, 0x6c, 0x65, 0x46, 0x6f, 0x72, 0x6d, 0x61, 0x74];
    let location_k: [u8; 8] = [0x6cu8, 0x6f, 0x63, 0x61, 0x74, 0x69, 0x6f, 0x6e];
    let compression_k: [u8; 11] = [0x63u8, 0x6f, 0x6d, 0x70, 0x72, 0x65, 0x73, 0x73, 0x69, 0x6f, 0x6e];
    assert(geometry_k@ == geometry_key());
    assert(sample_k@ == sample_format_key());
    assert(location_k@ == location_key());
    assert(compression_k@ == compression_key());
    let geometry = attribute_text(attributes, geometry_k.as_slice());
    let sf = match crate::xisf::last_attribute(attributes, sample_k.as_slice()) {
        Some(v) => v,
        None => String::from_str("UInt16"),
    };
    let location = attribute_text(attributes, location_k.as_slice());
    let comp = attribute_text(attributes, compression_k.as_slice());
    let gc = chars_of(geometry.as_str());
    let parts = split_char(&gc, ':');
    assert(parts@[0]@ == pieces_view(parts@)[0]);
    let width = uint_field(&parts[0], usize::MAX as i128, 0) as usize;
    let height = if parts.len() > 1 {
        assert(parts@[1]@ == pieces_view(parts@)[1]);
        uint_field(&parts[1], usize::MAX as i128, 0) as usize
    } else {
        0
    };
    let format = match SampleFormat::parse(sf.as_str()) {
        Some(f) => f,
        None => SampleFormat::UInt16,
    };
    let lc = chars_of(location.as_str());
    let loc = split_char(&lc, ':');
    assert(loc@[0]@ == pieces_view(loc@)[0]);
    let first = string_of(&loc[0]);
    if !(first == String::from_str("attachment")) {
        return Err(String::from_str("Unsupported XISF data location: ").concat(location.as_str()));
    }
    let data_offset = if loc.len() > 1 {
        assert(loc@[1]@ == pieces_view(loc@)[1]);
        uint_field(&loc[1], u64::MAX as i128, 0) as u64
    } else {
        0
    };
    let data_size = if loc.len() > 2 {
        assert(loc@[2]@ == pieces_view(loc@)[2]);
        parse_usize(&loc[2])
    } else {
        None
    };
    let compression = if comp.as_str().is_empty() {
        None
    } else {
        let cc = chars_of(comp.as_str());
        let cp = split_char(&cc, ':');
        assert(cp@[0]@ == pieces_view(cp@)[0]);
        let uncompressed = if cp.len() > 1 {
            assert(cp@[1]@ == pieces_view(cp@)[1]);
            uint_field(&cp[1], usize::MAX as i128, 0) as usize
        } else {
            0
        };
        let bps = format.bytes_per_sample();
        let item_size = if cp.len() > 2 {
            assert(cp@[2]@ == pieces_view(cp@)[2]);
            uint_field(&cp[2], usize::MAX as i128, bps as i128) as usize
        } else {
            bps
        };
        Some(Compression { codec: string_of(&cp[0]), uncompressed, item_size })
    };
    Ok(XisfImageInfo { width, height, format, data_offset, data_size, compression })
}

/// Finds the first `Image` element of an XISF header and reads what it says
/// of the pixel data.
pub fn parse_xisf_image_info(xml: &str) -> (r: Result<XisfImageInfo, PreviewError>)
    ensures
        match (r, info_scan(xml_tokens(xml@))) {
            (Ok(i), Ok(v)) => info_view(i) == v,
            (Err(PreviewError::Message(m)), Err(Some(t))) => m@ == t,
            (Err(PreviewError::Message(_)), Err(None)) => true,
            _ => false,
        },
{
    let mut reader = open_reader(xml);
    let image: [u8; 5] = [0x49u8, 0x6d, 0x61, 0x67, 0x65];
    assert(image@ == image_tag());
    loop
        invariant
            ends_once(pending_tokens(reader)),
            image@ == image_tag(),
            info_scan(xml_tokens(xml@)) == info_scan(pending_tokens(reader)),
        decreases pending_tokens(reader).len(),
    {
        let ghost toks = pending_tokens(reader);
        let tok = next_token(&mut reader);
        match tok {
            XmlToken::Open { name, attributes } => {
                if bytes_equal(name.as_slice(), image.as_slice()) {
                    return match image_info_of(attributes.as_slice()) {
                        Ok(i) => Ok(i),
                        Err(m) => Err(PreviewError::Message(m)),
                    };
                }
                proof {
                    lemma_rest_ends_once(toks);
                }
            },
            XmlToken::Eof => {
                return Err(PreviewError::Message(String::from_str("No Image element found in XISF header")));
            },
            XmlToken::Failed(e) => {
                return Err(PreviewError::Message(error_message(&e)));
            },
            _ => {
                proof {
                    lemma_rest_ends_once(toks);
                }
            },
        }
    }
}

/// What `lz4_flex::decompress` gives for an LZ4 block and an output size:
/// the decompressed bytes, or the message of its error.
pub uninterp spec fn lz4_block(input: Seq<u8>, size: int) -> Result<Seq<u8>, Seq<char>>;

/// Decompresses an LZ4 block into at most `size` bytes
/// (`lz4_flex::decompress`), the error converted to its message
/// (`Display for DecompressError`). Its outcome is named `lz4_block`; the
/// block format is not restated. With the crate's default `checked-decode`
/// feature an output that would exceed `size` is an error, not a panic; an
/// output buffer of `size` bytes is allocated first, hence the bound.
#[verifier::external_body]
fn lz4_decompress(input: &[u8], size: usize) -> (r: Result<Vec<u8>, String>)
    requires
        size <= isize::MAX,
    ensures
        match r {
            Ok(v) => lz4_block(input@, size as int) == Ok::<Seq<u8>, Seq<char>>(v@),
            Err(m) => lz4_block(input@, size as int) == Err::<Seq<u8>, Seq<char>>(m@),
        },
{
    lz4_flex::decompress(input, size).map_err(|e| e.to_string())
}

/// What decoding the data gives: uncompressed data as it is; LZ4 data
/// (a codec starting with `lz4`) decompressed, then un-shuffled when the
/// codec has `+sh`; otherwise the message for the codec or the LZ4 error.
pub open spec fn payload(raw: Seq<u8>, compression: Option<(Seq<char>, int, int)>) -> Result<
    Seq<u8>,
    Seq<char>,
> {
    match compression {
        None => Ok(raw),
        Some((codec, uncompressed, item)) => if has_prefix(codec, "lz4"@) {
            match lz4_block(raw, uncompressed) {
                Ok(d) => Ok(
                    if has_part(codec, "+sh"@) {
                        unshuffled(d, item)
                    } else {
                        d
                    },
                ),
                Err(e) => Err("LZ4 decompress failed: "@ + e),
            }
        } else {
            Err("Unsupported XISF compression: "@ + codec)
        },
    }
}

/// The compression of an [`XisfImageInfo`] as codec, sizes.
pub open spec fn compression_view(c: Option<Compression>) -> Option<(Seq<char>, int, int)> {
    match c {
        Some(c) => Some((c.codec@, c.uncompressed as int, c.item_size as int)),
        None => None,
    }
}

/// Decodes the pixel data read from an XISF file: decompresses LZ4 data and
/// undoes byte shuffling (N.I.N.A. writes `lz4+sh` by default).
pub fn decode_payload(raw: Vec<u8>, compression: &Option<Compression>) -> (r: Result<
    Vec<u8>,
    PreviewError,
>)
    requires
        match compression {
            Some(c) => c.uncompressed <= isize::MAX,
            None => true,
        },
    ensures
        match (r, payload(raw@, compression_view(*compression))) {
            (Ok(v), Ok(w)) => v@ == w,
            (Err(PreviewError::Message(m)), Err(t)) => m@ == t,
            _ => false,
        },
{
    match compression {
        None => Ok(raw),
        Some(c) => {
            let codec = chars_of(c.codec.as_str());
            let lz4 = vec!['l', 'z', '4'];
            let sh = vec!['+', 's', 'h'];
            proof {
                reveal_strlit("lz4");
                reveal_strlit("+sh");
            }
            assert(lz4@ == "lz4"@);
            assert(sh@ == "+sh"@);
            let is_lz4 = lz4.len() <= codec.len() && starts_at(&codec, 0, &lz4);
            proof {
                if lz4@.len() <= codec@.len() {
                    assert(codec@.subrange(0, 3) == codec@.take(3));
                }
            }
            if is_lz4 {
                match lz4_decompress(raw.as_slice(), c.uncompressed) {
                    Ok(d) => {
                        if contains_text(&codec, &sh) {
                            Ok(byte_unshuffle(d.as_slice(), c.item_size))
                        } else {
                            Ok(d)
                        }
                    },
                    Err(e) => Err(
                        PreviewError::Message(
                            String::from_str("LZ4 decompress failed: ").concat(e.as_str()),
                        ),
                    ),
                }
            } else {
                Err(
                    PreviewError::Message(
                        String::from_str("Unsupported XISF compression: ").concat(
                            c.codec.as_str(),
                        ),
                    ),
                )
            }
        },
    }
}

/// The number of data bytes to read: the size the location gives, else
/// width × height samples; none when that product overflows.
pub open spec fn read_length(info: InfoView) -> Option<int> {
    match info.size {
        Some(n) => Some(n),
        None => {
            let total = info.width * info.height * sample_bytes(info.format);
            if total <= usize::MAX {
                Some(total)
            } else {
                None
            }
        },
    }
}

impl XisfImageInfo {
    /// The number of data bytes to read, none when it overflows.
    pub fn read_length(&self) -> (r: Option<usize>)
        ensures
            match r {
                Some(n) => read_length(info_view(*self)) == Some(n as int),
                None => read_length(info_view(*self)) is None,
            },
    {
        match self.data_size {
            Some(n) => Some(n),
            None => {
                let bps = self.format.bytes_per_sample();
                match self.width.checked_mul(self.height) {
                    Some(p) => {
                        let r = p.checked_mul(bps);
                        proof {
                            assert(self.width * self.height * bps == (p as int) * bps);
                        }
                        r
                    },
                    None => {
                        proof {
                            assert(self.width * self.height * bps >= self.width * self.height)
                                by (nonlinear_arith)
                                requires
                                    bps >= 1,
                            ;
                        }
                        None
                    },
                }
            },
        }
    }
}

/// What reading an XISF file's first 16 bytes gives a preview: the XML
/// header length, the input ending early, or a wrong signature. The length
/// is not checked.
pub open spec fn preview_header_length(prefix: Seq<u8>) -> Result<int, Option<()>> {
    if prefix.len() < 8 {
        Err(None)
    } else if prefix.take(8) != crate::xisf::xisf_magic() {
        Err(Some(()))
    } else if prefix.len() < 16 {
        Err(None)
    } else {
        Ok(crate::xisf::le_u32(prefix.subrange(8, 12)))
    }
}

/// Reads the XML header length from an XISF file's first 16 bytes (or all of
/// them when fewer).
pub fn xisf_preview_header_length(prefix: &[u8]) -> (r: Result<usize, PreviewError>)
    ensures
        match r {
            Ok(n) => preview_header_length(prefix@) == Ok::<int, Option<()>>(n as int),
            Err(PreviewError::Truncated) => preview_header_length(prefix@) == Err::<int, _>(
                None::<()>,
            ),
            Err(PreviewError::Message(m)) => preview_header_length(prefix@) == Err::<int, _>(
                Some(()),
            ) && m@ == "Not a valid XISF file"@,
        },
{
    match crate::xisf::header_length_fields(prefix) {
        Err(true) => Err(PreviewError::Message(String::from_str("Not a valid XISF file"))),
        Err(false) => Err(PreviewError::Truncated),
        Ok(n) => Ok(n),
    }
}

/// The XML header as text; not well-formed UTF-8 is an error.
pub fn xisf_preview_xml(bytes: &[u8]) -> (r: Result<String, PreviewError>)
    ensures
        r is Ok <==> valid_utf8(bytes@),
        r matches Ok(s) ==> s@ == vstd::utf8::decode_utf8(bytes@),
        r matches Err(e) ==> e matches PreviewError::Message(m) && m@
            == "Invalid UTF-8 in XISF header"@,
{
    match utf8_str(bytes) {
        Some(s) => {
            proof {
                vstd::utf8::encode_utf8_decode_utf8(s@);
            }
            Ok(String::from_str(s))
        },
        None => Err(PreviewError::Message(String::from_str("Invalid UTF-8 in XISF header"))),
    }
}

} // verus!
