//! The XISF header: a signature, a little-endian header length, and an XML
//! document whose first `Image` element carries FITS keywords, XISF
//! properties and the image's own attributes.
use vstd::prelude::*;
use crate::fits::unexpected_eof;
use crate::header_map::HeaderMap;
use vstd::utf8::{decode_utf8, valid_utf8};
use crate::lookup::{
    get_float, get_i64, get_text, i64_value, keys1, keys2, keys3, lookup, lookup_float, lookup_i64,
    parses_as_float, str_views, text_i64,
};
use crate::metadata::{
    normalize_type_option, normalized_type, text_view, Angle, AngleView, ImageMetadata,
    MetadataView,
};
use crate::numbers::float_text;
use crate::text::{split_char, split_on, pieces_view};
use crate::text::{
    chars_of, string_of, stripped, strip_char, to_uppercase, trim, trimmed, uppercase,
    utf8_chars_or_empty, utf8_or_empty, utf8_str,
};
use crate::xml::{
    attribute_view, attributes_view, bytes_equal, ends_once, is_final, lemma_rest_ends_once, next_token, open_reader,
    pending_tokens, xml_tokens, AttributeView, TokenView, XmlAttribute, XmlToken,
};

verus! {

/// Why an XISF header could not be read.
pub enum XisfError {
    /// The input ended early (or the file could not be read).
    Io(std::io::Error),
    /// The signature is not `XISF0100`, or the XML header is not UTF-8.
    NotXisf,
    /// The XML header is not well-formed.
    Xml(quick_xml::Error),
    /// The header length is zero or over 64 MiB.
    BadHeaderLength,
}

// ---------------------------------------------------------------------------
// XML parsing
// ---------------------------------------------------------------------------

/// `Image`.
pub open spec fn image_tag() -> Seq<u8> {
    seq![0x49u8, 0x6d, 0x61, 0x67, 0x65]
}

/// `FITSKeyword`.
pub open spec fn keyword_tag() -> Seq<u8> {
    seq![0x46u8, 0x49, 0x54, 0x53, 0x4b, 0x65, 0x79, 0x77, 0x6f, 0x72, 0x64]
}

/// `Property`.
pub open spec fn property_tag() -> Seq<u8> {
    seq![0x50u8, 0x72, 0x6f, 0x70, 0x65, 0x72, 0x74, 0x79]
}

/// `name`.
pub open spec fn name_key() -> Seq<u8> {
    seq![0x6eu8, 0x61, 0x6d, 0x65]
}

/// `value`.
pub open spec fn value_key() -> Seq<u8> {
    seq![0x76u8, 0x61, 0x6c, 0x75, 0x65]
}

/// `id`.
pub open spec fn id_key() -> Seq<u8> {
    seq![0x69u8, 0x64]
}

/// The text of an attribute's value, empty when it could not be decoded.
pub open spec fn attr_text(a: AttributeView) -> Seq<char> {
    match a.value {
        Some(v) => v,
        None => Seq::empty(),
    }
}

/// The text of the last readable attribute named `key`, if there is one.
pub open spec fn last_attr(attrs: Seq<Option<AttributeView>>, key: Seq<u8>) -> Option<Seq<char>>
    decreases attrs.len(),
{
    if attrs.len() == 0 {
        None
    } else {
        match attrs.last() {
            Some(a) => if a.key == key {
                Some(attr_text(a))
            } else {
                last_attr(attrs.drop_last(), key)
            },
            None => last_attr(attrs.drop_last(), key),
        }
    }
}

/// `m` with each readable attribute inserted in turn, its name as UTF-8
/// (empty when not well-formed) as the key.
pub open spec fn insert_attrs(m: Map<Seq<char>, Seq<char>>, attrs: Seq<Option<AttributeView>>) -> Map<
    Seq<char>,
    Seq<char>,
>
    decreases attrs.len(),
{
    if attrs.len() == 0 {
        m
    } else {
        let before = insert_attrs(m, attrs.drop_last());
        match attrs.last() {
            Some(a) => before.insert(utf8_or_empty(a.key), attr_text(a)),
            None => before,
        }
    }
}

/// What has been gathered from the XML header so far.
pub struct XmlScan {
    pub fits: Map<Seq<char>, Seq<char>>,
    pub props: Map<Seq<char>, Seq<char>>,
    pub attrs: Map<Seq<char>, Seq<char>>,
    pub inside_image: bool,
}

/// The text of an optional attribute, empty when absent.
pub open spec fn or_empty(t: Option<Seq<char>>) -> Seq<char> {
    match t {
        Some(v) => v,
        None => Seq::empty(),
    }
}

/// The effect of a start tag: an `Image` element records its attributes and
/// opens the image; inside it a `FITSKeyword` records its `name` (trimmed,
/// upper case) and `value` (quotes and blanks stripped), and a `Property`
/// its `id` and `value`, each only under a non-empty key.
pub open spec fn open_step(st: XmlScan, name: Seq<u8>, attrs: Seq<Option<AttributeView>>) -> XmlScan {
    if name == image_tag() {
        XmlScan { attrs: insert_attrs(st.attrs, attrs), inside_image: true, ..st }
    } else if name == keyword_tag() && st.inside_image {
        let k = match last_attr(attrs, name_key()) {
            Some(v) => uppercase(trim(v)),
            None => Seq::empty(),
        };
        let v = match last_attr(attrs, value_key()) {
            Some(v) => trim(strip_char(v, '\'')),
            None => Seq::empty(),
        };
        if k.len() > 0 {
            XmlScan { fits: st.fits.insert(k, v), ..st }
        } else {
            st
        }
    } else if name == property_tag() && st.inside_image {
        let k = or_empty(last_attr(attrs, id_key()));
        let v = or_empty(last_attr(attrs, value_key()));
        if k.len() > 0 {
            XmlScan { props: st.props.insert(k, v), ..st }
        } else {
            st
        }
    } else {
        st
    }
}

/// The result of reading tokens from state `st`: reading stops at the end of
/// the first `Image` element or of the document, and fails on a read error.
pub open spec fn scan_tokens(toks: Seq<TokenView>, st: XmlScan) -> Result<XmlScan, ()>
    decreases toks.len(),
{
    if toks.len() == 0 {
        Ok(st)
    } else {
        match toks[0] {
            TokenView::Open(n, a) => scan_tokens(toks.drop_first(), open_step(st, n, a)),
            TokenView::Close(n) => if n == image_tag() {
                Ok(st)
            } else {
                scan_tokens(toks.drop_first(), st)
            },
            TokenView::Eof => Ok(st),
            TokenView::Failed => Err(()),
            TokenView::Other => scan_tokens(toks.drop_first(), st),
        }
    }
}

/// Nothing gathered yet.
pub open spec fn empty_scan() -> XmlScan {
    XmlScan { fits: Map::empty(), props: Map::empty(), attrs: Map::empty(), inside_image: false }
}

/// What the XML header gives: FITS keywords, XISF properties and `Image`
/// attributes, or a failure.
pub open spec fn xml_header(xml: Seq<char>) -> Result<XmlScan, ()> {
    scan_tokens(xml_tokens(xml), empty_scan())
}

/// The text of the last readable attribute named `key`.
pub(crate) fn last_attribute(attributes: &[Option<XmlAttribute>], key: &[u8]) -> (r: Option<String>)
    ensures
        text_view(r) == last_attr(attributes_view(attributes@), key@),
{
    let ghost av = attributes_view(attributes@);
    let mut r: Option<String> = None;
    let mut i: usize = 0;
    while i < attributes.len()
        invariant
            i <= attributes@.len(),
            av == attributes_view(attributes@),
            text_view(r) == last_attr(av.take(i as int), key@),
        decreases attributes.len() - i,
    {
        assert(av.take(i + 1).drop_last() == av.take(i as int));
        assert(av.take(i + 1).last() == attribute_view(attributes@[i as int]));
        match &attributes[i] {
            Some(a) => {
                if bytes_equal(a.key.as_slice(), key) {
                    r = match &a.value {
                        Some(v) => Some(v.clone()),
                        None => Some(String::new()),
                    };
                }
            },
            None => {},
        }
        i = i + 1;
    }
    assert(av.take(attributes@.len() as int) == av);
    r
}

/// Inserts each readable attribute into `m`, keyed by its name as UTF-8.
fn insert_attributes(m: &mut HeaderMap, attributes: &[Option<XmlAttribute>])
    ensures
        final(m)@ == insert_attrs(old(m)@, attributes_view(attributes@)),
{
    let ghost av = attributes_view(attributes@);
    let ghost start = m@;
    let mut i: usize = 0;
    while i < attributes.len()
        invariant
            i <= attributes@.len(),
            av == attributes_view(attributes@),
            m@ == insert_attrs(start, av.take(i as int)),
        decreases attributes.len() - i,
    {
        assert(av.take(i + 1).drop_last() == av.take(i as int));
        assert(av.take(i + 1).last() == attribute_view(attributes@[i as int]));
        match &attributes[i] {
            Some(a) => {
                let key_chars = utf8_chars_or_empty(a.key.as_slice());
                let key = string_of(&key_chars);
                let value = match &a.value {
                    Some(v) => v.clone(),
                    None => String::new(),
                };
                m.insert(key, value);
            },
            None => {},
        }
        i = i + 1;
    }
    assert(av.take(attributes@.len() as int) == av);
}

/// The maps gathered while reading the XML header.
pub struct XmlHeader {
    pub fits_keywords: HeaderMap,
    pub properties: HeaderMap,
    pub image_attributes: HeaderMap,
    pub inside_image: bool,
}

impl View for XmlHeader {
    type V = XmlScan;

    open spec fn view(&self) -> XmlScan {
        XmlScan {
            fits: self.fits_keywords@,
            props: self.properties@,
            attrs: self.image_attributes@,
            inside_image: self.inside_image,
        }
    }
}

impl XmlHeader {
    /// Applies one start tag.
    fn open_element(&mut self, name: &[u8], attributes: &[Option<XmlAttribute>])
        ensures
            final(self)@ == open_step(old(self)@, name@, attributes_view(attributes@)),
    {
        let image: [u8; 5] = [0x49u8, 0x6d, 0x61, 0x67, 0x65];
        let keyword: [u8; 11] = [0x46u8, 0x49, 0x54, 0x53, 0x4b, 0x65, 0x79, 0x77, 0x6f, 0x72, 0x64];
        let property: [u8; 8] = [0x50u8, 0x72, 0x6f, 0x70, 0x65, 0x72, 0x74, 0x79];
        let name_k: [u8; 4] = [0x6eu8, 0x61, 0x6d, 0x65];
        let value_k: [u8; 5] = [0x76u8, 0x61, 0x6c, 0x75, 0x65];
        let id_k: [u8; 2] = [0x69u8, 0x64];
        assert(image@ == image_tag());
        assert(keyword@ == keyword_tag());
        assert(property@ == property_tag());
        assert(name_k@ == name_key());
        assert(value_k@ == value_key());
        assert(id_k@ == id_key());
        if bytes_equal(name, image.as_slice()) {
            self.inside_image = true;
            insert_attributes(&mut self.image_attributes, attributes);
        } else if bytes_equal(name, keyword.as_slice()) && self.inside_image {
            let k = match last_attribute(attributes, name_k.as_slice()) {
                Some(v) => {
                    let c = chars_of(v.as_str());
                    let t = trimmed(&c);
                    let s = string_of(&t);
                    to_uppercase(s.as_str())
                },
                None => String::new(),
            };
            let v = match last_attribute(attributes, value_k.as_slice()) {
                Some(v) => {
                    let c = chars_of(v.as_str());
                    let q = stripped(&c, '\'');
                    let t = trimmed(&q);
                    string_of(&t)
                },
                None => String::new(),
            };
            if !k.as_str().is_empty() {
                self.fits_keywords.insert(k, v);
            }
        } else if bytes_equal(name, property.as_slice()) && self.inside_image {
            let k = match last_attribute(attributes, id_k.as_slice()) {
                Some(v) => v,
                None => String::new(),
            };
            let v = match last_attribute(attributes, value_k.as_slice()) {
                Some(v) => v,
                None => String::new(),
            };
            if !k.as_str().is_empty() {
                self.properties.insert(k, v);
            }
        }
    }
}

/// Reads the FITS keywords, XISF properties and attributes of the first
/// `Image` element from an XISF XML header.
pub fn parse_xml(xml: &str) -> (r: Result<(HeaderMap, HeaderMap, HeaderMap), XisfError>)
    ensures
        match (r, xml_header(xml@)) {
            (Ok((f, p, a)), Ok(s)) => f@ == s.fits && p@ == s.props && a@ == s.attrs,
            (Err(e), Err(())) => e is Xml,
            _ => false,
        },
{
    let mut h = XmlHeader {
        fits_keywords: HeaderMap::new(),
        properties: HeaderMap::new(),
        image_attributes: HeaderMap::new(),
        inside_image: false,
    };
    assert(h@ == empty_scan());
    let mut reader = open_reader(xml);
    loop
        invariant
            ends_once(pending_tokens(reader)),
            xml_header(xml@) == scan_tokens(pending_tokens(reader), h@),
        decreases pending_tokens(reader).len(),
    {
        let ghost toks = pending_tokens(reader);
        let ghost before = h@;
        let tok = next_token(&mut reader);
        match tok {
            XmlToken::Open { name, attributes } => {
                h.open_element(name.as_slice(), attributes.as_slice());
                proof {
                    lemma_rest_ends_once(toks);
                }
            },
            XmlToken::Close { name } => {
                let image: [u8; 5] = [0x49u8, 0x6d, 0x61, 0x67, 0x65];
                assert(image@ == image_tag());
                if bytes_equal(name.as_slice(), image.as_slice()) {
                    return Ok((h.fits_keywords, h.properties, h.image_attributes));
                }
                proof {
                    lemma_rest_ends_once(toks);
                }
            },
            XmlToken::Eof => {
                return Ok((h.fits_keywords, h.properties, h.image_attributes));
            },
            XmlToken::Failed(e) => {
                return Err(XisfError::Xml(e));
            },
            XmlToken::Other => {
                proof {
                    lemma_rest_ends_once(toks);
                }
            },
        }
    }
}

// ---------------------------------------------------------------------------
// Extraction helpers
// ---------------------------------------------------------------------------

/// Width and height from the `geometry` attribute `width:height:channels`:
/// its first and second `:`-separated fields as integers.
pub open spec fn geometry_dims(attrs: Map<Seq<char>, Seq<char>>) -> (Option<i64>, Option<i64>) {
    if !attrs.contains_key("geometry"@) {
        (None, None)
    } else {
        let parts = split_on(attrs["geometry"@], ':');
        (i64_value(parts[0]), if parts.len() > 1 {
            i64_value(parts[1])
        } else {
            None
        })
    }
}

/// Parses the `geometry` attribute, `width:height:channels`, into width and
/// height; the third element is always `None`.
pub fn parse_geometry(attrs: &HeaderMap) -> (r: (Option<i64>, Option<i64>, Option<i64>))
    ensures
        (r.0, r.1) == geometry_dims(attrs@),
        r.2 is None,
{
    let geom = match attrs.get("geometry") {
        Some(g) => g,
        None => return (None, None, None),
    };
    let c = chars_of(geom.as_str());
    let parts = split_char(&c, ':');
    assert(parts@[0]@ == pieces_view(parts@)[0]);
    let w = text_i64(&string_of(&parts[0]));
    let h = if parts.len() > 1 {
        assert(parts@[1]@ == pieces_view(parts@)[1]);
        text_i64(&string_of(&parts[1]))
    } else {
        None
    };
    (w, h, None)
}

/// The bits per sample of an XISF `sampleFormat`.
pub open spec fn format_bits(f: Seq<char>) -> Option<i64> {
    if f == "UInt8"@ {
        Some(8)
    } else if f == "UInt16"@ {
        Some(16)
    } else if f == "UInt32"@ {
        Some(32)
    } else if f == "Float32"@ {
        Some(32)
    } else if f == "Float64"@ {
        Some(64)
    } else if f == "Complex32"@ {
        Some(32)
    } else if f == "Complex64"@ {
        Some(64)
    } else {
        None
    }
}

/// Maps an XISF `sampleFormat` to its bit depth.
pub fn sample_format_bits(fmt: &str) -> (r: Option<i64>)
    ensures
        r == format_bits(fmt@),
{
    let f = String::from_str(fmt);
    if f == String::from_str("UInt8") {
        Some(8)
    } else if f == String::from_str("UInt16") {
        Some(16)
    } else if f == String::from_str("UInt32") {
        Some(32)
    } else if f == String::from_str("Float32") {
        Some(32)
    } else if f == String::from_str("Float64") {
        Some(64)
    } else if f == String::from_str("Complex32") {
        Some(32)
    } else if f == String::from_str("Complex64") {
        Some(64)
    } else {
        None
    }
}

/// A property's text, else the first non-empty of the FITS keywords.
pub open spec fn prop_or(
    props: Map<Seq<char>, Seq<char>>,
    pkeys: Seq<Seq<char>>,
    raw: Map<Seq<char>, Seq<char>>,
    rkeys: Seq<Seq<char>>,
) -> Option<Seq<char>> {
    match lookup(props, pkeys) {
        Some(v) => Some(v),
        None => lookup(raw, rkeys),
    }
}

/// A property's value if it parses as a float, else the FITS keywords'.
pub open spec fn prop_float_or(
    props: Map<Seq<char>, Seq<char>>,
    pkeys: Seq<Seq<char>>,
    raw: Map<Seq<char>, Seq<char>>,
    rkeys: Seq<Seq<char>>,
) -> Option<Seq<char>> {
    match lookup(props, pkeys) {
        Some(v) => match float_text(v) {
            Some(t) => Some(t),
            None => lookup_float(raw, rkeys),
        },
        None => lookup_float(raw, rkeys),
    }
}

/// A property's value if it parses as an integer, else the FITS keywords'.
pub open spec fn prop_i64_or(
    props: Map<Seq<char>, Seq<char>>,
    pkeys: Seq<Seq<char>>,
    raw: Map<Seq<char>, Seq<char>>,
    rkeys: Seq<Seq<char>>,
) -> Option<i64> {
    match lookup(props, pkeys) {
        Some(v) => match i64_value(v) {
            Some(n) => Some(n),
            None => lookup_i64(raw, rkeys),
        },
        None => lookup_i64(raw, rkeys),
    }
}

/// The capture software: the `Creator:Application` property when present
/// and non-empty, else the FITS keywords.
pub open spec fn xisf_software(
    props: Map<Seq<char>, Seq<char>>,
    raw: Map<Seq<char>, Seq<char>>,
) -> Option<Seq<char>> {
    prop_or(
        props,
        str_views(seq!["Creator:Application"]),
        raw,
        str_views(seq!["SWCREATE", "CREATOR", "PROGRAM"]),
    )
}

/// The bit depth from the `sampleFormat` attribute.
pub open spec fn xisf_bit_depth(attrs: Map<Seq<char>, Seq<char>>) -> Option<i64> {
    if attrs.contains_key("sampleFormat"@) {
        format_bits(attrs["sampleFormat"@])
    } else {
        None
    }
}

/// Decimal degrees under the first of two keywords.
pub open spec fn degrees(m: Map<Seq<char>, Seq<char>>, keys: Seq<Seq<char>>) -> Option<AngleView> {
    match lookup_float(m, keys) {
        Some(t) => Some(AngleView::Degrees(t)),
        None => None,
    }
}

/// The metadata that an XISF header gives: XISF-native properties take
/// precedence over FITS keywords where both exist; dimensions and bit depth
/// come from the `Image` attributes.
pub open spec fn xisf_metadata(
    raw: Map<Seq<char>, Seq<char>>,
    props: Map<Seq<char>, Seq<char>>,
    attrs: Map<Seq<char>, Seq<char>>,
) -> MetadataView {
    MetadataView {
        format: "XISF"@,
        image_type: normalized_type(lookup(raw, str_views(seq!["IMAGETYP", "FRAME"]))),
        object_name: prop_or(
            props,
            str_views(seq!["Observation:Object:Name"]),
            raw,
            str_views(seq!["OBJECT", "TARGET"]),
        ),
        ra: degrees(raw, str_views(seq!["RA", "OBJCTRA"])),
        dec: degrees(raw, str_views(seq!["DEC", "OBJCTDEC"])),
        date_obs: prop_or(
            props,
            str_views(seq!["Observation:Time:Start"]),
            raw,
            str_views(seq!["DATE-OBS", "DATE_OBS", "DATE-BEG"]),
        ),
        exposure_time: prop_float_or(
            props,
            str_views(seq!["Instrument:ExposureTime"]),
            raw,
            str_views(seq!["EXPTIME", "EXPOSURE"]),
        ),
        gain: prop_float_or(
            props,
            str_views(seq!["Instrument:Camera:Gain"]),
            raw,
            str_views(seq!["GAIN"]),
        ),
        offset: lookup_i64(raw, str_views(seq!["OFFSET", "PEDESTAL"])),
        iso: prop_i64_or(
            props,
            str_views(seq!["Instrument:Camera:ISOSpeed"]),
            raw,
            str_views(seq!["ISOSPEED", "ISO"]),
        ),
        filter_name: prop_or(
            props,
            str_views(seq!["Instrument:Filter:Name"]),
            raw,
            str_views(seq!["FILTER", "FILTNAM1"]),
        ),
        binning_x: lookup_i64(raw, str_views(seq!["XBINNING"])),
        binning_y: lookup_i64(raw, str_views(seq!["YBINNING"])),
        telescope: prop_or(
            props,
            str_views(seq!["Instrument:Telescope:Name"]),
            raw,
            str_views(seq!["TELESCOP"]),
        ),
        instrument: prop_or(
            props,
            str_views(seq!["Instrument:Camera:Name"]),
            raw,
            str_views(seq!["INSTRUME"]),
        ),
        focal_length: prop_float_or(
            props,
            str_views(seq!["Instrument:Telescope:FocalLength"]),
            raw,
            str_views(seq!["FOCALLEN"]),
        ),
        aperture: lookup_float(raw, str_views(seq!["APERTURE"])),
        ccd_temp: prop_float_or(
            props,
            str_views(seq!["Instrument:Sensor:Temperature"]),
            raw,
            str_views(seq!["CCD-TEMP", "CCDTEMP", "TEMP"]),
        ),
        site_lat: prop_float_or(
            props,
            str_views(seq!["Observation:Location:Latitude"]),
            raw,
            str_views(seq!["SITELAT", "LAT-OBS"]),
        ),
        site_lon: prop_float_or(
            props,
            str_views(seq!["Observation:Location:Longitude"]),
            raw,
            str_views(seq!["SITELONG", "LONG-OBS"]),
        ),
        airmass: lookup_float(raw, str_views(seq!["AIRMASS"])),
        width: geometry_dims(attrs).0,
        height: geometry_dims(attrs).1,
        bit_depth: xisf_bit_depth(attrs),
        software: xisf_software(props, raw),
        fwhm: None,
        eccentricity: None,
        star_count: None,
        snr: None,
        sky_background: None,
    }
}

/// A property's text, else the first non-empty FITS keyword.
fn get_prop_or(props: &HeaderMap, pkeys: &[&str], raw: &HeaderMap, rkeys: &[&str]) -> (r: Option<
    String,
>)
    ensures
        text_view(r) == prop_or(props@, str_views(pkeys@), raw@, str_views(rkeys@)),
{
    match get_text(props, pkeys) {
        Some(v) => Some(v),
        None => get_text(raw, rkeys),
    }
}

/// A property's value if it parses as a float, else the FITS keywords'.
fn get_prop_float_or(props: &HeaderMap, pkeys: &[&str], raw: &HeaderMap, rkeys: &[&str]) -> (r:
    Option<String>)
    ensures
        text_view(r) == prop_float_or(props@, str_views(pkeys@), raw@, str_views(rkeys@)),
{
    match get_text(props, pkeys) {
        Some(v) => if parses_as_float(&v) {
            Some(v)
        } else {
            get_float(raw, rkeys)
        },
        None => get_float(raw, rkeys),
    }
}

/// A property's value if it parses as an integer, else the FITS keywords'.
fn get_prop_i64_or(props: &HeaderMap, pkeys: &[&str], raw: &HeaderMap, rkeys: &[&str]) -> (r:
    Option<i64>)
    ensures
        r == prop_i64_or(props@, str_views(pkeys@), raw@, str_views(rkeys@)),
{
    match get_text(props, pkeys) {
        Some(v) => match text_i64(&v) {
            Some(n) => Some(n),
            None => get_i64(raw, rkeys),
        },
        None => get_i64(raw, rkeys),
    }
}

/// Decimal degrees under the first of two keywords.
fn get_degrees(raw: &HeaderMap, keys: &[&str]) -> (r: Option<Angle>)
    ensures
        r matches Some(a) ==> degrees(raw@, str_views(keys@)) == Some(a@),
        r is None ==> degrees(raw@, str_views(keys@)) is None,
{
    match get_float(raw, keys) {
        Some(t) => Some(Angle::Degrees(t)),
        None => None,
    }
}

/// The capture software.
fn get_software(props: &HeaderMap, raw: &HeaderMap) -> (r: Option<String>)
    ensures
        text_view(r) == xisf_software(props@, raw@),
{
    get_prop_or(
        props,
        keys1("Creator:Application").as_slice(),
        raw,
        keys3("SWCREATE", "CREATOR", "PROGRAM").as_slice(),
    )
}

/// The bit depth from the `sampleFormat` attribute.
fn get_bit_depth(attrs: &HeaderMap) -> (r: Option<i64>)
    ensures
        r == xisf_bit_depth(attrs@),
{
    match attrs.get("sampleFormat") {
        Some(s) => sample_format_bits(s.as_str()),
        None => None,
    }
}

/// Builds the metadata record from the merged keyword map `raw`, the XISF
/// properties and the `Image` attributes.
pub fn extract_metadata(raw: &HeaderMap, props: &HeaderMap, image_attrs: &HeaderMap) -> (meta:
    ImageMetadata)
    ensures
        meta@ == xisf_metadata(raw@, props@, image_attrs@),
{
    let (width, height, _) = parse_geometry(image_attrs);
    let bit_depth = get_bit_depth(image_attrs);
    ImageMetadata {
        format: String::from_str("XISF"),
        image_type: normalize_type_option(get_text(raw, keys2("IMAGETYP", "FRAME").as_slice())),
        object_name: get_prop_or(
            props,
            keys1("Observation:Object:Name").as_slice(),
            raw,
            keys2("OBJECT", "TARGET").as_slice(),
        ),
        ra: get_degrees(raw, keys2("RA", "OBJCTRA").as_slice()),
        dec: get_degrees(raw, keys2("DEC", "OBJCTDEC").as_slice()),
        date_obs: get_prop_or(
            props,
            keys1("Observation:Time:Start").as_slice(),
            raw,
            keys3("DATE-OBS", "DATE_OBS", "DATE-BEG").as_slice(),
        ),
        exposure_time: get_prop_float_or(
            props,
            keys1("Instrument:ExposureTime").as_slice(),
            raw,
            keys2("EXPTIME", "EXPOSURE").as_slice(),
        ),
        gain: get_prop_float_or(
            props,
            keys1("Instrument:Camera:Gain").as_slice(),
            raw,
            keys1("GAIN").as_slice(),
        ),
        offset: get_i64(raw, keys2("OFFSET", "PEDESTAL").as_slice()),
        iso: get_prop_i64_or(
            props,
            keys1("Instrument:Camera:ISOSpeed").as_slice(),
            raw,
            keys2("ISOSPEED", "ISO").as_slice(),
        ),
        filter_name: get_prop_or(
            props,
            keys1("Instrument:Filter:Name").as_slice(),
            raw,
            keys2("FILTER", "FILTNAM1").as_slice(),
        ),
        binning_x: get_i64(raw, keys1("XBINNING").as_slice()),
        binning_y: get_i64(raw, keys1("YBINNING").as_slice()),
        telescope: get_prop_or(
            props,
            keys1("Instrument:Telescope:Name").as_slice(),
            raw,
            keys1("TELESCOP").as_slice(),
        ),
        instrument: get_prop_or(
            props,
            keys1("Instrument:Camera:Name").as_slice(),
            raw,
            keys1("INSTRUME").as_slice(),
        ),
        focal_length: get_prop_float_or(
            props,
            keys1("Instrument:Telescope:FocalLength").as_slice(),
            raw,
            keys1("FOCALLEN").as_slice(),
        ),
        aperture: get_float(raw, keys1("APERTURE").as_slice()),
        ccd_temp: get_prop_float_or(
            props,
            keys1("Instrument:Sensor:Temperature").as_slice(),
            raw,
            keys3("CCD-TEMP", "CCDTEMP", "TEMP").as_slice(),
        ),
        site_lat: get_prop_float_or(
            props,
            keys1("Observation:Location:Latitude").as_slice(),
            raw,
            keys2("SITELAT", "LAT-OBS").as_slice(),
        ),
        site_lon: get_prop_float_or(
            props,
            keys1("Observation:Location:Longitude").as_slice(),
            raw,
            keys2("SITELONG", "LONG-OBS").as_slice(),
        ),
        airmass: get_float(raw, keys1("AIRMASS").as_slice()),
        width,
        height,
        bit_depth,
        software: get_software(props, raw),
        fwhm: None,
        eccentricity: None,
        star_count: None,
        snr: None,
        sky_background: None,
    }
}

// ---------------------------------------------------------------------------
// Whole header
// ---------------------------------------------------------------------------

/// The kinds of [`XisfError`].
pub enum XisfFault {
    Io,
    NotXisf,
    Xml,
    BadHeaderLength,
}

/// The kind of an [`XisfError`].
pub open spec fn xisf_fault_of(e: XisfError) -> XisfFault {
    match e {
        XisfError::Io(_) => XisfFault::Io,
        XisfError::NotXisf => XisfFault::NotXisf,
        XisfError::Xml(_) => XisfFault::Xml,
        XisfError::BadHeaderLength => XisfFault::BadHeaderLength,
    }
}

/// What the XML header gives: the raw map (FITS keywords overridden by
/// properties) and the metadata.
pub open spec fn xisf_header(xml: Seq<char>) -> Result<
    (Map<Seq<char>, Seq<char>>, MetadataView),
    XisfFault,
> {
    match xml_header(xml) {
        Ok(s) => {
            let raw = s.fits.union_prefer_right(s.props);
            Ok((raw, xisf_metadata(raw, s.props, s.attrs)))
        },
        Err(_) => Err(XisfFault::Xml),
    }
}

/// Parses the XML header of an XISF file: the structured metadata and the
/// raw map of FITS keywords and XISF properties, properties taking
/// precedence.
pub fn parse_header(xml: &str) -> (r: Result<(ImageMetadata, HeaderMap), XisfError>)
    ensures
        match r {
            Ok((meta, raw)) => xisf_header(xml@) == Ok::<_, XisfFault>((raw@, meta@)),
            Err(e) => xisf_header(xml@) == Err::<(Map<Seq<char>, Seq<char>>, MetadataView), _>(
                xisf_fault_of(e),
            ),
        },
{
    let (fits_kws, properties, image_attrs) = match parse_xml(xml) {
        Ok(t) => t,
        Err(e) => return Err(e),
    };
    let mut raw = fits_kws;
    raw.extend_from(&properties);
    let meta = extract_metadata(&raw, &properties, &image_attrs);
    Ok((meta, raw))
}

// ---------------------------------------------------------------------------
// File header → XML text
// ---------------------------------------------------------------------------

/// `XISF0100`, the signature every XISF file starts with.
pub open spec fn xisf_magic() -> Seq<u8> {
    seq![0x58u8, 0x49, 0x53, 0x46, 0x30, 0x31, 0x30, 0x30]
}

/// Four bytes as a little-endian unsigned integer.
pub open spec fn le_u32(b: Seq<u8>) -> int {
    b[0] + b[1] * 256 + b[2] * 65536 + b[3] * 16777216
}

/// The largest XML header accepted: 64 MiB.
pub open spec fn max_header_len() -> int {
    67108864
}

/// What reading the 16-byte file header (signature, header length, reserved
/// word) from `prefix` gives: the XML header's length, or the kind of error,
/// checked in the order the fields are read.
pub open spec fn header_length_of(prefix: Seq<u8>) -> Result<int, XisfFault> {
    if prefix.len() < 8 {
        Err(XisfFault::Io)
    } else if prefix.take(8) != xisf_magic() {
        Err(XisfFault::NotXisf)
    } else if prefix.len() < 12 {
        Err(XisfFault::Io)
    } else {
        let n = le_u32(prefix.subrange(8, 12));
        if n == 0 || n > max_header_len() {
            Err(XisfFault::BadHeaderLength)
        } else if prefix.len() < 16 {
            Err(XisfFault::Io)
        } else {
            Ok(n)
        }
    }
}

/// Reads the XML header length from the first bytes of an XISF file (its
/// first 16 bytes, or all of it when shorter).
pub fn header_length(prefix: &[u8]) -> (r: Result<usize, XisfError>)
    ensures
        match r {
            Ok(n) => header_length_of(prefix@) == Ok::<int, XisfFault>(n as int),
            Err(e) => header_length_of(prefix@) == Err::<int, XisfFault>(xisf_fault_of(e)),
        },
{
    if prefix.len() < 8 {
        return Err(XisfError::Io(unexpected_eof()));
    }
    let magic: [u8; 8] = [0x58u8, 0x49, 0x53, 0x46, 0x30, 0x31, 0x30, 0x30];
    let mut j: usize = 0;
    while j < 8
        invariant
            j <= 8,
            prefix@.len() >= 8,
            magic@ == xisf_magic(),
            forall|k: int| 0 <= k < j ==> prefix@[k] == xisf_magic()[k],
        decreases 8 - j,
    {
        if prefix[j] != magic[j] {
            assert(prefix@.take(8)[j as int] != xisf_magic()[j as int]);
            return Err(XisfError::NotXisf);
        }
        j = j + 1;
    }
    assert(prefix@.take(8) =~= xisf_magic());
    if prefix.len() < 12 {
        return Err(XisfError::Io(unexpected_eof()));
    }
    let n: u64 = prefix[8] as u64 + prefix[9] as u64 * 256 + prefix[10] as u64 * 65536
        + prefix[11] as u64 * 16777216;
    assert(n == le_u32(prefix@.subrange(8, 12)));
    if n == 0 || n > 64 * 1024 * 1024 {
        return Err(XisfError::BadHeaderLength);
    }
    if prefix.len() < 16 {
        return Err(XisfError::Io(unexpected_eof()));
    }
    Ok(n as usize)
}

/// Decodes the XML header bytes as UTF-8; not well-formed UTF-8 means the
/// file is not XISF.
pub fn header_text(bytes: &[u8]) -> (r: Result<String, XisfError>)
    ensures
        r matches Ok(s) ==> valid_utf8(bytes@) && s@ == decode_utf8(bytes@),
        r matches Err(e) ==> !valid_utf8(bytes@) && e is NotXisf,
        r is Ok <==> valid_utf8(bytes@),
{
    match utf8_str(bytes) {
        Some(s) => {
            proof {
                vstd::utf8::encode_utf8_decode_utf8(s@);
            }
            Ok(String::from_str(s))
        },
        None => Err(XisfError::NotXisf),
    }
}

/// The signature check and the header length field of an XISF file's first
/// 16 bytes, without range check: `Err(true)` for a wrong signature,
/// `Err(false)` when the input ends early.
pub(crate) fn header_length_fields(prefix: &[u8]) -> (r: Result<usize, bool>)
    ensures
        match r {
            Ok(n) => prefix@.len() >= 16 && prefix@.take(8) == xisf_magic() && n == le_u32(
                prefix@.subrange(8, 12),
            ),
            Err(true) => prefix@.len() >= 8 && prefix@.take(8) != xisf_magic(),
            Err(false) => prefix@.len() < 8 || (prefix@.take(8) == xisf_magic() && prefix@.len()
                < 16),
        },
{
    if prefix.len() < 8 {
        return Err(false);
    }
    let magic: [u8; 8] = [0x58u8, 0x49, 0x53, 0x46, 0x30, 0x31, 0x30, 0x30];
    let mut j: usize = 0;
    while j < 8
        invariant
            j <= 8,
            prefix@.len() >= 8,
            magic@ == xisf_magic(),
            forall|k: int| 0 <= k < j ==> prefix@[k] == xisf_magic()[k],
        decreases 8 - j,
    {
        if prefix[j] != magic[j] {
            assert(prefix@.take(8)[j as int] != xisf_magic()[j as int]);
            return Err(true);
        }
        j = j + 1;
    }
    assert(prefix@.take(8) =~= xisf_magic());
    if prefix.len() < 16 {
        return Err(false);
    }
    let n: u64 = prefix[8] as u64 + prefix[9] as u64 * 256 + prefix[10] as u64 * 65536
        + prefix[11] as u64 * 16777216;
    assert(n == le_u32(prefix@.subrange(8, 12)));
    assert(n <= 0xffff_ffff);
    Ok(n as usize)
}

} // verus!
