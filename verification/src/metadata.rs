//! The metadata that the FITS and XISF parsers extract from a header.
//!
//! Values that are real numbers are kept as the text that the header gave
//! for them; the parsers keep only texts that `str::parse::<f64>` accepts,
//! so turning them into numbers cannot fail.
use vstd::prelude::*;
use crate::text::{ascii_lowercase, chars_of, contains_text, has_part, to_ascii_lowercase};

verus! {

/// A sky coordinate as the header wrote it.
pub enum Angle {
    /// Decimal degrees.
    Degrees(String),
    /// Sexagesimal hours: hours, minutes and (when given) seconds.
    Hours(Vec<String>),
    /// Sexagesimal degrees: degrees, minutes and (when given) seconds, with a
    /// sign that applies to the whole.
    Sexagesimal { negative: bool, parts: Vec<String> },
}

/// The meaning of an [`Angle`].
pub enum AngleView {
    Degrees(Seq<char>),
    Hours(Seq<Seq<char>>),
    Sexagesimal(bool, Seq<Seq<char>>),
}

/// The characters of each string of a sequence.
pub open spec fn strings_view(v: Seq<String>) -> Seq<Seq<char>> {
    v.map_values(|s: String| s@)
}

impl View for Angle {
    type V = AngleView;

    open spec fn view(&self) -> AngleView {
        match self {
            Angle::Degrees(t) => AngleView::Degrees(t@),
            Angle::Hours(p) => AngleView::Hours(strings_view(p@)),
            Angle::Sexagesimal { negative, parts } => AngleView::Sexagesimal(
                *negative,
                strings_view(parts@),
            ),
        }
    }
}

/// The characters of an optional string.
pub open spec fn text_view(o: Option<String>) -> Option<Seq<char>> {
    match o {
        Some(s) => Some(s@),
        None => None,
    }
}

/// The meaning of an optional angle.
pub open spec fn angle_view(o: Option<Angle>) -> Option<AngleView> {
    match o {
        Some(a) => Some(a@),
        None => None,
    }
}

/// Metadata parsed from a FITS or XISF header. Every field but `format` is
/// optional: not every file carries every keyword.
pub struct ImageMetadata {
    /// `FITS` or `XISF`.
    pub format: String,
    pub image_type: Option<String>,
    pub object_name: Option<String>,
    pub ra: Option<Angle>,
    pub dec: Option<Angle>,
    pub date_obs: Option<String>,
    pub exposure_time: Option<String>,
    pub gain: Option<String>,
    pub offset: Option<i64>,
    pub iso: Option<i64>,
    pub filter_name: Option<String>,
    pub binning_x: Option<i64>,
    pub binning_y: Option<i64>,
    pub telescope: Option<String>,
    pub instrument: Option<String>,
    pub focal_length: Option<String>,
    pub aperture: Option<String>,
    pub ccd_temp: Option<String>,
    pub site_lat: Option<String>,
    pub site_lon: Option<String>,
    pub airmass: Option<String>,
    pub width: Option<i64>,
    pub height: Option<i64>,
    pub bit_depth: Option<i64>,
    pub software: Option<String>,
    /// Sub-frame quality, measured from pixels rather than read from headers.
    pub fwhm: Option<String>,
    pub eccentricity: Option<String>,
    pub star_count: Option<i64>,
    pub snr: Option<String>,
    pub sky_background: Option<String>,
}

/// The meaning of an [`ImageMetadata`]: its texts as characters.
pub struct MetadataView {
    pub format: Seq<char>,
    pub image_type: Option<Seq<char>>,
    pub object_name: Option<Seq<char>>,
    pub ra: Option<AngleView>,
    pub dec: Option<AngleView>,
    pub date_obs: Option<Seq<char>>,
    pub exposure_time: Option<Seq<char>>,
    pub gain: Option<Seq<char>>,
    pub offset: Option<i64>,
    pub iso: Option<i64>,
    pub filter_name: Option<Seq<char>>,
    pub binning_x: Option<i64>,
    pub binning_y: Option<i64>,
    pub telescope: Option<Seq<char>>,
    pub instrument: Option<Seq<char>>,
    pub focal_length: Option<Seq<char>>,
    pub aperture: Option<Seq<char>>,
    pub ccd_temp: Option<Seq<char>>,
    pub site_lat: Option<Seq<char>>,
    pub site_lon: Option<Seq<char>>,
    pub airmass: Option<Seq<char>>,
    pub width: Option<i64>,
    pub height: Option<i64>,
    pub bit_depth: Option<i64>,
    pub software: Option<Seq<char>>,
    pub fwhm: Option<Seq<char>>,
    pub eccentricity: Option<Seq<char>>,
    pub star_count: Option<i64>,
    pub snr: Option<Seq<char>>,
    pub sky_background: Option<Seq<char>>,
}

impl View for ImageMetadata {
    type V = MetadataView;

    open spec fn view(&self) -> MetadataView {
        MetadataView {
            format: self.format@,
            image_type: text_view(self.image_type),
            object_name: text_view(self.object_name),
            ra: angle_view(self.ra),
            dec: angle_view(self.dec),
            date_obs: text_view(self.date_obs),
            exposure_time: text_view(self.exposure_time),
            gain: text_view(self.gain),
            offset: self.offset,
            iso: self.iso,
            filter_name: text_view(self.filter_name),
            binning_x: self.binning_x,
            binning_y: self.binning_y,
            telescope: text_view(self.telescope),
            instrument: text_view(self.instrument),
            focal_length: text_view(self.focal_length),
            aperture: text_view(self.aperture),
            ccd_temp: text_view(self.ccd_temp),
            site_lat: text_view(self.site_lat),
            site_lon: text_view(self.site_lon),
            airmass: text_view(self.airmass),
            width: self.width,
            height: self.height,
            bit_depth: self.bit_depth,
            software: text_view(self.software),
            fwhm: text_view(self.fwhm),
            eccentricity: text_view(self.eccentricity),
            star_count: self.star_count,
            snr: text_view(self.snr),
            sky_background: text_view(self.sky_background),
        }
    }
}

// ---------------------------------------------------------------------------
// Image types
// ---------------------------------------------------------------------------

/// The image types of the catalogue.
pub open spec fn is_catalogue_type(t: Seq<char>) -> bool {
    ||| t == "Light"@
    ||| t == "Dark"@
    ||| t == "Flat"@
    ||| t == "Bias"@
    ||| t == "MasterDark"@
    ||| t == "MasterFlat"@
    ||| t == "MasterBias"@
    ||| t == "Unknown"@
}

/// Whether a type text, in ASCII lower case, names bias frames: `bias`,
/// `offset` or `zero`.
pub open spec fn names_bias(t: Seq<char>) -> bool {
    has_part(t, "bias"@) || has_part(t, "offset"@) || has_part(t, "zero"@)
}

/// The catalogue type that an `IMAGETYP` or `FRAME` text names, matched
/// without regard to ASCII case: a master dark, flat or bias frame when the
/// text says `master` and names one of those, else a light, dark, flat or
/// bias frame, tried in that order (`offset` and `zero` also name bias
/// frames); `Unknown` for any other text.
pub open spec fn image_type_of(text: Seq<char>) -> Seq<char> {
    let t = ascii_lowercase(text);
    let master = has_part(t, "master"@);
    if master && has_part(t, "dark"@) {
        "MasterDark"@
    } else if master && has_part(t, "flat"@) {
        "MasterFlat"@
    } else if master && names_bias(t) {
        "MasterBias"@
    } else if has_part(t, "light"@) {
        "Light"@
    } else if has_part(t, "dark"@) {
        "Dark"@
    } else if has_part(t, "flat"@) {
        "Flat"@
    } else if names_bias(t) {
        "Bias"@
    } else {
        "Unknown"@
    }
}

/// The type text of a header, normalised; none when the header has none.
pub open spec fn normalized_type(t: Option<Seq<char>>) -> Option<Seq<char>> {
    match t {
        Some(v) => Some(image_type_of(v)),
        None => None,
    }
}

/// Whether `word` occurs in `t`.
fn has_word(t: &[char], word: &str) -> (b: bool)
    ensures
        b == has_part(t@, word@),
{
    let w = chars_of(word);
    contains_text(t, &w)
}

/// The catalogue type that an `IMAGETYP` or `FRAME` text names
/// (`Light Frame` is `Light`, `Master Dark` is `MasterDark`).
pub fn normalize_image_type(text: &str) -> (r: String)
    ensures
        r@ == image_type_of(text@),
        is_catalogue_type(r@),
{
    let c = chars_of(text);
    let t = to_ascii_lowercase(&c);
    let master = has_word(&t, "master");
    let bias = has_word(&t, "bias") || has_word(&t, "offset") || has_word(&t, "zero");
    if master && has_word(&t, "dark") {
        String::from_str("MasterDark")
    } else if master && has_word(&t, "flat") {
        String::from_str("MasterFlat")
    } else if master && bias {
        String::from_str("MasterBias")
    } else if has_word(&t, "light") {
        String::from_str("Light")
    } else if has_word(&t, "dark") {
        String::from_str("Dark")
    } else if has_word(&t, "flat") {
        String::from_str("Flat")
    } else if bias {
        String::from_str("Bias")
    } else {
        String::from_str("Unknown")
    }
}

/// The normalised type of an optional type text.
pub(crate) fn normalize_type_option(text: Option<String>) -> (r: Option<String>)
    ensures
        text_view(r) == normalized_type(text_view(text)),
{
    match text {
        Some(t) => Some(normalize_image_type(t.as_str())),
        None => None,
    }
}

} // verus!
