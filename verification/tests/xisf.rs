use astro_indexer::header_map::HeaderMap;
use astro_indexer::metadata::Angle;
use astro_indexer::xisf::{
    extract_metadata, header_length, header_text, parse_geometry, parse_header, parse_xml,
    sample_format_bits, XisfError,
};

const SAMPLE_XML: &str = r#"<?xml version="1.0" encoding="UTF-8"?>
<xisf version="1.0" xmlns="http://www.pixinsight.com/xisf">
  <Image geometry="4656:3520:1" sampleFormat="UInt16" colorSpace="Gray">
    <FITSKeyword name="IMAGETYP" value="'Light Frame'" comment="Type of image" />
    <FITSKeyword name="EXPTIME" value="300.0" comment="Exposure time in seconds" />
    <FITSKeyword name="FILTER" value="'Ha'" comment="Filter name" />
    <FITSKeyword name="CCD-TEMP" value="-10.0" comment="CCD temperature" />
    <Property id="Observation:Object:Name" type="String" value="NGC 7000" />
    <Property id="Instrument:Camera:Gain" type="Float32" value="100" />
    <Property id="Observation:Location:Latitude" type="Float64" value="48.2" />
    <Property id="Observation:Location:Longitude" type="Float64" value="16.3" />
  </Image>
</xisf>"#;

fn as_f64(v: &Option<String>) -> Option<f64> {
    v.as_deref().map(|s| s.parse::<f64>().unwrap())
}

#[test]
fn test_parse_xml_fits_keywords() {
    let (fits_kws, _, _) = parse_xml(SAMPLE_XML).ok().unwrap();
    assert_eq!(fits_kws.get("EXPTIME").as_deref(), Some("300.0"));
    assert_eq!(fits_kws.get("FILTER").as_deref(), Some("Ha"));
    assert_eq!(fits_kws.get("CCD-TEMP").as_deref(), Some("-10.0"));
}

#[test]
fn test_parse_xml_properties() {
    let (_, props, _) = parse_xml(SAMPLE_XML).ok().unwrap();
    assert_eq!(props.get("Observation:Object:Name").as_deref(), Some("NGC 7000"));
    assert_eq!(props.get("Instrument:Camera:Gain").as_deref(), Some("100"));
}

#[test]
fn test_parse_xml_image_attrs() {
    let (_, _, attrs) = parse_xml(SAMPLE_XML).ok().unwrap();
    assert_eq!(attrs.get("geometry").as_deref(), Some("4656:3520:1"));
    assert_eq!(attrs.get("sampleFormat").as_deref(), Some("UInt16"));
}

#[test]
fn test_extract_metadata_prefers_properties() {
    let (fits_kws, props, attrs) = parse_xml(SAMPLE_XML).ok().unwrap();
    let mut raw = fits_kws;
    raw.extend_from(&props);
    let meta = extract_metadata(&raw, &props, &attrs);

    assert_eq!(meta.format, "XISF");
    assert_eq!(meta.object_name.as_deref(), Some("NGC 7000"));
    assert_eq!(as_f64(&meta.exposure_time), Some(300.0));
    assert_eq!(as_f64(&meta.gain), Some(100.0));
    assert_eq!(meta.filter_name.as_deref(), Some("Ha"));
    assert_eq!(as_f64(&meta.ccd_temp), Some(-10.0));
    assert_eq!(meta.width, Some(4656));
    assert_eq!(meta.height, Some(3520));
    assert_eq!(meta.bit_depth, Some(16));
    assert_eq!(as_f64(&meta.site_lat), Some(48.2));
    assert_eq!(as_f64(&meta.site_lon), Some(16.3));
}

#[test]
fn test_sample_format_bits() {
    assert_eq!(sample_format_bits("UInt16"), Some(16));
    assert_eq!(sample_format_bits("Float32"), Some(32));
    assert_eq!(sample_format_bits("UInt8"), Some(8));
    assert_eq!(sample_format_bits("bogus"), None);
}

#[test]
fn test_parse_geometry() {
    let mut attrs = HeaderMap::new();
    attrs.insert("geometry".to_string(), "4656:3520:3".to_string());
    let (w, h, _) = parse_geometry(&attrs);
    assert_eq!(w, Some(4656));
    assert_eq!(h, Some(3520));
}

#[test]
fn geometry_missing_or_malformed() {
    let attrs = HeaderMap::new();
    assert_eq!(parse_geometry(&attrs), (None, None, None));
    let mut attrs = HeaderMap::new();
    attrs.insert("geometry".to_string(), "wide".to_string());
    assert_eq!(parse_geometry(&attrs), (None, None, None));
}

#[test]
fn parse_header_merges_with_property_precedence() {
    let xml = r#"<xisf><Image geometry="10:20:1" sampleFormat="Float32">
        <FITSKeyword name=" object " value="'M1'"/>
        <FITSKeyword name="GAIN" value="55"/>
        <Property id="OBJECT" value="Crab"/>
        <Property id="Instrument:Camera:Gain" value="n/a"/>
        <FITSKeyword name="RA" value="83.6"/>
        </Image><Image geometry="1:1:1"><Property id="Late" value="x"/></Image></xisf>"#;
    let (meta, raw) = parse_header(xml).ok().unwrap();
    assert_eq!(raw.get("OBJECT").as_deref(), Some("Crab"));
    assert_eq!(raw.get("Late"), None);
    assert_eq!(meta.object_name.as_deref(), Some("Crab"));
    assert_eq!(meta.gain.as_deref(), Some("55"));
    assert_eq!(meta.bit_depth, Some(32));
    assert_eq!(meta.width, Some(10));
    match meta.ra {
        Some(Angle::Degrees(t)) => assert_eq!(t, "83.6"),
        _ => panic!("decimal degrees expected"),
    }
}

#[test]
fn keywords_outside_image_are_ignored() {
    let xml = r#"<xisf><FITSKeyword name="A" value="1"/><Image/><FITSKeyword name="B" value="2"/></xisf>"#;
    let (fits, _, _) = parse_xml(xml).ok().unwrap();
    assert_eq!(fits.get("A"), None);
    assert_eq!(fits.get("B").as_deref(), Some("2"));
}

#[test]
fn malformed_xml_is_an_error() {
    let r = parse_xml("<xisf><Image></Mismatch></xisf>");
    assert!(matches!(r, Err(XisfError::Xml(_))));
}

#[test]
fn header_length_checks() {
    let mut p = b"XISF0100".to_vec();
    p.extend_from_slice(&1234u32.to_le_bytes());
    p.extend_from_slice(&[0, 0, 0, 0]);
    assert_eq!(header_length(&p).ok(), Some(1234));
    assert!(matches!(header_length(b"XISF01"), Err(XisfError::Io(_))));
    assert!(matches!(header_length(b"XISF0200aaaaaaaa"), Err(XisfError::NotXisf)));
    let mut zero = b"XISF0100".to_vec();
    zero.extend_from_slice(&[0u8; 8]);
    assert!(matches!(header_length(&zero), Err(XisfError::BadHeaderLength)));
    let mut big = b"XISF0100".to_vec();
    big.extend_from_slice(&(64u32 * 1024 * 1024 + 1).to_le_bytes());
    assert!(matches!(header_length(&big), Err(XisfError::BadHeaderLength)));
    let mut short = b"XISF0100".to_vec();
    short.extend_from_slice(&5u32.to_le_bytes());
    assert!(matches!(header_length(&short), Err(XisfError::Io(_))));
}

#[test]
fn header_text_requires_utf8() {
    assert_eq!(header_text("<xisf/>".as_bytes()).ok().as_deref(), Some("<xisf/>"));
    assert!(matches!(header_text(&[0x3c, 0xff]), Err(XisfError::NotXisf)));
}

#[test]
fn software_from_creator_application() {
    let mut props = HeaderMap::new();
    props.insert("Creator:Application".to_string(), "PixInsight 1.8".to_string());
    let mut raw = HeaderMap::new();
    raw.insert("Creator:Application".to_string(), "PixInsight 1.8".to_string());
    let meta = extract_metadata(&raw, &props, &HeaderMap::new());
    assert_eq!(meta.software.as_deref(), Some("PixInsight 1.8"));
}

#[test]
fn software_falls_back_to_keywords() {
    let mut raw = HeaderMap::new();
    raw.insert("CREATOR".to_string(), "N.I.N.A.".to_string());
    let meta = extract_metadata(&raw, &HeaderMap::new(), &HeaderMap::new());
    assert_eq!(meta.software.as_deref(), Some("N.I.N.A."));
}

#[test]
fn xisf_image_type_is_normalised() {
    let (meta, _) = parse_header(SAMPLE_XML).ok().unwrap();
    assert_eq!(meta.image_type.as_deref(), Some("Light"));
}
