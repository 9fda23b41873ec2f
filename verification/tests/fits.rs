use astro_indexer::fits::{
    card_keyword, cards_to_map, parse_dec_string, parse_header, parse_ra_string, parse_value,
    read_header_cards, FitsError,
};
use astro_indexer::metadata::Angle;

fn make_card(key: &str, value: &str) -> [u8; 80] {
    let record = format!("{:<8}= {:<70}", key, value);
    let mut card = [b' '; 80];
    let bytes = record.as_bytes();
    card[..bytes.len().min(80)].copy_from_slice(&bytes[..bytes.len().min(80)]);
    card
}

fn make_end_card() -> [u8; 80] {
    let mut card = [b' '; 80];
    card[..3].copy_from_slice(b"END");
    card
}

fn sexagesimal(parts: &[String]) -> f64 {
    let v: Vec<f64> = parts.iter().map(|p| p.parse().unwrap()).collect();
    match v.as_slice() {
        [a, b, c] => a + b / 60.0 + c / 3600.0,
        [a, b] => a + b / 60.0,
        _ => panic!("two or three parts expected"),
    }
}

fn header(cards: &[[u8; 80]]) -> Vec<u8> {
    let mut data = Vec::new();
    for c in cards {
        data.extend_from_slice(c);
    }
    while data.len() % 2880 != 0 {
        data.push(b' ');
    }
    data
}

#[test]
fn test_parse_string_value() {
    assert_eq!(parse_value("'NGC 1234   '"), "NGC 1234");
    assert_eq!(parse_value("'it''s'"), "it's");
}

#[test]
fn test_parse_numeric_value() {
    assert_eq!(parse_value("120.5 / exposure time"), "120.5");
    assert_eq!(parse_value("T"), "T");
}

#[test]
fn test_ra_dec_parse() {
    let ra = match parse_ra_string("05 34 32.0").unwrap() {
        Angle::Hours(p) => sexagesimal(&p) * 15.0,
        _ => panic!("hours expected"),
    };
    assert!((ra - 83.633).abs() < 0.01);

    let dec = match parse_dec_string("+22 00 52.0").unwrap() {
        Angle::Sexagesimal { negative, parts } => {
            let d = sexagesimal(&parts);
            if negative { -d } else { d }
        }
        _ => panic!("degrees expected"),
    };
    assert!((dec - 22.014).abs() < 0.01);

    let dec_neg = match parse_dec_string("-05 23 28.0").unwrap() {
        Angle::Sexagesimal { negative, parts } => {
            let d = sexagesimal(&parts);
            if negative { -d } else { d }
        }
        _ => panic!("degrees expected"),
    };
    assert!((dec_neg - (-5.391)).abs() < 0.01);
}

#[test]
fn test_cards_to_map() {
    let cards = vec![
        make_card("OBJECT  ", "'M42     '"),
        make_card("EXPTIME ", "300.0 / seconds"),
        make_card("IMAGETYP", "'Light Frame'"),
        make_end_card(),
    ];
    let map = cards_to_map(&cards);
    assert_eq!(map.get("OBJECT").as_deref(), Some("M42"));
    assert_eq!(map.get("EXPTIME").as_deref(), Some("300.0"));
    assert_eq!(map.get("IMAGETYP").as_deref(), Some("Light Frame"));
}

#[test]
fn later_card_with_same_keyword_wins() {
    let cards = vec![make_card("FILTER", "'Ha'"), make_card("FILTER", "'OIII'")];
    let map = cards_to_map(&cards);
    assert_eq!(map.get("FILTER").as_deref(), Some("OIII"));
    assert_eq!(map.len(), 1);
}

#[test]
fn commentary_and_valueless_cards_are_skipped() {
    let mut history = [b' '; 80];
    history[..16].copy_from_slice(b"HISTORY = 'x'   ");
    let mut no_indicator = [b' '; 80];
    no_indicator[..12].copy_from_slice(b"GAIN    100 ");
    let cards = vec![history, no_indicator, make_card("comment", "'y'")];
    let map = cards_to_map(&cards);
    assert_eq!(map.len(), 0);
}

#[test]
fn card_keyword_is_trimmed_upper_case() {
    assert_eq!(card_keyword(&make_card("exptime", "1")), "EXPTIME");
    assert_eq!(card_keyword(&make_end_card()), "END");
}

#[test]
fn read_header_stops_at_end_card() {
    let data = header(&[
        make_card("SIMPLE", "T"),
        make_card("BITPIX", "16"),
        make_end_card(),
        make_card("AFTER", "1"),
    ]);
    let cards = read_header_cards(&data).ok().unwrap();
    assert_eq!(cards.len(), 2);
    assert_eq!(card_keyword(&cards[1]), "BITPIX");
}

#[test]
fn read_header_spanning_two_blocks() {
    let mut cards = vec![make_card("SIMPLE", "T")];
    for i in 0..40 {
        cards.push(make_card(&format!("K{i}"), "1"));
    }
    cards.push(make_end_card());
    let data = header(&cards);
    assert_eq!(data.len(), 2 * 2880);
    assert_eq!(read_header_cards(&data).ok().unwrap().len(), 41);
}

#[test]
fn read_header_errors() {
    assert!(matches!(read_header_cards(&[b' '; 100]), Err(FitsError::Io(_))));
    let not_fits = header(&[make_card("XIMPLE", "T"), make_end_card()]);
    assert!(matches!(read_header_cards(&not_fits), Err(FitsError::NotFits)));
    let no_end = header(&[make_card("SIMPLE", "T")]);
    assert!(matches!(read_header_cards(&no_end), Err(FitsError::NoEnd)));
}

#[test]
fn parse_header_extracts_metadata() {
    let data = header(&[
        make_card("SIMPLE", "T"),
        make_card("BITPIX", "16"),
        make_card("NAXIS1", "4656"),
        make_card("NAXIS2", "3520"),
        make_card("OBJECT", "''"),
        make_card("TARGET", "'M31'"),
        make_card("EXPOSURE", "120.5 / s"),
        make_card("GAIN", "'high'"),
        make_card("OBJCTRA", "'00 42 44.3'"),
        make_card("OBJCTDEC", "'+41 16 09'"),
        make_card("ISO", "800"),
        make_end_card(),
    ]);
    let (meta, raw) = parse_header(&data).unwrap().ok().unwrap();
    assert_eq!(meta.format, "FITS");
    assert_eq!(meta.object_name.as_deref(), Some("M31"));
    assert_eq!(meta.exposure_time.as_deref(), Some("120.5"));
    assert_eq!(meta.gain, None);
    assert_eq!(meta.width, Some(4656));
    assert_eq!(meta.height, Some(3520));
    assert_eq!(meta.bit_depth, Some(16));
    assert_eq!(meta.iso, Some(800));
    match meta.ra {
        Some(Angle::Hours(p)) => assert_eq!(p, vec!["00", "42", "44.3"]),
        _ => panic!("sexagesimal right ascension expected"),
    }
    match meta.dec {
        Some(Angle::Sexagesimal { negative, parts }) => {
            assert!(!negative);
            assert_eq!(parts, vec!["41", "16", "09"]);
        }
        _ => panic!("sexagesimal declination expected"),
    }
    assert_eq!(raw.get("OBJECT").as_deref(), Some(""));
}

#[test]
fn parse_header_declines_cards_that_are_not_text() {
    let mut bad = make_card("OBJECT", "'M42'");
    bad[3] = 0xff;
    let data = header(&[make_card("SIMPLE", "T"), bad, make_end_card()]);
    assert!(parse_header(&data).is_none());
}

#[test]
fn decimal_coordinates_take_precedence() {
    let data = header(&[
        make_card("SIMPLE", "T"),
        make_card("RA", "83.63"),
        make_card("OBJCTRA", "'05 34 32'"),
        make_card("DEC", "'n/a'"),
        make_card("OBJCTDEC", "'-05 23'"),
        make_end_card(),
    ]);
    let (meta, _) = parse_header(&data).unwrap().ok().unwrap();
    match meta.ra {
        Some(Angle::Degrees(t)) => assert_eq!(t, "83.63"),
        _ => panic!("decimal right ascension expected"),
    }
    match meta.dec {
        Some(Angle::Sexagesimal { negative, parts }) => {
            assert!(negative);
            assert_eq!(parts, vec!["05", "23"]);
        }
        _ => panic!("sexagesimal declination expected"),
    }
}

#[test]
fn image_type_is_normalised() {
    let data = header(&[
        make_card("SIMPLE", "T"),
        make_card("IMAGETYP", "'Light Frame'"),
        make_end_card(),
    ]);
    let (meta, raw) = parse_header(&data).unwrap().ok().unwrap();
    assert_eq!(meta.image_type.as_deref(), Some("Light"));
    assert_eq!(raw.get("IMAGETYP").as_deref(), Some("Light Frame"));

    let data = header(&[make_card("SIMPLE", "T"), make_card("FRAME", "'Flat'"), make_end_card()]);
    let (meta, _) = parse_header(&data).unwrap().ok().unwrap();
    assert_eq!(meta.image_type.as_deref(), Some("Flat"));
}
