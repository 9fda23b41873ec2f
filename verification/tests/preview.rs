use astro_indexer::preview::{
    byte_unshuffle, decode_payload, fits_card_value, fits_pixel_bytes, fits_preview_layout,
    parse_xisf_image_info, xisf_preview_header_length, xisf_preview_xml, Compression,
    PreviewError, SampleFormat,
};

fn chars(s: &str) -> Vec<char> {
    s.chars().collect()
}

fn card(text: &str) -> Vec<u8> {
    let mut c = text.as_bytes().to_vec();
    c.resize(80, b' ');
    c
}

#[test]
fn card_values() {
    assert_eq!(fits_card_value(&chars("BITPIX  =                   16 / bits"), "BITPIX").as_deref(), Some("16"));
    assert_eq!(fits_card_value(&chars("NAXIS1=4096"), "NAXIS1").as_deref(), Some("4096"));
    assert_eq!(fits_card_value(&chars("NAXIS   =    2"), "NAXIS1"), None);
    assert_eq!(fits_card_value(&chars("BZERO   32768"), "BZERO"), None);
}

#[test]
fn fits_layout_from_header() {
    let mut data = Vec::new();
    data.extend(card("SIMPLE  =                    T"));
    data.extend(card("BITPIX  =                   16"));
    data.extend(card("NAXIS1  =                  100"));
    data.extend(card("NAXIS2  =                   50"));
    data.extend(card("BZERO   =                32768"));
    data.extend(card("BSCALE  =                 oops"));
    data.extend(card("END"));
    data.resize(2880 + 100 * 50 * 2, b' ');
    let l = match fits_preview_layout(&data) {
        Ok(l) => l,
        Err(_) => panic!("layout expected"),
    };
    assert_eq!(l.bitpix, 16);
    assert_eq!(l.naxis1, 100);
    assert_eq!(l.naxis2, 50);
    assert_eq!(l.bzero.as_deref(), Some("32768"));
    assert_eq!(l.bscale, None);
    assert_eq!(l.header_blocks, 1);
}

#[test]
fn fits_layout_errors() {
    let mut data = card("SIMPLE  =                    T");
    data.extend(card("END"));
    data.resize(2880, b' ');
    match fits_preview_layout(&data) {
        Err(PreviewError::Message(m)) => assert_eq!(m, "Could not determine image dimensions"),
        _ => panic!("missing dimensions expected"),
    }
    let short = card("SIMPLE  =                    T");
    assert!(matches!(fits_preview_layout(&short), Err(PreviewError::Truncated)));
}

#[test]
fn pixel_sizes() {
    assert_eq!(fits_pixel_bytes(8), Some(1));
    assert_eq!(fits_pixel_bytes(16), Some(2));
    assert_eq!(fits_pixel_bytes(32), Some(4));
    assert_eq!(fits_pixel_bytes(-32), Some(4));
    assert_eq!(fits_pixel_bytes(-64), Some(8));
    assert_eq!(fits_pixel_bytes(64), None);
}

#[test]
fn unshuffle_restores_items() {
    // two 2-byte items [0x01 0x02] [0x03 0x04], shuffled by byte plane
    assert_eq!(byte_unshuffle(&[0x01, 0x03, 0x02, 0x04], 2), vec![0x01, 0x02, 0x03, 0x04]);
    assert_eq!(byte_unshuffle(&[1, 2, 3], 1), vec![1, 2, 3]);
    assert_eq!(byte_unshuffle(&[1, 2, 3], 0), vec![1, 2, 3]);
    // a trailing partial item is zeroed
    assert_eq!(byte_unshuffle(&[1, 3, 2, 4, 9], 2), vec![1, 2, 3, 4, 0]);
}

#[test]
fn sample_formats() {
    assert!(matches!(SampleFormat::parse("UInt16"), Some(SampleFormat::UInt16)));
    assert!(SampleFormat::parse("Complex32").is_none());
    assert_eq!(SampleFormat::Float64.bytes_per_sample(), 8);
    assert_eq!(SampleFormat::UInt8.bytes_per_sample(), 1);
}

#[test]
fn xisf_image_info() {
    let xml = r#"<xisf><Metadata/><Image geometry="640:480:1" sampleFormat="Float32" location="attachment:4096:1228800" compression="lz4+sh:1228800:4"/></xisf>"#;
    let info = match parse_xisf_image_info(xml) {
        Ok(i) => i,
        Err(_) => panic!("image info expected"),
    };
    assert_eq!(info.width, 640);
    assert_eq!(info.height, 480);
    assert!(matches!(info.format, SampleFormat::Float32));
    assert_eq!(info.data_offset, 4096);
    assert_eq!(info.data_size, Some(1228800));
    let c = info.compression.as_ref().unwrap();
    assert_eq!(c.codec, "lz4+sh");
    assert_eq!(c.uncompressed, 1228800);
    assert_eq!(c.item_size, 4);
    assert_eq!(info.read_length(), Some(1228800));
}

#[test]
fn xisf_image_info_defaults_and_errors() {
    let xml = r#"<xisf><Image geometry="10:10" location="attachment:100" compression="zlib"/></xisf>"#;
    let info = match parse_xisf_image_info(xml) {
        Ok(i) => i,
        Err(_) => panic!("image info expected"),
    };
    assert!(matches!(info.format, SampleFormat::UInt16));
    assert_eq!(info.data_size, None);
    assert_eq!(info.read_length(), Some(200));
    let c = info.compression.as_ref().unwrap();
    assert_eq!((c.codec.as_str(), c.uncompressed, c.item_size), ("zlib", 0, 2));

    match parse_xisf_image_info(r#"<xisf><Image location="inline:abc"/></xisf>"#) {
        Err(PreviewError::Message(m)) => assert_eq!(m, "Unsupported XISF data location: inline:abc"),
        _ => panic!("location error expected"),
    }
    match parse_xisf_image_info("<xisf></xisf>") {
        Err(PreviewError::Message(m)) => assert_eq!(m, "No Image element found in XISF header"),
        _ => panic!("missing image expected"),
    }
}

#[test]
fn payload_decoding() {
    let data = vec![1u8, 2, 3, 4, 5, 6, 7, 8];
    let shuffled = vec![1u8, 3, 5, 7, 2, 4, 6, 8];
    let compressed = lz4_flex::compress(&shuffled);
    let c = Some(Compression { codec: "lz4+sh".to_string(), uncompressed: 8, item_size: 2 });
    match decode_payload(compressed.clone(), &c) {
        Ok(v) => assert_eq!(v, data),
        Err(_) => panic!("decoded data expected"),
    }
    let plain = Some(Compression { codec: "lz4".to_string(), uncompressed: 8, item_size: 2 });
    match decode_payload(compressed, &plain) {
        Ok(v) => assert_eq!(v, shuffled),
        Err(_) => panic!("decoded data expected"),
    }
    match decode_payload(vec![1, 2], &Some(Compression { codec: "zstd".to_string(), uncompressed: 2, item_size: 1 })) {
        Err(PreviewError::Message(m)) => assert_eq!(m, "Unsupported XISF compression: zstd"),
        _ => panic!("codec error expected"),
    }
    match decode_payload(vec![0xf0], &plain) {
        Err(PreviewError::Message(m)) => assert!(m.starts_with("LZ4 decompress failed: ")),
        _ => panic!("decompression error expected"),
    }
    match decode_payload(vec![9, 9], &None) {
        Ok(v) => assert_eq!(v, vec![9, 9]),
        Err(_) => panic!("raw data expected"),
    }
}

#[test]
fn xisf_preview_header() {
    let mut p = b"XISF0100".to_vec();
    p.extend_from_slice(&0u32.to_le_bytes());
    p.extend_from_slice(&[0; 4]);
    assert_eq!(xisf_preview_header_length(&p).ok(), Some(0));
    match xisf_preview_header_length(b"FITS0100xxxxxxxx") {
        Err(PreviewError::Message(m)) => assert_eq!(m, "Not a valid XISF file"),
        _ => panic!("signature error expected"),
    }
    assert!(matches!(xisf_preview_header_length(b"XISF0100"), Err(PreviewError::Truncated)));
    match xisf_preview_xml(&[0xc3]) {
        Err(PreviewError::Message(m)) => assert_eq!(m, "Invalid UTF-8 in XISF header"),
        _ => panic!("utf-8 error expected"),
    }
}
