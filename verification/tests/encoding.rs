use astro_indexer::encoding::{png_data_url, preview_data_url};

#[test]
fn png_bytes_as_data_url() {
    assert_eq!(png_data_url(&[0, 1, 2]), "data:image/png;base64,AAEC");
    assert_eq!(png_data_url(&[0xff]), "data:image/png;base64,/w==");
    assert_eq!(png_data_url(&[]), "data:image/png;base64,");
}

#[test]
fn grey_image_preview() {
    let url = preview_data_url(2, 1, vec![0, 255]).unwrap().unwrap();
    // The base64 of the PNG signature.
    assert!(url.starts_with("data:image/png;base64,iVBORw0KGgo"));
    assert!(url.len() > "data:image/png;base64,iVBORw0KGgo".len());
}
