use astro_indexer::metadata::normalize_image_type;

#[test]
fn image_types_of_common_headers() {
    assert_eq!(normalize_image_type("Light Frame"), "Light");
    assert_eq!(normalize_image_type("LIGHT"), "Light");
    assert_eq!(normalize_image_type("Dark Frame"), "Dark");
    assert_eq!(normalize_image_type("Flat Field"), "Flat");
    assert_eq!(normalize_image_type("Bias Frame"), "Bias");
    assert_eq!(normalize_image_type("Offset"), "Bias");
    assert_eq!(normalize_image_type("ZERO"), "Bias");
    assert_eq!(normalize_image_type("Master Dark"), "MasterDark");
    assert_eq!(normalize_image_type("MASTERFLAT"), "MasterFlat");
    assert_eq!(normalize_image_type("Master Bias"), "MasterBias");
    assert_eq!(normalize_image_type("Master Light"), "Light");
    assert_eq!(normalize_image_type("Tricolor"), "Unknown");
    assert_eq!(normalize_image_type(""), "Unknown");
}

#[test]
fn image_types_stay_in_the_catalogue() {
    let catalogue = ["Light", "Dark", "Flat", "Bias", "MasterDark", "MasterFlat", "MasterBias", "Unknown"];
    for t in ["Light Frame", "dark", "Master Flat", "junk", "Master", "Science"] {
        assert!(catalogue.contains(&normalize_image_type(t).as_str()));
    }
}
