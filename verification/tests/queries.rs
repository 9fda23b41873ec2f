use astro_indexer::queries::{count_in_directory, directory_pattern, image_query, in_directory};

const UNFILTERED_SQL: &str = "SELECT id, file_name, file_path, format, image_type, object_name,
                filter_name, exposure_time, gain, date_obs, instrument, telescope,
                width, height, ccd_temp, software, fwhm, eccentricity, star_count,
                snr, quality_rejected, indexed_at, parse_error
         FROM images
         
         ORDER BY date_obs DESC, file_name ASC";

#[test]
fn unfiltered_listing() {
    let q = image_query(&None, &Some(String::new()), &None, &Some(String::new()));
    assert_eq!(q.sql, UNFILTERED_SQL);
    assert!(q.params.is_empty());
}

#[test]
fn all_filters() {
    let q = image_query(
        &Some("M42".to_string()),
        &Some("Light".to_string()),
        &Some("Ha".to_string()),
        &Some("M 42".to_string()),
    );
    assert!(q.sql.contains(
        "WHERE (object_name LIKE ?  OR file_name LIKE ?  OR instrument LIKE ?) AND LOWER(image_type) = LOWER(?) AND filter_name = ? AND object_name = ?"
    ));
    assert!(q.sql.ends_with("ORDER BY date_obs DESC, file_name ASC"));
    assert_eq!(q.params, vec!["%M42%", "%M42%", "%M42%", "Light", "Ha", "M 42"]);
    assert_eq!(q.sql.matches('?').count(), q.params.len());
}

#[test]
fn single_filter() {
    let q = image_query(&Some(String::new()), &None, &Some("OIII".to_string()), &None);
    assert!(q.sql.contains("\n         WHERE filter_name = ?\n"));
    assert_eq!(q.params, vec!["OIII"]);
}

#[test]
fn directory_pattern_escapes_wildcards() {
    assert_eq!(directory_pattern("C:\\astro"), "C:\\astro%");
    assert_eq!(directory_pattern("D:/my_data/100%!"), "D:/my!_data/100!%!!%");
}

#[test]
fn sibling_directories_are_not_inside() {
    assert!(in_directory("D:/astro/M42", "D:/astro/M42/a.fits"));
    assert!(in_directory("D:/astro/M42", "D:/astro/M42\\sub\\a.fits"));
    assert!(in_directory("D:/astro/M42/", "D:/astro/M42/a.fits"));
    assert!(!in_directory("D:/astro/M42", "D:/astro/M42b/b.fits"));
    assert!(!in_directory("D:/astro/M42", "D:/astro/M42"));
    assert!(!in_directory("D:/astro/M42", "D:/astro/M4"));
    let files = vec![
        "D:/astro/M42/a.fits".to_string(),
        "D:/astro/M42b/b.fits".to_string(),
        "D:/astro/M42/c/d.xisf".to_string(),
    ];
    assert_eq!(count_in_directory("D:/astro/M42", &files), 2);
}

#[test]
fn one_parameter_per_placeholder() {
    let cases = [
        (None, None, None, None),
        (Some("m31".to_string()), None, None, Some("M31".to_string())),
        (None, Some("Light".to_string()), Some("Ha".to_string()), None),
        (Some("ngc".to_string()), Some("Dark".to_string()), Some("OIII".to_string()), None),
        (Some(String::new()), Some(String::new()), Some("L".to_string()), Some(String::new())),
    ];
    for (s, t, f, o) in cases {
        let q = image_query(&s, &t, &f, &o);
        assert_eq!(q.sql.matches('?').count(), q.params.len());
    }
}

#[test]
fn object_filter() {
    let q = image_query(&None, &None, &None, &Some("NGC 7000".to_string()));
    assert!(q.sql.contains("\n         WHERE object_name = ?\n"));
    assert_eq!(q.params, vec!["NGC 7000"]);
}
