use astro_indexer::indexer::{
    extension_lower, image_format, is_image_extension, is_image_file, lower_extension,
    modified_text, progress_due, ExistingRecord, FileOutcome, ImageFormat, ScanProgress, ScanResult, ScanState,
    ScanStep, BATCH,
};

#[test]
fn image_files_by_extension() {
    assert!(is_image_file("/data/m42/light_001.FITS"));
    assert!(is_image_file("frame.fit"));
    assert!(is_image_file("C:/astro/ngc7000.Xisf"));
    assert!(!is_image_file("notes.txt"));
    assert!(!is_image_file("fits"));
    assert!(!is_image_file(".fits"));
    assert!(!is_image_file("archive.fits.gz"));
}

#[test]
fn extensions_are_lowered() {
    assert_eq!(extension_lower("dir/Image.FiTs"), "fits");
    assert_eq!(extension_lower("dir/noext"), "");
    assert_eq!(lower_extension(Some("XISF")), "xisf");
    assert_eq!(lower_extension(None), "");
    assert!(is_image_extension(Some("FIT")));
    assert!(!is_image_extension(Some("fts")));
    assert!(!is_image_extension(None));
}

#[test]
fn formats_by_extension() {
    assert!(matches!(image_format("fits"), Some(ImageFormat::Fits)));
    assert!(matches!(image_format("fit"), Some(ImageFormat::Fits)));
    assert!(matches!(image_format("xisf"), Some(ImageFormat::Xisf)));
    assert!(image_format("FITS").is_none());
    assert!(image_format("").is_none());
}

#[test]
fn unchanged_needs_size_and_time() {
    let rec = ExistingRecord { file_size: 100, file_modified_at: Some("2024-01-01T00:00:00+00:00".to_string()) };
    assert!(rec.unchanged(100, &Some("2024-01-01T00:00:00+00:00".to_string())));
    assert!(!rec.unchanged(101, &Some("2024-01-01T00:00:00+00:00".to_string())));
    assert!(!rec.unchanged(100, &Some("2024-01-02T00:00:00+00:00".to_string())));
    assert!(!rec.unchanged(100, &None));
    let none = ExistingRecord { file_size: 5, file_modified_at: None };
    assert!(none.unchanged(5, &None));
}

#[test]
fn batches_are_written_every_fifty_files() {
    let mut s = ScanState::new();
    let mut writes = 0;
    for i in 0..120 {
        let outcome = if i % 10 == 9 { FileOutcome::Unchanged } else { FileOutcome::Parsed };
        if let ScanStep::WriteBatch = s.file_done(outcome) {
            assert_eq!(s.pending, BATCH);
            s.batch_written();
            writes += 1;
        }
    }
    assert_eq!(writes, 2);
    assert_eq!(s.result.indexed, 108);
    assert_eq!(s.result.skipped, 12);
    assert!(s.needs_final_write());
    s.batch_written();
    assert_eq!(s.written, 108);
    assert!(!s.needs_final_write());
}

#[test]
fn cancelled_scan_keeps_parsed_files() {
    let mut s = ScanState::new();
    for _ in 0..7 {
        s.file_done(FileOutcome::Parsed);
    }
    // cancelled here: what was parsed is still written
    assert!(s.needs_final_write());
    s.batch_written();
    assert_eq!(s.written, s.result.indexed);
    assert_eq!(s.written, 7);
}

#[test]
fn errors_are_recorded_with_their_path() {
    let mut s = ScanState::new();
    s.file_done(FileOutcome::Failed { path: "/a/b.fits".to_string(), message: "Not a valid FITS file".to_string() });
    assert_eq!(s.result.errors, 1);
    assert_eq!(s.result.error_details, vec!["/a/b.fits: Not a valid FITS file".to_string()]);
}

#[test]
fn results_merge_across_directories() {
    let mut total = ScanResult::new();
    let mut a = ScanResult::new();
    a.indexed = 3;
    a.skipped = 1;
    a.errors = 1;
    a.error_details.push("x".to_string());
    let mut b = ScanResult::new();
    b.indexed = 2;
    b.error_details.push("y".to_string());
    b.errors = 1;
    total.merge(a);
    total.merge(b);
    total.record_failure("Not a directory: /gone".to_string());
    assert_eq!(total.indexed, 5);
    assert_eq!(total.skipped, 1);
    assert_eq!(total.errors, 3);
    assert_eq!(total.error_details, vec!["x", "y", "Not a directory: /gone"]);
}

#[test]
fn progress_is_throttled_to_100ms() {
    assert!(!progress_due(99_999_999));
    assert!(progress_due(100_000_000));
    let p = ScanProgress::at(0, 10, "a.fits".to_string());
    assert_eq!(p.current, 1);
    assert_eq!(p.total, 10);
    assert_eq!(p.file_name, "a.fits");
}

#[test]
fn extensions_of_plain_paths() {
    assert_eq!(extension_lower("/data/M31.FITS"), "fits");
    assert_eq!(extension_lower("a.b.Xisf"), "xisf");
    assert_eq!(extension_lower("dir/.hidden"), "");
    assert_eq!(extension_lower("dir/name."), "");
    assert_eq!(extension_lower("C:\\astro\\m42.Fit"), "fit");
    assert!(!is_image_file("/data/fits/readme"));
    assert!(!is_image_file("/data/.xisf"));
}

#[test]
fn modification_times_as_text() {
    assert_eq!(modified_text(0), "1970-01-01T00:00:00+00:00");
    assert_eq!(modified_text(1_431_648_000), "2015-05-15T00:00:00+00:00");
    assert_eq!(modified_text(1_700_000_000), "2023-11-14T22:13:20+00:00");
    // Out of chrono's range: the epoch.
    assert_eq!(modified_text(u64::MAX / 2), "1970-01-01T00:00:00+00:00");
}
