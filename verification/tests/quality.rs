use astro_indexer::quality::{candidate_range, crop_pixels, crop_window, MARGIN, MAX_CROP};

#[test]
fn small_images_are_not_cropped() {
    let c = crop_window(100, 50);
    assert_eq!((c.x0, c.y0, c.width, c.height), (0, 0, 100, 50));
    let pixels: Vec<u16> = (0..12).collect();
    assert_eq!(crop_pixels(&pixels, 4, 3), pixels);
}

#[test]
fn large_images_are_cropped_in_the_centre() {
    let c = crop_window(5000, 3000);
    assert_eq!((c.x0, c.y0, c.width, c.height), (1476, 476, MAX_CROP, MAX_CROP));
    let width = 2050;
    let height = 2049;
    let pixels: Vec<u32> = (0..(width * height) as u32).collect();
    let crop = crop_pixels(&pixels, width, height);
    assert_eq!(crop.len(), MAX_CROP * MAX_CROP);
    // Offsets (1, 0): the first sample is row 0, column 1.
    assert_eq!(crop[0], 1);
    assert_eq!(crop[MAX_CROP], width as u32 + 1);
}

#[test]
fn candidates_keep_a_margin() {
    assert_eq!(candidate_range(100), (MARGIN, 100 - MARGIN));
    assert_eq!(candidate_range(5), (MARGIN, 0));
}
