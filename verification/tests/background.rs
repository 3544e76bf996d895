use abolishpdfs::pdfium::background::raster_background;

const PNG_SIGNATURE: [u8; 8] = [137, 80, 78, 71, 13, 10, 26, 10];

#[test]
fn rendered_pixels_become_a_png_background() {
    let pixels = vec![255, 0, 0, 255, 0, 0, 255, 128];
    let background = raster_background(2, 1, &pixels).unwrap();
    assert_eq!(background.width, 2);
    assert_eq!(background.height, 1);
    assert_eq!(&background.png[..8], &PNG_SIGNATURE);
    assert_ne!(background.png, pixels);
    assert_eq!(&background.png[12..16], b"IHDR");
    assert_eq!(&background.png[16..24], &[0, 0, 0, 2, 0, 0, 0, 1]);
}

#[test]
fn pixels_that_do_not_fill_the_page_are_refused() {
    assert!(raster_background(2, 2, &[0; 8]).is_none());
    assert!(raster_background(1, 1, &[0; 5]).is_none());
    assert!(raster_background(u32::MAX, u32::MAX, &[0; 4]).is_none());
}

#[test]
fn same_pixels_give_the_same_png() {
    let pixels = vec![10; 4 * 3 * 2];
    assert_eq!(raster_background(3, 2, &pixels).unwrap().png, raster_background(3, 2, &pixels).unwrap().png);
}
