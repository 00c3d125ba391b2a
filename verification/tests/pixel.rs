use ray_tracer::pixel::pixel_coords;

#[test]
fn pixel_coords_flips_rows() {
    // 4 x 3 image: flat index 0 is the top-left pixel, which the camera
    // convention addresses as column 0, row 2 (rows count from the bottom).
    assert_eq!(pixel_coords(0, 4, 3), (0, 2));
    assert_eq!(pixel_coords(3, 4, 3), (3, 2));
    assert_eq!(pixel_coords(5, 4, 3), (1, 1));
    assert_eq!(pixel_coords(8, 4, 3), (0, 0));
    assert_eq!(pixel_coords(11, 4, 3), (3, 0));
}

#[test]
fn pixel_coords_single_pixel() {
    assert_eq!(pixel_coords(0, 1, 1), (0, 0));
}

#[test]
fn pixel_coords_single_row() {
    assert_eq!(pixel_coords(0, 5, 1), (0, 0));
    assert_eq!(pixel_coords(4, 5, 1), (4, 0));
}

#[test]
fn pixel_coords_single_column() {
    assert_eq!(pixel_coords(0, 1, 5), (0, 4));
    assert_eq!(pixel_coords(4, 1, 5), (0, 0));
}
