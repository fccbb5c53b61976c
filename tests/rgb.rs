use raytracer::ppm::ImageUtil;

#[test]
fn rgb_image_holds_pixels_row_major() {
    let pixels = vec![(1, 2, 3), (4, 5, 6), (7, 8, 9), (10, 11, 12), (13, 14, 15), (16, 17, 18)];
    let canvas = ImageUtil::get_rgb_image(&pixels, 3, 2);
    let img = &canvas.image;
    assert_eq!(img.dimensions(), (3, 2));
    assert_eq!(img.get_pixel(0, 0).0, [1, 2, 3]);
    assert_eq!(img.get_pixel(2, 0).0, [7, 8, 9]);
    assert_eq!(img.get_pixel(0, 1).0, [10, 11, 12]);
    assert_eq!(img.get_pixel(2, 1).0, [16, 17, 18]);
}

#[test]
fn rgb_image_of_one_pixel() {
    let canvas = ImageUtil::get_rgb_image(&vec![(255, 128, 0)], 1, 1);
    assert_eq!(canvas.image.dimensions(), (1, 1));
    assert_eq!(canvas.image.get_pixel(0, 0).0, [255, 128, 0]);
}
