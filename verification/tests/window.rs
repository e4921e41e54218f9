use png_decoder::{ImageData, PixelData, Window};

#[test]
fn the_frame_holds_four_bytes_for_each_pixel() {
    let image = ImageData::new(
        2,
        1,
        vec![PixelData::new(0, 2, 511, 65535), PixelData::new(512, 1, 300, 32768)],
    );
    let window = Window::new(image);
    assert_eq!(window.image_data.width, 2);
    assert_eq!(window.image_data.height, 1);
    assert_eq!(window.frame(), vec![0, 1, 255, 255, 0, 0, 150, 0]);
}

#[test]
fn the_frame_of_no_pixels_is_empty() {
    let window = Window::new(ImageData::new(0, 0, Vec::new()));
    assert_eq!(window.frame(), Vec::<u8>::new());
}

#[test]
fn white_and_black_in_the_frame() {
    let window = Window::new(ImageData::new(1, 2, vec![PixelData::white(), PixelData::black()]));
    assert_eq!(window.frame(), vec![255, 255, 255, 255, 0, 0, 0, 255]);
}
