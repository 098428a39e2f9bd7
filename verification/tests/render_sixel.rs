use basilisk::render::sixel::{SixelColor, SixelDecoder, SixelImage};

#[test]
fn sixel_color_rgb() {
    let color = SixelColor::rgb(255, 128, 0);
    assert_eq!(color.r, 255);
    assert_eq!(color.g, 128);
    assert_eq!(color.b, 0);
}

#[test]
fn sixel_color_from_hls_gray() {
    let gray = SixelColor::from_hls(0, 50, 0);
    assert_eq!(gray.r, gray.g);
    assert_eq!(gray.g, gray.b);
}

#[test]
fn sixel_image_new() {
    let image = SixelImage::new();
    assert_eq!(image.width, 0);
    assert_eq!(image.height, 0);
}

#[test]
fn sixel_image_resize() {
    let mut image = SixelImage::new();
    image.resize(10, 10);
    assert_eq!(image.width, 10);
    assert_eq!(image.height, 10);
    assert_eq!(image.data.len(), 10 * 10 * 4);
}

#[test]
fn sixel_image_set_pixel() {
    let mut image = SixelImage::new();
    image.resize(5, 5);
    let red = SixelColor::rgb(255, 0, 0);
    image.set_pixel(2, 2, &red);

    let idx = (2 * 5 + 2) * 4;
    assert_eq!(image.data[idx as usize], 255);
    assert_eq!(image.data[idx as usize + 1], 0);
    assert_eq!(image.data[idx as usize + 2], 0);
}

#[test]
fn sixel_image_resize_keeps_pixels() {
    let mut image = SixelImage::new();
    image.resize(2, 2);
    image.set_pixel(1, 1, &SixelColor::rgb(9, 8, 7));
    image.resize(4, 3);
    let idx = ((1 * 4 + 1) * 4) as usize;
    assert_eq!(&image.data[idx..idx + 4], &[9, 8, 7, 255]);
}

#[test]
fn decoder_new() {
    let decoder = SixelDecoder::new();
    assert_eq!(decoder.current_color, 0);
    assert_eq!(decoder.x, 0);
    assert_eq!(decoder.y, 0);
    assert!(decoder.palette.len() >= 16);
}

#[test]
fn decoder_simple_sixel() {
    let mut decoder = SixelDecoder::new();
    decoder.decode(b"~");

    assert!(decoder.image.width > 0);
    assert!(decoder.image.height >= 6);
}

#[test]
fn decoder_color_selection() {
    let mut decoder = SixelDecoder::new();
    decoder.decode(b"#1~");
    assert_eq!(decoder.current_color, 1);
}

#[test]
fn decoder_color_definition() {
    let mut decoder = SixelDecoder::new();
    decoder.decode(b"#100;2;100;0;0");
    let color = decoder.palette_color(100);
    assert!(color.is_some());
    let color = color.unwrap();
    assert_eq!(color.r, 255);
    assert_eq!(color.g, 0);
    assert_eq!(color.b, 0);
}

#[test]
fn decoder_repeat() {
    let mut decoder = SixelDecoder::new();
    decoder.decode(b"!10~");
    assert!(decoder.image.width >= 10);
}

#[test]
fn decoder_newline() {
    let mut decoder = SixelDecoder::new();
    decoder.decode(b"~-~");
    assert!(decoder.image.height >= 12);
}

#[test]
fn decoder_carriage_return() {
    let mut decoder = SixelDecoder::new();
    decoder.decode(b"~$~");
    assert_eq!(decoder.y, 0);
}

#[test]
fn decoder_reset() {
    let mut decoder = SixelDecoder::new();
    decoder.decode(b"~~~");
    decoder.reset();
    assert_eq!(decoder.x, 0);
    assert_eq!(decoder.y, 0);
    assert_eq!(decoder.image.width, 0);
}

#[test]
fn decoder_raster_attributes() {
    let mut decoder = SixelDecoder::new();
    decoder.decode(b"\"1;1;100;50");
    assert_eq!(decoder.image.width, 100);
    assert_eq!(decoder.image.height, 50);
}
