use basilisk::ansi::kitty::{base64_decode, KittyAction, KittyDecoder, KittyError, KittyFormat};

#[test]
fn test_parse_control_basic() {
    let decoder = KittyDecoder::new();
    let cmd = decoder.parse_control("a=T,f=32,s=10,v=10").unwrap();

    assert_eq!(cmd.action, KittyAction::TransmitDisplay);
    assert_eq!(cmd.format, Some(KittyFormat::Rgba));
    assert_eq!(cmd.width, Some(10));
    assert_eq!(cmd.height, Some(10));
}

#[test]
fn test_parse_control_with_id() {
    let decoder = KittyDecoder::new();
    let cmd = decoder.parse_control("a=t,f=24,i=42,s=100,v=50").unwrap();

    assert_eq!(cmd.action, KittyAction::Transmit);
    assert_eq!(cmd.format, Some(KittyFormat::Rgb));
    assert_eq!(cmd.image_id, Some(42));
    assert_eq!(cmd.width, Some(100));
    assert_eq!(cmd.height, Some(50));
}

#[test]
fn test_parse_control_png() {
    let decoder = KittyDecoder::new();
    let cmd = decoder.parse_control("a=T,f=100").unwrap();

    assert_eq!(cmd.format, Some(KittyFormat::Png));
}

#[test]
fn test_parse_control_more_data() {
    let decoder = KittyDecoder::new();
    let cmd = decoder.parse_control("a=t,f=32,m=1,i=1").unwrap();

    assert!(cmd.more_data);
}

#[test]
fn test_base64_decode() {
    let decoded = base64_decode("SGVsbG8=").unwrap();
    assert_eq!(decoded, b"Hello");
}

#[test]
fn test_base64_decode_no_padding() {
    let decoded = base64_decode("SGVsbG8").unwrap();
    assert_eq!(decoded, b"Hello");
}

#[test]
fn test_base64_skips_invalid_characters() {
    let decoded = base64_decode("SG Vs\nbG8=").unwrap();
    assert_eq!(decoded, b"Hello");
}

#[test]
fn test_decode_raw_rgba() {
    let decoder = KittyDecoder::new();
    let data = vec![
        255, 0, 0, 255,
        0, 255, 0, 255,
        0, 0, 255, 255,
        255, 255, 0, 255,
    ];

    let result = decoder.decode_raw(&data, 2, 2, KittyFormat::Rgba, Some(1)).unwrap();
    assert!(result.is_some());
    let img = result.unwrap();
    assert_eq!(img.width, 2);
    assert_eq!(img.height, 2);
    assert_eq!(img.data.len(), 16);
}

#[test]
fn test_decode_raw_rgb() {
    let decoder = KittyDecoder::new();
    let data = vec![
        255, 0, 0,
        0, 255, 0,
        0, 0, 255,
        255, 255, 0,
    ];

    let result = decoder.decode_raw(&data, 2, 2, KittyFormat::Rgb, None).unwrap();
    assert!(result.is_some());
    let img = result.unwrap();
    assert_eq!(img.width, 2);
    assert_eq!(img.height, 2);
    assert_eq!(img.data.len(), 16);
}

#[test]
fn test_decode_raw_rgb_adds_opaque_alpha() {
    let decoder = KittyDecoder::new();
    let data = vec![1, 2, 3];
    let img = decoder.decode_raw(&data, 1, 1, KittyFormat::Rgb, None).unwrap().unwrap();
    assert_eq!(img.data, vec![1, 2, 3, 255]);
}

#[test]
fn test_image_dimensions_checked_first() {
    let decoder = KittyDecoder::new();
    let data = vec![0u8; 100];

    let result = decoder.decode_raw(&data, 5000, 100, KittyFormat::Rgba, None);
    assert_eq!(result, Err(KittyError::ImageTooLarge));

    let result = decoder.decode_raw(&data, 100, 5000, KittyFormat::Rgba, None);
    assert_eq!(result, Err(KittyError::ImageTooLarge));
}

#[test]
fn test_insufficient_data() {
    let decoder = KittyDecoder::new();
    let data = vec![0u8; 10];

    let result = decoder.decode_raw(&data, 10, 10, KittyFormat::Rgba, None);
    assert_eq!(result, Err(KittyError::InsufficientData));
}

#[test]
fn test_parse_whole_payload_rgba() {
    let mut decoder = KittyDecoder::new();
    // One red RGBA pixel: bytes ff 00 00 ff in base64.
    let result = decoder.parse(b"a=T,f=32,s=1,v=1;/wAA/w==").unwrap();
    let img = result.unwrap();
    assert_eq!((img.width, img.height), (1, 1));
    assert_eq!(img.data, vec![255, 0, 0, 255]);
}
