use basilisk::ansi::sixel::decode_sixel;

#[test]
fn decode_empty() {
    let result = decode_sixel(b"");
    assert!(result.is_none());
}

#[test]
fn decode_simple_sixel() {
    let data = b"#0;2;0;0;0~";
    let result = decode_sixel(data);
    let _ = result;
}

#[test]
fn decode_one_full_column() {
    // '~' sets all six pixels of one column.
    let img = decode_sixel(b"#1;2;100;0;0#1~").unwrap();
    assert_eq!(img.width, 1);
    assert_eq!(img.height, 6);
}

#[test]
fn decode_column_pixels_take_the_defined_color() {
    // Color 0 defined as RGB 100% red, then one full column.
    let img = decode_sixel(b"#0;2;100;0;0~").unwrap();
    assert_eq!(img.width, 1);
    assert_eq!(img.height, 6);
    let red: Vec<u8> = [255u8, 0, 0, 255].repeat(6);
    assert_eq!(img.data, red);
}

#[test]
fn decode_repeat_and_partial_sixel() {
    // Three columns of the top pixel only ('@' = bit 0), in the default
    // color 0 (black): the grown image is 3 wide and 6 high, the rest clear.
    let img = decode_sixel(b"!3@").unwrap();
    assert_eq!(img.width, 3);
    assert_eq!(img.height, 6);
    for x in 0..3usize {
        assert_eq!(&img.data[x * 4..x * 4 + 4], &[0u8, 0, 0, 255]);
    }
    assert!(img.data[12..].iter().all(|&b| b == 0));
}

#[test]
fn decode_next_row_moves_down_six_pixels() {
    // '-' starts the next sixel row: the image grows to 12 rows.
    let img = decode_sixel(b"@-@").unwrap();
    assert_eq!(img.width, 1);
    assert_eq!(img.height, 12);
    assert_eq!(&img.data[0..4], &[0u8, 0, 0, 255]);
    assert_eq!(&img.data[6 * 4..6 * 4 + 4], &[0u8, 0, 0, 255]);
    assert_eq!(&img.data[4..8], &[0u8, 0, 0, 0]);
}
