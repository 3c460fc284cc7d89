use three_rs::encoding::encode_rgba_png;

#[test]
fn an_image_round_trips_through_its_png() {
    let pixels: Vec<u8> = (0u8..24).collect();
    let png = encode_rgba_png(3, 2, &pixels).unwrap();
    assert_eq!(&png[..8], &[0x89, b'P', b'N', b'G', 0x0d, 0x0a, 0x1a, 0x0a]);
    let decoder = png::Decoder::new(std::io::Cursor::new(&png[..]));
    let mut reader = decoder.read_info().unwrap();
    let mut decoded = vec![0; reader.output_buffer_size().unwrap()];
    let info = reader.next_frame(&mut decoded).unwrap();
    assert_eq!((info.width, info.height), (3, 2));
    assert_eq!(info.color_type, png::ColorType::Rgba);
    assert_eq!(&decoded[..info.buffer_size()], &pixels[..]);
}

#[test]
fn an_image_without_pixels_has_no_png() {
    assert_eq!(encode_rgba_png(0, 5, &[]), None);
    assert_eq!(encode_rgba_png(5, 0, &[]), None);
}
