use three_rs::readback::{four_byte_texel_size, padded_bytes_per_row, readback_texel_size, unpad_rows, ReadbackError};

#[test]
fn rows_are_padded_to_256_bytes() {
    assert_eq!(padded_bytes_per_row(0), 0);
    assert_eq!(padded_bytes_per_row(1), 256);
    assert_eq!(padded_bytes_per_row(256), 256);
    assert_eq!(padded_bytes_per_row(4 * 65), 512);
}

#[test]
fn the_texel_size_follows_the_format() {
    assert_eq!(readback_texel_size(wgpu::TextureFormat::Rgba8Unorm), Ok(4));
    assert_eq!(readback_texel_size(wgpu::TextureFormat::Rgba16Float), Ok(8));
    assert_eq!(
        readback_texel_size(wgpu::TextureFormat::Depth24Plus),
        Err(ReadbackError::NoSingleBlockSize)
    );
    assert_eq!(four_byte_texel_size(wgpu::TextureFormat::Bgra8Unorm), Ok(4));
    assert_eq!(
        four_byte_texel_size(wgpu::TextureFormat::Rgba16Float),
        Err(ReadbackError::NotFourBytesPerPixel)
    );
    assert_eq!(
        four_byte_texel_size(wgpu::TextureFormat::Depth24Plus),
        Err(ReadbackError::NotFourBytesPerPixel)
    );
}

#[test]
fn unpadding_keeps_each_row_and_drops_its_tail() {
    // Two rows of three bytes, each padded to eight.
    let padded = [1, 2, 3, 0, 0, 0, 0, 0, 4, 5, 6, 9, 9, 9, 9, 9];
    assert_eq!(unpad_rows(&padded, 8, 3, 2), vec![1, 2, 3, 4, 5, 6]);
    assert_eq!(unpad_rows(&padded, 8, 0, 2), Vec::<u8>::new());
    assert_eq!(unpad_rows(&padded, 8, 3, 0), Vec::<u8>::new());
    assert_eq!(unpad_rows(&padded, 8, 8, 2), padded.to_vec());
}
