//! Reading a texture back to the CPU: the bytes a texel takes, the row
//! layout of the copy (rows padded to 256 bytes, as a texture-to-buffer copy
//! needs), and the tightly packed, top-down image the padding is stripped
//! from. The copy and the mapping are the renderer's.

use vstd::prelude::*;

use crate::volume::{block_copy_size_of, texel_size};

verus! {

/// The alignment a texture-to-buffer copy needs of its rows, in bytes.
pub const COPY_ROW_ALIGNMENT: u32 = 256;

/// Why a texture cannot be read back.
#[derive(Clone, Copy, Debug, PartialEq, Eq, Structural)]
pub enum ReadbackError {
    /// The format has no single block size to copy by.
    NoSingleBlockSize,
    /// A read-back promised four bytes a pixel met a format of another size.
    NotFourBytesPerPixel,
}

/// The bytes a texel of `format` takes in a read-back; an error for a
/// format without a single block size.
pub fn readback_texel_size(format: wgpu::TextureFormat) -> (size: Result<u32, ReadbackError>)
    ensures
        size == match block_copy_size_of(format) {
            Some(bytes) => Ok::<u32, ReadbackError>(bytes),
            None => Err(ReadbackError::NoSingleBlockSize),
        },
{
    match texel_size(format) {
        Some(bytes) => Ok(bytes),
        None => Err(ReadbackError::NoSingleBlockSize),
    }
}

/// The texel size of a read-back that promises four bytes a pixel: 4 for a
/// four-byte format, an error for any other.
pub fn four_byte_texel_size(format: wgpu::TextureFormat) -> (size: Result<u32, ReadbackError>)
    ensures
        block_copy_size_of(format) == Some(4u32) ==> size == Ok::<u32, ReadbackError>(4),
        block_copy_size_of(format) != Some(4u32) ==> size == Err::<u32, ReadbackError>(
            ReadbackError::NotFourBytesPerPixel,
        ),
{
    match texel_size(format) {
        Some(bytes) => if bytes == 4 {
            Ok(4)
        } else {
            Err(ReadbackError::NotFourBytesPerPixel)
        },
        None => Err(ReadbackError::NotFourBytesPerPixel),
    }
}

/// The padded length of a row of `unpadded` bytes: the least multiple of
/// [`COPY_ROW_ALIGNMENT`] that holds it.
pub open spec fn row_padded_len(unpadded: int) -> int {
    if unpadded % 256 == 0 {
        unpadded
    } else {
        unpadded - unpadded % 256 + 256
    }
}

/// The bytes a read-back row takes in the copy: `unpadded` rounded up to a
/// multiple of [`COPY_ROW_ALIGNMENT`].
pub fn padded_bytes_per_row(unpadded: u32) -> (padded: u32)
    requires
        unpadded + 255 <= u32::MAX,
    ensures
        padded == row_padded_len(unpadded as int),
        padded % 256 == 0,
        unpadded <= padded < unpadded + 256,
{
    (unpadded + 255) / 256 * 256
}

/// The image the rows of `padded` hold, tightly packed: the first `unpadded`
/// bytes of each of the first `rows` rows of `stride` bytes, top row first.
pub open spec fn unpadded_image(padded: Seq<u8>, stride: int, unpadded: int, rows: int) -> Seq<u8>
    decreases rows,
{
    if rows <= 0 {
        Seq::empty()
    } else {
        unpadded_image(padded, stride, unpadded, rows - 1) + padded.subrange(
            (rows - 1) * stride,
            (rows - 1) * stride + unpadded,
        )
    }
}

/// Strips the row padding from a mapped read-back of `height` rows of
/// `stride` bytes, keeping the first `unpadded` bytes of each row.
pub fn unpad_rows(padded: &[u8], stride: u32, unpadded: u32, height: u32) -> (image: Vec<u8>)
    requires
        unpadded <= stride,
        stride * height <= padded@.len(),
        padded@.len() <= usize::MAX,
    ensures
        image@ == unpadded_image(padded@, stride as int, unpadded as int, height as int),
        image@.len() == unpadded * height,
{
    let mut image: Vec<u8> = Vec::new();
    let mut row: u32 = 0;
    while row < height
        invariant
            unpadded <= stride,
            stride * height <= padded@.len(),
            padded@.len() <= usize::MAX,
            row <= height,
            image@ == unpadded_image(padded@, stride as int, unpadded as int, row as int),
            image@.len() == unpadded * row,
        decreases height - row,
    {
        proof {
            assert(row * stride + stride <= padded@.len()) by (nonlinear_arith)
                requires
                    row < height,
                    stride * height <= padded@.len(),
            ;
        }
        let start: usize = row as usize * stride as usize;
        let ghost before = image@;
        let mut c: u32 = 0;
        while c < unpadded
            invariant
                unpadded <= stride,
                start == row * stride,
                start + unpadded <= start + stride,
                padded@.len() <= usize::MAX,
                start + stride <= padded@.len(),
                c <= unpadded,
                image@ == before + padded@.subrange(start as int, start + c),
            decreases unpadded - c,
        {
            image.push(padded[start + c as usize]);
            c = c + 1;
            proof {
                assert(image@ =~= before + padded@.subrange(start as int, start + c));
            }
        }
        row = row + 1;
        proof {
            assert(image@ =~= unpadded_image(padded@, stride as int, unpadded as int, row as int));
            assert(unpadded * row == unpadded * (row - 1) + unpadded) by (nonlinear_arith);
            assert(start as int == (row - 1) * stride) by (nonlinear_arith)
                requires start == (row - 1) * stride;
        }
    }
    image
}

/// The unpadded image holds, at row `r` and byte `c`, the byte the copy
/// wrote at `r * stride + c`: stripping the padding moves no byte out of
/// its row or column.
pub proof fn unpadding_keeps_each_byte_in_place(padded: Seq<u8>, stride: int, unpadded: int, rows: int, r: int, c: int)
    requires
        0 <= unpadded <= stride,
        0 <= rows,
        rows * stride <= padded.len(),
        0 <= r < rows,
        0 <= c < unpadded,
    ensures
        unpadded_image(padded, stride, unpadded, rows).len() == unpadded * rows,
        unpadded_image(padded, stride, unpadded, rows)[r * unpadded + c] == padded[r * stride + c],
    decreases rows,
{
    lemma_image_len(padded, stride, unpadded, rows);
    assert((rows - 1) * stride + stride == rows * stride) by (nonlinear_arith);
    assert(0 <= (rows - 1) * stride) by (nonlinear_arith)
        requires rows >= 1, stride >= 0;
    let before = unpadded_image(padded, stride, unpadded, rows - 1);
    let last = padded.subrange((rows - 1) * stride, (rows - 1) * stride + unpadded);
    assert(unpadded_image(padded, stride, unpadded, rows) == before + last);
    assert((rows - 1) * stride <= rows * stride) by (nonlinear_arith)
        requires stride >= 0;
    lemma_image_len(padded, stride, unpadded, rows - 1);
    if r < rows - 1 {
        unpadding_keeps_each_byte_in_place(padded, stride, unpadded, rows - 1, r, c);
        assert(r * unpadded + c < unpadded * (rows - 1)) by (nonlinear_arith)
            requires
                r <= rows - 2,
                c < unpadded,
                r >= 0,
                unpadded >= 0,
        ;
    } else {
        assert(r * unpadded == unpadded * (rows - 1)) by (nonlinear_arith)
            requires r == rows - 1;
        assert(r * stride == (rows - 1) * stride);
    }
}

/// The unpadded image of `rows` rows has `unpadded * rows` bytes.
proof fn lemma_image_len(padded: Seq<u8>, stride: int, unpadded: int, rows: int)
    requires
        0 <= unpadded <= stride,
        0 <= rows,
        rows * stride <= padded.len(),
    ensures
        unpadded_image(padded, stride, unpadded, rows).len() == unpadded * rows,
    decreases rows,
{
    if rows > 0 {
        assert((rows - 1) * stride + stride == rows * stride) by (nonlinear_arith);
        assert(0 <= (rows - 1) * stride) by (nonlinear_arith)
            requires rows >= 1, stride >= 0;
        assert((rows - 1) * stride <= rows * stride) by (nonlinear_arith)
            requires stride >= 0;
        lemma_image_len(padded, stride, unpadded, rows - 1);
        assert(unpadded * rows == unpadded * (rows - 1) + unpadded) by (nonlinear_arith);
        let a = (rows - 1) * stride;
        assert(a + unpadded <= padded.len());
        assert(padded.subrange(a, a + unpadded).len() == unpadded);
    } else {
        assert(unpadded * rows == 0) by (nonlinear_arith)
            requires rows == 0;
    }
}

} // verus!
