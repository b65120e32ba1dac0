//! Pixel data as textures are made from it: four bytes a pixel, row by row.
//! Data that comes block-compressed is expanded to that form.

use vstd::prelude::*;

verus! {

/// How the pixel data of a texture is stored.
#[derive(Clone, Copy, Debug, PartialEq, Eq, Structural)]
pub enum PixelFormat {
    /// Four bytes a pixel, as textures are made from.
    Plain,
    /// Blocks of 4 by 4 pixels in 16 bytes each, with explicit alpha.
    Dxt3,
}

/// The pixels that `squish` expands block-compressed `data` of an image of
/// `width` by `height` to, four bytes a pixel.
pub uninterp spec fn dxt3_pixels(data: Seq<u8>, width: int, height: int) -> Seq<u8>;

/// Blocks of four that cover `size` pixels.
pub open spec fn blocks(size: int) -> int {
    (size + 3) / 4
}

/// Bytes that a block-compressed image of `width` by `height` takes.
pub open spec fn dxt3_size(width: int, height: int) -> int {
    blocks(width) * blocks(height) * 16
}

/// Bytes that the pixels of an image of `width` by `height` take.
pub open spec fn plain_size(width: int, height: int) -> int {
    4 * width * height
}

/// Expands block-compressed data into `pixels`.
///
/// Calls `squish::Format::Bc2.decompress`. It reads one block of 16 bytes
/// for every 4 by 4 pixels, the image padded to whole blocks, and writes
/// every pixel of the image, so that what `pixels` holds afterwards depends
/// on `data`, `width` and `height` alone. `data` has to hold all the blocks
/// and `pixels` all the pixels, or the call would index out of them.
#[verifier::external_body]
fn dxt3_decompress(data: &Vec<u8>, width: usize, height: usize, pixels: &mut Vec<u8>)
    requires
        width + 3 <= usize::MAX,
        height + 3 <= usize::MAX,
        old(pixels).len() == plain_size(width as int, height as int),
        data.len() >= dxt3_size(width as int, height as int),
    ensures
        final(pixels)@ == dxt3_pixels(data@, width as int, height as int),
        final(pixels).len() == old(pixels).len(),
{
    squish::Format::Bc2.decompress(data, width, height, pixels);
}

/// Whether pixel data of `len` bytes is enough for an image of `width` by
/// `height`, and the image's pixels can be addressed.
pub open spec fn can_decode(format: PixelFormat, width: u32, height: u32, len: nat) -> bool {
    match format {
        PixelFormat::Plain => len >= plain_size(width as int, height as int),
        PixelFormat::Dxt3 => {
            &&& plain_size(width as int, height as int) <= usize::MAX
            &&& width + 3 <= usize::MAX
            &&& height + 3 <= usize::MAX
            &&& len >= dxt3_size(width as int, height as int)
        },
    }
}

/// The pixels that `data` stands for: itself, or what it expands to.
pub open spec fn decoded(format: PixelFormat, width: u32, height: u32, data: Seq<u8>) -> Seq<u8> {
    match format {
        PixelFormat::Plain => data,
        PixelFormat::Dxt3 => dxt3_pixels(data, width as int, height as int),
    }
}

/// The pixels of an image of `width` by `height` from its stored data, or
/// `None` if the data is too short for the image or the image too large to
/// address.
pub fn rgba_pixels(format: PixelFormat, width: u32, height: u32, data: Vec<u8>) -> (pixels: Option<
    Vec<u8>,
>)
    ensures
        pixels is Some <==> can_decode(format, width, height, data@.len()),
        pixels matches Some(p) ==> p@ == decoded(format, width, height, data@) && p.len()
            >= plain_size(width as int, height as int),
{
    assert(width as int * height as int <= 0xffff_ffff * 0xffff_ffff) by (nonlinear_arith)
        requires
            0 <= width <= 0xffff_ffff,
            0 <= height <= 0xffff_ffff,
    ;
    let area: u64 = width as u64 * height as u64;
    assert(plain_size(width as int, height as int) == 4 * area) by (nonlinear_arith)
        requires
            area == width as int * height as int,
    ;
    match format {
        PixelFormat::Plain => {
            let len = data.len() as u64;
            if len / 4 < area {
                None
            } else {
                Some(data)
            }
        },
        PixelFormat::Dxt3 => {
            if area > usize::MAX as u64 / 4 || width as u64 > usize::MAX as u64 - 3 || height as u64
                > usize::MAX as u64 - 3 {
                return None;
            }
            let blocks_wide: u64 = (width as u64 + 3) / 4;
            let blocks_high: u64 = (height as u64 + 3) / 4;
            assert(blocks_wide * blocks_high <= 0x4000_0000 * 0x4000_0000) by (nonlinear_arith)
                requires
                    blocks_wide <= 0x4000_0000,
                    blocks_high <= 0x4000_0000,
            ;
            let count: u64 = blocks_wide * blocks_high;
            assert(dxt3_size(width as int, height as int) == count * 16);
            if (data.len() as u64) / 16 < count {
                return None;
            }
            let mut pixels: Vec<u8> = Vec::new();
            pixels.resize((4 * area) as usize, 0u8);
            dxt3_decompress(&data, width as usize, height as usize, &mut pixels);
            Some(pixels)
        },
    }
}

} // verus!
