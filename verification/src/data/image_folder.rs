//! Image formats told apart by their first bytes, and pixels turned into
//! tensors.

use vstd::prelude::*;
use vstd::string::*;
use crate::device::Device;
use crate::dtype::DataType;
use crate::error::BellandeError;
use crate::scalar::Scalar;
use crate::shape::{flat2, lemma_flat2_bound, lemma_flat2_order, shape4};
use crate::tensor::Tensor;

verus! {

/// The image formats that are told apart by their first bytes.
#[derive(Debug, Clone, Copy, PartialEq, Eq, Structural)]
pub enum ImageFormat {
    JPEG,
    PNG,
    Unknown,
}

/// One pixel of red, green and blue.
#[derive(Debug, Clone, Copy)]
pub struct RGBPixel {
    pub r: u8,
    pub g: u8,
    pub b: u8,
}

/// The format that the first four bytes announce: `FF D8 FF` a JPEG,
/// `89 50 4E 47` a PNG.
pub open spec fn format_of(bytes: Seq<u8>) -> ImageFormat {
    if bytes.len() < 4 {
        ImageFormat::Unknown
    } else if bytes[0] == 0xFF && bytes[1] == 0xD8 && bytes[2] == 0xFF {
        ImageFormat::JPEG
    } else if bytes[0] == 0x89 && bytes[1] == 0x50 && bytes[2] == 0x4E && bytes[3] == 0x47 {
        ImageFormat::PNG
    } else {
        ImageFormat::Unknown
    }
}

/// Tells the format of an image from its first bytes.
pub fn detect_image_format(bytes: &Vec<u8>) -> (r: ImageFormat)
    ensures
        r == format_of(bytes@),
{
    if bytes.len() < 4 {
        return ImageFormat::Unknown;
    }
    if bytes[0] == 0xFF && bytes[1] == 0xD8 && bytes[2] == 0xFF {
        ImageFormat::JPEG
    } else if bytes[0] == 0x89 && bytes[1] == 0x50 && bytes[2] == 0x4E && bytes[3] == 0x47 {
        ImageFormat::PNG
    } else {
        ImageFormat::Unknown
    }
}

/// The channel of a pixel: red, green or blue for 0, 1 or 2.
pub open spec fn channel_of(pixel: RGBPixel, channel: int) -> u8 {
    if channel == 0 {
        pixel.r
    } else if channel == 1 {
        pixel.g
    } else {
        pixel.b
    }
}

/// A channel value as an element between zero and one: the value over 255.
pub open spec fn intensity<T: Scalar>(value: u8) -> T {
    T::count_spec(value as usize).over_spec(T::count_spec(255))
}

/// What a pixel buffer of the wrong size is reported with.
pub open spec fn wrong_size() -> Seq<char> {
    "Invalid pixel buffer size"@
}

/// Turns the pixels of an image into a tensor of shape
/// `(1, 3, height, width)`: the red values of all pixels, then the green,
/// then the blue, each as its value over 255.
///
/// Fails with `ImageError` unless there are `width · height` pixels and
/// three times as many elements can be addressed.
pub fn rgb_to_tensor<T: Scalar>(pixels: &Vec<RGBPixel>, width: usize, height: usize) -> (r: Result<
    Tensor<T>,
    BellandeError,
>)
    ensures
        pixels@.len() == width * height && 3 * pixels@.len() <= usize::MAX ==> r is Ok,
        !(pixels@.len() == width * height && 3 * pixels@.len() <= usize::MAX) ==> (r matches Err(
            BellandeError::ImageError(m),
        ) && m@ == wrong_size()),
        r matches Ok(t) ==> {
            &&& t.wf()
            &&& t.shape@ == seq![1usize, 3usize, height, width]
            &&& t.data@.len() == 3 * pixels@.len()
            &&& forall|c: int, k: int|
                0 <= c < 3 && 0 <= k < pixels@.len() ==> #[trigger] t.data@[c * pixels@.len() + k]
                    == intensity::<T>(channel_of(pixels@[k], c))
            &&& !t.requires_grad
            &&& t.device == Device::CPU
            &&& t.dtype == DataType::Float32
        },
{
    let n = pixels.len();
    let fits = match width.checked_mul(height) {
        Some(v) => v == n,
        None => false,
    };
    if !fits || n.checked_mul(3).is_none() {
        return Err(BellandeError::ImageError(String::from_str("Invalid pixel buffer size")));
    }
    let full = T::count(255);
    let mut data: Vec<T> = Vec::new();
    let mut channel: usize = 0;
    while channel < 3
        invariant
            channel <= 3,
            n == pixels@.len(),
            3 * n <= usize::MAX,
            full == T::count_spec(255),
            data@.len() == channel * n,
            forall|c: int, k: int|
                0 <= c < channel && 0 <= k < n ==> #[trigger] data@[c * n + k] == intensity::<T>(
                    channel_of(pixels@[k], c),
                ),
        decreases 3 - channel,
    {
        let mut k: usize = 0;
        while k < n
            invariant
                channel < 3,
                k <= n,
                n == pixels@.len(),
                3 * n <= usize::MAX,
                full == T::count_spec(255),
                data@.len() == channel * n + k,
                forall|c: int, j: int|
                    0 <= c < channel && 0 <= j < n ==> #[trigger] data@[c * n + j] == intensity::<
                        T,
                    >(channel_of(pixels@[j], c)),
                forall|j: int|
                    0 <= j < k ==> #[trigger] data@[channel * n + j] == intensity::<T>(
                        channel_of(pixels@[j], channel as int),
                    ),
            decreases n - k,
        {
            let pixel = pixels[k];
            let value = if channel == 0 {
                pixel.r
            } else if channel == 1 {
                pixel.g
            } else {
                pixel.b
            };
            let ghost before = data@;
            data.push(T::count(value as usize).over(full));
            proof {
                assert forall|c: int, j: int| 0 <= c < channel && 0 <= j < n implies #[trigger] data@[c
                    * n + j] == intensity::<T>(channel_of(pixels@[j], c)) by {
                    assert(c * n + j < channel * n) by (nonlinear_arith)
                        requires
                            0 <= c < channel,
                            0 <= j < n,
                    ;
                    assert(data@[c * n + j] == before[c * n + j]);
                }
                assert forall|j: int| 0 <= j < k + 1 implies #[trigger] data@[channel * n + j]
                    == intensity::<T>(channel_of(pixels@[j], channel as int)) by {
                    if j < k {
                        assert(data@[channel * n + j] == before[channel * n + j]);
                    }
                }
            }
            k = k + 1;
        }
        proof {
            assert(channel * n + n == (channel + 1) * n) by (nonlinear_arith);
            assert forall|c: int, j: int| 0 <= c < channel + 1 && 0 <= j < n implies #[trigger] data@[c
                * n + j] == intensity::<T>(channel_of(pixels@[j], c)) by {
                if c == channel {
                    assert(data@[channel * n + j] == intensity::<T>(
                        channel_of(pixels@[j], channel as int),
                    ));
                }
            }
        }
        channel = channel + 1;
    }
    let dims = shape4(1, 3, height, width);
    proof {
        assert(1 * 3 * height * width == 3 * (width * height)) by (nonlinear_arith);
    }
    Ok(Tensor::new(data, dims, false, Device::CPU, DataType::Float32))
}

/// The grey pixel of a sample.
pub open spec fn grey(sample: u8) -> RGBPixel {
    RGBPixel { r: sample, g: sample, b: sample }
}

/// The pixel at column `px` of row `py` once the block of eight by eight
/// samples was placed with its first sample at column `x` of row `y`: the
/// grey of its sample inside the block, the pixel as it was outside.
pub open spec fn pixel_after(
    before: Seq<RGBPixel>,
    samples: Seq<u8>,
    width: int,
    x: int,
    y: int,
    px: int,
    py: int,
) -> RGBPixel {
    if x <= px < x + 8 && y <= py < y + 8 {
        grey(samples[(py - y) * 8 + (px - x)])
    } else {
        before[flat2(py, px, width)]
    }
}

/// Places a block of eight by eight samples in an image of `width` by
/// `height` pixels, its first sample at column `x` of row `y`. The part of
/// the block that lies outside the image is left out.
pub fn place_block(
    pixels: &mut Vec<RGBPixel>,
    width: usize,
    height: usize,
    x: usize,
    y: usize,
    samples: &Vec<u8>,
)
    requires
        old(pixels)@.len() == width * height,
        samples@.len() == 64,
    ensures
        final(pixels)@.len() == old(pixels)@.len(),
        forall|py: int, px: int|
            0 <= py < height && 0 <= px < width ==> final(pixels)@[#[trigger] flat2(
                py,
                px,
                width as int,
            )] == pixel_after(old(pixels)@, samples@, width as int, x as int, y as int, px, py),
{
    let total = pixels.len();
    let mut by: usize = 0;
    while by < 8
        invariant
            by <= 8,
            total == width * height,
            pixels@.len() == width * height,
            old(pixels)@.len() == width * height,
            samples@.len() == 64,
            forall|py: int, px: int|
                0 <= py < height && 0 <= px < width ==> pixels@[#[trigger] flat2(
                    py,
                    px,
                    width as int,
                )] == if py < y + by {
                    pixel_after(old(pixels)@, samples@, width as int, x as int, y as int, px, py)
                } else {
                    old(pixels)@[flat2(py, px, width as int)]
                },
        decreases 8 - by,
    {
        if y < height && by < height - y {
            let row = y + by;
            let mut bx: usize = 0;
            while bx < 8
                invariant
                    bx <= 8,
                    by < 8,
                    row == y + by,
                    row < height,
                    total == width * height,
                    pixels@.len() == width * height,
                    old(pixels)@.len() == width * height,
                    samples@.len() == 64,
                    forall|py: int, px: int|
                        0 <= py < height && 0 <= px < width ==> pixels@[#[trigger] flat2(
                            py,
                            px,
                            width as int,
                        )] == if py < row || (py == row && px < x + bx) {
                            pixel_after(
                                old(pixels)@,
                                samples@,
                                width as int,
                                x as int,
                                y as int,
                                px,
                                py,
                            )
                        } else {
                            old(pixels)@[flat2(py, px, width as int)]
                        },
                decreases 8 - bx,
            {
                if x < width && bx < width - x {
                    let col = x + bx;
                    proof {
                        lemma_flat2_bound(row as int, col as int, height as int, width as int);
                        assert(height * width == width * height) by (nonlinear_arith);
                        assert(0 <= row * width) by (nonlinear_arith)
                            requires
                                0 <= row,
                                0 <= width,
                        ;
                    }
                    let at = row * width + col;
                    let sample = samples[by * 8 + bx];
                    let ghost earlier = pixels@;
                    pixels[at] = RGBPixel { r: sample, g: sample, b: sample };
                    assert forall|py: int, px: int|
                        0 <= py < height && 0 <= px < width implies pixels@[#[trigger] flat2(
                        py,
                        px,
                        width as int,
                    )] == if py < row || (py == row && px < x + bx + 1) {
                        pixel_after(
                            old(pixels)@,
                            samples@,
                            width as int,
                            x as int,
                            y as int,
                            px,
                            py,
                        )
                    } else {
                        old(pixels)@[flat2(py, px, width as int)]
                    } by {
                        lemma_flat2_bound(py, px, height as int, width as int);
                        assert(height * width == width * height) by (nonlinear_arith);
                        lemma_flat2_order(py, px, row as int, col as int, width as int);
                        if py == row && px == col {
                        } else {
                            assert(pixels@[flat2(py, px, width as int)] == earlier[flat2(
                                py,
                                px,
                                width as int,
                            )]);
                        }
                    }
                }
                bx = bx + 1;
            }
        }
        by = by + 1;
    }
}

} // verus!
