//! Turning pixel buffers into images, and images into buffers to show.

use vstd::prelude::*;

verus! {

/// An image of the `image` crate.
#[verifier::external_type_specification]
#[verifier::external_body]
pub struct ExDynamicImage(image::DynamicImage);

/// The samples that an image holds, row by row.
pub uninterp spec fn image_samples(image: image::DynamicImage) -> Seq<u8>;

/// The width and height of an image.
pub uninterp spec fn image_size(image: image::DynamicImage) -> (u32, u32);

/// The samples of an image as one with three channels of a byte each.
pub uninterp spec fn image_rgb(image: image::DynamicImage) -> Seq<u8>;

/// The copy of an image that fits `width` and `height`.
pub uninterp spec fn image_resized(
    image: image::DynamicImage,
    width: u32,
    height: u32,
) -> image::DynamicImage;

/// The first `pixels` pixels of four samples, without the fourth.
pub open spec fn without_alpha(samples: Seq<u8>, pixels: nat) -> Seq<u8> {
    Seq::new(3 * pixels, |k: int| samples[4 * (k / 3) + k % 3])
}

/// Calls `image::RgbImage::from_raw` and puts the result into
/// `image::DynamicImage::ImageRgb8`. Claims that there is an image exactly when
/// the buffer holds three bytes for each pixel, that it has the width and the
/// height asked for, and that it holds the buffer as it is, as an image of three
/// channels too.
#[verifier::external_body]
fn rgb_image(width: u32, height: u32, samples: Vec<u8>) -> (image: Option<image::DynamicImage>)
    ensures
        image is Some <==> width * height * 3 <= samples@.len(),
        image matches Some(made) ==> {
            &&& image_size(made) == (width, height)
            &&& image_samples(made) == samples@
            &&& image_rgb(made) == samples@
        },
{
    image::RgbImage::from_raw(width, height, samples).map(image::DynamicImage::ImageRgb8)
}

/// Calls `image::RgbaImage::from_raw` and puts the result into
/// `image::DynamicImage::ImageRgba8`. Claims that there is an image exactly when
/// the buffer holds four bytes for each pixel, that it has the width and the
/// height asked for, that it holds the buffer as it is, and that it loses the
/// fourth channel as an image of three.
#[verifier::external_body]
fn rgba_image(width: u32, height: u32, samples: Vec<u8>) -> (image: Option<image::DynamicImage>)
    ensures
        image is Some <==> width * height * 4 <= samples@.len(),
        image matches Some(made) ==> {
            &&& image_size(made) == (width, height)
            &&& image_samples(made) == samples@
            &&& image_rgb(made) == without_alpha(samples@, (width * height) as nat)
        },
{
    image::RgbaImage::from_raw(width, height, samples).map(image::DynamicImage::ImageRgba8)
}

/// Calls `image::DynamicImage::width`: the width of the image.
#[verifier::external_body]
fn image_width(image: &image::DynamicImage) -> (width: u32)
    ensures
        width == image_size(*image).0,
{
    image.width()
}

/// Calls `image::DynamicImage::height`: the height of the image.
#[verifier::external_body]
fn image_height(image: &image::DynamicImage) -> (height: u32)
    ensures
        height == image_size(*image).1,
{
    image.height()
}

/// Calls `image::DynamicImage::to_rgb8` and hands out the bytes of the image it
/// returns: the image with three channels, three bytes or more for each pixel.
#[verifier::external_body]
fn rgb_bytes(image: &image::DynamicImage) -> (samples: Vec<u8>)
    ensures
        samples@ == image_rgb(*image),
        image_size(*image).0 * image_size(*image).1 * 3 <= samples@.len(),
{
    image.to_rgb8().into_raw()
}

/// Calls `image::DynamicImage::resize` with `FilterType::Triangle`: a copy that
/// fits the given width and height, with the proportions of the image. The
/// copy's pixels are not described. Asks for no larger copy, which might not fit
/// in memory.
#[verifier::external_body]
fn shrunk_image(image: &image::DynamicImage, width: u32, height: u32) -> (smaller:
    image::DynamicImage)
    requires
        width <= image_size(*image).0,
        height <= image_size(*image).1,
    ensures
        smaller == image_resized(*image, width, height),
        width > 0 && height > 0 ==> image_size(smaller).0 <= width && image_size(smaller).1
            <= height,
{
    image.resize(width, height, image::imageops::FilterType::Triangle)
}

/// A buffer of pixels with `channels` bytes each. A row starts every
/// `rowstride` bytes; what lies between the rows means nothing.
pub struct PixelBuffer {
    pub width: u32,
    pub height: u32,
    pub channels: u32,
    pub rowstride: u32,
    pub bytes: Vec<u8>,
}

/// Does the buffer hold the first `rows` rows?
pub open spec fn holds_rows(
    bytes: Seq<u8>,
    rowstride: int,
    row_len: int,
    rows: int,
) -> bool {
    forall|y: int| 0 <= y < rows ==> #[trigger] (y * rowstride) + row_len <= bytes.len()
}

/// The first `rows` rows, one after the other.
pub open spec fn packed(bytes: Seq<u8>, rowstride: int, row_len: int, rows: int) -> Seq<u8>
    decreases rows,
{
    if rows <= 0 {
        Seq::empty()
    } else {
        packed(bytes, rowstride, row_len, rows - 1) + bytes.subrange(
            (rows - 1) * rowstride,
            (rows - 1) * rowstride + row_len,
        )
    }
}

/// The rows of the buffer, one after the other, with `channels` bytes for each
/// pixel; `None` when the buffer ends before a row does.
fn packed_rows(buffer: &PixelBuffer, channels: u32) -> (samples: Option<Vec<u8>>)
    requires
        channels <= 4,
    ensures
        ({
            let row_len = buffer.width * channels;
            let stride = buffer.rowstride as int;
            &&& samples is Some <==> holds_rows(
                buffer.bytes@,
                stride,
                row_len,
                buffer.height as int,
            )
            &&& samples matches Some(found) ==> {
                &&& found@ == packed(buffer.bytes@, stride, row_len, buffer.height as int)
                &&& found@.len() == buffer.height * row_len
            }
        }),
{
    let ghost bytes = buffer.bytes@;
    let ghost stride = buffer.rowstride as int;
    let len: u128 = buffer.bytes.len() as u128;
    proof {
        let width = buffer.width;
        assert(0 <= width * channels <= 0x4_0000_0000) by (nonlinear_arith)
            requires
                width <= 0xffff_ffff,
                channels <= 4,
        ;
    }
    let row_len: u128 = buffer.width as u128 * channels as u128;
    let mut samples: Vec<u8> = Vec::new();
    let mut y: u32 = 0;
    let mut start: u128 = 0;
    while y < buffer.height
        invariant
            y <= buffer.height,
            bytes == buffer.bytes@,
            stride == buffer.rowstride,
            len == bytes.len(),
            len <= usize::MAX,
            row_len == buffer.width * channels,
            row_len <= 0x4_0000_0000,
            start == y * stride,
            start <= 0x1_0000_0000 * 0x1_0000_0000,
            holds_rows(bytes, stride, row_len as int, y as int),
            samples@ == packed(bytes, stride, row_len as int, y as int),
            samples@.len() == y * row_len,
        decreases buffer.height - y,
    {
        if start + row_len > len {
            assert(!holds_rows(bytes, stride, row_len as int, buffer.height as int)) by {
                assert((y * stride) + row_len > bytes.len());
            }
            return None;
        }
        let from: usize = start as usize;
        let to: usize = (start + row_len) as usize;
        let ghost before = samples@;
        let mut i: usize = from;
        while i < to
            invariant
                from <= i <= to,
                to <= buffer.bytes@.len(),
                samples@ =~= before + buffer.bytes@.subrange(from as int, i as int),
            decreases to - i,
        {
            samples.push(buffer.bytes[i]);
            i += 1;
        }
        proof {
            let n = y + 1;
            assert(n * stride == y * stride + stride) by (nonlinear_arith)
                requires
                    n == y + 1,
            ;
            assert(n * row_len == y * row_len + row_len) by (nonlinear_arith)
                requires
                    n == y + 1,
            ;
            assert(n * stride <= 0x1_0000_0000 * 0x1_0000_0000) by (nonlinear_arith)
                requires
                    0 <= n <= 0x1_0000_0000,
                    0 <= stride <= 0x1_0000_0000,
            ;
            assert(packed(bytes, stride, row_len as int, n) == packed(
                bytes,
                stride,
                row_len as int,
                y as int,
            ) + bytes.subrange(y * stride, y * stride + row_len));
        }
        start = start + buffer.rowstride as u128;
        y += 1;
    }
    Some(samples)
}

/// The image in a buffer of pixels with three or four channels; `None` for any
/// other number, and when the buffer ends before a row does.
pub fn dynamic_image_from_pixbuf(buffer: &PixelBuffer) -> (image: Option<image::DynamicImage>)
    ensures
        ({
            let row_len = buffer.width * buffer.channels;
            let stride = buffer.rowstride as int;
            &&& image is Some <==> (buffer.channels == 3 || buffer.channels == 4) && holds_rows(
                buffer.bytes@,
                stride,
                row_len,
                buffer.height as int,
            )
            &&& image matches Some(made) ==> {
                &&& image_size(made) == (buffer.width, buffer.height)
                &&& image_samples(made) == packed(
                    buffer.bytes@,
                    stride,
                    row_len,
                    buffer.height as int,
                )
                &&& image_rgb(made) == if buffer.channels == 3 {
                    image_samples(made)
                } else {
                    without_alpha(image_samples(made), (buffer.width * buffer.height) as nat)
                }
            }
        }),
{
    if buffer.channels != 3 && buffer.channels != 4 {
        return None;
    }
    match packed_rows(buffer, buffer.channels) {
        None => None,
        Some(samples) => {
            proof {
                let (w, h) = (buffer.width as int, buffer.height as int);
                assert(h * (w * 3) == w * h * 3 && h * (w * 4) == w * h * 4) by (nonlinear_arith);
            }
            if buffer.channels == 3 {
                rgb_image(buffer.width, buffer.height, samples)
            } else {
                rgba_image(buffer.width, buffer.height, samples)
            }
        },
    }
}

/// The most pixels that a preview is made from.
pub const PREVIEW_PIXELS: u64 = 8_000_000;

/// The size of an image, and whether previews are made from a smaller copy.
pub struct SourceSize {
    pub width: u32,
    pub height: u32,
    pub downsample: bool,
}

/// Measure a loaded image. One with more than eight million pixels is scaled
/// down for previews.
pub fn measure_source(image: &image::DynamicImage) -> (size: SourceSize)
    ensures
        (size.width, size.height) == image_size(*image),
        size.downsample == (image_size(*image).0 * image_size(*image).1 > PREVIEW_PIXELS),
{
    let width: u32 = image_width(image);
    let height: u32 = image_height(image);
    proof {
        assert(width as u64 * height as u64 <= 0xffff_ffffu64 * 0xffff_ffffu64)
            by (nonlinear_arith)
            requires
                width <= 0xffff_ffff,
                height <= 0xffff_ffff,
        ;
    }
    SourceSize { width, height, downsample: width as u64 * height as u64 > PREVIEW_PIXELS }
}

/// The image that previews are made from: a copy that fits `width` and `height`
/// where the image is too large and the copy is smaller, else the image itself.
pub fn preview_source(image: image::DynamicImage, width: u32, height: u32) -> (source:
    image::DynamicImage)
    ensures
        source == if image_size(image).0 * image_size(image).1 > PREVIEW_PIXELS && width
            <= image_size(image).0 && height <= image_size(image).1 {
            image_resized(image, width, height)
        } else {
            image
        },
{
    let size: SourceSize = measure_source(&image);
    if size.downsample && width <= size.width && height <= size.height {
        shrunk_image(&image, width, height)
    } else {
        image
    }
}

/// The pixels of a rendered image, with three channels and no gap between the
/// rows. There are none for an image with rows of more bytes than `i32` counts.
pub fn preview_pixels(image: &image::DynamicImage) -> (buffer: Option<PixelBuffer>)
    ensures
        buffer is Some <==> image_size(*image).0 * 3 <= i32::MAX,
        buffer matches Some(shown) ==> {
            &&& (shown.width, shown.height) == image_size(*image)
            &&& shown.channels == 3
            &&& shown.rowstride == shown.width * 3
            &&& shown.bytes@ == image_rgb(*image)
            &&& shown.height * shown.rowstride <= shown.bytes@.len()
        },
{
    let width: u32 = image_width(image);
    if width as u64 * 3 > i32::MAX as u64 {
        return None;
    }
    let height: u32 = image_height(image);
    let bytes: Vec<u8> = rgb_bytes(image);
    assert(height * (width * 3) == width * height * 3) by (nonlinear_arith);
    Some(PixelBuffer { width, height, channels: 3, rowstride: width * 3, bytes })
}

proof fn lemma_packed_len(bytes: Seq<u8>, rowstride: int, row_len: int, rows: int)
    requires
        0 <= rowstride,
        0 <= row_len,
        0 <= rows,
        holds_rows(bytes, rowstride, row_len, rows),
    ensures
        packed(bytes, rowstride, row_len, rows).len() == rows * row_len,
    decreases rows,
{
    if rows > 0 {
        let n = rows - 1;
        assert forall|y: int| 0 <= y < n implies #[trigger] (y * rowstride) + row_len
            <= bytes.len() by {}
        lemma_packed_len(bytes, rowstride, row_len, n);
        assert((n * rowstride) + row_len <= bytes.len());
        assert(n * rowstride >= 0) by (nonlinear_arith)
            requires
                n >= 0,
                rowstride >= 0,
        ;
        assert(rows * row_len == n * row_len + row_len) by (nonlinear_arith)
            requires
                rows == n + 1,
        ;
    } else {
        assert(rows * row_len == 0) by (nonlinear_arith)
            requires
                rows == 0,
        ;
    }
}

/// The rows of an image are those of the buffer: byte `k` of row `y` stands at
/// that place of the image, whatever lies between the rows of the buffer.
pub proof fn rows_are_packed_in_order(
    bytes: Seq<u8>,
    rowstride: int,
    row_len: int,
    rows: int,
    y: int,
    k: int,
)
    requires
        0 <= rowstride,
        0 <= row_len,
        holds_rows(bytes, rowstride, row_len, rows),
        0 <= y < rows,
        0 <= k < row_len,
    ensures
        packed(bytes, rowstride, row_len, rows).len() == rows * row_len,
        packed(bytes, rowstride, row_len, rows)[y * row_len + k] == bytes[y * rowstride + k],
    decreases rows,
{
    let n = rows - 1;
    lemma_packed_len(bytes, rowstride, row_len, rows);
    assert forall|z: int| 0 <= z < n implies #[trigger] (z * rowstride) + row_len
        <= bytes.len() by {}
    lemma_packed_len(bytes, rowstride, row_len, n);
    assert((n * rowstride) + row_len <= bytes.len());
    assert(n * rowstride >= 0) by (nonlinear_arith)
        requires
            n >= 0,
            rowstride >= 0,
    ;
    assert(y * row_len >= 0) by (nonlinear_arith)
        requires
            y >= 0,
            row_len >= 0,
    ;
    if y < n {
        rows_are_packed_in_order(bytes, rowstride, row_len, n, y, k);
        assert(y * row_len + row_len <= n * row_len) by (nonlinear_arith)
            requires
                y + 1 <= n,
                row_len >= 0,
        ;
    }
}

/// Of every pixel of four samples the first three stay, in their order.
pub proof fn pixels_lose_their_fourth_sample(samples: Seq<u8>, pixels: nat, p: int, c: int)
    requires
        0 <= p < pixels,
        0 <= c < 3,
    ensures
        without_alpha(samples, pixels).len() == 3 * pixels,
        without_alpha(samples, pixels)[3 * p + c] == samples[4 * p + c],
{
    assert((3 * p + c) / 3 == p && (3 * p + c) % 3 == c);
}

} // verus!
