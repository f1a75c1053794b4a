//! From sensor bytes to an encoded picture: unpacking the pixels of a frame
//! into an RGB raster, resampling the raster to the size of the display and
//! encoding it as PNG.

use crate::espcam::{FrameBuffer, FrameView, PixelFormat};
use vstd::prelude::*;

verus! {

/// Why a frame could not be turned into a picture.
#[derive(Clone, Copy, Debug, PartialEq, Eq, Structural)]
pub enum TranscodeError {
    /// The pixels are in a layout that cannot be unpacked.
    UnsupportedFormat,
    /// The picture has more pixels than a raster can hold.
    FrameTooLarge,
    /// The frame holds fewer bytes than its width and height call for.
    TruncatedFrame,
    /// A picture without pixels was asked for or handed in.
    InvalidDimensions,
    /// A side is longer than the resampler counts pixels exactly.
    SideTooLong,
    /// The encoder refused the picture.
    EncoderRejected,
}

/// The three fields of a packed 5-6-5 pixel: the top five bits, the middle
/// six and the bottom five.
pub open spec fn rgb565_fields(packed: u16) -> (u8, u8, u8) {
    (((packed >> 11) & 0x1f) as u8, ((packed >> 5) & 0x3f) as u8, (packed & 0x1f) as u8)
}

/// A five-bit intensity stretched over the eight-bit range.
pub open spec fn widen5(v: u8) -> u8 {
    (v as int * 255 / 31) as u8
}

/// A six-bit intensity stretched over the eight-bit range.
pub open spec fn widen6(v: u8) -> u8 {
    (v as int * 255 / 63) as u8
}

/// Red, green and blue of a packed 5-6-5 pixel, eight bits each.
pub open spec fn rgb565_to_rgb888(packed: u16) -> (u8, u8, u8) {
    let fields = rgb565_fields(packed);
    (widen5(fields.0), widen6(fields.1), widen5(fields.2))
}

/// The sixteen-bit value whose more significant byte is `hi`.
pub open spec fn be16(hi: u8, lo: u8) -> u16 {
    (hi as int * 256 + lo as int) as u16
}

/// `rgb565::Rgb565::unpack_565`: splits a packed pixel into its red, green
/// and blue fields by shifting and masking, without scaling them.
#[verifier::external_body]
fn unpack_565(packed: u16) -> (fields: (u8, u8, u8))
    ensures
        fields == rgb565_fields(packed),
{
    rgb565::Rgb565::unpack_565(packed)
}

/// Each field of a packed pixel fits its width.
pub proof fn lemma_rgb565_fields_bounded(packed: u16)
    ensures
        rgb565_fields(packed).0 <= 31,
        rgb565_fields(packed).1 <= 63,
        rgb565_fields(packed).2 <= 31,
{
    assert((packed >> 11) & 0x1f <= 31) by (bit_vector);
    assert((packed >> 5) & 0x3f <= 63) by (bit_vector);
    assert(packed & 0x1f <= 31) by (bit_vector);
}

/// Each channel follows its own field: red, green and blue of a pixel are
/// its top five, middle six and bottom five bits stretched to eight bits,
/// the darkest field gives 0, the brightest gives 255, and a brighter field
/// never gives a darker channel.
pub proof fn law_channels_follow_fields(packed: u16, other: u16)
    ensures
        rgb565_to_rgb888(packed).0 == widen5(rgb565_fields(packed).0),
        rgb565_to_rgb888(packed).1 == widen6(rgb565_fields(packed).1),
        rgb565_to_rgb888(packed).2 == widen5(rgb565_fields(packed).2),
        widen5(0) == 0 && widen5(31) == 255,
        widen6(0) == 0 && widen6(63) == 255,
        rgb565_fields(packed).0 <= rgb565_fields(other).0 ==> rgb565_to_rgb888(packed).0
            <= rgb565_to_rgb888(other).0,
        rgb565_fields(packed).1 <= rgb565_fields(other).1 ==> rgb565_to_rgb888(packed).1
            <= rgb565_to_rgb888(other).1,
        rgb565_fields(packed).2 <= rgb565_fields(other).2 ==> rgb565_to_rgb888(packed).2
            <= rgb565_to_rgb888(other).2,
{
    lemma_rgb565_fields_bounded(packed);
    lemma_rgb565_fields_bounded(other);
}

/// Unpacks one 5-6-5 pixel into eight-bit red, green and blue: each field is
/// scaled so that the darkest value stays 0 and the brightest becomes 255.
pub fn decode(packed: u16) -> (rgb: (u8, u8, u8))
    ensures
        rgb == rgb565_to_rgb888(packed),
{
    let (r5, g6, b5) = unpack_565(packed);
    proof {
        lemma_rgb565_fields_bounded(packed);
    }
    let r: u16 = r5 as u16 * 255 / 31;
    let g: u16 = g6 as u16 * 255 / 63;
    let b: u16 = b5 as u16 * 255 / 31;
    (r as u8, g as u8, b as u8)
}

/// Mathematical content of a raster: its size and its bytes, three per
/// pixel in the order red, green, blue, rows from top to bottom.
pub struct RasterView {
    pub width: nat,
    pub height: nat,
    pub pixels: Seq<u8>,
}

/// An owned RGB picture.
pub struct RasterImage {
    width: u32,
    height: u32,
    pixels: Vec<u8>,
}

impl View for RasterImage {
    type V = RasterView;

    closed spec fn view(&self) -> RasterView {
        RasterView {
            width: self.width as nat,
            height: self.height as nat,
            pixels: self.pixels@,
        }
    }
}

impl RasterImage {
    /// There are three bytes for every pixel and none besides.
    pub open spec fn wf(&self) -> bool {
        &&& self@.pixels.len() == self@.width * self@.height * 3
        &&& self@.width <= u32::MAX
        &&& self@.height <= u32::MAX
    }

    /// A raster of the given size over `pixels`, if there are exactly three
    /// bytes for every pixel.
    pub fn from_raw(width: u32, height: u32, pixels: Vec<u8>) -> (image: Option<RasterImage>)
        ensures
            image is Some <==> pixels@.len() == width as nat * height as nat * 3,
            image is Some ==> image->Some_0.wf() && image->Some_0@ == (RasterView {
                width: width as nat,
                height: height as nat,
                pixels: pixels@,
            }),
    {
        let len = pixels.len();
        let count = (width as u64).checked_mul(height as u64);
        let fits = match count {
            Some(count) => match count.checked_mul(3) {
                Some(bytes) => bytes == len as u64,
                None => false,
            },
            None => false,
        };
        assert(len <= u64::MAX);
        assert(fits <==> pixels@.len() == width as nat * height as nat * 3) by (nonlinear_arith)
            requires
                fits <==> (width as nat * height as nat <= u64::MAX && (width as nat * height as nat)
                    * 3 <= u64::MAX && (width as nat * height as nat) * 3 == pixels@.len()),
                pixels@.len() <= u64::MAX,
        ;
        if fits {
            Some(RasterImage { width, height, pixels })
        } else {
            None
        }
    }

    /// Width in pixels.
    pub fn width(&self) -> (w: u32)
        ensures
            w == self@.width,
    {
        self.width
    }

    /// Height in pixels.
    pub fn height(&self) -> (h: u32)
        ensures
            h == self@.height,
    {
        self.height
    }

    /// The bytes of the picture.
    pub fn pixels(&self) -> (bytes: &[u8])
        ensures
            bytes@ == self@.pixels,
    {
        self.pixels.as_slice()
    }

    /// Red, green and blue of the pixel in column `x` of row `y`, if the
    /// picture has such a pixel.
    pub fn get_pixel(&self, x: u32, y: u32) -> (rgb: Option<(u8, u8, u8)>)
        requires
            self.wf(),
        ensures
            rgb is Some <==> x < self@.width && y < self@.height,
            rgb is Some ==> rgb->Some_0 == pixel_at(self@.pixels, y as int * self@.width + x),
    {
        if x >= self.width || y >= self.height {
            return None;
        }
        assert(0 <= y as int * self.width as int && y as int * self.width as int + (x as int)
            < self.width as int * self.height as int) by (nonlinear_arith)
            requires
                0 <= x < self.width,
                0 <= y < self.height,
        ;
        assert(self.pixels@.len() == self.width as int * self.height as int * 3) by (nonlinear_arith)
            requires
                self.pixels@.len() == self.width as nat * self.height as nat * 3,
        ;
        let len = self.pixels.len();
        assert((y as int * self.width as int + x as int) * 3 + 2 < len);
        let index = y as usize * self.width as usize + x as usize;
        let at = index * 3;
        Some((self.pixels[at], self.pixels[at + 1], self.pixels[at + 2]))
    }
}

/// The pixel with running number `p` in a sequence of RGB bytes.
pub open spec fn pixel_at(pixels: Seq<u8>, p: int) -> (u8, u8, u8) {
    (pixels[3 * p], pixels[3 * p + 1], pixels[3 * p + 2])
}

/// Number of bytes a pixel takes in a frame of the given layout; 0 for a
/// layout that cannot be unpacked.
pub open spec fn bytes_per_pixel(format: PixelFormat) -> nat {
    match format {
        PixelFormat::Rgb565 => 2,
        PixelFormat::Grayscale => 1,
        _ => 0,
    }
}

/// Red, green and blue of the pixel with running number `p` of a frame.
pub open spec fn frame_pixel(frame: FrameView, p: int) -> (u8, u8, u8) {
    match frame.format {
        PixelFormat::Rgb565 => rgb565_to_rgb888(be16(frame.data[2 * p], frame.data[2 * p + 1])),
        _ => (frame.data[p], frame.data[p], frame.data[p]),
    }
}

/// The RGB bytes of a frame, pixel by pixel.
pub open spec fn frame_pixels(frame: FrameView) -> Seq<u8> {
    Seq::new(
        frame.width * frame.height * 3,
        |i: int|
            {
                let rgb = frame_pixel(frame, i / 3);
                if i % 3 == 0 {
                    rgb.0
                } else if i % 3 == 1 {
                    rgb.1
                } else {
                    rgb.2
                }
            },
    )
}

/// What keeps a frame from being unpacked, if anything: first a layout that
/// is neither 5-6-5 nor grayscale, then a size beyond what a raster holds,
/// then too few bytes for the pixels.
pub open spec fn frame_defect(frame: FrameView) -> Option<TranscodeError> {
    if frame.format != PixelFormat::Rgb565 && frame.format != PixelFormat::Grayscale {
        Some(TranscodeError::UnsupportedFormat)
    } else if frame.width > u32::MAX || frame.height > u32::MAX || frame.width * frame.height * 3
        > usize::MAX {
        Some(TranscodeError::FrameTooLarge)
    } else if frame.data.len() < frame.width * frame.height * bytes_per_pixel(frame.format) {
        Some(TranscodeError::TruncatedFrame)
    } else {
        None
    }
}

/// Unpacks a frame into an RGB raster of the same size. A 5-6-5 frame holds
/// two bytes per pixel, the more significant first, and each field is scaled
/// to eight bits; a grayscale frame holds one byte per pixel, which becomes
/// red, green and blue alike. Any other layout is refused, and so is a frame
/// too large for a raster or too short for its size.
pub fn framebuffer_to_img(framebuffer: &FrameBuffer) -> (image: Result<RasterImage, TranscodeError>)
    ensures
        match frame_defect(framebuffer@) {
            Some(defect) => image == Err::<RasterImage, TranscodeError>(defect),
            None => image is Ok && image->Ok_0.wf() && image->Ok_0@ == (RasterView {
                width: framebuffer@.width,
                height: framebuffer@.height,
                pixels: frame_pixels(framebuffer@),
            }),
        },
{
    let format = framebuffer.format();
    let rgb565 = match format {
        PixelFormat::Rgb565 => true,
        PixelFormat::Grayscale => false,
        _ => { return Err(TranscodeError::UnsupportedFormat); },
    };
    let width = framebuffer.width();
    let height = framebuffer.height();
    let data = framebuffer.data();
    if width > u32::MAX as usize || height > u32::MAX as usize {
        return Err(TranscodeError::FrameTooLarge);
    }
    let count = match width.checked_mul(height) {
        Some(count) => count,
        None => {
            assert(width * height * 3 > usize::MAX) by (nonlinear_arith)
                requires
                    width * height > usize::MAX,
            ;
            return Err(TranscodeError::FrameTooLarge);
        },
    };
    let total = match count.checked_mul(3) {
        Some(total) => total,
        None => { return Err(TranscodeError::FrameTooLarge); },
    };
    let enough = if rgb565 {
        data.len() / 2 >= count
    } else {
        data.len() >= count
    };
    if !enough {
        return Err(TranscodeError::TruncatedFrame);
    }
    let ghost frame = framebuffer@;
    let mut pixels: Vec<u8> = Vec::new();
    let mut p: usize = 0;
    while p < count
        invariant
            p <= count,
            count == frame.width * frame.height,
            total == count * 3,
            data@ == frame.data,
            rgb565 <==> frame.format == PixelFormat::Rgb565,
            !rgb565 <==> frame.format == PixelFormat::Grayscale,
            rgb565 ==> 2 * count <= data@.len(),
            !rgb565 ==> count <= data@.len(),
            pixels@.len() == 3 * p,
            forall|q: int| 0 <= q < p ==> pixel_at(pixels@, q) == #[trigger] frame_pixel(frame, q),
        decreases count - p,
    {
        let rgb = if rgb565 {
            let hi = data[2 * p];
            let lo = data[2 * p + 1];
            decode(hi as u16 * 256 + lo as u16)
        } else {
            let v = data[p];
            (v, v, v)
        };
        let ghost before = pixels@;
        pixels.push(rgb.0);
        pixels.push(rgb.1);
        pixels.push(rgb.2);
        proof {
            assert forall|q: int| 0 <= q < p + 1 implies pixel_at(pixels@, q) == #[trigger] frame_pixel(
                frame,
                q,
            ) by {
                if q < p {
                    assert(pixel_at(before, q) == frame_pixel(frame, q));
                    assert(pixels@[3 * q] == before[3 * q]);
                    assert(pixels@[3 * q + 1] == before[3 * q + 1]);
                    assert(pixels@[3 * q + 2] == before[3 * q + 2]);
                }
            }
        }
        p = p + 1;
    }
    proof {
        let want = frame_pixels(frame);
        assert(pixels@.len() == want.len());
        assert forall|i: int| 0 <= i < want.len() implies pixels@[i] == want[i] by {
            let q = i / 3;
            assert(0 <= q < count);
            assert(pixel_at(pixels@, q) == frame_pixel(frame, q));
        }
        assert(pixels@ =~= want);
    }
    Ok(RasterImage { width: width as u32, height: height as u32, pixels })
}

/// The error type of the `image` crate; carried, never inspected.
#[verifier::external_type_specification]
#[verifier::external_body]
pub struct ExImageError(image::ImageError);

/// The PNG stream that the `image` crate writes for an eight-bit RGB
/// picture of the given size.
pub uninterp spec fn png_encoded(pixels: Seq<u8>, width: u32, height: u32) -> Seq<u8>;

/// Longest side, in pixels, of a picture that is resampled or of the size
/// it is resampled to. The resampler places its samples in single
/// precision, which counts pixels exactly up to 2^24; sides up to 2^16 - 1
/// keep every position it computes well within a pixel of its true place.
pub const MAX_RESIZE_SIDE: u32 = 65535;

/// `image::imageops::resize` with the `Lanczos3` filter, on an eight-bit RGB
/// picture given by its bytes. The result has three bytes for each pixel of
/// the new size, and where the new size is the old one it is a copy of the
/// picture. The sample values themselves come out of floating-point
/// arithmetic and are not described. The sizes admitted are those for which
/// every side is at least one pixel and at most `MAX_RESIZE_SIDE` pixels
/// long, so that every window of the filter holds the pixel nearest to its
/// centre, and for which neither the intermediate buffer of four floats per
/// pixel nor the result exceeds what a vector can hold.
#[verifier::external_body]
fn resize_lanczos3(pixels: &[u8], width: u32, height: u32, new_width: u32, new_height: u32) -> (out:
    Vec<u8>)
    requires
        1 <= width <= MAX_RESIZE_SIDE,
        1 <= height <= MAX_RESIZE_SIDE,
        1 <= new_width <= MAX_RESIZE_SIDE,
        1 <= new_height <= MAX_RESIZE_SIDE,
        pixels@.len() == width as nat * height as nat * 3,
        16 * (width as nat * new_height as nat) <= isize::MAX,
        3 * (new_width as nat * new_height as nat) <= isize::MAX,
    ensures
        out@.len() == new_width as nat * new_height as nat * 3,
        new_width == width && new_height == height ==> out@ == pixels@,
{
    let source = image::ImageBuffer::<image::Rgb<u8>, &[u8]>::from_raw(width, height, pixels).unwrap();
    let filter = image::imageops::FilterType::Lanczos3;
    image::imageops::resize(&source, new_width, new_height, filter).into_raw()
}

/// `image::ImageBuffer::write_to` with `ImageOutputFormat::Png`, on an
/// eight-bit RGB picture given by its bytes, into a buffer in memory. A
/// picture with at least one pixel is always written, since the encoder
/// refuses only a side of length zero and a failing writer, and what is
/// written depends on the picture alone.
#[verifier::external_body]
fn write_png(pixels: &[u8], width: u32, height: u32) -> (written: Result<Vec<u8>, image::ImageError>)
    requires
        width >= 1,
        height >= 1,
        pixels@.len() == width as nat * height as nat * 3,
    ensures
        written is Ok,
        written->Ok_0@ == png_encoded(pixels@, width, height),
{
    let source = image::ImageBuffer::<image::Rgb<u8>, &[u8]>::from_raw(width, height, pixels).unwrap();
    let mut out = std::io::Cursor::new(Vec::new());
    match source.write_to(&mut out, image::ImageOutputFormat::Png) {
        Ok(()) => Ok(out.into_inner()),
        Err(refusal) => Err(refusal),
    }
}

/// What keeps a picture from being resampled to `new_width` by
/// `new_height`, if anything: first a side of length zero, in the picture or
/// in the new size, then a side longer than `MAX_RESIZE_SIDE`, then a size
/// whose buffers exceed what a vector holds.
pub open spec fn resize_defect(image: RasterView, new_width: u32, new_height: u32) -> Option<
    TranscodeError,
> {
    if image.width == 0 || image.height == 0 || new_width == 0 || new_height == 0 {
        Some(TranscodeError::InvalidDimensions)
    } else if image.width > MAX_RESIZE_SIDE || image.height > MAX_RESIZE_SIDE || new_width
        > MAX_RESIZE_SIDE || new_height > MAX_RESIZE_SIDE {
        Some(TranscodeError::SideTooLong)
    } else if 16 * (image.width * new_height) > isize::MAX || 3 * (new_width * new_height)
        > isize::MAX {
        Some(TranscodeError::FrameTooLarge)
    } else {
        None
    }
}

/// Resamples a picture to exactly `new_width` by `new_height` pixels with a
/// three-lobed Lanczos filter. The result has the size asked for; asked for
/// its own size, the picture comes back unchanged.
pub fn resize(image: &RasterImage, new_width: u32, new_height: u32) -> (scaled: Result<
    RasterImage,
    TranscodeError,
>)
    requires
        image.wf(),
    ensures
        match resize_defect(image@, new_width, new_height) {
            Some(defect) => scaled == Err::<RasterImage, TranscodeError>(defect),
            None => {
                &&& scaled is Ok
                &&& scaled->Ok_0.wf()
                &&& scaled->Ok_0@.width == new_width
                &&& scaled->Ok_0@.height == new_height
                &&& new_width == image@.width && new_height == image@.height ==> scaled->Ok_0@
                    == image@
            },
        },
{
    if image.width == 0 || image.height == 0 || new_width == 0 || new_height == 0 {
        return Err(TranscodeError::InvalidDimensions);
    }
    if image.width > MAX_RESIZE_SIDE || image.height > MAX_RESIZE_SIDE || new_width
        > MAX_RESIZE_SIDE || new_height > MAX_RESIZE_SIDE {
        return Err(TranscodeError::SideTooLong);
    }
    let limit = isize::MAX as u128;
    assert(image.width as int * new_height as int <= 0xffff * 0xffff && new_width as int
        * new_height as int <= 0xffff * 0xffff) by (nonlinear_arith)
        requires
            0 <= image.width <= 0xffff,
            0 <= new_width <= 0xffff,
            0 <= new_height <= 0xffff,
    ;
    let between = 16 * (image.width as u128 * new_height as u128);
    let after = 3 * (new_width as u128 * new_height as u128);
    if between > limit || after > limit {
        return Err(TranscodeError::FrameTooLarge);
    }
    let pixels = resize_lanczos3(
        image.pixels.as_slice(),
        image.width,
        image.height,
        new_width,
        new_height,
    );
    Ok(RasterImage { width: new_width, height: new_height, pixels })
}

/// The PNG encoding of a picture: a picture with at least one pixel has
/// one, a picture without pixels is refused.
pub open spec fn encoding_of(image: RasterView) -> Result<Seq<u8>, TranscodeError> {
    if image.width == 0 || image.height == 0 {
        Err(TranscodeError::EncoderRejected)
    } else {
        Ok(png_encoded(image.pixels, image.width as u32, image.height as u32))
    }
}

/// Whether `encoded` is what encoding `image` gives.
pub open spec fn is_encoding(image: RasterView, encoded: Result<Vec<u8>, TranscodeError>) -> bool {
    match encoding_of(image) {
        Ok(bytes) => encoded is Ok && encoded->Ok_0@ == bytes,
        Err(error) => encoded == Err::<Vec<u8>, TranscodeError>(error),
    }
}

/// Encodes a picture as PNG. The bytes are a function of the picture alone:
/// the same picture always gives the same stream. A picture without pixels
/// has no encoding and gives `EncoderRejected`; every other picture is
/// encoded.
pub fn encode_png(image: &RasterImage) -> (encoded: Result<Vec<u8>, TranscodeError>)
    requires
        image.wf(),
    ensures
        is_encoding(image@, encoded),
        encoded is Err <==> image@.width == 0 || image@.height == 0,
{
    if image.width == 0 || image.height == 0 {
        return Err(TranscodeError::EncoderRejected);
    }
    match write_png(image.pixels.as_slice(), image.width, image.height) {
        Ok(bytes) => Ok(bytes),
        Err(_) => Err(TranscodeError::EncoderRejected),
    }
}

/// Encoding is repeatable: whenever the same picture is encoded twice, both
/// attempts succeed with the same bytes or both are refused.
pub proof fn law_encoding_repeatable(
    image: RasterView,
    first: Result<Vec<u8>, TranscodeError>,
    second: Result<Vec<u8>, TranscodeError>,
)
    requires
        is_encoding(image, first),
        is_encoding(image, second),
    ensures
        first is Ok <==> second is Ok,
        first is Ok ==> first->Ok_0@ == second->Ok_0@,
        first is Err ==> first == second,
{
}

} // verus!
