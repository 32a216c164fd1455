//! In-process image transcoding between PNG, JPEG and WebP, through the `image` crate.
use vstd::prelude::*;
use image::{ExtendedColorType, ImageError, ImageFormat};
use crate::text::owned;

verus! {

broadcast use vstd::string::group_string_axioms;

#[verifier::external_type_specification]
#[verifier::external_body]
pub struct ExImageError(ImageError);

/// An image encoding that the service decodes and encodes in process.
#[derive(Debug, Clone, Copy, PartialEq, Eq, Structural)]
pub enum ImageCodec {
    Png,
    Jpeg,
    WebP,
}

/// How one in-process conversion runs: the encoding read, the encoding written, and
/// whether the alpha channel is kept (`false`: the pixels are flattened to RGB first).
#[derive(Debug, Clone, Copy, PartialEq, Eq, Structural)]
pub struct CodecPlan {
    pub from: ImageCodec,
    pub to: ImageCodec,
    pub keep_alpha: bool,
}

/// Whether the `image` crate decodes `bytes` as an image in the encoding `codec`.
pub uninterp spec fn decodes(bytes: Seq<u8>, codec: ImageCodec) -> bool;

/// How the pixels of an image are laid out in memory: 8-bit RGB or 8-bit RGBA.
#[derive(Debug, Clone, Copy, PartialEq, Eq, Structural)]
pub enum PixelLayout {
    Rgb8,
    Rgba8,
}

/// The bytes each pixel takes in `layout`.
pub open spec fn channel_count(layout: PixelLayout) -> nat {
    match layout {
        PixelLayout::Rgb8 => 3,
        PixelLayout::Rgba8 => 4,
    }
}

/// The pixels of an image: its size, their layout, and the bytes that hold them row by
/// row (the buffer may run past the last pixel).
#[derive(Debug)]
pub struct Pixels {
    pub width: u32,
    pub height: u32,
    pub layout: PixelLayout,
    pub data: Vec<u8>,
}

/// Whether `data` holds exactly the pixels of a `width` by `height` image in `layout`.
pub open spec fn exact_pixels(width: u32, height: u32, layout: PixelLayout, data: Seq<u8>) -> bool {
    data.len() == width * height * channel_count(layout)
}

/// The bytes the `image` crate writes when it encodes the `width` by `height` image whose
/// pixels, laid out as `layout`, are `data`, in the encoding `codec`; nothing when it
/// fails to.
pub uninterp spec fn encoding(
    width: u32,
    height: u32,
    layout: PixelLayout,
    data: Seq<u8>,
    codec: ImageCodec,
) -> Option<Seq<u8>>;

/// The size and pixel bytes of the image that the `image` crate decodes from `bytes` in
/// the encoding `codec`, converted to `layout`; nothing when `bytes` do not decode.
pub uninterp spec fn decoded_pixels(bytes: Seq<u8>, codec: ImageCodec, layout: PixelLayout) -> Option<
    (u32, u32, Seq<u8>),
>;

/// Decodes `bytes` in the encoding `codec` and converts the image to 8-bit RGB.
///
/// Trusted: calls `image::load_from_memory_with_format` with the matching `ImageFormat`,
/// then `DynamicImage::to_rgb8`, and takes the size and raw buffer of the `RgbImage`. Both
/// depend on the bytes and the format alone: whether decoding succeeds is named `decodes`,
/// the pixels `decoded_pixels`. An image buffer holds at least three bytes per pixel.
#[verifier::external_body]
fn decode_rgb(bytes: &[u8], codec: ImageCodec) -> (r: Result<Pixels, ImageError>)
    ensures
        r is Ok <==> decodes(bytes@, codec),
        match r {
            Ok(p) => {
                &&& p.layout == PixelLayout::Rgb8
                &&& decoded_pixels(bytes@, codec, PixelLayout::Rgb8) == Some((p.width, p.height, p.data@))
                &&& p.data@.len() >= p.width * p.height * 3
            },
            Err(_) => decoded_pixels(bytes@, codec, PixelLayout::Rgb8) is None,
        },
{
    let format = match codec {
        ImageCodec::Png => ImageFormat::Png,
        ImageCodec::Jpeg => ImageFormat::Jpeg,
        ImageCodec::WebP => ImageFormat::WebP,
    };
    let buf = image::load_from_memory_with_format(bytes, format)?.to_rgb8();
    let (width, height) = buf.dimensions();
    Ok(Pixels { width, height, layout: PixelLayout::Rgb8, data: buf.into_raw() })
}

/// Decodes `bytes` in the encoding `codec` and converts the image to 8-bit RGBA.
///
/// Trusted: calls `image::load_from_memory_with_format` with the matching `ImageFormat`,
/// then `DynamicImage::to_rgba8`, and takes the size and raw buffer of the `RgbaImage`.
/// Both depend on the bytes and the format alone: whether decoding succeeds is named
/// `decodes`, the pixels `decoded_pixels`. An image buffer holds at least four bytes per
/// pixel.
#[verifier::external_body]
fn decode_rgba(bytes: &[u8], codec: ImageCodec) -> (r: Result<Pixels, ImageError>)
    ensures
        r is Ok <==> decodes(bytes@, codec),
        match r {
            Ok(p) => {
                &&& p.layout == PixelLayout::Rgba8
                &&& decoded_pixels(bytes@, codec, PixelLayout::Rgba8) == Some((p.width, p.height, p.data@))
                &&& p.data@.len() >= p.width * p.height * 4
            },
            Err(_) => decoded_pixels(bytes@, codec, PixelLayout::Rgba8) is None,
        },
{
    let format = match codec {
        ImageCodec::Png => ImageFormat::Png,
        ImageCodec::Jpeg => ImageFormat::Jpeg,
        ImageCodec::WebP => ImageFormat::WebP,
    };
    let buf = image::load_from_memory_with_format(bytes, format)?.to_rgba8();
    let (width, height) = buf.dimensions();
    Ok(Pixels { width, height, layout: PixelLayout::Rgba8, data: buf.into_raw() })
}

/// The bytes of the image `pixels` encoded as `codec`.
///
/// Trusted: calls `image::write_buffer_with_format` on an in-memory cursor, with the
/// matching `ExtendedColorType` and `ImageFormat`. The encoders assert that the buffer
/// holds exactly the image's pixels, hence the `requires`. The outcome depends on the
/// arguments alone, so it is named `encoding`.
#[verifier::external_body]
fn encode_image(pixels: &Pixels, codec: ImageCodec) -> (r: Result<Vec<u8>, ImageError>)
    requires
        exact_pixels(pixels.width, pixels.height, pixels.layout, pixels.data@),
    ensures
        match r {
            Ok(out) => encoding(pixels.width, pixels.height, pixels.layout, pixels.data@, codec)
                == Some(out@),
            Err(_) => encoding(pixels.width, pixels.height, pixels.layout, pixels.data@, codec)
                is None,
        },
{
    let format = match codec {
        ImageCodec::Png => ImageFormat::Png,
        ImageCodec::Jpeg => ImageFormat::Jpeg,
        ImageCodec::WebP => ImageFormat::WebP,
    };
    let color = match pixels.layout {
        PixelLayout::Rgb8 => ExtendedColorType::Rgb8,
        PixelLayout::Rgba8 => ExtendedColorType::Rgba8,
    };
    let mut out = std::io::Cursor::new(Vec::new());
    let (width, height) = (pixels.width, pixels.height);
    image::write_buffer_with_format(&mut out, &pixels.data, width, height, color, format)?;
    Ok(out.into_inner())
}

/// The text of an image error.
///
/// Trusted: calls `ImageError`'s `Display` through `to_string`; nothing is claimed of the text.
#[verifier::external_body]
fn image_error_text(e: &ImageError) -> String {
    e.to_string()
}

/// The error reported when the input cannot be decoded, with the codec's own `detail`.
pub open spec fn open_failure(detail: Seq<char>) -> Seq<char> {
    "failed to open input image: "@ + detail
}

/// The error reported when the output cannot be encoded, with the codec's own `detail`.
pub open spec fn write_failure(detail: Seq<char>) -> Seq<char> {
    "failed to write output image: "@ + detail
}

/// The pixel layout a conversion writes: RGBA when it keeps the alpha channel, RGB
/// otherwise.
pub open spec fn layout_of(plan: CodecPlan) -> PixelLayout {
    if plan.keep_alpha {
        PixelLayout::Rgba8
    } else {
        PixelLayout::Rgb8
    }
}

/// The image that a conversion decoded from `bytes` hands to the encoder: the size and
/// the bytes of the pixels, in `layout_of(plan)`, without what the buffer holds past the
/// last pixel.
pub open spec fn decoded_for(bytes: Seq<u8>, plan: CodecPlan) -> (u32, u32, Seq<u8>) {
    let (w, h, d) = decoded_pixels(bytes, plan.from, layout_of(plan))->Some_0;
    (w, h, d.take(w * h * channel_count(layout_of(plan))))
}

/// What encoding, in `plan.to`, the image decoded from `bytes` gives: the output bytes, or
/// nothing when the encoder refuses it.
pub open spec fn transcoded(bytes: Seq<u8>, plan: CodecPlan) -> Option<Seq<u8>> {
    let (w, h, d) = decoded_for(bytes, plan);
    encoding(w, h, layout_of(plan), d, plan.to)
}

/// Keeps only the bytes of the pixels themselves.
fn trim_to_pixels(pixels: &mut Pixels)
    requires
        old(pixels).data@.len() >= old(pixels).width * old(pixels).height * channel_count(
            old(pixels).layout,
        ),
    ensures
        final(pixels).width == old(pixels).width,
        final(pixels).height == old(pixels).height,
        final(pixels).layout == old(pixels).layout,
        final(pixels).data@ == old(pixels).data@.take(
            old(pixels).width * old(pixels).height * channel_count(old(pixels).layout),
        ),
        exact_pixels(final(pixels).width, final(pixels).height, final(pixels).layout, final(pixels).data@),
{
    let c: usize = match pixels.layout {
        PixelLayout::Rgb8 => 3,
        PixelLayout::Rgba8 => 4,
    };
    let w = pixels.width as usize;
    let h = pixels.height as usize;
    let len = pixels.data.len();
    assert(w * h <= len) by (nonlinear_arith)
        requires
            len >= w * h * c,
            c >= 1,
            w >= 0,
            h >= 0,
    ;
    let area = w * h;
    assert(area * c <= len);
    let needed = area * c;
    pixels.data.truncate(needed);
}

/// Transcodes `bytes` as `plan` says: decode in `plan.from` to RGB or RGBA
/// (`layout_of`), encode in `plan.to`; the output is `transcoded(bytes, plan)`. Input
/// that does not decode is refused with an `open_failure`; an image the encoder refuses is
/// reported as a `write_failure`.
pub fn transcode_image(bytes: &[u8], plan: &CodecPlan) -> (r: Result<Vec<u8>, String>)
    ensures
        r is Ok ==> decodes(bytes@, plan.from) && transcoded(bytes@, *plan) == Some(r->Ok_0@),
        !decodes(bytes@, plan.from) ==> (r is Err && exists|d: Seq<char>|
            r->Err_0@ == #[trigger] open_failure(d)),
        decodes(bytes@, plan.from) && r is Err ==> transcoded(bytes@, *plan) is None && exists|
            d: Seq<char>,
        | r->Err_0@ == #[trigger] write_failure(d),
{
    let decoded = if plan.keep_alpha {
        decode_rgba(bytes, plan.from)
    } else {
        decode_rgb(bytes, plan.from)
    };
    let mut pixels = match decoded {
        Ok(p) => p,
        Err(e) => {
            let detail = image_error_text(&e);
            let mut m = owned("failed to open input image: ");
            m.append(detail.as_str());
            assert(m@ == open_failure(detail@));
            return Err(m);
        },
    };
    let ghost layout = layout_of(*plan);
    assert(pixels.layout == layout);
    trim_to_pixels(&mut pixels);
    assert(decoded_for(bytes@, *plan) == (pixels.width, pixels.height, pixels.data@));
    match encode_image(&pixels, plan.to) {
        Ok(out) => Ok(out),
        Err(e) => {
            let detail = image_error_text(&e);
            let mut m = owned("failed to write output image: ");
            m.append(detail.as_str());
            assert(m@ == write_failure(detail@));
            Err(m)
        },
    }
}

} // verus!
