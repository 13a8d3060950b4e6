//! Preprocessing of an image: decode, bring within the budgets, encode as
//! JPEG. Decoding, resampling and encoding are the `image` crate's; the
//! sizing and every decision are this crate's.

use vstd::prelude::*;
use crate::geometry::{
    clamp_long_edge, fits_budget, floor_sqrt, larger, lemma_long_edge_is_cap,
    lemma_scaled_image_fits, target_dimensions, target_size,
    within_budget, PreprocessConfig,
};
use crate::text::{decimal, decimal_string};

verus! {

/// An image in memory: rows of pixels from the top, each pixel three bytes,
/// red, green and blue.
#[derive(Debug, PartialEq, Eq)]
pub struct Raster {
    pub width: u32,
    pub height: u32,
    pub pixels: Vec<u8>,
}

impl Raster {
    /// There are exactly three bytes for each pixel.
    pub open spec fn well_formed(&self) -> bool {
        self.pixels@.len() == 3 * (self.width * self.height)
    }

    /// Whether there are exactly three bytes for each pixel.
    pub fn is_well_formed(&self) -> (ok: bool)
        ensures
            ok == self.well_formed(),
    {
        assert(self.width as nat * self.height as nat <= 0xFFFF_FFFF * 0xFFFF_FFFF)
            by (nonlinear_arith)
            requires
                self.width <= 0xFFFF_FFFF,
                self.height <= 0xFFFF_FFFF,
        ;
        self.pixels.len() as u128 == 3 * (self.width as u128 * self.height as u128)
    }
}

/// An image ready to be sent to a model: JPEG bytes, and the size of the
/// image that they encode.
#[derive(Debug, PartialEq, Eq)]
pub struct PreprocessedImage {
    pub bytes: Vec<u8>,
    pub width: u32,
    pub height: u32,
}

/// Why an image could not be preprocessed.
#[derive(Debug, PartialEq, Eq)]
pub enum PreprocessError {
    /// The bytes are not an image that can be decoded; with the decoder's
    /// words.
    Decode(String),
    /// The image has to be resampled but cannot be: a buffer for it would
    /// hold more than a vector can. The size given is the image's own.
    Unscalable { width: u32, height: u32 },
    /// The image is over the pixel budget even at its target size, which is
    /// given.
    TooLarge { width: u32, height: u32 },
    /// The encoder refused the image; with the encoder's words.
    Encode(String),
}

impl Default for PreprocessConfig {
    /// The budgets that the pipeline works with.
    fn default() -> (cfg: PreprocessConfig)
        ensures
            cfg.max_long_edge == 640,
            cfg.max_pixels == 1_500_000,
            cfg.jpeg_quality == 80,
    {
        PreprocessConfig { max_long_edge: 640, max_pixels: 1_500_000, jpeg_quality: 80 }
    }
}

/// Width and height of the image that `image::load_from_memory` decodes
/// from `data`; `None` where it refuses the bytes. Of the pixels nothing is
/// named: a decoder may compute them by other routines on another machine.
pub uninterp spec fn decoded_size(data: Seq<u8>) -> Option<(u32, u32)>;

/// The bytes that `JpegEncoder::encode` writes for an RGB image at a given
/// quality, or `None` where it reports an error.
pub uninterp spec fn jpeg_encoding(pixels: Seq<u8>, width: u32, height: u32, quality: u8)
    -> Option<Seq<u8>>;

/// `image::load_from_memory`, then `DynamicImage::to_rgb8`: the decoded image
/// as RGB, of the size that `decoded_size` names, with three bytes for each
/// pixel; or the decoder's error as text.
#[verifier::external_body]
fn decode_rgb8(data: &[u8]) -> (r: Result<Raster, String>)
    ensures
        match r {
            Ok(img) => decoded_size(data@) == Some((img.width, img.height)) && img.well_formed(),
            Err(_) => decoded_size(data@) is None,
        },
{
    match image::load_from_memory(data) {
        Ok(img) => {
            let rgb = img.to_rgb8();
            Ok(Raster { width: rgb.width(), height: rgb.height(), pixels: rgb.into_raw() })
        },
        Err(e) => Err(e.to_string()),
    }
}

/// `image::imageops::resize` with the Lanczos filter of window 3: an image
/// of the size asked for. Of its pixels nothing is claimed. The two buffers
/// that it allocates must fit a vector; an empty source and an empty target
/// are in order.
#[verifier::external_body]
fn resize_lanczos3(src: &Raster, width: u32, height: u32) -> (out: Raster)
    requires
        src.well_formed(),
        resizable(src.width, (width as nat, height as nat)),
    ensures
        out.width == width,
        out.height == height,
        out.well_formed(),
{
    let view = image::ImageBuffer::<image::Rgb<u8>, &[u8]>::from_raw(
        src.width,
        src.height,
        src.pixels.as_slice(),
    ).unwrap();
    let out = image::imageops::resize(&view, width, height, image::imageops::FilterType::Lanczos3);
    Raster { width, height, pixels: out.into_raw() }
}

/// `JpegEncoder::new_with_quality`, then `encode` on RGB bytes: the encoded
/// image, which is `jpeg_encoding` of the arguments, or the encoder's error
/// as text.
#[verifier::external_body]
fn encode_jpeg(img: &Raster, quality: u8) -> (r: Result<Vec<u8>, String>)
    requires
        img.well_formed(),
    ensures
        match r {
            Ok(bytes) => jpeg_encoding(img.pixels@, img.width, img.height, quality) == Some(
                bytes@,
            ),
            Err(_) => jpeg_encoding(img.pixels@, img.width, img.height, quality) is None,
        },
{
    let mut out: Vec<u8> = Vec::new();
    let done = image::codecs::jpeg::JpegEncoder::new_with_quality(&mut out, quality).encode(
        &img.pixels,
        img.width,
        img.height,
        image::ColorType::Rgb8,
    );
    match done {
        Ok(()) => Ok(out),
        Err(e) => Err(e.to_string()),
    }
}

/// Whether an image that is `width` pixels wide can be resampled to the
/// size `target`: the two buffers that resampling allocates fit a vector,
/// which holds `isize::MAX` bytes at most. The first has four values of four
/// bytes for each pixel of the source's width by the target's height; the
/// second three bytes for each pixel of the target.
pub open spec fn resizable(width: u32, target: (nat, nat)) -> bool {
    16 * (width * target.1) <= isize::MAX && 3 * (target.0 * target.1) <= isize::MAX
}

/// Whether an image of `width` by `height` pixels can be brought to the size
/// `target`: either this is its size already, or it can be resampled to it.
pub open spec fn reachable(width: u32, height: u32, target: (nat, nat)) -> bool {
    target == (width as nat, height as nat) || resizable(width, target)
}

/// What is decided for an image of `width` by `height` pixels: the size at
/// which it is encoded, or why it is refused. The target size must be
/// reachable, and it must be within the pixel budget.
pub open spec fn sizing(width: u32, height: u32, cfg: PreprocessConfig) -> Result<
    (nat, nat),
    PreprocessError,
> {
    let target = target_size(width as nat, height as nat, cfg);
    if !reachable(width, height, target) {
        Err(PreprocessError::Unscalable { width, height })
    } else if !within_budget(target, cfg) {
        Err(PreprocessError::TooLarge { width: target.0 as u32, height: target.1 as u32 })
    } else {
        Ok(target)
    }
}

/// Decides the size at which an image of `width` by `height` pixels is
/// encoded, or why it is refused.
pub fn plan_size(width: u32, height: u32, cfg: &PreprocessConfig) -> (r: Result<
    (u32, u32),
    PreprocessError,
>)
    ensures
        match r {
            Ok(size) => sizing(width, height, *cfg) == Ok::<(nat, nat), PreprocessError>(
                (size.0 as nat, size.1 as nat),
            ),
            Err(e) => sizing(width, height, *cfg) == Err::<(nat, nat), PreprocessError>(e),
        },
{
    let (tw, th) = target_dimensions(width, height, cfg);
    let ghost target = target_size(width as nat, height as nat, *cfg);
    assert(target.0 == tw && target.1 == th);
    if tw != width || th != height {
        assert(width as nat * th as nat <= 0xFFFF_FFFF * 0xFFFF_FFFF) by (nonlinear_arith)
            requires
                width <= 0xFFFF_FFFF,
                th <= 0xFFFF_FFFF,
        ;
        assert(tw as nat * th as nat <= 0xFFFF_FFFF * 0xFFFF_FFFF) by (nonlinear_arith)
            requires
                tw <= 0xFFFF_FFFF,
                th <= 0xFFFF_FFFF,
        ;
        let limit: u128 = isize::MAX as u128;
        if 16 * (width as u128 * th as u128) > limit || 3 * (tw as u128 * th as u128) > limit {
            return Err(PreprocessError::Unscalable { width, height });
        }
    }
    if !fits_budget(tw, th, cfg) {
        return Err(PreprocessError::TooLarge { width: tw, height: th });
    }
    Ok((tw, th))
}

/// Whether `r` is what encoding the pixels `p` of an image of the size `size`
/// comes to: the encoded image with its size, or the encoder's refusal.
pub open spec fn encodes(
    r: Result<PreprocessedImage, PreprocessError>,
    p: Seq<u8>,
    size: (nat, nat),
    quality: u8,
) -> bool {
    &&& p.len() == 3 * (size.0 * size.1)
    &&& match jpeg_encoding(p, size.0 as u32, size.1 as u32, quality) {
        Some(bytes) => r matches Ok(img) && img.bytes@ == bytes && img.width == size.0
            && img.height == size.1,
        None => r matches Err(PreprocessError::Encode(_)),
    }
}

/// Whether `r` is a result of sizing and encoding the decoded image `src`:
/// the refusal of its size; the encoding of the image as it is, where it
/// keeps its size; or else the encoding of some image of the target size.
pub open spec fn sized_and_encoded(
    src: Raster,
    cfg: PreprocessConfig,
    r: Result<PreprocessedImage, PreprocessError>,
) -> bool {
    match sizing(src.width, src.height, cfg) {
        Err(e) => r == Err::<PreprocessedImage, PreprocessError>(e),
        Ok(size) => if size == (src.width as nat, src.height as nat) {
            encodes(r, src.pixels@, size, cfg.jpeg_quality)
        } else {
            exists|p: Seq<u8>| #[trigger] encodes(r, p, size, cfg.jpeg_quality)
        },
    }
}

/// Whether `r` is a result of preprocessing `data`: the decoder's refusal,
/// the refusal of the size, or the encoding of some image of the target
/// size.
pub open spec fn preprocessed(
    data: Seq<u8>,
    cfg: PreprocessConfig,
    r: Result<PreprocessedImage, PreprocessError>,
) -> bool {
    match decoded_size(data) {
        None => r matches Err(PreprocessError::Decode(_)),
        Some((w, h)) => match sizing(w, h, cfg) {
            Err(e) => r == Err::<PreprocessedImage, PreprocessError>(e),
            Ok(size) => exists|p: Seq<u8>| #[trigger] encodes(r, p, size, cfg.jpeg_quality),
        },
    }
}

/// Brings a decoded image within the budgets of `cfg` and encodes it as
/// JPEG. An image that keeps its size is encoded as it is; only an image
/// whose target size differs from its own is resampled, and of the pixels
/// that resampling yields nothing is stated.
pub fn encode_sized(src: Raster, cfg: &PreprocessConfig) -> (r: Result<
    PreprocessedImage,
    PreprocessError,
>)
    requires
        src.well_formed(),
    ensures
        sized_and_encoded(src, *cfg, r),
{
    let (width, height) = match plan_size(src.width, src.height, cfg) {
        Ok(size) => size,
        Err(e) => {
            return Err(e);
        },
    };
    let ghost size = (width as nat, height as nat);
    let ghost kept = width == src.width && height == src.height;
    let resized = if width != src.width || height != src.height {
        resize_lanczos3(&src, width, height)
    } else {
        src
    };
    let ghost p = resized.pixels@;
    let r = match encode_jpeg(&resized, cfg.jpeg_quality) {
        Ok(bytes) => Ok(PreprocessedImage { bytes, width, height }),
        Err(words) => Err(PreprocessError::Encode(words)),
    };
    proof {
        let sz = sizing(src.width, src.height, *cfg)->Ok_0;
        assert(sz == size);
        assert(encodes(r, p, sz, cfg.jpeg_quality));
        if kept {
            assert(p == src.pixels@);
        }
    }
    r
}

/// Decodes `data`, brings the image within the budgets of `cfg` and encodes
/// it as JPEG.
///
/// Which pixels the decoder yields is not stated, so the result is the
/// encoding of some image of the target size; what becomes of the decoded
/// image is stated by `encode_sized`.
pub fn preprocess_image(data: &[u8], cfg: &PreprocessConfig) -> (r: Result<
    PreprocessedImage,
    PreprocessError,
>)
    ensures
        preprocessed(data@, *cfg, r),
{
    match decode_rgb8(data) {
        Ok(src) => {
            let ghost size = sizing(src.width, src.height, *cfg);
            let ghost pixels = src.pixels@;
            let r = encode_sized(src, cfg);
            proof {
                if size is Ok && size->Ok_0 == (src.width as nat, src.height as nat) {
                    assert(encodes(r, pixels, size->Ok_0, cfg.jpeg_quality));
                }
            }
            r
        },
        Err(words) => Err(PreprocessError::Decode(words)),
    }
}

/// A decoded image within both budgets is not resampled: what comes out is
/// the encoding of its own pixels at its own size, or the encoder's refusal
/// of them.
pub proof fn lemma_small_image_is_encoded_as_it_is(
    src: Raster,
    cfg: PreprocessConfig,
    r: Result<PreprocessedImage, PreprocessError>,
)
    requires
        larger(src.width as int, src.height as int) <= cfg.max_long_edge,
        src.width * src.height <= cfg.max_pixels,
        sized_and_encoded(src, cfg, r),
    ensures
        encodes(r, src.pixels@, (src.width as nat, src.height as nat), cfg.jpeg_quality),
{
}

/// An image that is preprocessed comes out at the size that sizing decides
/// for the size it was decoded at, and within the pixel budget: an image
/// over the budget is never handed on.
pub proof fn lemma_preprocessed_size(
    data: Seq<u8>,
    cfg: PreprocessConfig,
    r: Result<PreprocessedImage, PreprocessError>,
)
    requires
        preprocessed(data, cfg, r),
        r is Ok,
    ensures
        decoded_size(data) is Some,
        ({
            let (w, h) = decoded_size(data)->0;
            let img = r->Ok_0;
            &&& sizing(w, h, cfg) == Ok::<(nat, nat), PreprocessError>(
                (img.width as nat, img.height as nat),
            )
            &&& (img.width as nat, img.height as nat) == target_size(w as nat, h as nat, cfg)
            &&& img.width * img.height <= cfg.max_pixels
        }),
{
    let (w, h) = decoded_size(data)->0;
    let size = sizing(w, h, cfg)->Ok_0;
    let p = choose|p: Seq<u8>| #[trigger] encodes(r, p, size, cfg.jpeg_quality);
    assert(encodes(r, p, size, cfg.jpeg_quality));
}

/// An image within both budgets is encoded at its own size.
pub proof fn lemma_sizing_keeps_small_image(w: u32, h: u32, cfg: PreprocessConfig)
    requires
        larger(w as int, h as int) <= cfg.max_long_edge,
        w * h <= cfg.max_pixels,
    ensures
        sizing(w, h, cfg) == Ok::<(nat, nat), PreprocessError>((w as nat, h as nat)),
{
}

/// An image whose longer edge exceeds the cap, and which fits the pixel
/// budget once that edge is brought to the cap, is encoded with its longer
/// edge equal to the cap, on the side that was longer, and with its shorter
/// edge at least 1 and within one pixel of `short * cap / long`.
///
/// The buffers for resampling must fit a vector, and the cap must be at
/// least 1: under a cap of 0 an image of 10 by 10 pixels comes to 0 by 1.
pub proof fn lemma_sizing_brings_long_edge_to_cap(w: u32, h: u32, cfg: PreprocessConfig)
    requires
        resizable(w, clamp_long_edge(w as nat, h as nat, cfg.max_long_edge as nat)),
        larger(w as int, h as int) > cfg.max_long_edge,
        cfg.max_long_edge >= 1,
        within_budget(clamp_long_edge(w as nat, h as nat, cfg.max_long_edge as nat), cfg),
    ensures
        sizing(w, h, cfg) is Ok,
        ({
            let size = sizing(w, h, cfg)->Ok_0;
            let cap = cfg.max_long_edge as int;
            let long = larger(w as int, h as int);
            let short = if w >= h {
                h as int
            } else {
                w as int
            };
            let new_short = if w >= h {
                size.1 as int
            } else {
                size.0 as int
            };
            &&& larger(size.0 as int, size.1 as int) == cap
            &&& (w >= h ==> size.0 == cap)
            &&& (w < h ==> size.1 == cap)
            &&& new_short >= 1
            &&& -long <= new_short * long - short * cap <= long
        }),
{
    lemma_long_edge_is_cap(w as nat, h as nat, cfg);
}

/// An image that is still over the pixel budget once its longer edge is at
/// the cap is encoded at the size of the two truncated roots,
/// `floor(sqrt(w * max_pixels / h))` by `floor(sqrt(h * max_pixels / w))`
/// of the clamped size `w` by `h`, and this size is within the budget.
///
/// The buffers for resampling must fit a vector, and each root must be at
/// least 1: an image of 1 by 100 pixels under a budget of 10 pixels is
/// refused.
pub proof fn lemma_sizing_brings_pixels_to_budget(w: u32, h: u32, cfg: PreprocessConfig)
    requires
        resizable(w, target_size(w as nat, h as nat, cfg)),
        ({
            let c = clamp_long_edge(w as nat, h as nat, cfg.max_long_edge as nat);
            &&& c.0 * c.1 > cfg.max_pixels
            &&& floor_sqrt(c.0 * cfg.max_pixels as nat / c.1) >= 1
            &&& floor_sqrt(c.1 * cfg.max_pixels as nat / c.0) >= 1
        }),
    ensures
        ({
            let c = clamp_long_edge(w as nat, h as nat, cfg.max_long_edge as nat);
            let a = floor_sqrt(c.0 * cfg.max_pixels as nat / c.1);
            let b = floor_sqrt(c.1 * cfg.max_pixels as nat / c.0);
            &&& sizing(w, h, cfg) == Ok::<(nat, nat), PreprocessError>((a, b))
            &&& a * b <= cfg.max_pixels
        }),
{
    lemma_scaled_image_fits(w as nat, h as nat, cfg);
}

/// Whatever the image, a size that sizing accepts is within the pixel
/// budget.
pub proof fn lemma_sizing_keeps_budget(w: u32, h: u32, cfg: PreprocessConfig)
    ensures
        sizing(w, h, cfg) matches Ok(size) ==> size.0 * size.1 <= cfg.max_pixels,
{
}

impl PreprocessError {
    /// What the error says, as text.
    pub open spec fn message_text(self) -> Seq<char> {
        match self {
            PreprocessError::Decode(words) => words@,
            PreprocessError::Unscalable { width, height } => "image cannot be resized ("@ + decimal(
                width as nat,
            ) + "x"@ + decimal(height as nat) + ")"@,
            PreprocessError::TooLarge { width, height } => "image too large after resize ("@
                + decimal(width as nat) + "x"@ + decimal(height as nat) + ")"@,
            PreprocessError::Encode(words) => words@,
        }
    }

    /// What the error says, as text.
    pub fn message(&self) -> (s: String)
        ensures
            s@ == self.message_text(),
    {
        match self {
            PreprocessError::Decode(words) => words.clone(),
            PreprocessError::Unscalable { width, height } => {
                let mut s = String::from_str("image cannot be resized (");
                s.append(decimal_string(*width as u64).as_str());
                s.append("x");
                s.append(decimal_string(*height as u64).as_str());
                s.append(")");
                s
            },
            PreprocessError::TooLarge { width, height } => {
                let mut s = String::from_str("image too large after resize (");
                s.append(decimal_string(*width as u64).as_str());
                s.append("x");
                s.append(decimal_string(*height as u64).as_str());
                s.append(")");
                s
            },
            PreprocessError::Encode(words) => words.clone(),
        }
    }
}

} // verus!
