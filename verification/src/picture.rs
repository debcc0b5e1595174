//! Image normalisation: a picture handed in as base64 text, with or without a
//! data-URL header, is decoded, scaled down where it is larger than
//! `MAX_DIMENSION` in either direction, and handed back as a base64 PNG.

use crate::text::split_at_comma;
use vstd::prelude::*;
use vstd::string::StringExecFns;

verus! {

/// The largest width and the largest height of a normalised picture.
pub const MAX_DIMENSION: u32 = 1200;

/// image's `DynamicImage`: the pixels of a decoded picture, carried as they
/// are.
#[verifier::external_type_specification]
#[verifier::external_body]
pub struct ExDynamicImage(image::DynamicImage);

/// image's `ImageFormat`: the raster format of a file.
#[verifier::external_type_specification]
#[verifier::external_body]
pub struct ExImageFormat(image::ImageFormat);

/// image's `ImageError`: why a picture could not be read or written.
#[verifier::external_type_specification]
#[verifier::external_body]
pub struct ExImageFault(image::ImageError);

/// base64's `DecodeError`: why a text is no base64.
#[verifier::external_type_specification]
#[verifier::external_body]
pub struct ExDecodeFault(base64::DecodeError);

/// A decoded picture with its dimensions in pixels.
pub struct Picture {
    width: u32,
    height: u32,
    pixels: image::DynamicImage,
}

/// The stage at which normalisation failed, with the codec's own message.
#[derive(Debug, Clone)]
pub enum NormalizeError {
    DecodeBase64Failed(String),
    DecodeImageFailed(String),
    EncodeImageFailed(String),
}

/// The bytes that a text stands for in standard base64 with padding, as
/// base64's `STANDARD` engine decodes it; `None` where the engine refuses the
/// text.
pub uninterp spec fn base64_decoded(text: Seq<char>) -> Option<Seq<u8>>;

/// The text that base64's `STANDARD` engine writes for a sequence of bytes.
pub uninterp spec fn base64_encoded(bytes: Seq<u8>) -> Seq<char>;

/// The raster format that image's `guess_format` tells from the first bytes
/// of a file; `None` where it knows none.
pub uninterp spec fn guessed_format(bytes: Seq<u8>) -> Option<image::ImageFormat>;

/// Width and height of the picture that image's
/// `load_from_memory_with_format` reads from a sequence of bytes in a given
/// format; `None` where it reads none.
pub uninterp spec fn decoded_size(bytes: Seq<u8>, format: image::ImageFormat) -> Option<
    (u32, u32),
>;

/// The bytes that image's `DynamicImage::write_to` writes for a picture in
/// the PNG format; `None` where it fails.
pub uninterp spec fn png_written(p: Picture) -> Option<Seq<u8>>;

/// Width and height of the picture that a sequence of bytes encodes in the
/// format that its first bytes tell; `None` where they tell none, or where
/// the bytes are no picture in that format.
pub open spec fn picture_size(bytes: Seq<u8>) -> Option<(u32, u32)> {
    match guessed_format(bytes) {
        Some(format) => decoded_size(bytes, format),
        None => None,
    }
}

/// The longest PNG whose base64 text is still made.
pub open spec fn png_limit() -> int {
    (usize::MAX / 2) as int
}

/// `r` is what writing the picture `q` gives: the base64 text of its PNG,
/// framed as the input was, where the PNG can be written and is no longer
/// than `png_limit()`; else a failure of the encoding stage.
pub open spec fn written_as(q: Picture, with_header: bool, r: Result<String, NormalizeError>) -> bool {
    match png_written(q) {
        Some(png) if png.len() <= png_limit() => r matches Ok(out) && out@ == framed(
            with_header,
            base64_encoded(png),
        ),
        _ => r matches Err(NormalizeError::EncodeImageFailed(_)),
    }
}

/// `r` is what normalising the text `input` gives.
pub open spec fn normalised_as(input: Seq<char>, r: Result<String, NormalizeError>) -> bool {
    match base64_decoded(payload_of(input)) {
        None => r matches Err(NormalizeError::DecodeBase64Failed(_)),
        Some(bytes) => match picture_size(bytes) {
            None => r matches Err(NormalizeError::DecodeImageFailed(_)),
            Some(size) => exists|p: Picture, q: Picture|
                size == (p.spec_width(), p.spec_height()) && #[trigger] p.fitted_to(q)
                    && written_as(q, has_header(input), r),
        },
    }
}

/// The position of the first comma of `s`, or the length of `s` where it has
/// none.
pub open spec fn first_comma(s: Seq<char>) -> int
    decreases s.len(),
{
    if s.len() == 0 || s[0] == ',' {
        0
    } else {
        1 + first_comma(s.drop_first())
    }
}

/// A text with a comma carries a header, which ends at the first comma.
pub open spec fn has_header(s: Seq<char>) -> bool {
    first_comma(s) < s.len()
}

/// What follows the header, or the whole text where there is none.
pub open spec fn payload_of(s: Seq<char>) -> Seq<char> {
    if has_header(s) {
        s.skip(first_comma(s) + 1)
    } else {
        s
    }
}

/// The header that announces a PNG in base64.
pub open spec fn png_header() -> Seq<char> {
    "data:image/png;base64,"@
}

/// The text handed back for an encoded picture.
pub open spec fn framed(with_header: bool, encoded: Seq<char>) -> Seq<char> {
    if with_header {
        png_header() + encoded
    } else {
        encoded
    }
}

impl Picture {
    pub closed spec fn spec_width(&self) -> u32 {
        self.width
    }

    pub closed spec fn spec_height(&self) -> u32 {
        self.height
    }

    /// Neither dimension exceeds `MAX_DIMENSION`.
    pub open spec fn fits(&self) -> bool {
        self.spec_width() <= MAX_DIMENSION && self.spec_height() <= MAX_DIMENSION
    }

    /// `r` has this picture's aspect ratio up to the rounding of one
    /// dimension to a whole pixel.
    pub open spec fn ratio_kept(&self, r: Picture) -> bool {
        let w = self.spec_width() as int;
        let h = self.spec_height() as int;
        let d = r.spec_width() * h - r.spec_height() * w;
        let m = if w >= h {
            w
        } else {
            h
        };
        -m <= d <= m
    }

    /// `r` is this picture scaled to the largest size within `bound` both
    /// ways: it has no dimension 0 and fits; and where this picture has no
    /// dimension 0, `r` reaches the bound in width or in height, keeps the
    /// aspect ratio, and is no larger than this picture in either dimension
    /// where this picture exceeded the bound.
    pub open spec fn scaled_to(&self, r: Picture, bound: u32) -> bool {
        &&& 1 <= r.spec_width() <= bound
        &&& 1 <= r.spec_height() <= bound
        &&& self.spec_width() >= 1 && self.spec_height() >= 1 ==> {
            &&& r.spec_width() == bound || r.spec_height() == bound
            &&& self.ratio_kept(r)
            &&& self.spec_width() > bound || self.spec_height() > bound ==> r.spec_width()
                <= self.spec_width() && r.spec_height() <= self.spec_height()
        }
    }

    /// `r` is what fitting makes of this picture: this very picture where it
    /// is within the bound already; else this picture scaled to the bound.
    pub open spec fn fitted_to(&self, r: Picture) -> bool {
        &&& r.fits()
        &&& self.fits() ==> r == *self
        &&& !self.fits() ==> self.scaled_to(r, MAX_DIMENSION)
    }

    #[verifier::when_used_as_spec(spec_width)]
    pub fn width(&self) -> (w: u32)
        ensures
            w == self.spec_width(),
    {
        self.width
    }

    #[verifier::when_used_as_spec(spec_height)]
    pub fn height(&self) -> (h: u32)
        ensures
            h == self.spec_height(),
    {
        self.height
    }
}

impl NormalizeError {
    /// The words that name the stage.
    pub open spec fn stage(&self) -> Seq<char> {
        match self {
            NormalizeError::DecodeBase64Failed(_) => "Base64 decode failed: "@,
            NormalizeError::DecodeImageFailed(_) => "Image load failed: "@,
            NormalizeError::EncodeImageFailed(_) => "Image encode failed: "@,
        }
    }

    /// The codec's message.
    pub open spec fn detail(&self) -> Seq<char> {
        match self {
            NormalizeError::DecodeBase64Failed(m) => m@,
            NormalizeError::DecodeImageFailed(m) => m@,
            NormalizeError::EncodeImageFailed(m) => m@,
        }
    }

    /// The failure in words: the stage, then the codec's message.
    pub fn message(&self) -> (r: String)
        ensures
            r@ == self.stage() + self.detail(),
    {
        match self {
            NormalizeError::DecodeBase64Failed(m) => {
                let mut out = String::from_str("Base64 decode failed: ");
                out.append(m.as_str());
                out
            },
            NormalizeError::DecodeImageFailed(m) => {
                let mut out = String::from_str("Image load failed: ");
                out.append(m.as_str());
                out
            },
            NormalizeError::EncodeImageFailed(m) => {
                let mut out = String::from_str("Image encode failed: ");
                out.append(m.as_str());
                out
            },
        }
    }
}

/// Calls `decode` of base64's `STANDARD` engine. The result is named by
/// `base64_decoded`.
#[verifier::external_body]
fn decode_base64(text: &str) -> (r: Result<Vec<u8>, base64::DecodeError>)
    ensures
        r matches Ok(bytes) ==> base64_decoded(text@) == Some(bytes@),
        r is Err ==> base64_decoded(text@) is None,
{
    base64::Engine::decode(&base64::engine::general_purpose::STANDARD, text)
}

/// Calls `to_string` on base64's `DecodeError`: the error in words. Nothing is
/// claimed of the words.
#[verifier::external_body]
fn base64_fault_text(e: &base64::DecodeError) -> (r: String)
{
    e.to_string()
}

/// Calls `to_string` on image's `ImageError`: the error in words. Nothing is
/// claimed of the words.
#[verifier::external_body]
fn image_fault_text(e: &image::ImageError) -> (r: String)
{
    e.to_string()
}

/// Calls `encode` of base64's `STANDARD` engine, which panics where the length
/// of the text would not fit in `usize`. The result is named by
/// `base64_encoded`.
#[verifier::external_body]
fn encode_base64(bytes: &[u8]) -> (r: String)
    requires
        bytes@.len() <= usize::MAX / 2,
    ensures
        r@ == base64_encoded(bytes@),
{
    base64::Engine::encode(&base64::engine::general_purpose::STANDARD, bytes)
}

/// Calls image's `guess_format`, which compares the first bytes with the
/// signatures of the formats it knows. The result is named by
/// `guessed_format`.
#[verifier::external_body]
fn sniff_format(bytes: &[u8]) -> (r: Result<image::ImageFormat, image::ImageError>)
    ensures
        r matches Ok(format) ==> guessed_format(bytes@) == Some(format),
        r is Err ==> guessed_format(bytes@) is None,
{
    image::guess_format(bytes)
}

/// Calls image's `load_from_memory_with_format` and reads the picture's width
/// and height. The dimensions are named by `decoded_size`.
#[verifier::external_body]
fn decode_picture(bytes: &[u8], format: image::ImageFormat) -> (r: Result<
    Picture,
    image::ImageError,
>)
    ensures
        r matches Ok(p) ==> decoded_size(bytes@, format) == Some(
            (p.spec_width(), p.spec_height()),
        ),
        r is Err ==> decoded_size(bytes@, format) is None,
{
    match image::load_from_memory_with_format(bytes, format) {
        Ok(img) => Ok(Picture { width: img.width(), height: img.height(), pixels: img }),
        Err(e) => Err(e),
    }
}

/// Calls `DynamicImage::resize` with the Lanczos filter of window 3 and the
/// same bound for width and height. It multiplies both dimensions by the
/// smaller of the two ratios of bound to dimension, rounds each to a whole
/// number and takes at least 1. The contract claims what `scaled_to` says.
#[verifier::external_body]
fn resample(p: &Picture, bound: u32) -> (r: Picture)
    requires
        bound >= 1,
    ensures
        p.scaled_to(r, bound),
{
    let img = p.pixels.resize(bound, bound, image::imageops::FilterType::Lanczos3);
    Picture { width: img.width(), height: img.height(), pixels: img }
}

/// Calls `DynamicImage::write_to` with the PNG format on a buffer in memory.
/// The bytes are named by `png_written`.
#[verifier::external_body]
fn encode_png(p: &Picture) -> (r: Result<Vec<u8>, image::ImageError>)
    ensures
        r matches Ok(bytes) ==> png_written(*p) == Some(bytes@),
        r is Err ==> png_written(*p) is None,
{
    let mut buffer = std::io::Cursor::new(Vec::new());
    match p.pixels.write_to(&mut buffer, image::ImageFormat::Png) {
        Ok(()) => Ok(buffer.into_inner()),
        Err(e) => Err(e),
    }
}

proof fn lemma_first_comma_bound(s: Seq<char>)
    ensures
        0 <= first_comma(s) <= s.len(),
        first_comma(s) < s.len() ==> s[first_comma(s)] == ',',
        forall|k: int| 0 <= k < first_comma(s) ==> s[k] != ',',
    decreases s.len(),
{
    if s.len() != 0 && s[0] != ',' {
        lemma_first_comma_bound(s.drop_first());
        assert forall|k: int| 0 <= k < first_comma(s) implies s[k] != ',' by {
            if k > 0 {
                assert(s[k] == s.drop_first()[k - 1]);
            }
        }
    }
}

/// The first comma of `head + "," + tail` stands right after `head` where
/// `head` holds none.
proof fn lemma_first_comma_split(head: Seq<char>, tail: Seq<char>)
    requires
        !head.contains(','),
    ensures
        first_comma(head + seq![','] + tail) == head.len(),
{
    let s = head + seq![','] + tail;
    lemma_first_comma_bound(s);
    assert(s[head.len() as int] == ',');
    if first_comma(s) < head.len() {
        assert(head[first_comma(s)] == s[first_comma(s)]);
        assert(head.contains(','));
    }
}

/// Whether a text carries a header, and what follows it.
pub fn data_url_payload(text: &str) -> (r: (bool, &str))
    ensures
        r.0 == has_header(text@),
        r.1@ == payload_of(text@),
{
    proof {
        lemma_first_comma_bound(text@);
    }
    match split_at_comma(text) {
        Some((head, tail)) => {
            proof {
                lemma_first_comma_split(head@, tail@);
                assert(text@.skip(head@.len() as int + 1) =~= tail@);
            }
            (true, tail)
        },
        None => {
            proof {
                if first_comma(text@) < text@.len() {
                    assert(text@.contains(','));
                }
            }
            (false, text)
        },
    }
}

/// Puts the PNG header before an encoded picture where the input had one.
pub fn frame_output(with_header: bool, encoded: String) -> (r: String)
    ensures
        r@ == framed(with_header, encoded@),
{
    if with_header {
        let mut out = String::from_str("data:image/png;base64,");
        out.append(encoded.as_str());
        out
    } else {
        encoded
    }
}

/// Decodes a picture from the bytes of a raster file, in the format that its
/// first bytes tell.
pub fn load_picture(bytes: &[u8]) -> (r: Result<Picture, NormalizeError>)
    ensures
        match r {
            Ok(p) => picture_size(bytes@) == Some((p.spec_width(), p.spec_height())),
            Err(e) => e is DecodeImageFailed && picture_size(bytes@) is None,
        },
{
    let format = match sniff_format(bytes) {
        Ok(format) => format,
        Err(e) => {
            return Err(NormalizeError::DecodeImageFailed(image_fault_text(&e)));
        },
    };
    match decode_picture(bytes, format) {
        Ok(p) => Ok(p),
        Err(e) => Err(NormalizeError::DecodeImageFailed(image_fault_text(&e))),
    }
}

/// Writes a picture as PNG and hands back the PNG in base64, behind the PNG
/// header where `with_header` says so. It fails where the PNG cannot be
/// written, and for a PNG longer than `png_limit()`, whose base64 text could
/// not be held.
pub fn write_picture(q: &Picture, with_header: bool) -> (r: Result<String, NormalizeError>)
    ensures
        written_as(*q, with_header, r),
{
    let png = match encode_png(q) {
        Ok(png) => png,
        Err(e) => {
            return Err(NormalizeError::EncodeImageFailed(image_fault_text(&e)));
        },
    };
    if png.len() > usize::MAX / 2 {
        return Err(NormalizeError::EncodeImageFailed(String::from_str("picture too large")));
    }
    let encoded = encode_base64(png.as_slice());
    Ok(frame_output(with_header, encoded))
}

/// Scales a picture down where its width or its height exceeds
/// `MAX_DIMENSION`; a picture within the bound is handed back as it is.
pub fn fit_within(p: Picture) -> (r: Picture)
    ensures
        p.fitted_to(r),
{
    if p.width() > MAX_DIMENSION || p.height() > MAX_DIMENSION {
        resample(&p, MAX_DIMENSION)
    } else {
        p
    }
}

/// Fitting a picture that was fitted before changes nothing.
pub proof fn lemma_fit_is_idempotent(p: Picture, q: Picture, r: Picture)
    requires
        p.fitted_to(q),
        q.fitted_to(r),
    ensures
        r == q,
{
}

/// Normalises a picture given as base64 text, with or without a header that
/// ends in a comma.
///
/// The text after the header is decoded from base64, the bytes are decoded as
/// a picture, the picture is fitted within `MAX_DIMENSION` and written as PNG,
/// and the PNG is handed back in base64, behind the PNG header where the input
/// had a header. The first stage fails exactly where the text is no base64,
/// the second exactly where the bytes are no picture, the third exactly where
/// the fitted picture cannot be written.
pub fn optimize_image(img_data: String) -> (r: Result<String, NormalizeError>)
    ensures
        normalised_as(img_data@, r),
{
    let (with_header, payload) = data_url_payload(img_data.as_str());
    let bytes = match decode_base64(payload) {
        Ok(bytes) => bytes,
        Err(e) => {
            return Err(NormalizeError::DecodeBase64Failed(base64_fault_text(&e)));
        },
    };
    let picture = match load_picture(bytes.as_slice()) {
        Ok(p) => p,
        Err(e) => {
            return Err(e);
        },
    };
    let ghost start = picture;
    let fitted = fit_within(picture);
    let r = write_picture(&fitted, with_header);
    proof {
        assert(start.fitted_to(fitted) && written_as(fitted, has_header(img_data@), r));
    }
    r
}

} // verus!
