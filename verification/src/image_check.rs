//! Image payload checks: magic-number screening, full decoding through the
//! `image` crate with bounded dimensions and frame counts, and MIME names.
use vstd::prelude::*;
use crate::error::{ChatVaultError, msg};
use crate::text::{ascii_lowercase, contains_str, contains_text, is_ascii_text, lemma_ascii_lowercase_idempotent, lowercase_of, str_eq, to_lowercase};
use image::AnimationDecoder;
use image::GenericImageView;

verus! {

/// `data` begins with the bytes `p`.
pub open spec fn bytes_start_with(data: Seq<u8>, p: Seq<u8>) -> bool {
    p.len() <= data.len() && data.subrange(0, p.len() as int) == p
}

fn starts_with_bytes(data: &[u8], p: &[u8]) -> (r: bool)
    ensures
        r == bytes_start_with(data@, p@),
{
    let m = p.len();
    if m > data.len() {
        return false;
    }
    let mut i: usize = 0;
    while i < m
        invariant
            m == p@.len(),
            m <= data@.len(),
            i <= m,
            forall|j: int| 0 <= j < i ==> data@[j] == p@[j],
        decreases m - i,
    {
        if data[i] != p[i] {
            assert(data@.subrange(0, m as int)[i as int] != p@[i as int]);
            return false;
        }
        i = i + 1;
    }
    assert(data@.subrange(0, m as int) =~= p@);
    true
}

/// Magic numbers of JPEG, PNG, GIF, WebP and BMP; buffers under 12 bytes never match.
pub open spec fn standard_image_magic(d: Seq<u8>) -> bool {
    &&& d.len() >= 12
    &&& {
        ||| bytes_start_with(d, seq![0xFFu8, 0xD8, 0xFF])
        ||| bytes_start_with(d, seq![0x89u8, 0x50, 0x4E, 0x47, 0x0D, 0x0A, 0x1A, 0x0A])
        ||| bytes_start_with(d, seq![0x47u8, 0x49, 0x46, 0x38, 0x37, 0x61])
        ||| bytes_start_with(d, seq![0x47u8, 0x49, 0x46, 0x38, 0x39, 0x61])
        ||| (bytes_start_with(d, seq![0x52u8, 0x49, 0x46, 0x46])
            && d.subrange(8, 12) == seq![0x57u8, 0x45, 0x42, 0x50])
        ||| bytes_start_with(d, seq![0x42u8, 0x4D])
    }
}

/// Screens a buffer for the magic number of a standard image format. A match
/// only selects candidates; it proves nothing about the content.
pub fn looks_like_standard_image(data: &[u8]) -> (r: bool)
    ensures
        r == standard_image_magic(data@),
{
    if data.len() < 12 {
        return false;
    }
    let jpeg: [u8; 3] = [0xFF, 0xD8, 0xFF];
    let png: [u8; 8] = [0x89, 0x50, 0x4E, 0x47, 0x0D, 0x0A, 0x1A, 0x0A];
    let gif87: [u8; 6] = [0x47, 0x49, 0x46, 0x38, 0x37, 0x61];
    let gif89: [u8; 6] = [0x47, 0x49, 0x46, 0x38, 0x39, 0x61];
    let riff: [u8; 4] = [0x52, 0x49, 0x46, 0x46];
    let bm: [u8; 2] = [0x42, 0x4D];
    proof {
        assert(jpeg@ =~= seq![0xFFu8, 0xD8, 0xFF]);
        assert(png@ =~= seq![0x89u8, 0x50, 0x4E, 0x47, 0x0D, 0x0A, 0x1A, 0x0A]);
        assert(gif87@ =~= seq![0x47u8, 0x49, 0x46, 0x38, 0x37, 0x61]);
        assert(gif89@ =~= seq![0x47u8, 0x49, 0x46, 0x38, 0x39, 0x61]);
        assert(riff@ =~= seq![0x52u8, 0x49, 0x46, 0x46]);
        assert(bm@ =~= seq![0x42u8, 0x4D]);
    }
    if starts_with_bytes(data, jpeg.as_slice()) || starts_with_bytes(data, png.as_slice())
        || starts_with_bytes(data, gif87.as_slice()) || starts_with_bytes(data, gif89.as_slice())
    {
        return true;
    }
    if starts_with_bytes(data, riff.as_slice()) {
        let webp = data[8] == 0x57 && data[9] == 0x45 && data[10] == 0x42 && data[11] == 0x50;
        proof {
            if webp {
                assert(data@.subrange(8, 12) =~= seq![0x57u8, 0x45, 0x42, 0x50]);
            } else {
                assert(data@.subrange(8, 12) != seq![0x57u8, 0x45, 0x42, 0x50]) by {
                    let s = data@.subrange(8, 12);
                    if s == seq![0x57u8, 0x45, 0x42, 0x50] {
                        assert(s[0] == data@[8]);
                        assert(s[1] == data@[9]);
                        assert(s[2] == data@[10]);
                        assert(s[3] == data@[11]);
                    }
                }
            }
        }
        if webp {
            return true;
        }
    }
    starts_with_bytes(data, bm.as_slice())
}

/// The WeChat private container: `WXGF` or `00 00 00 01` at the start.
pub open spec fn wxgf_magic(d: Seq<u8>) -> bool {
    bytes_start_with(d, seq![0x57u8, 0x58, 0x47, 0x46]) || bytes_start_with(d, seq![0x00u8, 0x00, 0x00, 0x01])
}

/// Whether the buffer is a WeChat private container (never counted as a valid image).
pub fn looks_like_wxgf(data: &[u8]) -> (r: bool)
    ensures
        r == wxgf_magic(data@),
{
    let wxgf: [u8; 4] = [0x57, 0x58, 0x47, 0x46];
    let alt: [u8; 4] = [0x00, 0x00, 0x00, 0x01];
    proof {
        assert(wxgf@ =~= seq![0x57u8, 0x58, 0x47, 0x46]);
        assert(alt@ =~= seq![0x00u8, 0x00, 0x00, 0x01]);
    }
    starts_with_bytes(data, wxgf.as_slice()) || starts_with_bytes(data, alt.as_slice())
}

} // verus!

verus! {

#[verifier::external_type_specification]
#[verifier::external_body]
pub struct ExFrames<'a>(image::Frames<'a>);

#[verifier::external_type_specification]
#[verifier::external_body]
pub struct ExFrame(image::Frame);

#[verifier::external_type_specification]
#[verifier::external_body]
pub struct ExImageError(image::ImageError);

/// Container formats the archive accepts, and everything else.
#[derive(Debug, Clone, Copy, PartialEq, Eq)]
pub enum ImageKind {
    Png,
    Jpeg,
    Gif,
    WebP,
    Bmp,
    Other,
}

/// The format `image::guess_format` recognizes from the magic bytes, with
/// the format's debug name: the first entry of the crate's table of 22
/// signatures that the buffer starts with (`RIFF????WEBP` and `\0\0??ftypavif`
/// with wildcards), or none.
pub open spec fn guessed_format(d: Seq<u8>) -> Option<(ImageKind, Seq<char>)> {
    if bytes_start_with(d, seq![0x89u8, 0x50, 0x4E, 0x47, 0x0D, 0x0A, 0x1A, 0x0A]) {
        Some((ImageKind::Png, seq!['P', 'n', 'g']))
    } else if bytes_start_with(d, seq![0xFFu8, 0xD8, 0xFF]) {
        Some((ImageKind::Jpeg, seq!['J', 'p', 'e', 'g']))
    } else if bytes_start_with(d, seq![0x47u8, 0x49, 0x46, 0x38, 0x39, 0x61]) {
        Some((ImageKind::Gif, seq!['G', 'i', 'f']))
    } else if bytes_start_with(d, seq![0x47u8, 0x49, 0x46, 0x38, 0x37, 0x61]) {
        Some((ImageKind::Gif, seq!['G', 'i', 'f']))
    } else if d.len() >= 12 && bytes_start_with(d, seq![0x52u8, 0x49, 0x46, 0x46]) && d.subrange(8, 12) == seq![0x57u8, 0x45, 0x42, 0x50] {
        Some((ImageKind::WebP, seq!['W', 'e', 'b', 'P']))
    } else if bytes_start_with(d, seq![0x4Du8, 0x4D, 0x00, 0x2A]) {
        Some((ImageKind::Other, seq!['T', 'i', 'f', 'f']))
    } else if bytes_start_with(d, seq![0x49u8, 0x49, 0x2A, 0x00]) {
        Some((ImageKind::Other, seq!['T', 'i', 'f', 'f']))
    } else if bytes_start_with(d, seq![0x44u8, 0x44, 0x53, 0x20]) {
        Some((ImageKind::Other, seq!['D', 'd', 's']))
    } else if bytes_start_with(d, seq![0x42u8, 0x4D]) {
        Some((ImageKind::Bmp, seq!['B', 'm', 'p']))
    } else if bytes_start_with(d, seq![0x00u8, 0x00, 0x01, 0x00]) {
        Some((ImageKind::Other, seq!['I', 'c', 'o']))
    } else if bytes_start_with(d, seq![0x23u8, 0x3F, 0x52, 0x41, 0x44, 0x49, 0x41, 0x4E, 0x43, 0x45]) {
        Some((ImageKind::Other, seq!['H', 'd', 'r']))
    } else if d.len() >= 12 && d[0] == 0u8 && d[1] == 0u8 && d.subrange(4, 12) == seq![0x66u8, 0x74, 0x79, 0x70, 0x61, 0x76, 0x69, 0x66] {
        Some((ImageKind::Other, seq!['A', 'v', 'i', 'f']))
    } else if bytes_start_with(d, seq![0x76u8, 0x2F, 0x31, 0x01]) {
        Some((ImageKind::Other, seq!['O', 'p', 'e', 'n', 'E', 'x', 'r']))
    } else if bytes_start_with(d, seq![0x71u8, 0x6F, 0x69, 0x66]) {
        Some((ImageKind::Other, seq!['Q', 'o', 'i']))
    } else if bytes_start_with(d, seq![0x50u8, 0x31]) {
        Some((ImageKind::Other, seq!['P', 'n', 'm']))
    } else if bytes_start_with(d, seq![0x50u8, 0x32]) {
        Some((ImageKind::Other, seq!['P', 'n', 'm']))
    } else if bytes_start_with(d, seq![0x50u8, 0x33]) {
        Some((ImageKind::Other, seq!['P', 'n', 'm']))
    } else if bytes_start_with(d, seq![0x50u8, 0x34]) {
        Some((ImageKind::Other, seq!['P', 'n', 'm']))
    } else if bytes_start_with(d, seq![0x50u8, 0x35]) {
        Some((ImageKind::Other, seq!['P', 'n', 'm']))
    } else if bytes_start_with(d, seq![0x50u8, 0x36]) {
        Some((ImageKind::Other, seq!['P', 'n', 'm']))
    } else if bytes_start_with(d, seq![0x50u8, 0x37]) {
        Some((ImageKind::Other, seq!['P', 'n', 'm']))
    } else if bytes_start_with(d, seq![0x66u8, 0x61, 0x72, 0x62, 0x66, 0x65, 0x6C, 0x64]) {
        Some((ImageKind::Other, seq!['F', 'a', 'r', 'b', 'f', 'e', 'l', 'd']))
    } else {
        None
    }
}

/// The recognized format alone.
pub open spec fn guessed_kind(data: Seq<u8>) -> Option<ImageKind> {
    match guessed_format(data) {
        Some((k, _)) => Some(k),
        None => None,
    }
}

/// What `image::load_from_memory` gives for the data: the width and height of
/// the decoded image, or the text of its error.
pub uninterp spec fn decoding(data: Seq<u8>) -> Result<(u32, u32), Seq<char>>;

/// Width and height of the decoded image, if it decodes.
pub open spec fn decoded_size(data: Seq<u8>) -> Option<(u32, u32)> {
    match decoding(data) {
        Ok(d) => Some(d),
        Err(_) => None,
    }
}

/// Calls `image::guess_format`: the format of the first signature in the
/// crate's `MAGIC_BYTES` table that the input starts with, and that format's
/// debug name.
#[verifier::external_body]
fn guess_kind(data: &[u8]) -> (r: Option<(ImageKind, String)>)
    ensures
        match r {
            Some((k, n)) => guessed_format(data@) == Some((k, n@)),
            None => guessed_format(data@) is None,
        },
{
    match image::guess_format(data) {
        Ok(image::ImageFormat::Png) => Some((ImageKind::Png, String::from("Png"))),
        Ok(image::ImageFormat::Jpeg) => Some((ImageKind::Jpeg, String::from("Jpeg"))),
        Ok(image::ImageFormat::Gif) => Some((ImageKind::Gif, String::from("Gif"))),
        Ok(image::ImageFormat::WebP) => Some((ImageKind::WebP, String::from("WebP"))),
        Ok(image::ImageFormat::Bmp) => Some((ImageKind::Bmp, String::from("Bmp"))),
        Ok(other) => Some((ImageKind::Other, format!("{other:?}"))),
        Err(_) => None,
    }
}

/// Calls `image::load_from_memory` and `GenericImageView::dimensions`: the
/// dimensions of the named decoding, or the text of its error.
#[verifier::external_body]
fn decode_size(data: &[u8]) -> (r: Result<(u32, u32), String>)
    ensures
        match r {
            Ok(d) => decoding(data@) == Ok::<(u32, u32), Seq<char>>(d),
            Err(t) => decoding(data@) == Err::<(u32, u32), Seq<char>>(t@),
        },
{
    match image::load_from_memory(data) {
        Ok(img) => Ok(img.dimensions()),
        Err(e) => Err(e.to_string()),
    }
}

/// The outcomes a frame iterator yields from now on, in order, up to and
/// including its first decoding error (all of them when none fails): `None`
/// for a decoded frame, `Some(text)` for an error with its text.
pub uninterp spec fn frames_left(f: image::Frames<'_>) -> Seq<Option<Seq<char>>>;

/// What `GifDecoder::new` and `into_frames` give for the data: the frame
/// outcomes of the animation, or the text of the error.
pub uninterp spec fn gif_frame_steps(data: Seq<u8>) -> Result<Seq<Option<Seq<char>>>, Seq<char>>;

/// What `WebPDecoder::new`, `has_animation` and `into_frames` give for the
/// data: whether it is animated and its frame outcomes, or the text of the error.
pub uninterp spec fn webp_frame_steps(data: Seq<u8>) -> Result<(bool, Seq<Option<Seq<char>>>), Seq<char>>;

/// Calls `GifDecoder::new` on a cursor over the data and, when that succeeds,
/// `AnimationDecoder::into_frames` on the decoder (one item because Verus refuses a
/// declaration of the decoder type, whose parameter is bounded by `Read`). The
/// frames are the named frame outcomes of the data, or its error is the named text;
/// decoding depends on the bytes alone, under the crate's fixed default limits.
#[verifier::external_body]
fn gif_frames<'a>(data: &'a [u8]) -> (r: Result<image::Frames<'a>, String>)
    ensures
        match r {
            Ok(f) => gif_frame_steps(data@) == Ok::<Seq<Option<Seq<char>>>, Seq<char>>(frames_left(f)),
            Err(t) => gif_frame_steps(data@) == Err::<Seq<Option<Seq<char>>>, Seq<char>>(t@),
        },
{
    match image::codecs::gif::GifDecoder::new(std::io::Cursor::new(data)) {
        Ok(d) => Ok(d.into_frames()),
        Err(e) => Err(e.to_string()),
    }
}

/// Calls `WebPDecoder::new` on a cursor over the data and, when that succeeds,
/// `has_animation` and `into_frames` (which reads nothing until a frame is
/// asked for). The flag and the frames are the named ones of the data, or its
/// error is the named text.
#[verifier::external_body]
fn webp_frames<'a>(data: &'a [u8]) -> (r: Result<(bool, image::Frames<'a>), String>)
    ensures
        match r {
            Ok((a, f)) => webp_frame_steps(data@) == Ok::<(bool, Seq<Option<Seq<char>>>), Seq<char>>((a, frames_left(f))),
            Err(t) => webp_frame_steps(data@) == Err::<(bool, Seq<Option<Seq<char>>>), Seq<char>>(t@),
        },
{
    match image::codecs::webp::WebPDecoder::new(std::io::Cursor::new(data)) {
        Ok(d) => {
            let animated = d.has_animation();
            Ok((animated, d.into_frames()))
        }
        Err(e) => Err(e.to_string()),
    }
}

/// Calls `Iterator::next` on the frames: the first remaining outcome, `None`
/// when none remains; after a decoded frame the rest remain.
#[verifier::external_body]
fn next_frame<'a>(frames: &mut image::Frames<'a>) -> (r: Option<Result<(), String>>)
    ensures
        frames_left(*old(frames)).len() == 0 ==> r is None,
        frames_left(*old(frames)).len() > 0 && frames_left(*old(frames))[0] is None
            ==> r == Some(Ok::<(), String>(())) && frames_left(*final(frames)) == frames_left(*old(frames)).drop_first(),
        frames_left(*old(frames)).len() > 0 && frames_left(*old(frames))[0] is Some
            ==> (r matches Some(Err(e)) && e@ == frames_left(*old(frames))[0]->0),
{
    match frames.next() {
        Some(Ok(_)) => Some(Ok(())),
        Some(Err(e)) => Some(Err(e.to_string())),
        None => None,
    }
}

/// Largest accepted width or height.
pub const MAX_DIMENSION: u32 = 20_000;
/// Largest accepted number of frames.
pub const MAX_FRAMES: u32 = 10_000;

/// A fully checked image.
#[derive(Debug, PartialEq, Eq)]
pub struct ValidatedImage {
    pub width: u32,
    pub height: u32,
    pub frame_count: u32,
    pub mime: String,
    pub extension: String,
    pub size: u64,
}

/// Width and height both in `1..=20000`.
pub open spec fn dimensions_ok(w: u32, h: u32) -> bool {
    1 <= w <= MAX_DIMENSION && 1 <= h <= MAX_DIMENSION
}

/// Rejects empty or oversized dimensions.
pub fn check_dimensions(w: u32, h: u32) -> (r: Result<(), ChatVaultError>)
    ensures
        r is Ok <==> dimensions_ok(w, h),
        r matches Err(e) ==> e matches ChatVaultError::WeChatParse(m) && m@ == "invalid_image: 尺寸超出允许范围"@,
{
    if w == 0 || h == 0 || w > MAX_DIMENSION || h > MAX_DIMENSION {
        return Err(ChatVaultError::WeChatParse(msg("invalid_image: 尺寸超出允许范围")));
    }
    Ok(())
}

/// MIME type and extension of an accepted format.
pub open spec fn mime_ext(k: ImageKind) -> Option<(Seq<char>, Seq<char>)> {
    match k {
        ImageKind::Png => Some(("image/png"@, "png"@)),
        ImageKind::Jpeg => Some(("image/jpeg"@, "jpg"@)),
        ImageKind::Gif => Some(("image/gif"@, "gif"@)),
        ImageKind::WebP => Some(("image/webp"@, "webp"@)),
        ImageKind::Bmp => Some(("image/bmp"@, "bmp"@)),
        ImageKind::Other => None,
    }
}

/// MIME type of an accepted format.
pub open spec fn mime_of(k: ImageKind) -> Seq<char> {
    let p = mime_ext(k)->0;
    p.0
}

/// Extension of an accepted format.
pub open spec fn ext_of(k: ImageKind) -> Seq<char> {
    let p = mime_ext(k)->0;
    p.1
}

fn with_prefix(prefix: &str, text: &str) -> (r: String)
    ensures
        r@ == prefix@ + text@,
{
    let mut s = String::from_str(prefix);
    s.append(text);
    s
}

/// The text of the error for an empty or too long animation.
pub open spec fn frame_limit_text() -> Seq<char> {
    "invalid_image: 帧数超限或为空"@
}

/// Counting an animation's frame outcomes with `n` frames already decoded:
/// more than the frame limit is the frame-limit error, a decoding error is
/// reported after `prefix`, and at the end the count (none is the frame-limit
/// error).
pub open spec fn count_outcome(steps: Seq<Option<Seq<char>>>, prefix: Seq<char>, n: nat) -> Result<u32, Seq<char>>
    decreases steps.len(),
{
    if n > MAX_FRAMES {
        Err(frame_limit_text())
    } else if steps.len() == 0 {
        if n == 0 { Err(frame_limit_text()) } else { Ok(n as u32) }
    } else {
        match steps[0] {
            None => count_outcome(steps.drop_first(), prefix, n + 1),
            Some(t) => Err(prefix + t),
        }
    }
}

/// The frame count of an animation's frame outcomes, or the text of its error.
pub open spec fn animation_outcome(steps: Seq<Option<Seq<char>>>, prefix: Seq<char>) -> Result<u32, Seq<char>> {
    count_outcome(steps, prefix, 0)
}

/// `r` is the outcome `o`, errors being payload errors with its text.
pub open spec fn frames_result_is(r: Result<u32, ChatVaultError>, o: Result<u32, Seq<char>>) -> bool {
    match o {
        Ok(n) => r == Ok::<u32, ChatVaultError>(n),
        Err(t) => r matches Err(ChatVaultError::WeChatParse(m)) && m@ == t,
    }
}

/// Counts decoded frames, failing on a decoding error, on no frames, or on more
/// than the frame limit.
fn count_frames<'a>(frames: &mut image::Frames<'a>, error_prefix: &str) -> (r: Result<u32, ChatVaultError>)
    ensures
        frames_result_is(r, animation_outcome(frames_left(*old(frames)), error_prefix@)),
{
    proof { reveal_strlit("invalid_image: 帧数超限或为空"); }
    let ghost all = frames_left(*frames);
    let mut n: u32 = 0;
    loop
        invariant
            n <= MAX_FRAMES,
            all == frames_left(*old(frames)),
            count_outcome(all, error_prefix@, 0) == count_outcome(frames_left(*frames), error_prefix@, n as nat),
        decreases frames_left(*frames).len(),
    {
        match next_frame(frames) {
            Some(Ok(())) => {
                n = n + 1;
                if n > MAX_FRAMES {
                    return Err(ChatVaultError::WeChatParse(msg("invalid_image: 帧数超限或为空")));
                }
            }
            Some(Err(t)) => {
                return Err(ChatVaultError::WeChatParse(with_prefix(error_prefix, t.as_str())));
            }
            None => {
                if n == 0 {
                    return Err(ChatVaultError::WeChatParse(msg("invalid_image: 帧数超限或为空")));
                }
                return Ok(n);
            }
        }
    }
}

} // verus!

verus! {

/// The payload error for a decoding failure: `unsupported_payload` when the
/// decoder's text mentions `format` or `unsupported`, else `invalid_image`.
pub open spec fn decode_error_text(text: Seq<char>) -> Seq<char> {
    if contains_text(text, "format"@) || contains_text(text, "unsupported"@) {
        "unsupported_payload: "@ + text
    } else {
        "invalid_image: "@ + text
    }
}

/// The payload error for a decoding failure, with that text.
fn decode_error(text: &str) -> (r: ChatVaultError)
    ensures
        r matches ChatVaultError::WeChatParse(m) && m@ == decode_error_text(text@),
{
    if contains_str(text, "format") || contains_str(text, "unsupported") {
        ChatVaultError::WeChatParse(with_prefix("unsupported_payload: ", text))
    } else {
        ChatVaultError::WeChatParse(with_prefix("invalid_image: ", text))
    }
}

/// Builds the result from what decoding found: the buffer length, the
/// recognized format, the decoded dimensions and the frame count.
/// A format other than the accepted ones is refused under its debug name.
pub fn finish_validation(
    size: u64,
    kind: ImageKind,
    format_name: &str,
    width: u32,
    height: u32,
    frame_count: u32,
) -> (r: Result<ValidatedImage, ChatVaultError>)
    ensures
        match mime_ext(kind) {
            Some(_) => validated_as(r, width, height, frame_count, kind, size as int),
            None => payload_error_is(r, "unsupported_payload: "@ + format_name@),
        },
{
    let (mime, extension) = match kind {
        ImageKind::Png => (msg("image/png"), msg("png")),
        ImageKind::Jpeg => (msg("image/jpeg"), msg("jpg")),
        ImageKind::Gif => (msg("image/gif"), msg("gif")),
        ImageKind::WebP => (msg("image/webp"), msg("webp")),
        ImageKind::Bmp => (msg("image/bmp"), msg("bmp")),
        ImageKind::Other => {
            return Err(ChatVaultError::WeChatParse(with_prefix("unsupported_payload: ", format_name)));
        }
    };
    Ok(ValidatedImage { width, height, frame_count, mime, extension, size })
}

/// The payload error `r` carries the text `t`.
pub open spec fn payload_error_is(r: Result<ValidatedImage, ChatVaultError>, t: Seq<char>) -> bool {
    r matches Err(ChatVaultError::WeChatParse(m)) && m@ == t
}

/// `r` is the image of that size, frame count and format, of `size` bytes.
pub open spec fn validated_as(r: Result<ValidatedImage, ChatVaultError>, w: u32, h: u32, frames: u32, k: ImageKind, size: int) -> bool {
    r matches Ok(v) && {
        &&& v.width == w
        &&& v.height == h
        &&& v.frame_count == frames
        &&& v.mime@ == mime_of(k)
        &&& v.extension@ == ext_of(k)
        &&& v.size == size
    }
}

/// `r` is the image of the counted frames, or the payload error of the count.
pub open spec fn animation_validated(r: Result<ValidatedImage, ChatVaultError>, o: Result<u32, Seq<char>>, w: u32, h: u32, k: ImageKind, size: int) -> bool {
    match o {
        Ok(n) => validated_as(r, w, h, n, k, size),
        Err(t) => payload_error_is(r, t),
    }
}

/// The checks before decoding pass: the buffer is not empty, not a WeChat
/// container, and of a recognized format.
pub open spec fn screened(d: Seq<u8>) -> bool {
    d.len() > 0 && !wxgf_magic(d) && guessed_format(d) is Some
}

/// The buffer is screened and decodes to dimensions within bounds.
pub open spec fn decodes_within_bounds(d: Seq<u8>) -> bool {
    screened(d) && (decoded_size(d) matches Some((w, h)) && dimensions_ok(w, h))
}

/// Fully validates an in-memory image: the standard decoder must decode it
/// strictly, every frame of an animation must decode, and sizes are bounded.
/// A magic-number match is never accepted on its own. Each refusal names its
/// reason: an empty buffer, a WeChat container, an unknown format, a decoding
/// error (its text after `unsupported_payload: ` or `invalid_image: `),
/// dimensions out of bounds, a frame that does not decode, too many or no
/// frames, or a format other than the accepted ones (by its debug name).
/// Which frames an animation's decoder yields is its own affair: for GIF and
/// animated WebP the frame count, or the frame error, is what counting the
/// decoder's frames gave.
pub fn validate_image_bytes(data: &[u8]) -> (r: Result<ValidatedImage, ChatVaultError>)
    requires
        data@.len() <= u64::MAX,
    ensures
        r matches Err(e) ==> e is WeChatParse,
        data@.len() == 0 ==> payload_error_is(r, "invalid_image: 空内容"@),
        data@.len() > 0 && wxgf_magic(data@) ==> payload_error_is(r, "unsupported_payload: WXGF"@),
        data@.len() > 0 && !wxgf_magic(data@) && guessed_format(data@) is None
            ==> payload_error_is(r, "unsupported_payload: 无法识别图片格式"@),
        screened(data@) && (decoding(data@) matches Err(t))
            ==> payload_error_is(r, decode_error_text(decoding(data@)->Err_0)),
        screened(data@) && (decoded_size(data@) matches Some((w, h)) && !dimensions_ok(w, h))
            ==> payload_error_is(r, "invalid_image: 尺寸超出允许范围"@),
        decodes_within_bounds(data@) ==> match (guessed_format(data@), decoded_size(data@)) {
            (Some((k, name)), Some((w, h))) => match k {
                ImageKind::Png | ImageKind::Jpeg | ImageKind::Bmp => validated_as(r, w, h, 1, k, data@.len() as int),
                ImageKind::Other => payload_error_is(r, "unsupported_payload: "@ + name),
                ImageKind::Gif => match gif_frame_steps(data@) {
                    Ok(steps) => animation_validated(r, animation_outcome(steps, "invalid_image: "@), w, h, k, data@.len() as int),
                    Err(t) => payload_error_is(r, "invalid_image: "@ + t),
                },
                ImageKind::WebP => match webp_frame_steps(data@) {
                    Ok((animated, steps)) => if animated {
                        animation_validated(r, animation_outcome(steps, "unsupported_payload: "@), w, h, k, data@.len() as int)
                    } else {
                        validated_as(r, w, h, 1, k, data@.len() as int)
                    },
                    Err(t) => payload_error_is(r, "unsupported_payload: "@ + t),
                },
            },
            _ => true,
        },
{
    if data.len() == 0 {
        return Err(ChatVaultError::WeChatParse(msg("invalid_image: 空内容")));
    }
    if looks_like_wxgf(data) {
        return Err(ChatVaultError::WeChatParse(msg("unsupported_payload: WXGF")));
    }
    let (kind, format_name) = match guess_kind(data) {
        Some((k, n)) => (k, n),
        None => {
            return Err(ChatVaultError::WeChatParse(msg("unsupported_payload: 无法识别图片格式")));
        }
    };
    let (width, height) = match decode_size(data) {
        Ok(d) => d,
        Err(t) => {
            let r = Err(decode_error(t.as_str()));
            assert(payload_error_is(r, decode_error_text(t@)));
            return r;
        }
    };
    match check_dimensions(width, height) {
        Ok(()) => {}
        Err(e) => { return Err(e); }
    }
    let frame_count = match kind {
        ImageKind::Gif => {
            let mut frames = match gif_frames(data) {
                Ok(f) => f,
                Err(t) => { return Err(ChatVaultError::WeChatParse(with_prefix("invalid_image: ", t.as_str()))); }
            };
            match count_frames(&mut frames, "invalid_image: ") {
                Ok(n) => n,
                Err(e) => { return Err(e); }
            }
        }
        ImageKind::WebP => {
            let (animated, mut frames) = match webp_frames(data) {
                Ok(p) => p,
                Err(t) => { return Err(ChatVaultError::WeChatParse(with_prefix("unsupported_payload: ", t.as_str()))); }
            };
            if animated {
                match count_frames(&mut frames, "unsupported_payload: ") {
                    Ok(n) => n,
                    Err(e) => { return Err(e); }
                }
            } else {
                1
            }
        }
        _ => 1,
    };
    finish_validation(data.len() as u64, kind, format_name.as_str(), width, height, frame_count)
}

/// The MIME type suggested for a file extension (compared in lower case);
/// unknown extensions give `application/<extension in lower case>`.
pub open spec fn mime_for_lower(lower: Seq<char>) -> Seq<char> {
    if lower == "jpg"@ || lower == "jpeg"@ { "image/jpeg"@ }
    else if lower == "png"@ { "image/png"@ }
    else if lower == "gif"@ { "image/gif"@ }
    else if lower == "webp"@ { "image/webp"@ }
    else if lower == "bmp"@ { "image/bmp"@ }
    else if lower == "mp4"@ { "video/mp4"@ }
    else if lower == "pdf"@ { "application/pdf"@ }
    else if lower == "txt"@ { "text/plain"@ }
    else if lower == "zip"@ { "application/zip"@ }
    else { "application/"@ + lower }
}

/// The MIME type for an already lower-cased extension.
pub fn mime_from_lower_extension(lower: &str) -> (r: String)
    ensures
        r@ == mime_for_lower(lower@),
{
    if str_eq(lower, "jpg") || str_eq(lower, "jpeg") { msg("image/jpeg") }
    else if str_eq(lower, "png") { msg("image/png") }
    else if str_eq(lower, "gif") { msg("image/gif") }
    else if str_eq(lower, "webp") { msg("image/webp") }
    else if str_eq(lower, "bmp") { msg("image/bmp") }
    else if str_eq(lower, "mp4") { msg("video/mp4") }
    else if str_eq(lower, "pdf") { msg("application/pdf") }
    else if str_eq(lower, "txt") { msg("text/plain") }
    else if str_eq(lower, "zip") { msg("application/zip") }
    else { with_prefix("application/", lower) }
}

/// The MIME type suggested for a file extension.
pub fn mime_from_extension(ext: &str) -> (r: String)
    ensures
        r@ == mime_for_lower(lowercase_of(ext@)),
        is_ascii_text(ext@) ==> r@ == mime_for_lower(ascii_lowercase(ext@)),
{
    let lower = to_lowercase(ext);
    mime_from_lower_extension(lower.as_str())
}

/// The MIME type of an ASCII extension ignores letter case: an extension and
/// its lower-case form get the same type, `jpg` and `JPEG` are JPEG, `PDF` is
/// PDF, and an unknown extension gives `application/` and its lower-case form.
pub proof fn lemma_mime_ignores_ascii_case(e: Seq<char>)
    requires
        is_ascii_text(e),
    ensures
        is_ascii_text(ascii_lowercase(e)),
        mime_for_lower(ascii_lowercase(ascii_lowercase(e))) == mime_for_lower(ascii_lowercase(e)),
        mime_for_lower(ascii_lowercase("jpg"@)) == "image/jpeg"@,
        mime_for_lower(ascii_lowercase("JPEG"@)) == "image/jpeg"@,
        mime_for_lower(ascii_lowercase("PDF"@)) == "application/pdf"@,
{
    lemma_ascii_lowercase_idempotent(e);
    reveal_strlit("jpg");
    reveal_strlit("jpeg");
    reveal_strlit("JPEG");
    reveal_strlit("pdf");
    reveal_strlit("PDF");
    reveal_strlit("png");
    reveal_strlit("gif");
    reveal_strlit("webp");
    reveal_strlit("bmp");
    reveal_strlit("mp4");
    assert(ascii_lowercase("jpg"@) =~= "jpg"@);
    assert(ascii_lowercase("JPEG"@) =~= "jpeg"@);
    assert(ascii_lowercase("PDF"@) =~= "pdf"@);
    assert("pdf"@[0] != "jpg"@[0] && "pdf"@[0] != "gif"@[0] && "pdf"@[0] != "webp"@[0]);
    assert("pdf"@[0] != "bmp"@[0] && "pdf"@[0] != "mp4"@[0] && "pdf"@[1] != "png"@[1]);
    assert("pdf"@.len() != "jpeg"@.len());
}


/// The MIME type of an ASCII extension, whatever its letter case: `jpg` and
/// `jpeg` are JPEG images, `png`, `gif`, `webp` and `bmp` the images of those
/// names, `mp4` video, `pdf` and `zip` those application types, `txt` plain
/// text; any other extension is `application/` followed by it in lower case.
pub proof fn lemma_mime_of_known_extensions(e: Seq<char>)
    requires
        is_ascii_text(e),
    ensures
        ({
            let l = ascii_lowercase(e);
            let m = mime_for_lower(l);
            &&& (l == seq!['j', 'p', 'g'] || l == seq!['j', 'p', 'e', 'g']) ==> m == "image/jpeg"@
            &&& l == seq!['p', 'n', 'g'] ==> m == "image/png"@
            &&& l == seq!['g', 'i', 'f'] ==> m == "image/gif"@
            &&& l == seq!['w', 'e', 'b', 'p'] ==> m == "image/webp"@
            &&& l == seq!['b', 'm', 'p'] ==> m == "image/bmp"@
            &&& l == seq!['m', 'p', '4'] ==> m == "video/mp4"@
            &&& l == seq!['p', 'd', 'f'] ==> m == "application/pdf"@
            &&& l == seq!['t', 'x', 't'] ==> m == "text/plain"@
            &&& l == seq!['z', 'i', 'p'] ==> m == "application/zip"@
            &&& (l != seq!['j', 'p', 'g'] && l != seq!['j', 'p', 'e', 'g'] && l != seq!['p', 'n', 'g']
                && l != seq!['g', 'i', 'f'] && l != seq!['w', 'e', 'b', 'p'] && l != seq!['b', 'm', 'p']
                && l != seq!['m', 'p', '4'] && l != seq!['p', 'd', 'f'] && l != seq!['t', 'x', 't']
                && l != seq!['z', 'i', 'p']) ==> m == "application/"@ + l
        }),
{
    reveal_strlit("jpg");
    reveal_strlit("jpeg");
    reveal_strlit("png");
    reveal_strlit("gif");
    reveal_strlit("webp");
    reveal_strlit("bmp");
    reveal_strlit("mp4");
    reveal_strlit("pdf");
    reveal_strlit("txt");
    reveal_strlit("zip");
    assert("jpg"@ =~= seq!['j', 'p', 'g']);
    assert("jpeg"@ =~= seq!['j', 'p', 'e', 'g']);
    assert("png"@ =~= seq!['p', 'n', 'g']);
    assert("gif"@ =~= seq!['g', 'i', 'f']);
    assert("webp"@ =~= seq!['w', 'e', 'b', 'p']);
    assert("bmp"@ =~= seq!['b', 'm', 'p']);
    assert("mp4"@ =~= seq!['m', 'p', '4']);
    assert("pdf"@ =~= seq!['p', 'd', 'f']);
    assert("txt"@ =~= seq!['t', 'x', 't']);
    assert("zip"@ =~= seq!['z', 'i', 'p']);
}

} // verus!
