//! The content probe and the re-encoding of image data into a target format.

use vstd::prelude::*;

verus! {

/// The output encodings offered.
#[derive(Clone, Copy, Debug, PartialEq, Eq)]
pub enum TargetFormat {
    Png,
    Jpeg,
    WebP,
}

/// Why a conversion did not produce output.
#[derive(Clone, Copy, Debug, PartialEq, Eq)]
pub enum ConvertError {
    /// The requested target format is not one of those offered.
    UnsupportedFormat,
    /// The input does not decode as an image.
    Decode,
    /// The decoded image could not be encoded in the target format.
    Encode,
}

/// The target format that a format name selects, matched case-sensitively:
/// `png`, `jpg` or `jpeg`, `webp`.
pub open spec fn format_of(name: Seq<char>) -> Option<TargetFormat> {
    if name == seq!['p', 'n', 'g'] {
        Some(TargetFormat::Png)
    } else if name == seq!['j', 'p', 'g'] || name == seq!['j', 'p', 'e', 'g'] {
        Some(TargetFormat::Jpeg)
    } else if name == seq!['w', 'e', 'b', 'p'] {
        Some(TargetFormat::WebP)
    } else {
        None
    }
}

/// Whether `image::load_from_memory` decodes these bytes, the format being
/// recognised from their content.
pub uninterp spec fn decodes_as_image(bytes: Seq<u8>) -> bool;

#[verifier::external_type_specification]
#[verifier::external_body]
pub struct ExImageError(image::ImageError);

/// Relies on `image::load_from_memory`: it guesses the format from the
/// leading bytes and decodes the whole image, so its success depends on the
/// bytes alone.
#[verifier::external_body]
fn decode_image(bytes: &[u8]) -> (r: bool)
    ensures
        r == decodes_as_image(bytes@),
{
    image::load_from_memory(bytes).is_ok()
}

/// The bytes that `image::load_from_memory` followed by
/// `DynamicImage::write_to` into a memory buffer give for these bytes and
/// this format, or `None` where either fails.
pub uninterp spec fn reencoded(bytes: Seq<u8>, format: TargetFormat) -> Option<Seq<u8>>;

/// Relies on `image::load_from_memory` and `DynamicImage::write_to`: the
/// bytes are decoded, the format being recognised from their content, and
/// the image is encoded in the given format into an in-memory buffer. Both
/// steps depend on their inputs alone, and the output exists only where the
/// decoding succeeded.
#[verifier::external_body]
fn reencode(bytes: &[u8], format: TargetFormat) -> (r: Result<Vec<u8>, image::ImageError>)
    ensures
        r is Ok <==> reencoded(bytes@, format) is Some,
        r is Ok ==> reencoded(bytes@, format) == Some(r->Ok_0@),
        r is Ok ==> decodes_as_image(bytes@),
{
    let format = match format {
        TargetFormat::Png => image::ImageFormat::Png,
        TargetFormat::Jpeg => image::ImageFormat::Jpeg,
        TargetFormat::WebP => image::ImageFormat::WebP,
    };
    let img = image::load_from_memory(bytes)?;
    let mut out = std::io::Cursor::new(Vec::new());
    img.write_to(&mut out, format)?;
    Ok(out.into_inner())
}

/// Whether two texts are equal.
fn text_equals(s: &str, t: &str) -> (r: bool)
    ensures
        r == (s@ == t@),
{
    let n = s.unicode_len();
    if n != t.unicode_len() {
        return false;
    }
    let mut i: usize = 0;
    while i < n
        invariant
            n == s@.len(),
            n == t@.len(),
            i <= n,
            forall|j: int| 0 <= j < i ==> s@[j] == t@[j],
        decreases n - i,
    {
        if s.get_char(i) != t.get_char(i) {
            return false;
        }
        i = i + 1;
    }
    assert(s@ =~= t@);
    true
}

/// The target format that a name selects, or `None` for any other name.
pub fn parse_target_format(name: &str) -> (r: Option<TargetFormat>)
    ensures
        r == format_of(name@),
{
    proof {
        reveal_strlit("png");
        reveal_strlit("jpg");
        reveal_strlit("jpeg");
        reveal_strlit("webp");
        assert("png"@ =~= seq!['p', 'n', 'g']);
        assert("jpg"@ =~= seq!['j', 'p', 'g']);
        assert("jpeg"@ =~= seq!['j', 'p', 'e', 'g']);
        assert("webp"@ =~= seq!['w', 'e', 'b', 'p']);
    }
    if text_equals(name, "png") {
        Some(TargetFormat::Png)
    } else if text_equals(name, "jpg") || text_equals(name, "jpeg") {
        Some(TargetFormat::Jpeg)
    } else if text_equals(name, "webp") {
        Some(TargetFormat::WebP)
    } else {
        None
    }
}

/// Whether the contents of a file are an image: true exactly when they
/// decode, whatever the file is called.
pub fn is_image_file(contents: &[u8]) -> (r: bool)
    ensures
        r == decodes_as_image(contents@),
{
    decode_image(contents)
}

/// Decodes `input` and re-encodes it in the format that `new_postfix`
/// names. An unknown format name fails before anything is decoded.
pub fn convert_image_format(input: &[u8], new_postfix: &str) -> (r: Result<Vec<u8>, ConvertError>)
    ensures
        format_of(new_postfix@) is None <==> r == Err::<Vec<u8>, ConvertError>(
            ConvertError::UnsupportedFormat,
        ),
        format_of(new_postfix@) is Some && !decodes_as_image(input@) <==> r == Err::<
            Vec<u8>,
            ConvertError,
        >(ConvertError::Decode),
        format_of(new_postfix@) is Some && decodes_as_image(input@) ==> {
            &&& r is Ok <==> reencoded(input@, format_of(new_postfix@)->0) is Some
            &&& r is Err ==> r == Err::<Vec<u8>, ConvertError>(ConvertError::Encode)
        },
        r is Ok ==> reencoded(input@, format_of(new_postfix@)->0) == Some(r->Ok_0@),
{
    let format = match parse_target_format(new_postfix) {
        Some(f) => f,
        None => return Err(ConvertError::UnsupportedFormat),
    };
    if !is_image_file(input) {
        return Err(ConvertError::Decode);
    }
    match reencode(input, format) {
        Ok(bytes) => Ok(bytes),
        Err(_) => Err(ConvertError::Encode),
    }
}

} // verus!
