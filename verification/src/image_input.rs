//! Images taken from the clipboard, normalized to PNG.

use vstd::prelude::*;
use vstd::string::*;

use crate::text::{ascii_lower, chars_of, to_ascii_lower};

verus! {

/// Where the uploaded image came from.
#[derive(Debug, Clone, Copy, PartialEq, Eq, Structural)]
pub enum ImageSource {
    ClipboardImage,
    CopiedFile,
}

/// An image ready to upload.
#[derive(Debug, Clone)]
pub struct CapturedImage {
    pub png_bytes: Vec<u8>,
    pub source: ImageSource,
}

#[verifier::external_type_specification]
#[verifier::external_body]
pub struct ExImageError(image::ImageError);

/// Why no image could be taken.
#[derive(Debug)]
pub enum ImageInputError {
    /// The copied file is neither PNG nor JPEG.
    UnsupportedFileType,
    /// More than one file is copied.
    MultipleFiles,
    /// The copied file could not be decoded in the format its extension names.
    Decode(image::ImageError),
    /// The clipboard's pixel buffer does not hold exactly four bytes per pixel.
    BufferSizeMismatch,
    /// The image could not be encoded as PNG.
    Encode(image::ImageError),
    /// Clipboard capture is not available on this platform.
    UnsupportedPlatform,
}

impl ImageSource {
    /// How notifications name the source.
    pub fn label(&self) -> (s: &'static str)
        ensures
            s@ == match *self {
                ImageSource::ClipboardImage => "clipboard image"@,
                ImageSource::CopiedFile => "copied file"@,
            },
    {
        match self {
            ImageSource::ClipboardImage => "clipboard image",
            ImageSource::CopiedFile => "copied file",
        }
    }
}

impl ImageInputError {
    /// The message of the error; `None` for a decoding or encoding error,
    /// which carries its own.
    pub fn fixed_message(&self) -> (m: Option<String>)
        ensures
            match *self {
                ImageInputError::UnsupportedFileType => m matches Some(s) && s@
                    == "unsupported copied file type; only PNG and JPEG are accepted"@,
                ImageInputError::MultipleFiles => m matches Some(s) && s@
                    == "multiple copied files are not supported"@,
                ImageInputError::BufferSizeMismatch => m matches Some(s) && s@
                    == "clipboard image buffer has an unexpected size"@,
                ImageInputError::Decode(_) => m is None,
                ImageInputError::Encode(_) => m is None,
                ImageInputError::UnsupportedPlatform => m matches Some(s) && s@
                    == "clipboard upload is only supported on Windows in this MVP"@,
            },
    {
        match self {
            ImageInputError::UnsupportedFileType => Some(
                String::from_str("unsupported copied file type; only PNG and JPEG are accepted"),
            ),
            ImageInputError::MultipleFiles => Some(
                String::from_str("multiple copied files are not supported"),
            ),
            ImageInputError::BufferSizeMismatch => Some(
                String::from_str("clipboard image buffer has an unexpected size"),
            ),
            ImageInputError::Decode(_) => None,
            ImageInputError::Encode(_) => None,
            ImageInputError::UnsupportedPlatform => Some(
                String::from_str("clipboard upload is only supported on Windows in this MVP"),
            ),
        }
    }
}

/// The encoding of a copied file, as its extension names it.
#[derive(Debug, Clone, Copy, PartialEq, Eq, Structural)]
pub enum CopiedFormat {
    Png,
    Jpeg,
}

/// The format that an extension names, in any ASCII case: `png`, or `jpg`
/// and `jpeg`.
pub open spec fn copied_format(ext: Seq<char>) -> Option<CopiedFormat> {
    let lower = ext.map_values(|c: char| ascii_lower(c));
    if lower =~= seq!['p', 'n', 'g'] {
        Some(CopiedFormat::Png)
    } else if lower =~= seq!['j', 'p', 'g'] || lower =~= seq!['j', 'p', 'e', 'g'] {
        Some(CopiedFormat::Jpeg)
    } else {
        None
    }
}

/// The file extensions accepted for a copied file.
pub open spec fn is_supported_extension(ext: Seq<char>) -> bool {
    copied_format(ext) is Some
}

/// Accepts a copied file by its extension (empty when it has none) before
/// anything is decoded: PNG and JPEG only.
pub fn check_copied_file_extension(extension: &str) -> (r: Result<CopiedFormat, ImageInputError>)
    ensures
        r is Ok <==> is_supported_extension(extension@),
        r matches Ok(f) ==> copied_format(extension@) == Some(f),
        r matches Err(e) ==> e is UnsupportedFileType,
{
    let chars = chars_of(extension);
    let mut lower: Vec<char> = Vec::new();
    let mut i: usize = 0;
    while i < chars.len()
        invariant
            i <= chars.len(),
            chars@ == extension@,
            lower@ == chars@.take(i as int).map_values(|c: char| ascii_lower(c)),
        decreases chars.len() - i,
    {
        lower.push(to_ascii_lower(chars[i]));
        proof {
            assert(chars@.take(i + 1).map_values(|c: char| ascii_lower(c)) =~= chars@.take(
                i as int,
            ).map_values(|c: char| ascii_lower(c)).push(ascii_lower(chars@[i as int])));
        }
        i = i + 1;
    }
    proof {
        assert(chars@.take(chars@.len() as int) =~= chars@);
    }
    let n = lower.len();
    let png = n == 3 && lower[0] == 'p' && lower[1] == 'n' && lower[2] == 'g';
    let jpeg = (n == 3 && lower[0] == 'j' && lower[1] == 'p' && lower[2] == 'g') || (n == 4
        && lower[0] == 'j' && lower[1] == 'p' && lower[2] == 'e' && lower[3] == 'g');
    proof {
        let l = lower@;
        if l =~= seq!['p', 'n', 'g'] {
            assert(l[0] == 'p' && l[1] == 'n' && l[2] == 'g');
        }
        if png {
            assert(l =~= seq!['p', 'n', 'g']);
        }
        if l =~= seq!['j', 'p', 'g'] {
            assert(l[0] == 'j' && l[1] == 'p' && l[2] == 'g');
        }
        if l =~= seq!['j', 'p', 'e', 'g'] {
            assert(l[0] == 'j' && l[1] == 'p' && l[2] == 'e' && l[3] == 'g');
        }
        if jpeg && n == 3 {
            assert(l =~= seq!['j', 'p', 'g']);
        }
        if jpeg && n == 4 {
            assert(l =~= seq!['j', 'p', 'e', 'g']);
        }
    }
    if png {
        Ok(CopiedFormat::Png)
    } else if jpeg {
        Ok(CopiedFormat::Jpeg)
    } else {
        Err(ImageInputError::UnsupportedFileType)
    }
}

/// The eight bytes that every PNG file starts with.
pub open spec fn png_signature() -> Seq<u8> {
    seq![137u8, 80u8, 78u8, 71u8, 13u8, 10u8, 26u8, 10u8]
}

/// Bytes that start with the PNG signature.
pub open spec fn starts_as_png(bytes: Seq<u8>) -> bool {
    bytes.len() >= 8 && bytes.take(8) == png_signature()
}

/// Names whether `image::load_from_memory_with_format` decodes the contents
/// in the given format.
pub uninterp spec fn decodes_as(contents: Seq<u8>, format: CopiedFormat) -> bool;

/// Names the PNG that the `image` crate makes of PNG contents: decoded (PNG
/// decoding is lossless) and encoded again; `None` when either step fails.
pub uninterp spec fn png_reencoding(contents: Seq<u8>) -> Option<Seq<u8>>;

/// `image::load_from_memory_with_format` in the given format (as
/// `image::open` decodes a file by its extension), then
/// `DynamicImage::write_to` in PNG, whose encoder writes the PNG signature
/// first. The decoding error comes exactly when the contents do not decode in
/// that format (named). For PNG contents the result is named; for JPEG
/// contents which pixels come out is left unsaid, since the JPEG decoder
/// chooses its code paths by the machine it runs on.
#[verifier::external_body]
fn transcode_to_png(contents: &[u8], format: CopiedFormat) -> (r: Result<Vec<u8>, ImageInputError>)
    ensures
        match r {
            Ok(png) => starts_as_png(png@) && decodes_as(contents@, format),
            Err(e) => (e is Decode <==> !decodes_as(contents@, format)) && (e is Decode
                || e is Encode),
        },
        format == CopiedFormat::Png ==> match png_reencoding(contents@) {
            Some(p) => r matches Ok(png) && png@ == p,
            None => r is Err,
        },
{
    let image_format = match format {
        CopiedFormat::Png => image::ImageFormat::Png,
        CopiedFormat::Jpeg => image::ImageFormat::Jpeg,
    };
    let decoded = match image::load_from_memory_with_format(contents, image_format) {
        Ok(decoded) => decoded,
        Err(e) => return Err(ImageInputError::Decode(e)),
    };
    let mut out = std::io::Cursor::new(Vec::new());
    match decoded.write_to(&mut out, image::ImageFormat::Png) {
        Ok(()) => Ok(out.into_inner()),
        Err(e) => Err(ImageInputError::Encode(e)),
    }
}

/// The contents of a copied file, in the format that its extension names,
/// normalized to PNG; contents that do not decode in that format are refused
/// with the decoding error, and an image that does not encode with the
/// encoding error.
pub fn copied_file_to_png(format: CopiedFormat, contents: &[u8]) -> (r: Result<
    CapturedImage,
    ImageInputError,
>)
    ensures
        match r {
            Ok(c) => c.source == ImageSource::CopiedFile && starts_as_png(c.png_bytes@)
                && decodes_as(contents@, format),
            Err(e) => (e is Decode <==> !decodes_as(contents@, format)) && (e is Decode
                || e is Encode),
        },
        format == CopiedFormat::Png ==> match png_reencoding(contents@) {
            Some(p) => r matches Ok(c) && c.png_bytes@ == p,
            None => r is Err,
        },
{
    match transcode_to_png(contents, format) {
        Ok(png_bytes) => Ok(CapturedImage { png_bytes, source: ImageSource::CopiedFile }),
        Err(e) => Err(e),
    }
}

/// What the clipboard's list of copied files gives.
#[derive(Debug, Clone, Copy, PartialEq, Eq, Structural)]
pub enum CopiedFiles {
    /// No file is copied: take the clipboard image instead.
    NoFile,
    /// One file is copied: upload it.
    OneFile,
}

/// Decides on the number of copied files: none means the clipboard image,
/// one is uploaded, and more than one is refused.
pub fn copied_file_count(count: u32) -> (r: Result<CopiedFiles, ImageInputError>)
    ensures
        count == 0 ==> r matches Ok(CopiedFiles::NoFile),
        count == 1 ==> r matches Ok(CopiedFiles::OneFile),
        count > 1 ==> r matches Err(ImageInputError::MultipleFiles),
{
    if count == 0 {
        Ok(CopiedFiles::NoFile)
    } else if count == 1 {
        Ok(CopiedFiles::OneFile)
    } else {
        Err(ImageInputError::MultipleFiles)
    }
}

/// Names the PNG encoding of an RGBA image by the `image` crate.
pub uninterp spec fn png_encoding(width: u32, height: u32, rgba: Seq<u8>) -> Option<Seq<u8>>;

/// `image::RgbaImage::from_raw` on a buffer of exactly four bytes per pixel
/// (so it gives an image, and the PNG encoder gets the length it asserts),
/// then `DynamicImage::write_to` in PNG, whose encoder writes the PNG
/// signature first: the result is named, and the failure is the crate's error.
#[verifier::external_body]
fn encode_rgba_png(width: u32, height: u32, rgba: Vec<u8>) -> (r: Result<Vec<u8>, image::ImageError>)
    requires
        4 * (width as int) * (height as int) == rgba@.len(),
    ensures
        match r {
            Ok(png) => png_encoding(width, height, rgba@) == Some(png@) && starts_as_png(png@),
            Err(_) => png_encoding(width, height, rgba@) is None,
        },
{
    let img = image::RgbaImage::from_raw(width, height, rgba).expect("a buffer that fits exactly");
    let mut out = std::io::Cursor::new(Vec::new());
    match image::DynamicImage::ImageRgba8(img).write_to(&mut out, image::ImageFormat::Png) {
        Ok(()) => Ok(out.into_inner()),
        Err(e) => Err(e),
    }
}

/// The clipboard image (its size as the clipboard reports it, and its RGBA
/// pixels) as PNG. The size is truncated to 32 bits, and a buffer that does
/// not hold exactly four bytes per pixel is refused.
pub fn clipboard_image_to_png(width: usize, height: usize, rgba: Vec<u8>) -> (r: Result<
    CapturedImage,
    ImageInputError,
>)
    ensures
        ({
            let w = #[verifier::truncate] (width as u32);
            let h = #[verifier::truncate] (height as u32);
            if 4 * (w as int) * (h as int) != rgba@.len() {
                r matches Err(ImageInputError::BufferSizeMismatch)
            } else {
                match png_encoding(w, h, rgba@) {
                    Some(png) => r matches Ok(c) && c.png_bytes@ == png && starts_as_png(png)
                        && c.source == ImageSource::ClipboardImage,
                    None => r matches Err(ImageInputError::Encode(_)),
                }
            }
        }),
{
    let w: u32 = #[verifier::truncate] (width as u32);
    let h: u32 = #[verifier::truncate] (height as u32);
    proof {
        assert((w as int) * (h as int) <= 0xffff_ffff * 0xffff_ffff) by (nonlinear_arith)
            requires
                w <= 0xffff_ffff,
                h <= 0xffff_ffff,
        ;
    }
    let pixels: u128 = (w as u128) * (h as u128);
    let fits = 4 * pixels == rgba.len() as u128;
    proof {
        assert(4 * (w as int) * (h as int) == 4 * (pixels as int)) by (nonlinear_arith)
            requires
                pixels as int == (w as int) * (h as int),
        ;
    }
    if !fits {
        return Err(ImageInputError::BufferSizeMismatch);
    }
    match encode_rgba_png(w, h, rgba) {
        Ok(png_bytes) => Ok(CapturedImage { png_bytes, source: ImageSource::ClipboardImage }),
        Err(e) => Err(ImageInputError::Encode(e)),
    }
}

/// The accepted extensions do not depend on ASCII case: an extension names
/// the format that its lower-case form names, and `png`, `jpg` and `jpeg`
/// name PNG, JPEG and JPEG.
pub proof fn lemma_extension_case_ignored(ext: Seq<char>)
    ensures
        copied_format(ext) == copied_format(ext.map_values(|c: char| ascii_lower(c))),
        copied_format(seq!['p', 'n', 'g']) == Some(CopiedFormat::Png),
        copied_format(seq!['j', 'p', 'g']) == Some(CopiedFormat::Jpeg),
        copied_format(seq!['j', 'p', 'e', 'g']) == Some(CopiedFormat::Jpeg),
{
    let lower = ext.map_values(|c: char| ascii_lower(c));
    assert(lower.map_values(|c: char| ascii_lower(c)) =~= lower);
    assert(seq!['p', 'n', 'g'].map_values(|c: char| ascii_lower(c)) =~= seq!['p', 'n', 'g']);
    assert(seq!['j', 'p', 'g'].map_values(|c: char| ascii_lower(c)) =~= seq!['j', 'p', 'g']);
    assert(seq!['j', 'p', 'e', 'g'].map_values(|c: char| ascii_lower(c)) =~= seq![
        'j',
        'p',
        'e',
        'g',
    ]);
}

} // verus!
