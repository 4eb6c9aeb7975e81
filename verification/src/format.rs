//! The image format that the name of an output file asks for.

use crate::path::{extension, extension_of, lemma_extension_of_suffixed};
use crate::text::same_text;
use vstd::prelude::*;

verus! {

/// The encodings a screenshot can be written in.
#[derive(Clone, Copy, Debug, PartialEq, Eq, Structural)]
pub enum ImageFormat {
    Png,
    Jpeg,
    Webp,
}

/// The format that an extension stands for: `jpg` and `jpeg` for JPEG, `webp`
/// for WebP, and PNG for every other extension and for none.
pub open spec fn format_of_extension(extension: Option<Seq<char>>) -> ImageFormat {
    match extension {
        Some(e) => if e == "jpg"@ || e == "jpeg"@ {
            ImageFormat::Jpeg
        } else if e == "webp"@ {
            ImageFormat::Webp
        } else {
            ImageFormat::Png
        },
        None => ImageFormat::Png,
    }
}

/// The format in which the file at `path` is written.
pub open spec fn image_format_of(path: Seq<char>) -> ImageFormat {
    format_of_extension(extension_of(path))
}

impl ImageFormat {
    /// The format that the extension `extension` stands for.
    pub fn from_extension(extension: &str) -> (format: ImageFormat)
        ensures
            format == format_of_extension(Some(extension@)),
    {
        if same_text(extension, "jpg") || same_text(extension, "jpeg") {
            ImageFormat::Jpeg
        } else if same_text(extension, "webp") {
            ImageFormat::Webp
        } else {
            ImageFormat::Png
        }
    }
}

/// The format in which a screenshot is written to `path`, by the extension
/// of its file name.
pub fn image_type_from_file_name(path: &str) -> (format: ImageFormat)
    ensures
        format == image_format_of(path@),
{
    match extension(path) {
        Some(e) => ImageFormat::from_extension(e),
        None => ImageFormat::Png,
    }
}

/// Every path that ends in `.jpg`, `.jpeg`, `.webp` or `.png` is written as
/// JPEG, JPEG, WebP and PNG.
pub proof fn lemma_format_by_suffix(stem: Seq<char>)
    ensures
        image_format_of(stem + ".jpg"@) == ImageFormat::Jpeg,
        image_format_of(stem + ".jpeg"@) == ImageFormat::Jpeg,
        image_format_of(stem + ".webp"@) == ImageFormat::Webp,
        image_format_of(stem + ".png"@) == ImageFormat::Png,
{
    reveal_strlit(".jpg");
    reveal_strlit(".jpeg");
    reveal_strlit(".webp");
    reveal_strlit(".png");
    reveal_strlit("jpg");
    reveal_strlit("jpeg");
    reveal_strlit("webp");
    let dot = seq!['.'];
    let png = seq!['p', 'n', 'g'];
    assert(stem + ".jpg"@ =~= stem + dot + "jpg"@);
    assert(stem + ".jpeg"@ =~= stem + dot + "jpeg"@);
    assert(stem + ".webp"@ =~= stem + dot + "webp"@);
    assert(stem + ".png"@ =~= stem + dot + png);
    lemma_extension_of_suffixed(stem, "jpg"@);
    lemma_extension_of_suffixed(stem, "jpeg"@);
    lemma_extension_of_suffixed(stem, "webp"@);
    lemma_extension_of_suffixed(stem, png);
    assert(png[0] != "jpg"@[0] && png[0] != "jpeg"@[0] && png[0] != "webp"@[0]);
}

} // verus!
