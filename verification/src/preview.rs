//! How a response body is previewed, decided by its content type.
use vstd::prelude::*;
use crate::query::{starts_with, starts_with_chars};
use crate::text::{ascii_lower, ascii_lower_chars, chars_eq_str, chars_of, contains, contains_str};

verus! {

/// Raster and vector image formats a preview knows.
#[derive(PartialEq, Eq, Structural, Clone, Copy, Debug)]
pub enum ImageFormat {
    Png,
    Jpeg,
    Gif,
    Webp,
    Bmp,
    Svg,
    Tiff,
    Ico,
}

/// The image format of a (lower-case) content type.
pub open spec fn image_format_of(ct: Seq<char>) -> Option<ImageFormat> {
    if ct == "image/png"@ {
        Some(ImageFormat::Png)
    } else if ct == "image/jpeg"@ || ct == "image/jpg"@ {
        Some(ImageFormat::Jpeg)
    } else if ct == "image/gif"@ {
        Some(ImageFormat::Gif)
    } else if ct == "image/webp"@ {
        Some(ImageFormat::Webp)
    } else if ct == "image/bmp"@ {
        Some(ImageFormat::Bmp)
    } else if ct == "image/svg+xml"@ {
        Some(ImageFormat::Svg)
    } else if ct == "image/tiff"@ {
        Some(ImageFormat::Tiff)
    } else if ct == "image/x-icon"@ || ct == "image/vnd.microsoft.icon"@ {
        Some(ImageFormat::Ico)
    } else {
        None
    }
}

/// The image format of a (lower-case) content type (see `image_format_of`).
pub fn content_type_to_image_format(ct: &str) -> (r: Option<ImageFormat>)
    ensures
        r == image_format_of(ct@),
{
    let c = chars_of(ct);
    if chars_eq_str(&c, "image/png") {
        Some(ImageFormat::Png)
    } else if chars_eq_str(&c, "image/jpeg") || chars_eq_str(&c, "image/jpg") {
        Some(ImageFormat::Jpeg)
    } else if chars_eq_str(&c, "image/gif") {
        Some(ImageFormat::Gif)
    } else if chars_eq_str(&c, "image/webp") {
        Some(ImageFormat::Webp)
    } else if chars_eq_str(&c, "image/bmp") {
        Some(ImageFormat::Bmp)
    } else if chars_eq_str(&c, "image/svg+xml") {
        Some(ImageFormat::Svg)
    } else if chars_eq_str(&c, "image/tiff") {
        Some(ImageFormat::Tiff)
    } else if chars_eq_str(&c, "image/x-icon") || chars_eq_str(&c, "image/vnd.microsoft.icon") {
        Some(ImageFormat::Ico)
    } else {
        None
    }
}

/// How a body is previewed.
#[derive(PartialEq, Eq, Structural, Clone, Copy, Debug)]
pub enum PreviewKind {
    /// A raster image decoded from the body's bytes.
    Image(ImageFormat),
    /// An image that cannot be drawn here: the content type is shown.
    ImagePlaceholder,
    /// SVG, shown as XML source.
    SvgSource,
    /// HTML: a button to open it in the browser, and its source.
    Html,
    /// JSON, as plain text.
    JsonText,
    /// PDF: a button to open it in another program.
    Pdf,
    /// Any other text, shown highlighted (see `response_highlight::build`).
    Text,
}

/// How a body is previewed, from its content type lower-cased (empty when there is none):
/// an image other than SVG is drawn when its bytes are at hand and its format is known, else
/// a placeholder; then SVG, HTML, JSON and PDF each have their view; anything else is text.
/// (Unicode lower-casing yields these ASCII names only from the same ASCII letters, so ASCII
/// lower-casing decides it.)
pub open spec fn preview_kind_of(content_type: Option<Seq<char>>, has_bytes: bool) -> PreviewKind {
    let ct = match content_type {
        Some(c) => ascii_lower(c),
        None => Seq::empty(),
    };
    if starts_with(ct, "image/"@) && ct != "image/svg+xml"@ {
        match image_format_of(ct) {
            Some(f) => if has_bytes {
                PreviewKind::Image(f)
            } else {
                PreviewKind::ImagePlaceholder
            },
            None => PreviewKind::ImagePlaceholder,
        }
    } else if starts_with(ct, "image/svg+xml"@) {
        PreviewKind::SvgSource
    } else if contains(ct, "html"@) {
        PreviewKind::Html
    } else if contains(ct, "json"@) {
        PreviewKind::JsonText
    } else if starts_with(ct, "application/pdf"@) {
        PreviewKind::Pdf
    } else {
        PreviewKind::Text
    }
}

/// How a body is previewed (see `preview_kind_of`); `has_bytes` says whether the body's raw
/// bytes are at hand.
pub fn preview_kind(content_type: Option<&str>, has_bytes: bool) -> (k: PreviewKind)
    ensures
        k == preview_kind_of(
            match content_type {
                Some(c) => Some(c@),
                None => None,
            },
            has_bytes,
        ),
{
    let ct = match content_type {
        Some(c) => ascii_lower_chars(&chars_of(c)),
        None => Vec::new(),
    };
    let ct_text = crate::text::string_from_chars(&ct);
    if starts_with_chars(&ct, "image/") && !chars_eq_str(&ct, "image/svg+xml") {
        match content_type_to_image_format(ct_text.as_str()) {
            Some(f) => if has_bytes {
                PreviewKind::Image(f)
            } else {
                PreviewKind::ImagePlaceholder
            },
            None => PreviewKind::ImagePlaceholder,
        }
    } else if starts_with_chars(&ct, "image/svg+xml") {
        PreviewKind::SvgSource
    } else if contains_str(&ct, "html") {
        PreviewKind::Html
    } else if contains_str(&ct, "json") {
        PreviewKind::JsonText
    } else if starts_with_chars(&ct, "application/pdf") {
        PreviewKind::Pdf
    } else {
        PreviewKind::Text
    }
}

/// The image content types told apart by their seventh character (`image/jpeg` and
/// `image/jpg` by their length).
proof fn lemma_image_names()
    ensures
        "image/png"@.len() == 9 && "image/png"@[6] == 'p',
        "image/jpeg"@.len() == 10 && "image/jpeg"@[6] == 'j',
        "image/jpg"@.len() == 9 && "image/jpg"@[6] == 'j',
        "image/gif"@.len() == 9 && "image/gif"@[6] == 'g',
        "image/webp"@.len() == 10 && "image/webp"@[6] == 'w',
        "image/bmp"@.len() == 9 && "image/bmp"@[6] == 'b',
        "image/svg+xml"@.len() == 13 && "image/svg+xml"@[6] == 's',
        "image/tiff"@.len() == 10 && "image/tiff"@[6] == 't',
        "image/x-icon"@.len() == 12 && "image/x-icon"@[6] == 'x',
        "image/vnd.microsoft.icon"@.len() == 24 && "image/vnd.microsoft.icon"@[6] == 'v',
        forall|k: int| 0 <= k < 6 ==> "image/png"@[k] == "image/"@[k] && "image/jpeg"@[k] == "image/"@[k]
            && "image/jpg"@[k] == "image/"@[k] && "image/gif"@[k] == "image/"@[k] && "image/webp"@[k]
            == "image/"@[k] && "image/bmp"@[k] == "image/"@[k] && "image/svg+xml"@[k] == "image/"@[k]
            && "image/tiff"@[k] == "image/"@[k] && "image/x-icon"@[k] == "image/"@[k]
            && "image/vnd.microsoft.icon"@[k] == "image/"@[k],
        "image/"@.len() == 6,
{
    reveal_strlit("image/png");
    reveal_strlit("image/jpeg");
    reveal_strlit("image/jpg");
    reveal_strlit("image/gif");
    reveal_strlit("image/webp");
    reveal_strlit("image/bmp");
    reveal_strlit("image/svg+xml");
    reveal_strlit("image/tiff");
    reveal_strlit("image/x-icon");
    reveal_strlit("image/vnd.microsoft.icon");
    reveal_strlit("image/");
}

/// Law: each image format is known by its standard content types: `image/png`, `image/jpeg`
/// (and `image/jpg`), `image/gif`, `image/webp`, `image/bmp`, `image/svg+xml`, `image/tiff`,
/// `image/x-icon` (and `image/vnd.microsoft.icon`); and a content type is read as a format only
/// when it is one of that format's names.
pub proof fn law_image_format_names(f: ImageFormat, ct: Seq<char>)
    ensures
        image_format_of(
            match f {
                ImageFormat::Png => "image/png"@,
                ImageFormat::Jpeg => "image/jpeg"@,
                ImageFormat::Gif => "image/gif"@,
                ImageFormat::Webp => "image/webp"@,
                ImageFormat::Bmp => "image/bmp"@,
                ImageFormat::Svg => "image/svg+xml"@,
                ImageFormat::Tiff => "image/tiff"@,
                ImageFormat::Ico => "image/x-icon"@,
            },
        ) == Some(f),
        image_format_of("image/jpg"@) == Some(ImageFormat::Jpeg),
        image_format_of("image/vnd.microsoft.icon"@) == Some(ImageFormat::Ico),
        image_format_of(ct) is Some ==> starts_with(ct, "image/"@),
{
    lemma_image_names();
    reveal_strlit("image/");
    if image_format_of(ct) is Some {
        assert(ct.take(6) =~= "image/"@);
    }
}

/// Law: a response whose content type names a raster image format, in any case, is drawn as
/// that image when its bytes are at hand, and shown as a placeholder when they are not.
pub proof fn law_image_preview(f: ImageFormat, ct: Seq<char>, has_bytes: bool)
    requires
        f != ImageFormat::Svg,
        ascii_lower(ct) == match f {
            ImageFormat::Png => "image/png"@,
            ImageFormat::Jpeg => "image/jpeg"@,
            ImageFormat::Gif => "image/gif"@,
            ImageFormat::Webp => "image/webp"@,
            ImageFormat::Bmp => "image/bmp"@,
            ImageFormat::Svg => "image/svg+xml"@,
            ImageFormat::Tiff => "image/tiff"@,
            ImageFormat::Ico => "image/x-icon"@,
        },
    ensures
        preview_kind_of(Some(ct), has_bytes) == if has_bytes {
            PreviewKind::Image(f)
        } else {
            PreviewKind::ImagePlaceholder
        },
{
    law_image_format_names(f, ascii_lower(ct));
    lemma_image_names();
    let l = ascii_lower(ct);
    assert(starts_with(l, "image/"@)) by {
        assert(l.take(6) =~= "image/"@);
    }
}

} // verus!
