use apipost_ui::preview::{content_type_to_image_format, preview_kind, ImageFormat, PreviewKind};

#[test]
fn image_formats() {
    assert_eq!(content_type_to_image_format("image/png"), Some(ImageFormat::Png));
    assert_eq!(content_type_to_image_format("image/jpg"), Some(ImageFormat::Jpeg));
    assert_eq!(content_type_to_image_format("image/vnd.microsoft.icon"), Some(ImageFormat::Ico));
    assert_eq!(content_type_to_image_format("image/svg+xml"), Some(ImageFormat::Svg));
    assert_eq!(content_type_to_image_format("image/PNG"), None);
    assert_eq!(content_type_to_image_format("image/avif"), None);
}

#[test]
fn preview_kinds() {
    assert_eq!(preview_kind(Some("Image/PNG"), true), PreviewKind::Image(ImageFormat::Png));
    assert_eq!(preview_kind(Some("image/png"), false), PreviewKind::ImagePlaceholder);
    assert_eq!(preview_kind(Some("image/avif"), true), PreviewKind::ImagePlaceholder);
    assert_eq!(preview_kind(Some("image/svg+xml"), true), PreviewKind::SvgSource);
    assert_eq!(preview_kind(Some("text/HTML; charset=utf-8"), true), PreviewKind::Html);
    assert_eq!(preview_kind(Some("application/problem+json"), false), PreviewKind::JsonText);
    assert_eq!(preview_kind(Some("application/pdf"), true), PreviewKind::Pdf);
    assert_eq!(preview_kind(Some("text/plain"), true), PreviewKind::Text);
    assert_eq!(preview_kind(None, true), PreviewKind::Text);
}
