use chatvault::category::{category_condition, determine_category};
use chatvault::image_check::{
    check_dimensions, looks_like_standard_image, looks_like_wxgf, mime_from_extension,
    validate_image_bytes,
};

fn minimal_png() -> Vec<u8> {
    let img = image::RgbImage::from_pixel(1, 1, image::Rgb([255, 0, 0]));
    let mut buf = std::io::Cursor::new(Vec::new());
    image::DynamicImage::ImageRgb8(img)
        .write_to(&mut buf, image::ImageFormat::Png)
        .unwrap();
    buf.into_inner()
}

#[test]
fn validates_minimal_png() {
    let png = minimal_png();
    let result = validate_image_bytes(&png).unwrap();
    assert_eq!(result.width, 1);
    assert_eq!(result.height, 1);
    assert_eq!(result.extension, "png");
    assert_eq!(result.mime, "image/png");
    assert_eq!(result.frame_count, 1);
    assert_eq!(result.size, png.len() as u64);
}

#[test]
fn rejects_empty() {
    assert!(validate_image_bytes(&[]).is_err());
}

#[test]
fn early_refusals_name_their_reason() {
    assert_eq!(validate_image_bytes(&[]).unwrap_err().message(), "invalid_image: 空内容");
    assert_eq!(validate_image_bytes(b"WXGF\x00\x00\x00\x00\x00\x00\x00\x00").unwrap_err().message(), "unsupported_payload: WXGF");
    assert_eq!(
        validate_image_bytes(b"plain text, not an image").unwrap_err().message(),
        "unsupported_payload: 无法识别图片格式"
    );
}

#[test]
fn rejects_wxgf() {
    let data = b"WXGF\x00\x00\x00\x00\x00\x00\x00\x00";
    let err = validate_image_bytes(data).unwrap_err();
    assert!(err.message().contains("unsupported_payload"));
}

#[test]
fn rejects_truncated_png() {
    let png = minimal_png();
    let truncated = &png[..png.len() / 2];
    assert!(validate_image_bytes(truncated).is_err());
}

#[test]
fn rejects_truncated_gif_and_webp() {
    let image = image::DynamicImage::ImageRgb8(image::RgbImage::from_pixel(2, 2, image::Rgb([1, 2, 3])));
    let mut gif_buf = std::io::Cursor::new(Vec::new());
    image.write_to(&mut gif_buf, image::ImageFormat::Gif).unwrap();
    let gif = gif_buf.into_inner();
    assert!(validate_image_bytes(&gif[..gif.len().saturating_sub(2)]).is_err());

    let mut webp_buf = std::io::Cursor::new(Vec::new());
    image.write_to(&mut webp_buf, image::ImageFormat::WebP).unwrap();
    let webp = webp_buf.into_inner();
    assert!(validate_image_bytes(&webp[..webp.len().saturating_sub(2)]).is_err());
}

#[test]
fn detects_standard_image_magic() {
    let png = minimal_png();
    assert!(looks_like_standard_image(&png));
    assert!(!looks_like_standard_image(b"not an image at all!!"));
}

#[test]
fn magic_numbers_of_each_format() {
    assert!(looks_like_standard_image(&[0xFF, 0xD8, 0xFF, 0xE0, 0, 0, 0, 0, 0, 0, 0, 0]));
    assert!(!looks_like_standard_image(&[0xFF, 0xD8, 0xFF, 0xE0]));
    assert!(looks_like_standard_image(b"GIF89a......"));
    assert!(looks_like_standard_image(b"BM.........."));
    assert!(looks_like_standard_image(b"RIFF\x00\x00\x00\x00WEBP"));
    assert!(!looks_like_standard_image(b"RIFF\x00\x00\x00\x00WAVE"));
    assert!(looks_like_wxgf(b"WXGF...."));
    assert!(!looks_like_wxgf(b"WXG"));
}

#[test]
fn valid_gif_reports_frames() {
    let image = image::DynamicImage::ImageRgb8(image::RgbImage::from_pixel(2, 3, image::Rgb([1, 2, 3])));
    let mut gif_buf = std::io::Cursor::new(Vec::new());
    image.write_to(&mut gif_buf, image::ImageFormat::Gif).unwrap();
    let result = validate_image_bytes(&gif_buf.into_inner()).unwrap();
    assert_eq!((result.width, result.height), (2, 3));
    assert_eq!(result.mime, "image/gif");
    assert_eq!(result.frame_count, 1);
}

#[test]
fn dimension_limits() {
    assert!(check_dimensions(1, 1).is_ok());
    assert!(check_dimensions(0, 1).is_err());
    assert!(check_dimensions(20_000, 20_000).is_ok());
    assert!(check_dimensions(20_001, 1).is_err());
}

#[test]
fn mime_by_extension() {
    assert_eq!(mime_from_extension("JPG"), "image/jpeg");
    assert_eq!(mime_from_extension("png"), "image/png");
    assert_eq!(mime_from_extension("pdf"), "application/pdf");
    assert_eq!(mime_from_extension("ZZZ"), "application/zzz");
}

#[test]
fn categories() {
    assert_eq!(determine_category("report.PDF"), "doc");
    assert_eq!(determine_category("photo.jpg"), "image");
    assert_eq!(determine_category("noext"), "other");
    assert!(category_condition("all").unwrap().is_none());
    assert!(category_condition("").unwrap().is_none());
    assert!(category_condition("nonsense").is_err());
    let doc = category_condition("doc").unwrap().unwrap();
    assert!(doc.starts_with("(LOWER(r.original_name) LIKE '%."));
    let other = category_condition("other").unwrap().unwrap();
    assert!(other.starts_with("NOT ("));
}

#[test]
fn single_frame_gif_and_webp_validate() {
    let image = image::DynamicImage::ImageRgb8(image::RgbImage::from_pixel(2, 3, image::Rgb([1, 2, 3])));
    let mut gif = std::io::Cursor::new(Vec::new());
    image.write_to(&mut gif, image::ImageFormat::Gif).unwrap();
    let v = validate_image_bytes(&gif.into_inner()).unwrap();
    assert_eq!((v.width, v.height, v.frame_count, v.extension.as_str()), (2, 3, 1, "gif"));
    let mut webp = std::io::Cursor::new(Vec::new());
    image.write_to(&mut webp, image::ImageFormat::WebP).unwrap();
    let v = validate_image_bytes(&webp.into_inner()).unwrap();
    assert_eq!((v.width, v.height, v.frame_count, v.mime.as_str()), (2, 3, 1, "image/webp"));
}

#[test]
fn extension_case_is_ignored() {
    assert_eq!(mime_from_extension("jpg"), "image/jpeg");
    assert_eq!(mime_from_extension("JPEG"), "image/jpeg");
    assert_eq!(mime_from_extension("PDF"), "application/pdf");
    assert_eq!(mime_from_extension("DocX"), "application/docx");
    for e in ["Png", "GIF", "Txt", "ZIP", "Heic"] {
        assert_eq!(mime_from_extension(e), mime_from_extension(&e.to_lowercase()));
    }
}
