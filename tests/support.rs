use receipt_ocr::cloud::{cloud_text_from_response, vision_request_body, vision_url};
use receipt_ocr::config::{parse_number_or, Config, Secrets};
use receipt_ocr::error::OcrError;
use receipt_ocr::preprocess::{crop_rows, prepare_gray, preprocess_image, GrayPixels};

#[test]
fn request_body_carries_base64_image() {
    let body = vision_request_body(b"abc");
    assert_eq!(
        body,
        "{\"requests\":[{\"image\":{\"content\":\"YWJj\"},\"features\":[{\"type\":\"DOCUMENT_TEXT_DETECTION\"}]}]}"
    );
    let v: serde_json::Value = serde_json::from_str(&body).unwrap();
    assert_eq!(v["requests"][0]["image"]["content"], "YWJj");
}

#[test]
fn request_body_pads_base64() {
    let body = vision_request_body(&[0xff, 0x00]);
    assert!(body.contains("\"content\":\"/wA=\""));
}

#[test]
fn url_appends_key() {
    assert_eq!(vision_url("k1"), "https://vision.googleapis.com/v1/images:annotate?key=k1");
}

#[test]
fn response_text_is_extracted() {
    let body = "{\"responses\":[{\"fullTextAnnotation\":{\"text\":\"Shop\\nTotal 1.00\"}}]}";
    assert_eq!(cloud_text_from_response(body), Ok("Shop\nTotal 1.00".to_string()));
}

#[test]
fn response_without_text_is_a_parse_error() {
    assert_eq!(cloud_text_from_response("{\"responses\":[{}]}"), Err(OcrError::CloudResponseParseError));
    assert_eq!(cloud_text_from_response("not json"), Err(OcrError::CloudResponseParseError));
}

#[test]
fn secrets_blank_key_counts_as_none() {
    assert!(!Secrets::new(None).has_google_vision_api_key());
    assert!(!Secrets::new(Some("   ".to_string())).has_google_vision_api_key());
    let s = Secrets::new(Some("SECRET-REDACTED".to_string()));
    assert!(s.has_google_vision_api_key());
    assert_eq!(s.get_google_vision_api_key(), Some("SECRET-REDACTED".to_string()));
}

#[test]
fn numbers_parse_or_default() {
    assert_eq!(parse_number_or(&Some("8081".to_string()), 8080, 65535), 8081);
    assert_eq!(parse_number_or(&Some("70000".to_string()), 8080, 65535), 8080);
    assert_eq!(parse_number_or(&Some("8x".to_string()), 8080, 65535), 8080);
    assert_eq!(parse_number_or(&None, 5, 100), 5);
}

#[test]
fn config_defaults() {
    let c = Config::from_values(None, None, None, None, "db".to_string(), Some("9".to_string()), None, "s".to_string(), None);
    assert_eq!(c.server.host, "127.0.0.1");
    assert_eq!(c.server.port, 8080);
    assert_eq!(c.server.cors_origin, "http://localhost:3000");
    assert_eq!(c.server.upload_dir, "./uploads");
    assert_eq!(c.database.max_connections, 9);
    assert_eq!(c.database.timeout_secs, 30);
    assert_eq!(c.jwt.expiry_secs, 86400);
}

fn gray(width: u32, height: u32) -> GrayPixels {
    let pixels = (0..width * height).map(|i| (i * 7 % 256) as u8).collect();
    GrayPixels { width, height, pixels }
}

#[test]
fn crop_keeps_whole_rows() {
    let g = gray(3, 4);
    let c = crop_rows(&g, 1, 2);
    assert_eq!(c.height, 2);
    assert_eq!(c.width, 3);
    assert_eq!(c.pixels, g.pixels[3..9].to_vec());
}

#[test]
fn prepared_buffers_are_stretched_crops() {
    let g = GrayPixels { width: 2, height: 10, pixels: vec![10, 50, 125, 200, 250, 100, 60, 190, 0, 255, 120, 130, 140, 150, 160, 170, 180, 30, 40, 45] };
    let p = prepare_gray(&g).unwrap();
    let full = image::load_from_memory(&p.full).unwrap().to_luma8();
    assert_eq!(full.dimensions(), (2, 10));
    let px = full.into_raw();
    assert_eq!(px[0], 0);
    assert_eq!(px[2], 127);
    assert_eq!(px[3], 255);
    let bottom = image::load_from_memory(&p.bottom).unwrap().to_luma8();
    assert_eq!(bottom.dimensions(), (2, 2));
    assert_eq!(bottom.into_raw(), vec![221, 0, 0, 0]);
    let top = image::load_from_memory(&p.top).unwrap().to_luma8();
    assert_eq!(top.dimensions(), (2, 3));
    assert_eq!(top.into_raw()[..4].to_vec(), vec![0, 0, 127, 255]);
}

#[test]
fn undecodable_bytes_are_rejected() {
    assert!(matches!(preprocess_image(b"not an image"), Err(OcrError::ImageDecodeError)));
}

#[test]
fn decodable_png_is_prepared() {
    let img = image::GrayImage::from_raw(4, 10, vec![128; 40]).unwrap();
    let mut png = Vec::new();
    img.write_to(&mut std::io::Cursor::new(&mut png), image::ImageOutputFormat::Png).unwrap();
    let p = preprocess_image(&png).unwrap();
    let full = image::load_from_memory(&p.full).unwrap().to_luma8();
    assert_eq!(full.dimensions(), (4, 10));
    assert_eq!(full.into_raw()[0], 132);
}

#[test]
fn empty_crop_cannot_be_encoded() {
    let g = GrayPixels { width: 2, height: 1, pixels: vec![0, 255] };
    assert!(matches!(prepare_gray(&g), Err(OcrError::ImageEncodeError)));
}

#[test]
fn unicode_blank_key_counts_as_none() {
    assert!(!Secrets::new(Some("\u{3000}\u{a0}".to_string())).has_google_vision_api_key());
}

#[test]
fn bmp_image_is_prepared() {
    let img = image::GrayImage::from_raw(3, 10, vec![200; 30]).unwrap();
    let mut bmp = Vec::new();
    img.write_to(&mut std::io::Cursor::new(&mut bmp), image::ImageOutputFormat::Bmp).unwrap();
    let p = preprocess_image(&bmp).unwrap();
    let bottom = image::load_from_memory(&p.bottom).unwrap().to_luma8();
    assert_eq!(bottom.dimensions(), (3, 2));
    let top = image::load_from_memory(&p.top).unwrap().to_luma8();
    assert_eq!(top.dimensions(), (3, 3));
}

#[test]
fn config_keeps_given_origin_and_directory() {
    let c = Config::from_values(
        None,
        Some("9000".to_string()),
        Some("https://example.org".to_string()),
        Some("/tmp/up".to_string()),
        "db".to_string(),
        None,
        None,
        "s".to_string(),
        None,
    );
    assert_eq!(c.server.port, 9000);
    assert_eq!(c.server.cors_origin, "https://example.org");
    assert_eq!(c.server.upload_dir, "/tmp/up");
}
