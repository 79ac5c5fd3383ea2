use image_style_studio::storage::{
    encode_image_file, ext_for_mime, mime_for_ext, parse_data_url,
    prepare_image_file, LocalStorage,
};

#[test]
fn parses_data_url() {
    let (mime, b64) = parse_data_url("data:image/png;base64,AAAA").unwrap();
    assert_eq!(mime, "image/png");
    assert_eq!(b64, "AAAA");
}

#[test]
fn rejects_invalid_data_url() {
    assert!(parse_data_url("http://example.com/x.png").is_err());
}

#[test]
fn data_url_needs_separator_and_mime() {
    assert_eq!(
        parse_data_url("data:image/png,AAAA").unwrap_err().message(),
        "Ungültige Data-URL."
    );
    assert!(parse_data_url("data:;base64,AAAA").is_err());
    let (mime, b64) = parse_data_url("data:a;base64,;base64,x").unwrap();
    assert_eq!(mime, "a");
    assert_eq!(b64, ";base64,x");
}

#[test]
fn roundtrip_save_and_read() {
    let (saved, bytes) = prepare_image_file("aGVsbG8=", "image/png").unwrap();
    assert_eq!(bytes, b"hello".to_vec());
    let (b64, mime) = encode_image_file(&bytes, &saved.path);
    assert_eq!(b64, "aGVsbG8=");
    assert_eq!(mime, "image/png");
}

#[test]
fn stored_file_is_named_by_uuid_and_extension() {
    let (saved, bytes) = prepare_image_file("  /9j/  ", "image/jpeg").unwrap();
    assert_eq!(bytes, vec![0xff, 0xd8, 0xff]);
    assert_eq!(saved.mime, "image/jpeg");
    assert_eq!(saved.path.len(), 40);
    assert!(saved.path[..36].chars().all(|c| c == '-' || c.is_ascii_digit() || ('a'..='f').contains(&c)));
    assert!(saved.path.ends_with(".jpg"));
    assert_eq!(encode_image_file(&bytes, &saved.path).1, "image/jpeg");

    let (saved, _) = prepare_image_file("AA==", "image/webp").unwrap();
    assert!(saved.path.ends_with(".webp"));
    let (saved, _) = prepare_image_file("AA==", "image/gif").unwrap();
    assert!(saved.path.ends_with(".png"));
}

#[test]
fn invalid_base64_is_refused() {
    let err = prepare_image_file("not base64!", "image/png").unwrap_err();
    assert!(err.message().starts_with("Ungültige Base64-Daten: "));
}

#[test]
fn extensions_and_mime_types() {
    assert_eq!(ext_for_mime("image/jpeg"), "jpg");
    assert_eq!(ext_for_mime("image/webp"), "webp");
    assert_eq!(ext_for_mime("image/png"), "png");
    assert_eq!(ext_for_mime("text/plain"), "png");
    assert_eq!(mime_for_ext("A.JPEG"), "image/jpeg");
    assert_eq!(mime_for_ext("a.jpg"), "image/jpeg");
    assert_eq!(mime_for_ext("b.WebP"), "image/webp");
    assert_eq!(mime_for_ext("c.bmp"), "image/png");
}

fn base64_of(bytes: &[u8]) -> String {
    encode_image_file(bytes, "x.png").0
}

#[test]
fn base64_uses_standard_padded_alphabet() {
    assert_eq!(base64_of(b""), "");
    assert_eq!(base64_of(b"f"), "Zg==");
    assert_eq!(base64_of(b"fo"), "Zm8=");
    assert_eq!(base64_of(b"foo"), "Zm9v");
    assert_eq!(base64_of(&[0xfb, 0xff]), "+/8=");
}

#[test]
fn storage_keeps_its_directory() {
    let storage = LocalStorage::new("/data/images");
    assert_eq!(storage.base_dir(), "/data/images");
}
