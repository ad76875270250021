use http_server::mime::{extract_extension, extract_mime_type};

#[test]
fn when_extract_extension_should_find_png() {
    test_extension("flower.png", "png");
}

#[test]
fn when_extract_extension_should_find_jpg() {
    test_extension("flower.jpg", "jpg");
}

#[test]
fn when_extract_mime_type_should_extract() {
    test_mime_conversion("flower.png", "image/png");
}

#[test]
fn when_extract_mime_type_jpeg_should_extract() {
    test_mime_conversion("flower.jpeg", "image/jpeg");
}

fn test_extension(file_name: &str, expected: &str) {
    let mimetype_option = extract_extension(file_name);
    assert!(mimetype_option.is_some(), "Result should return some");
    let extension = mimetype_option.unwrap();
    assert_eq!(extension, expected.to_string());
}

fn test_mime_conversion(file_name: &str, expected: &str) {
    let mime_type = extract_mime_type(file_name);
    assert_eq!(mime_type.content_type, expected);
}

#[test]
fn when_extension_is_unknown_defaults_to_octet_stream() {
    let props = extract_mime_type("archive.zip");
    assert_eq!(props.content_type, "application/octet-stream");
    assert!(props.binary);
    assert!(props.attachment);
}

#[test]
fn when_no_extension_defaults_to_octet_stream() {
    assert!(extract_extension("Makefile").is_none());
    let props = extract_mime_type("Makefile");
    assert_eq!(props.content_type, "application/octet-stream");
}

#[test]
fn when_name_ends_with_dot_extension_is_empty() {
    let ext = extract_extension("weird.");
    assert_eq!(ext, Some(String::new()));
}
