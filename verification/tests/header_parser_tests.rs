use http_server::header_parser::message_header;

#[test]
fn when_message_header_should_produce_header() {
    let header = "Accept: text/html,application/xhtml+xml,application/xml;q=0.9,*/*;q=0.8";
    let bytes = header.as_bytes();
    let result = message_header(bytes);
    match result {
        Some(header) => {
            assert_eq!(header.0.name, "Accept".to_string().into_bytes());
            assert_eq!(
                header.0.value,
                "Accept: text/html,application/xhtml+xml,application/xml;q=0.9,*/*;q=0.8"
                    .to_string()
                    .into_bytes()
            )
        }
        None => {}
    }
}

#[test]
fn when_message_header_with_crlf_parses_name_and_value() {
    let bytes = "Accept: text/html\r\n".as_bytes();
    let (header, consumed) = message_header(bytes).unwrap();
    assert_eq!(header.name, b"Accept".to_vec());
    assert_eq!(header.value, b"text/html".to_vec());
    assert_eq!(consumed, bytes.len());
}

#[test]
fn when_message_header_without_terminator_is_rejected() {
    assert!(message_header("Accept: text/html".as_bytes()).is_none());
    assert!(message_header("no colon here\r\n".as_bytes()).is_none());
}
