use http_server::headers::{concatenate_headers, generate_status_with_common_headers,
    u64_to_string, usize_to_string, OrderedHeaderSet};
use http_server::http_parser::{compare_no_case, Method};
use http_server::response::{generate_authenticate_response, generate_binary_status_line,
    generate_option_headers, generate_status_headers};
use http_server::mime::MimeTypeProperties;

#[test]
fn ordered_header_set_keeps_first_insertion_and_drops_duplicates() {
    let mut set = OrderedHeaderSet::new();
    set.insert("A: 1\r\n".to_string());
    set.insert("B: 2\r\n".to_string());
    set.insert("A: 1\r\n".to_string());
    assert_eq!(set.len(), 2);
    assert_eq!(concatenate_headers(&set), "A: 1\r\nB: 2\r\n");
}

#[test]
fn common_headers_carry_status_cache_and_server() {
    let (status, cache, server) = generate_status_with_common_headers("HTTP/1.1 200 OK");
    assert_eq!(status, "HTTP/1.1 200 OK\r\n");
    assert_eq!(cache, "Cache-Control: public, max-age=120\r\n");
    assert_eq!(server, "Server: Gil HTTP\r\n");
}

#[test]
fn status_headers_order_is_fixed() {
    let set = generate_status_headers("HTTP/1.1 200 OK", 7, "text/plain", &false);
    assert_eq!(
        concatenate_headers(&set),
        "HTTP/1.1 200 OK\r\nContent-Length: 7\r\nContent-Type: text/plain; charset=utf-8\r\nCache-Control: public, max-age=120\r\nServer: Gil HTTP\r\n"
    );
    let binary = generate_status_headers("HTTP/1.1 200 OK", 7, "image/png", &true);
    assert!(concatenate_headers(&binary).contains("Content-Type: image/png\r\n"));
}

#[test]
fn option_headers_allow_the_three_methods() {
    let set = generate_option_headers("", 0, "", &true);
    assert_eq!(
        concatenate_headers(&set),
        "HTTP/1.1 204 No Content\r\nAllow: OPTIONS, GET, HEAD\r\nCache-Control: public, max-age=120\r\nServer: Gil HTTP\r\n"
    );
}

#[test]
fn authenticate_headers_carry_the_challenge() {
    let set = generate_authenticate_response("", 0, "", &true);
    assert_eq!(
        concatenate_headers(&set),
        "HTTP/1.1 401 Unauthorized\r\nWWW-Authenticate: Basic realm=\"User Visible Realm\", charset=\"UTF-8\"\r\n"
    );
}

#[test]
fn binary_status_line_puts_disposition_after_the_status_line() {
    let attachment = MimeTypeProperties::new("application/pdf", true, true);
    let line = generate_binary_status_line("/a/b.pdf".to_string(), 3, &attachment);
    assert_eq!(
        line,
        "HTTP/1.1 200 OK\r\nContent-Disposition: attachment; filename=\"b.pdf\"\r\nContent-Length: 3\r\nContent-Type: application/pdf\r\nCache-Control: public, max-age=120\r\nServer: Gil HTTP\r\n\r\n"
    );
    let inline = MimeTypeProperties::new("image/png", true, false);
    let line2 = generate_binary_status_line("/a/b.png".to_string(), 3, &inline);
    assert_eq!(
        line2,
        "HTTP/1.1 200 OK\r\nContent-Length: 3\r\nContent-Type: image/png\r\nCache-Control: public, max-age=120\r\nServer: Gil HTTP\r\n\r\n"
    );
}

#[test]
fn numbers_render_in_decimal() {
    assert_eq!(u64_to_string(0), "0");
    assert_eq!(u64_to_string(10), "10");
    assert_eq!(u64_to_string(18446744073709551615), "18446744073709551615");
    assert_eq!(usize_to_string(120), "120");
}

#[test]
fn compare_no_case_folds_ascii_letters_only() {
    assert!(compare_no_case(b"GeT", b"gEt"));
    assert!(!compare_no_case(b"GET", b"HEAD"));
    assert!(!compare_no_case(b"a", b"ab"));
    assert!(compare_no_case(b"{|}~", b"{|}~"));
    // `@` and backquote differ by 0x20 but are no letters.
    assert!(!compare_no_case(b"@", b"`"));
}

#[test]
fn method_text_spells_the_method() {
    assert_eq!(Method::Get.text(), "GET");
    assert_eq!(Method::Head.text(), "HEAD");
    assert_eq!(Method::Options.text(), "OPTIONS");
    assert_eq!(Method::Custom("BREW".to_string()).text(), "BREW");
}
