//! Response assembly: status lines, the ordered header block, and the final
//! byte string that goes on the wire, for file bodies, directory listings
//! and error pages alike.

use vstd::prelude::*;
use vstd::utf8::encode_utf8;
use vstd::slice::slice_to_vec;
use crate::headers::{spec_concat_seqs, spec_dec_digits, spec_insert_header, concatenate_headers,
    generate_status_with_common_headers, usize_to_string, OrderedHeaderSet, SERVER_NAME};
use crate::mime::{MimeTypeProperties, TEXT_HTML};
use crate::strings::{extract_file_name, spec_extract_file_name};

verus! {

pub const STATUS_OK: &'static str = "HTTP/1.1 200 OK";

pub const STATUS_BAD_REQUEST: &'static str = "HTTP/1.1 400 Bad Request";

pub const STATUS_NOT_FOUND: &'static str = "HTTP/1.1 404 Not Found";

pub const STATUS_METHOD_NOT_ALLOWED: &'static str = "HTTP/1.1 405 Method Not Allowed";

pub const STATUS_NO_CONTENT: &'static str = "HTTP/1.1 204 No Content";

pub const STATUS_UNAUTHORIZED: &'static str = "HTTP/1.1 401 Unauthorized";

pub const HEADER_AUTHENTICATE: &'static str =
    "WWW-Authenticate: Basic realm=\"User Visible Realm\", charset=\"UTF-8\"";

/// The tail every content response's header set receives, in this order:
/// `Content-Length`, `Content-Type` (with a charset for text), the cache
/// policy, and the server name.
pub open spec fn spec_content_headers(
    start: Seq<Seq<char>>,
    length: nat,
    mime_type: Seq<char>,
    is_binary: bool,
) -> Seq<Seq<char>> {
    let cl = "Content-Length: "@ + spec_dec_digits(length) + "\r\n"@;
    let ct = if is_binary {
        "Content-Type: "@ + mime_type + "\r\n"@
    } else {
        "Content-Type: "@ + mime_type + "; charset=utf-8\r\n"@
    };
    let cc = "Cache-Control: public, max-age=120\r\n"@;
    let sv = "Server: "@ + SERVER_NAME@ + "\r\n"@;
    spec_insert_header(
        spec_insert_header(spec_insert_header(spec_insert_header(start, cl), ct), cc),
        sv,
    )
}

/// The ordered headers of a content response: status line, `Content-Length`,
/// `Content-Type` (with a charset for text), cache policy, server name.
pub open spec fn spec_status_headers(
    status_line: Seq<char>,
    length: nat,
    mime_type: Seq<char>,
    is_binary: bool,
) -> Seq<Seq<char>> {
    spec_content_headers(
        spec_insert_header(Seq::empty(), status_line + "\r\n"@),
        length,
        mime_type,
        is_binary,
    )
}

/// Appends the common content headers, in their fixed order, to a
/// response's header set.
fn append_content_headers(
    set: &mut OrderedHeaderSet,
    length: usize,
    mime_type: &str,
    is_binary: &bool,
)
    requires
        old(set).wf(),
    ensures
        final(set)@ == spec_content_headers(old(set)@, length as nat, mime_type@, *is_binary),
        final(set).wf(),
{
    let mut content_length = String::from_str("Content-Length: ");
    content_length.append(usize_to_string(length).as_str());
    content_length.append("\r\n");
    let mut content_type = String::from_str("Content-Type: ");
    content_type.append(mime_type);
    if *is_binary {
        content_type.append("\r\n");
    } else {
        content_type.append("; charset=utf-8\r\n");
    }
    let mut server = String::from_str("Server: ");
    server.append(SERVER_NAME);
    server.append("\r\n");
    proof {
        assert(content_length@ =~= "Content-Length: "@ + spec_dec_digits(length as nat)
            + "\r\n"@);
        if *is_binary {
            assert(content_type@ =~= "Content-Type: "@ + mime_type@ + "\r\n"@);
        } else {
            assert(content_type@ =~= "Content-Type: "@ + mime_type@ + "; charset=utf-8\r\n"@);
        }
        assert(server@ =~= "Server: "@ + SERVER_NAME@ + "\r\n"@);
    }
    set.insert(content_length);
    set.insert(content_type);
    set.insert(String::from_str("Cache-Control: public, max-age=120\r\n"));
    set.insert(server);
}

/// Builds the ordered header set of a content response.
pub fn generate_status_headers(
    status_line: &str,
    length: usize,
    mime_type: &str,
    is_binary: &bool,
) -> (r: OrderedHeaderSet)
    ensures
        r@ == spec_status_headers(status_line@, length as nat, mime_type@, *is_binary),
        r.wf(),
{
    let mut sl = String::from_str(status_line);
    sl.append("\r\n");
    let mut status_headers_set = OrderedHeaderSet::new();
    status_headers_set.insert(sl);
    append_content_headers(&mut status_headers_set, length, mime_type, is_binary);
    status_headers_set
}

/// The ordered headers of the `OPTIONS` response: status `204 No Content`,
/// the allowed methods, cache policy, server name.
pub open spec fn spec_option_headers() -> Seq<Seq<char>> {
    let sl = "HTTP/1.1 204 No Content"@ + "\r\n"@;
    let al = "Allow: OPTIONS, GET, HEAD\r\n"@;
    let cc = "Cache-Control: public, max-age=120\r\n"@;
    let sv = "Server: "@ + SERVER_NAME@ + "\r\n"@;
    spec_insert_header(
        spec_insert_header(spec_insert_header(spec_insert_header(Seq::empty(), sl), al), cc),
        sv,
    )
}

/// Builds the header set of the `OPTIONS` response; the arguments of a
/// content response are accepted and ignored so the builders are
/// interchangeable.
pub fn generate_option_headers(_s: &str, _l: usize, _m: &str, _b: &bool) -> (r: OrderedHeaderSet)
    ensures
        r@ == spec_option_headers(),
        r.wf(),
{
    let allow = String::from_str("Allow: OPTIONS, GET, HEAD\r\n");
    let (sl, cache_control, server) = generate_status_with_common_headers(STATUS_NO_CONTENT);
    let mut status_headers_set = OrderedHeaderSet::new();
    status_headers_set.insert(sl);
    status_headers_set.insert(allow);
    status_headers_set.insert(cache_control);
    status_headers_set.insert(server);
    proof {
        assert(STATUS_NO_CONTENT@ == "HTTP/1.1 204 No Content"@);
    }
    status_headers_set
}

/// The ordered headers of the `401 Unauthorized` response: the status line
/// and the `WWW-Authenticate` challenge.
pub open spec fn spec_authenticate_headers() -> Seq<Seq<char>> {
    let sl = "HTTP/1.1 401 Unauthorized"@ + "\r\n"@;
    let wa = HEADER_AUTHENTICATE@ + "\r\n"@;
    spec_insert_header(spec_insert_header(Seq::empty(), sl), wa)
}

/// Builds the header set of the `401 Unauthorized` challenge; the arguments
/// of a content response are accepted and ignored so the builders are
/// interchangeable.
pub fn generate_authenticate_response(_s: &str, _l: usize, _m: &str, _b: &bool) -> (
    r: OrderedHeaderSet)
    ensures
        r@ == spec_authenticate_headers(),
        r.wf(),
{
    let mut sl = String::from_str(STATUS_UNAUTHORIZED);
    sl.append("\r\n");
    let mut wa = String::from_str(HEADER_AUTHENTICATE);
    wa.append("\r\n");
    let mut status_headers_set = OrderedHeaderSet::new();
    status_headers_set.insert(sl);
    status_headers_set.insert(wa);
    proof {
        assert(STATUS_UNAUTHORIZED@ == "HTTP/1.1 401 Unauthorized"@);
    }
    status_headers_set
}

/// The ordered headers of a binary `200 OK`: status line, the attachment
/// disposition (naming the URI's file) when one is called for, then
/// `Content-Length`, `Content-Type`, cache policy and server name.
pub open spec fn spec_binary_headers(
    uri: Seq<char>,
    length: nat,
    content_type: Seq<char>,
    is_binary: bool,
    attachment: bool,
) -> Seq<Seq<char>> {
    let base = spec_insert_header(Seq::empty(), "HTTP/1.1 200 OK"@ + "\r\n"@);
    let with_disposition = if attachment {
        spec_insert_header(
            base,
            "Content-Disposition: attachment; filename=\""@ + spec_extract_file_name(uri)
                + "\"\r\n"@,
        )
    } else {
        base
    };
    spec_content_headers(with_disposition, length, content_type, is_binary)
}

/// Builds the complete header block of a binary `200 OK`, closed by the
/// blank line: the attachment disposition, when the type calls for one,
/// stands right after the status line.
pub fn generate_binary_status_line(
    uri: String,
    length: usize,
    mime_type_properties: &MimeTypeProperties,
) -> (r: String)
    ensures
        r@ == spec_concat_seqs(
            spec_binary_headers(
                uri@,
                length as nat,
                mime_type_properties.content_type@,
                mime_type_properties.binary,
                mime_type_properties.attachment,
            ),
        ) + "\r\n"@,
{
    let mut sl = String::from_str(STATUS_OK);
    sl.append("\r\n");
    let mut set = OrderedHeaderSet::new();
    set.insert(sl);
    if mime_type_properties.attachment {
        let file_name = extract_file_name(uri);
        let mut disposition = String::from_str("Content-Disposition: attachment; filename=\"");
        disposition.append(file_name.as_str());
        disposition.append("\"\r\n");
        proof {
            assert(disposition@ =~= "Content-Disposition: attachment; filename=\""@
                + spec_extract_file_name(uri@) + "\"\r\n"@);
        }
        set.insert(disposition);
    }
    append_content_headers(
        &mut set,
        length,
        mime_type_properties.content_type.as_str(),
        &mime_type_properties.binary,
    );
    let mut out = concatenate_headers(&set);
    out.append("\r\n");
    proof {
        assert(STATUS_OK@ == "HTTP/1.1 200 OK"@);
    }
    out
}

/// A text response on the wire: the content headers (`Content-Length` counts
/// the body's UTF-8 bytes), the blank line, and the body itself — which a
/// `HEAD` response omits while keeping identical headers.
pub open spec fn spec_text_response(
    status_line: Seq<char>,
    contents: Seq<char>,
    mime_type: Seq<char>,
    is_head: bool,
) -> Seq<char> {
    let block = spec_concat_seqs(
        spec_status_headers(status_line, encode_utf8(contents).len(), mime_type, false),
    ) + "\r\n"@;
    if is_head {
        block
    } else {
        block + contents
    }
}

/// Assembles a text response: headers, blank line, and the body unless the
/// request was `HEAD`.
pub fn render_text_response(
    status_line: &str,
    contents: &str,
    mime_type: &str,
    is_head: &bool,
) -> (r: String)
    ensures
        r@ == spec_text_response(status_line@, contents@, mime_type@, *is_head),
{
    let length = contents.as_bytes().len();
    let header_map = generate_status_headers(status_line, length, mime_type, &false);
    let mut response = concatenate_headers(&header_map);
    response.append("\r\n");
    if !*is_head {
        response.append(contents);
    }
    proof {
        assert(response@ =~= spec_text_response(status_line@, contents@, mime_type@, *is_head));
    }
    response
}

pub const BAD_REQUEST_FALLBACK: &'static str =
    "<!DOCTYPE html>\n<html lang=\"en\">\n<head>\n    <meta charset=\"utf-8\">\n    <title>Bad request!</title>\n</head>\n<body>\n<h1>Bad Request!</h1>\n<p>400 - Your request could not be understood by the server</p>\n</body>\n</html>";

pub const NOT_FOUND_FALLBACK: &'static str =
    "<!DOCTYPE html>\n<html lang=\"en\">\n<head>\n    <meta charset=\"utf-8\">\n    <title>Not found!</title>\n</head>\n<body>\n<h1>Not Found!</h1>\n<p>404 - The requested resource could not be found</p>\n</body>\n</html>";

pub const METHOD_NOT_ALLOWED_FALLBACK: &'static str =
    "<!DOCTYPE html>\n<html lang=\"en\">\n<head>\n    <meta charset=\"utf-8\">\n    <title>Method not allowed!</title>\n</head>\n<body>\n<h1>Method Not Allowed!</h1>\n<p>405 - The request method is not supported for this resource</p>\n</body>\n</html>";

/// Assembles an error response as HTML text: the body is the error template
/// read from the document root when one could be read, else the built-in
/// fallback, so an error always yields a well-formed response.
pub fn render_error_response(
    template: Option<String>,
    fallback: &str,
    status_line: &str,
    is_head: &bool,
) -> (r: String)
    ensures
        r@ == spec_text_response(
            status_line@,
            match template {
                Some(t) => t@,
                _ => fallback@,
            },
            "text/html"@,
            *is_head,
        ),
{
    match template {
        Some(t) => render_text_response(status_line, t.as_str(), TEXT_HTML, is_head),
        _ => render_text_response(status_line, fallback, TEXT_HTML, is_head),
    }
}

/// A binary response on the wire: the UTF-8 bytes of the header block
/// followed by the raw body bytes — which a `HEAD` response omits while
/// keeping identical headers.
pub open spec fn spec_binary_response(
    uri: Seq<char>,
    content: Seq<u8>,
    content_type: Seq<char>,
    is_binary: bool,
    attachment: bool,
    is_head: bool,
) -> Seq<u8> {
    let headers = spec_binary_headers(uri, content.len(), content_type, is_binary, attachment);
    let block = encode_utf8(spec_concat_seqs(headers) + "\r\n"@);
    if is_head {
        block
    } else {
        block + content
    }
}

/// Assembles a successful binary response: headers (with the attachment
/// disposition when called for), blank line, and the raw bytes unless the
/// request was `HEAD`.
pub fn render_binary_response(
    uri: String,
    content: Vec<u8>,
    mime_type_properties: &MimeTypeProperties,
    is_head: &bool,
) -> (r: Vec<u8>)
    ensures
        r@ == spec_binary_response(
            uri@,
            content@,
            mime_type_properties.content_type@,
            mime_type_properties.binary,
            mime_type_properties.attachment,
            *is_head,
        ),
{
    let length = content.len();
    let response = generate_binary_status_line(uri, length, mime_type_properties);
    let mut bytes = slice_to_vec(response.as_str().as_bytes());
    if !*is_head {
        let mut content_bytes = content;
        bytes.append(&mut content_bytes);
    }
    bytes
}

/// Assembles the `OPTIONS` response: the `204 No Content` headers with the
/// allowed methods, a blank line, and no body whatever the URI was.
pub fn render_options_response() -> (r: String)
    ensures
        r@ == spec_concat_seqs(spec_option_headers()) + "\r\n"@,
{
    let header_map = generate_option_headers("", 0, "", &true);
    let mut response = concatenate_headers(&header_map);
    response.append("\r\n");
    response
}

/// Assembles the `401 Unauthorized` challenge: the status line and the
/// `WWW-Authenticate` header, a blank line, and no body.
pub fn render_unauthorized_response() -> (r: String)
    ensures
        r@ == spec_concat_seqs(spec_authenticate_headers()) + "\r\n"@,
{
    let header_map = generate_authenticate_response("", 0, "", &true);
    let mut response = concatenate_headers(&header_map);
    response.append("\r\n");
    response
}

/// Serving the same text resource twice yields byte-identical responses:
/// the response is a function of the status, body, type and method alone,
/// so an unchanged file gives an unchanged answer.
pub proof fn lemma_text_response_idempotent(
    status_line: Seq<char>,
    contents: Seq<char>,
    mime_type: Seq<char>,
    is_head: bool,
    r1: Seq<char>,
    r2: Seq<char>,
)
    requires
        r1 == spec_text_response(status_line, contents, mime_type, is_head),
        r2 == spec_text_response(status_line, contents, mime_type, is_head),
    ensures
        r1 == r2,
{
}

/// Serving the same binary resource twice yields byte-identical responses:
/// the response is a function of the URI, content, type and method alone,
/// so an unchanged file gives an unchanged answer.
pub proof fn lemma_binary_response_idempotent(
    uri: Seq<char>,
    content: Seq<u8>,
    content_type: Seq<char>,
    is_binary: bool,
    attachment: bool,
    is_head: bool,
    r1: Seq<u8>,
    r2: Seq<u8>,
)
    requires
        r1 == spec_binary_response(uri, content, content_type, is_binary, attachment, is_head),
        r2 == spec_binary_response(uri, content, content_type, is_binary, attachment, is_head),
    ensures
        r1 == r2,
{
}

} // verus!
