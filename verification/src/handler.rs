//! The connection handler's decisions: from the request's lines and the
//! server configuration to a plan — reject, answer directly, or fetch a
//! resource — and from what the filesystem then yielded to the bytes on the
//! wire.

use vstd::prelude::*;
use vstd::utf8::encode_utf8;
use vstd::slice::slice_to_vec;
use crate::auth::{check_credentials, spec_is_protected, process_basic_auth};
use crate::config::{AuthMode, RunCommand};
use crate::http_parser::{find_basic_authorization_header_in, decode_user_name_password,
    lower_chars, spec_decode_credentials, spec_find_auth, spec_parse_request_line, request_line,
    Method};
use crate::listing::{list_folder, spec_render_listing, spec_sorted_by_key, FileData};
use crate::mime::{extract_mime_type, spec_mime_of_file, MimeTypeProperties, TEXT_HTML};
use crate::response::{render_binary_response, render_text_response, render_error_response,
    spec_binary_response, spec_text_response, NOT_FOUND_FALLBACK, STATUS_NOT_FOUND, STATUS_OK};
use crate::strings::{replace_slash, spec_replace_slash};

verus! {

/// What the server decides to do with one request: reject it, answer it
/// directly, or fetch the resource the URI names.
pub enum RequestPlan {
    BadRequest,
    Options,
    MethodNotAllowed,
    Unauthorized,
    Fetch { uri: String, mime: MimeTypeProperties, is_head: bool },
}

/// Whether the request's header lines carry Basic credentials that decode to
/// exactly the configured user name and password.
pub open spec fn spec_authorized(lines: Seq<Seq<char>>, user: Seq<char>, pass: Seq<char>) -> bool {
    match spec_find_auth(lines) {
        Some(enc) => match spec_decode_credentials(enc) {
            Some(c) => c.0 == user && c.1 == pass,
            None => false,
        },
        None => false,
    }
}

/// Decides whether the request may pass the authentication gate.
fn authorize(request: &Vec<String>, username: &String, password: &String) -> (r: bool)
    ensures
        r == spec_authorized(request.deep_view(), username@, password@),
{
    match find_basic_authorization_header_in(request) {
        Some(auth) => match decode_user_name_password(&auth) {
            Some(credentials) => check_credentials(&credentials, username, password),
            _ => false,
        },
        _ => false,
    }
}

/// Whether `plan` is the decision the server owes the request `lines` under
/// configuration `args`: a missing or malformed request line is a Bad
/// Request; a `GET` or `HEAD` for a protected URI without matching
/// credentials is Unauthorized, and otherwise names the resource (with the
/// directory index substituted for a trailing slash) and how its type is
/// served; `OPTIONS` is answered directly; any other method is not allowed.
pub open spec fn spec_plan_is(plan: &RequestPlan, lines: Seq<Seq<char>>, args: &RunCommand) -> bool {
    if lines.len() == 0 {
        plan is BadRequest
    } else {
        match spec_parse_request_line(lines[0]) {
            None => plan is BadRequest,
            Some(p) => {
                let m = p.0;
                let u = p.1;
                let get = lower_chars(m) == lower_chars("GET"@);
                let head = lower_chars(m) == lower_chars("HEAD"@);
                let options = lower_chars(m) == lower_chars("OPTIONS"@);
                if get || head {
                    let denied = spec_is_protected(u, &args.auth_mode) && (match args.auth_mode {
                        AuthMode::Basic(cmd) => !spec_authorized(
                            lines,
                            cmd.username@,
                            cmd.password@,
                        ),
                        AuthMode::NoAuth(_) => true,
                    });
                    if denied {
                        plan is Unauthorized
                    } else {
                        &&& plan matches RequestPlan::Fetch { uri, mime, is_head }
                        &&& uri@ == spec_replace_slash(u)
                        &&& mime.content_type@ == spec_mime_of_file(spec_replace_slash(u)).0
                        &&& mime.binary == spec_mime_of_file(spec_replace_slash(u)).1
                        &&& mime.attachment == spec_mime_of_file(spec_replace_slash(u)).2
                        &&& is_head == head
                    }
                } else if options {
                    plan is Options
                } else {
                    plan is MethodNotAllowed
                }
            },
        }
    }
}

/// Turns one request — its lines, as read until the blank line — into the
/// server's decision.
pub fn plan_request(request: &Vec<String>, run_args: &RunCommand) -> (plan: RequestPlan)
    ensures
        spec_plan_is(&plan, request.deep_view(), run_args),
{
    if request.len() == 0 {
        return RequestPlan::BadRequest;
    }
    proof {
        assert(request.deep_view()[0] == request@[0]@);
    }
    proof {
        reveal_strlit("GET");
        reveal_strlit("HEAD");
        reveal_strlit("OPTIONS");
        assert(lower_chars("GET"@).len() == 3);
        assert(lower_chars("HEAD"@).len() == 4);
        assert(lower_chars("OPTIONS"@).len() == 7);
    }
    let parsed = request_line(request[0].as_str());
    let rl = match parsed {
        Some(rl) => rl,
        _ => {
            return RequestPlan::BadRequest;
        },
    };
    match rl.method {
        Method::Get | Method::Head => {
            let is_head = matches!(rl.method, Method::Head);
            let protected = process_basic_auth(&rl.uri, run_args);
            if protected {
                let denied = match &run_args.auth_mode {
                    AuthMode::Basic(cmd) => !authorize(request, &cmd.username, &cmd.password),
                    AuthMode::NoAuth(_) => true,
                };
                if denied {
                    return RequestPlan::Unauthorized;
                }
            }
            let uri = replace_slash(rl.uri);
            let mime = extract_mime_type(uri.as_str());
            RequestPlan::Fetch { uri, mime, is_head }
        },
        Method::Options => RequestPlan::Options,
        Method::Custom(_) => RequestPlan::MethodNotAllowed,
    }
}

/// What the filesystem yielded for a planned fetch: the resource read as
/// text or raw bytes, a directory's entries together with the name to list
/// it under, or nothing — in which case the error template read from the
/// document root, if any, dresses the Not Found page.
pub enum FetchOutcome {
    Text(String),
    Binary(Vec<u8>),
    Listing(Vec<FileData>, String),
    Missing(Option<String>),
}

/// Whether `r` is the wire form owed to a fetch of `uri` that the
/// filesystem answered with `outcome`.
pub open spec fn spec_fetch_response_is(
    r: Seq<u8>,
    uri: Seq<char>,
    mime: &MimeTypeProperties,
    is_head: bool,
    outcome: &FetchOutcome,
) -> bool {
    match outcome {
        FetchOutcome::Text(body) => r == encode_utf8(
            spec_text_response("HTTP/1.1 200 OK"@, body@, mime.content_type@, is_head),
        ),
        FetchOutcome::Binary(content) => r == spec_binary_response(
            uri,
            content@,
            mime.content_type@,
            mime.binary,
            mime.attachment,
            is_head,
        ),
        FetchOutcome::Listing(entries, folder_name) => exists|sorted: Seq<FileData>|
            sorted.to_multiset() == entries@.to_multiset() && spec_sorted_by_key(sorted) && r
                == encode_utf8(
                spec_text_response(
                    "HTTP/1.1 200 OK"@,
                    #[trigger] spec_render_listing(folder_name@, sorted),
                    "text/html"@,
                    is_head,
                ),
            ),
        FetchOutcome::Missing(template) => r == encode_utf8(
            spec_text_response(
                "HTTP/1.1 404 Not Found"@,
                match template {
                    Some(t) => t@,
                    _ => NOT_FOUND_FALLBACK@,
                },
                "text/html"@,
                is_head,
            ),
        ),
    }
}

/// Assembles the response of a planned fetch from what the filesystem
/// yielded: the file's bytes as a binary or text `200 OK`, the rendered
/// listing of a directory, or the Not Found page.
pub fn render_fetch_response(
    uri: String,
    mime: &MimeTypeProperties,
    is_head: bool,
    outcome: FetchOutcome,
) -> (r: Vec<u8>)
    ensures
        spec_fetch_response_is(r@, uri@, mime, is_head, &outcome),
{
    match outcome {
        FetchOutcome::Text(body) => {
            let s = render_text_response(
                STATUS_OK,
                body.as_str(),
                mime.content_type.as_str(),
                &is_head,
            );
            slice_to_vec(s.as_str().as_bytes())
        },
        FetchOutcome::Binary(content) => render_binary_response(uri, content, mime, &is_head),
        FetchOutcome::Listing(entries, folder_name) => {
            let listing = list_folder(entries, folder_name.as_str());
            let s = render_text_response(STATUS_OK, listing.as_str(), TEXT_HTML, &is_head);
            slice_to_vec(s.as_str().as_bytes())
        },
        FetchOutcome::Missing(template) => {
            let s = render_error_response(template, NOT_FOUND_FALLBACK, STATUS_NOT_FOUND, &is_head);
            slice_to_vec(s.as_str().as_bytes())
        },
    }
}

} // verus!
