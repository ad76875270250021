//! The MIME lookup: a file name's extension decides the content type, whether
//! the body is streamed as raw bytes, and whether the response is served as
//! an attachment.

use vstd::prelude::*;
use crate::strings::{last_index_at_or_below, str_eq};

verus! {

pub const TEXT_HTML: &'static str = "text/html";

pub const JPEG: &'static str = "image/jpeg";

/// How a resource with a given extension is served.
pub struct MimeTypeProperties {
    pub content_type: String,
    pub binary: bool,
    pub attachment: bool,
}

/// `(content type, binary, attachment)` for a known extension; unknown
/// extensions fall back to a binary attachment of unspecified content.
pub open spec fn spec_mime_entry(ext: Seq<char>) -> (Seq<char>, bool, bool) {
    if ext == "css"@ {
        ("text/css"@, false, false)
    } else if ext == "doc"@ {
        ("application/msword"@, true, true)
    } else if ext == "gif"@ {
        ("image/gif"@, true, false)
    } else if ext == "ico"@ {
        ("image/x-icon"@, true, false)
    } else if ext == "html"@ {
        ("text/html"@, false, false)
    } else if ext == "htm"@ {
        ("text/html"@, false, false)
    } else if ext == "jpe"@ {
        ("image/jpeg"@, true, false)
    } else if ext == "jpg"@ {
        ("image/jpeg"@, true, false)
    } else if ext == "jpeg"@ {
        ("image/jpeg"@, true, false)
    } else if ext == "pdf"@ {
        ("application/pdf"@, true, true)
    } else if ext == "png"@ {
        ("image/png"@, true, false)
    } else if ext == "svg"@ {
        ("image/svg+xml"@, false, false)
    } else if ext == "txt"@ {
        ("text/plain"@, false, false)
    } else if ext == "xlsx"@ {
        ("application/vnd.openxmlformats-officedocument.spreadsheetml.sheet"@, true, true)
    } else {
        ("application/octet-stream"@, true, true)
    }
}

/// The extension of a file name: the characters after its last `.`, if any.
pub open spec fn spec_extract_extension(s: Seq<char>) -> Option<Seq<char>> {
    let p = last_index_at_or_below(s, '.', s.len() - 1);
    if p >= 0 {
        Some(s.skip(p + 1))
    } else {
        None
    }
}

/// `(content type, binary, attachment)` for a file name, through its
/// extension; a name without one gets the unknown-extension fallback.
pub open spec fn spec_mime_of_file(s: Seq<char>) -> (Seq<char>, bool, bool) {
    match spec_extract_extension(s) {
        Some(ext) => spec_mime_entry(ext),
        None => ("application/octet-stream"@, true, true),
    }
}

impl MimeTypeProperties {
    /// Bundles the three serving properties.
    pub fn new(content_type: &str, binary: bool, attachment: bool) -> (r: MimeTypeProperties)
        ensures
            r.content_type@ == content_type@,
            r.binary == binary,
            r.attachment == attachment,
    {
        MimeTypeProperties { content_type: String::from_str(content_type), binary, attachment }
    }

    /// The fallback for an unknown or missing extension: an opaque binary
    /// attachment.
    pub fn default_extension() -> (r: MimeTypeProperties)
        ensures
            r.content_type@ == "application/octet-stream"@,
            r.binary == true,
            r.attachment == true,
    {
        MimeTypeProperties {
            content_type: String::from_str("application/octet-stream"),
            binary: true,
            attachment: true,
        }
    }
}

/// Extracts the extension of `file_name`: everything after the last `.`, or
/// nothing when the name holds no dot.
pub fn extract_extension(file_name: &str) -> (r: Option<String>)
    ensures
        match r {
            Some(e) => spec_extract_extension(file_name@) == Some(e@),
            None => spec_extract_extension(file_name@) is None,
        },
{
    let len = file_name.unicode_len();
    let mut j: usize = len;
    while j > 0
        invariant
            len == file_name@.len(),
            j <= len,
            last_index_at_or_below(file_name@, '.', len - 1) == last_index_at_or_below(
                file_name@,
                '.',
                j - 1,
            ),
        decreases j,
    {
        if file_name.get_char(j - 1) == '.' {
            let ext = file_name.substring_char(j, len);
            proof {
                assert(ext@ =~= file_name@.skip(j as int));
            }
            return Some(String::from_str(ext));
        }
        j = j - 1;
    }
    proof {
        assert(last_index_at_or_below(file_name@, '.', -1) == -1);
    }
    None
}

/// Looks up how the resource named `file_name` is served, going by its
/// extension.
pub fn extract_mime_type(file_name: &str) -> (r: MimeTypeProperties)
    ensures
        r.content_type@ == spec_mime_of_file(file_name@).0,
        r.binary == spec_mime_of_file(file_name@).1,
        r.attachment == spec_mime_of_file(file_name@).2,
{
    match extract_extension(file_name) {
        Some(extension) => {
            let e = extension.as_str();
            if str_eq(e, "css") {
                MimeTypeProperties::new("text/css", false, false)
            } else if str_eq(e, "doc") {
                MimeTypeProperties::new("application/msword", true, true)
            } else if str_eq(e, "gif") {
                MimeTypeProperties::new("image/gif", true, false)
            } else if str_eq(e, "ico") {
                MimeTypeProperties::new("image/x-icon", true, false)
            } else if str_eq(e, "html") {
                MimeTypeProperties::new("text/html", false, false)
            } else if str_eq(e, "htm") {
                MimeTypeProperties::new("text/html", false, false)
            } else if str_eq(e, "jpe") {
                MimeTypeProperties::new("image/jpeg", true, false)
            } else if str_eq(e, "jpg") {
                MimeTypeProperties::new("image/jpeg", true, false)
            } else if str_eq(e, "jpeg") {
                MimeTypeProperties::new("image/jpeg", true, false)
            } else if str_eq(e, "pdf") {
                MimeTypeProperties::new("application/pdf", true, true)
            } else if str_eq(e, "png") {
                MimeTypeProperties::new("image/png", true, false)
            } else if str_eq(e, "svg") {
                MimeTypeProperties::new("image/svg+xml", false, false)
            } else if str_eq(e, "txt") {
                MimeTypeProperties::new("text/plain", false, false)
            } else if str_eq(e, "xlsx") {
                MimeTypeProperties::new(
                    "application/vnd.openxmlformats-officedocument.spreadsheetml.sheet",
                    true,
                    true,
                )
            } else {
                MimeTypeProperties::default_extension()
            }
        },
        None => MimeTypeProperties::default_extension(),
    }
}

} // verus!
