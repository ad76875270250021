//! Path resolution: joining the document root with a request URI, and the
//! directory-index fallback for paths that denote a directory.

use vstd::prelude::*;
use crate::strings::{collapse_slashes, no_double_slash, remove_double_slash};
use crate::strings::lemma_collapse_no_double_slash;

verus! {

/// The filesystem path for `uri` under `root`: the two joined with a single
/// separator, prefixed `./` for a relative root, with every accidental run of
/// separators collapsed.
pub open spec fn spec_build_path(uri: Seq<char>, root: Seq<char>) -> Seq<char> {
    let prefix = if root.len() > 0 && root[0] == '/' {
        "/"@
    } else {
        "./"@
    };
    collapse_slashes(prefix + root + "/"@ + uri)
}

/// Joins the root folder and the URI with a single separator.  The result
/// never contains two consecutive separators, whatever the two arguments
/// contribute at their edges.
pub fn build_path(uri: String, root_folder: &String) -> (r: String)
    ensures
        r@ == spec_build_path(uri@, root_folder@),
        no_double_slash(r@),
{
    let absolute = root_folder.as_str().unicode_len() > 0 && root_folder.as_str().get_char(0)
        == '/';
    let mut path = String::new();
    if absolute {
        path.append("/");
    } else {
        path.append("./");
    }
    path.append(root_folder.as_str());
    path.append("/");
    path.append(uri.as_str());
    let r = remove_double_slash(path.as_str());
    proof {
        lemma_collapse_no_double_slash(path@);
    }
    r
}

/// `dir` and `name` joined with exactly one separator between them.
pub open spec fn spec_join(dir: Seq<char>, name: Seq<char>) -> Seq<char> {
    if dir.len() > 0 && dir[dir.len() - 1] == '/' {
        dir + name
    } else {
        dir + "/"@ + name
    }
}

/// The target a resolved directory path stands for: its `index.html` when the
/// directory holds one, else its `index.htm`, else the directory itself
/// (which tells the caller to list it).  A path that is no directory is its
/// own target.
pub open spec fn spec_resolve_target(
    path: Seq<char>,
    is_dir: bool,
    has_index_html: bool,
    has_index_htm: bool,
) -> Seq<char> {
    if is_dir && has_index_html {
        spec_join(path, "index.html"@)
    } else if is_dir && has_index_htm {
        spec_join(path, "index.htm"@)
    } else {
        path
    }
}

/// Resolves the directory-index fallback.  The three flags report what the
/// filesystem holds at `path`: whether it is a directory, and whether that
/// directory contains an `index.html` or `index.htm` entry.
pub fn resolve_target(path: String, is_dir: bool, has_index_html: bool, has_index_htm: bool) -> (
    r: String)
    ensures
        r@ == spec_resolve_target(path@, is_dir, has_index_html, has_index_htm),
{
    if is_dir && has_index_html {
        join_path(path, "index.html")
    } else if is_dir && has_index_htm {
        join_path(path, "index.htm")
    } else {
        path
    }
}

/// Appends `name` to the directory path `dir`, adding a separator unless
/// `dir` already ends in one.
fn join_path(dir: String, name: &str) -> (r: String)
    ensures
        r@ == spec_join(dir@, name@),
{
    let len = dir.as_str().unicode_len();
    if len > 0 && dir.as_str().get_char(len - 1) == '/' {
        dir.concat(name)
    } else {
        let with_sep = dir.concat("/");
        with_sep.concat(name)
    }
}

} // verus!
