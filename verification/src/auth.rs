//! The authentication gate: which URIs are protected, and whether presented
//! Basic credentials match the configured ones.

use vstd::prelude::*;
use crate::config::{AuthMode, RunCommand};
use crate::http_parser::BasicCredentials;
use crate::strings::{first_index_of, lemma_first_index_of_found, lemma_first_index_of_none,
    spec_trim, str_eq, str_starts_with, trim_str};

verus! {

/// `s` split on every occurrence of `c`; an empty string splits into one
/// empty piece.
pub open spec fn spec_split(s: Seq<char>, c: char) -> Seq<Seq<char>>
    decreases s.len(),
    via spec_split_decreases
{
    let p = first_index_of(s, c);
    if p < 0 {
        seq![s]
    } else {
        seq![s.take(p)] + spec_split(s.skip(p + 1), c)
    }
}

#[via_fn]
proof fn spec_split_decreases(s: Seq<char>, c: char) {
    crate::strings::lemma_first_index_of_bounds(s, c);
}

/// The configured protected-folder prefixes: the comma-separated entries of
/// `folders`, each trimmed of surrounding whitespace.
pub open spec fn spec_protected_prefixes(folders: Seq<char>) -> Seq<Seq<char>> {
    spec_split(folders, ',').map_values(|p: Seq<char>| spec_trim(p))
}

/// A URI is protected exactly when it starts with one of the configured
/// (trimmed) prefixes; without Basic Authentication configured, nothing is
/// protected.
pub open spec fn spec_is_protected(uri: Seq<char>, auth_mode: &AuthMode) -> bool {
    match auth_mode {
        AuthMode::Basic(cmd) => {
            let prefixes = spec_protected_prefixes(cmd.protected_folders@);
            exists|k: int| 0 <= k < prefixes.len() && (#[trigger] prefixes[k]).is_prefix_of(uri)
        },
        AuthMode::NoAuth(_) => false,
    }
}

/// Splits the comma-separated protected-folder list into its entries, each
/// trimmed of surrounding whitespace.
pub fn extract_basic_auth_folders(auth_folders: &String) -> (r: Vec<String>)
    ensures
        r.deep_view() == spec_protected_prefixes(auth_folders@),
{
    let s = auth_folders.as_str();
    let len = s.unicode_len();
    let mut res: Vec<String> = Vec::new();
    proof {
        assert(s@.skip(0) =~= s@);
        assert(res.deep_view() =~= Seq::<Seq<char>>::empty());
        assert(res.deep_view() + spec_protected_prefixes(s@) =~= spec_protected_prefixes(s@));
    }
    let mut start: usize = 0;
    let mut i: usize = 0;
    while i < len
        invariant
            len == s@.len(),
            start <= i <= len,
            forall|k: int| start <= k < i ==> s@[k] != ',',
            spec_protected_prefixes(s@) =~= res.deep_view() + spec_split(
                s@.skip(start as int),
                ',',
            ).map_values(|p: Seq<char>| spec_trim(p)),
        decreases len - i,
    {
        if s.get_char(i) == ',' {
            let piece = s.substring_char(start, i);
            let trimmed = trim_str(piece);
            proof {
                let suf = s@.skip(start as int);
                lemma_first_index_of_found(suf, ',', i - start);
                assert(suf.take(i - start) =~= s@.subrange(start as int, i as int));
                assert(suf.skip(i - start + 1) =~= s@.skip(i + 1));
                assert(piece@ =~= suf.take(i - start));
            }
            res.push(trimmed);
            start = i + 1;
        }
        i = i + 1;
    }
    let piece = s.substring_char(start, len);
    let trimmed = trim_str(piece);
    proof {
        let suf = s@.skip(start as int);
        lemma_first_index_of_none(suf, ',');
        assert(piece@ =~= suf);
    }
    res.push(trimmed);
    proof {
        assert(res.deep_view() =~= spec_protected_prefixes(s@));
    }
    res
}

/// Decides whether `uri` falls under a protected folder of the configured
/// authentication mode: true exactly when Basic Authentication is configured
/// and `uri` starts with one of its (trimmed) prefixes.
pub fn process_basic_auth(uri: &String, run_args: &RunCommand) -> (r: bool)
    ensures
        r == spec_is_protected(uri@, &run_args.auth_mode),
{
    match &run_args.auth_mode {
        AuthMode::Basic(basic_auth_command) => {
            let folders_vec = extract_basic_auth_folders(&basic_auth_command.protected_folders);
            let ghost prefixes = spec_protected_prefixes(
                basic_auth_command.protected_folders@,
            );
            let n = folders_vec.len();
            let mut k: usize = 0;
            while k < n
                invariant
                    n == folders_vec.len(),
                    folders_vec.deep_view() == prefixes,
                    run_args.auth_mode matches AuthMode::Basic(cmd) && spec_protected_prefixes(
                        cmd.protected_folders@,
                    ) == prefixes,
                    k <= n,
                    forall|j: int| 0 <= j < k ==> !(#[trigger] prefixes[j]).is_prefix_of(uri@),
                decreases n - k,
            {
                proof {
                    assert(prefixes[k as int] == folders_vec@[k as int].deep_view());
                }
                if str_starts_with(uri.as_str(), folders_vec[k].as_str()) {
                    proof {
                        assert(prefixes[k as int].is_prefix_of(uri@));
                    }
                    return true;
                }
                k = k + 1;
            }
            false
        },
        AuthMode::NoAuth(_) => false,
    }
}

/// Whether the presented credentials are the configured ones.  Access is
/// granted only when both the user name and the password match exactly.
pub fn check_credentials(credentials: &BasicCredentials, username: &String, password: &String) -> (
    r: bool)
    ensures
        r == (credentials.username@ == username@ && credentials.password@ == password@),
{
    let user_ok = str_eq(credentials.username.as_str(), username.as_str());
    let pass_ok = str_eq(credentials.password.as_str(), password.as_str());
    user_ok && pass_ok
}

} // verus!
