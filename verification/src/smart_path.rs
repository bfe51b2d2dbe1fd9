//! Resolving the paths the smart tools are given: relative to the working
//! directory, forgiving a path that repeats the directory's own name.
use vstd::prelude::*;
use crate::edit;
use crate::error;
use crate::error::FunctionCallError;
use crate::paths;
use crate::text;

verus! {

/// Whether a path is absolute (it starts at the root).
pub open spec fn is_absolute(p: Seq<char>) -> bool {
    p.len() > 0 && p[0] == '/'
}

/// A requested path against the working directory: an absolute path as it
/// is, a relative one joined to `cwd`.
pub open spec fn from_cwd(cwd: Seq<char>, path: Seq<char>) -> Seq<char> {
    if is_absolute(path) { path } else { edit::joined_path(cwd, path) }
}

pub fn path_from_cwd(cwd: &str, path: &str) -> (r: String)
    ensures
        r@ == from_cwd(cwd@, path@),
{
    edit::resolve_path(cwd, path)
}

/// For a relative path that starts with the working directory's own name
/// (`codex-rs/src/x.rs` asked from inside `codex-rs`), the path without
/// that name, joined to `cwd`; none when there is nothing after the name.
pub open spec fn redundant_prefix_fallback(cwd: Seq<char>, path: Seq<char>) -> Option<Seq<char>> {
    if is_absolute(path) {
        None
    } else {
        match paths::path_file_name(cwd) {
            None => None,
            Some(name) => match paths::leading_name(path) {
                None => None,
                Some((first, rest)) => if first != name || rest.len() == 0 {
                    None
                } else {
                    Some(edit::joined_path(cwd, rest))
                },
            },
        }
    }
}

pub fn without_redundant_cwd_prefix(cwd: &str, path: &str) -> (r: Option<String>)
    ensures
        paths::opt_string_view(r) == redundant_prefix_fallback(cwd@, path@),
{
    let p = text::chars_of(path);
    if p.len() > 0 && p[0] == '/' {
        return None;
    }
    let name = match paths::file_name_of(cwd) {
        Some(n) => n,
        None => {
            return None;
        },
    };
    match paths::split_leading_name(path) {
        None => None,
        Some((first, rest)) => {
            if !text::str_equal(first.as_str(), name.as_str()) || rest.as_str().unicode_len() == 0 {
                None
            } else {
                Some(edit::resolve_path(cwd, rest.as_str()))
            }
        },
    }
}

/// The paths to try for a requested path: the one against the working
/// directory, then the one without a repeated directory name.
pub fn resolve_candidates(cwd: &str, requested_path: &str) -> (r: (String, Option<String>))
    ensures
        r.0@ == from_cwd(cwd@, requested_path@),
        paths::opt_string_view(r.1) == redundant_prefix_fallback(cwd@, requested_path@),
{
    (path_from_cwd(cwd, requested_path), without_redundant_cwd_prefix(cwd, requested_path))
}

/// The error for a path that could not be resolved.
pub open spec fn unresolved_message(label: Seq<char>, path: Seq<char>, detail: Seq<char>) -> Seq<char> {
    "unable to resolve "@ + label + " `"@ + path + "`: "@ + detail
}

pub fn unresolved(label: &str, path: &str, detail: &str) -> (e: FunctionCallError)
    ensures
        e.message() == unresolved_message(label@, path@, detail@),
{
    let mut s = String::from_str("unable to resolve ");
    text::push_str(&mut s, label);
    text::push_str(&mut s, " `");
    text::push_str(&mut s, path);
    text::push_str(&mut s, "`: ");
    text::push_str(&mut s, detail);
    error::respond_with(s)
}

/// The resolved path, given what canonicalizing the candidates gave (the
/// fallback is tried only when the first failed): the first that resolved,
/// else the first's error.
pub fn resolve_outcome(
    label: &str,
    primary: &str,
    primary_result: Result<String, String>,
    fallback_result: Option<Result<String, String>>,
) -> (r: Result<String, FunctionCallError>)
    ensures
        match primary_result {
            Ok(p) => r matches Ok(q) && q@ == p@,
            Err(detail) => match fallback_result {
                Some(Ok(f)) => r matches Ok(q) && q@ == f@,
                _ => r matches Err(e) && e.message() == unresolved_message(label@, primary@, detail@),
            },
        },
{
    match primary_result {
        Ok(p) => Ok(p),
        Err(detail) => match fallback_result {
            Some(Ok(f)) => Ok(f),
            _ => Err(unresolved(label, primary, detail.as_str())),
        },
    }
}

} // verus!
