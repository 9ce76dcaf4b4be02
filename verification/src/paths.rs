use crate::util::last_component_start;
use std::path::{Path, StripPrefixError};
use vstd::prelude::*;

verus! {

/// The error of `std::path::Path::strip_prefix`. It says no more than that the base was no
/// prefix of the path.
#[verifier::external_type_specification]
#[verifier::external_body]
pub struct ExStripPrefixError(StripPrefixError);

/// The final component of the path written as `path`, as `std::path::Path::file_name` gives
/// it, where there is one. Like all of std's answers on paths, it goes by the rules of the
/// platform that the library is built for.
pub uninterp spec fn path_file_name(path: Seq<char>) -> Option<Seq<char>>;

/// A file name without its extension: the whole name where it holds no dot, or no dot but
/// one at its start; else what stands before its last dot.
pub open spec fn name_stem(name: Seq<char>) -> Seq<char> {
    let behind_dot = last_component_start(name);
    if behind_dot <= 1 {
        name
    } else {
        name.take(behind_dot - 1)
    }
}

/// The final component of the path without its extension, where there is one.
pub open spec fn path_file_stem(path: Seq<char>) -> Option<Seq<char>> {
    match path_file_name(path) {
        Some(name) => Some(name_stem(name)),
        None => None,
    }
}

/// The path without its final component, as `std::path::Path::parent` gives it.
pub uninterp spec fn path_parent(path: Seq<char>) -> Option<Seq<char>>;

/// `path` adjoined to `base`, as `std::path::Path::join` gives it.
pub uninterp spec fn path_join(base: Seq<char>, path: Seq<char>) -> Seq<char>;

/// The path that, joined onto `base`, yields `path`, as `std::path::Path::strip_prefix`
/// gives it; `None` where `base` is no prefix of `path`.
pub uninterp spec fn path_strip_prefix(path: Seq<char>, base: Seq<char>) -> Option<Seq<char>>;

/// `path` with `extension` in place of its own, as `std::path::Path::with_extension` gives
/// it.
pub uninterp spec fn path_with_extension(path: Seq<char>, extension: Seq<char>) -> Seq<char>;

/// The characters of an optional text.
pub open spec fn option_text(text: Option<String>) -> Option<Seq<char>> {
    match text {
        Some(text) => Some(text@),
        None => None,
    }
}

/// No character of `text` separates the components of a path.
pub open spec fn no_separator(text: Seq<char>) -> bool {
    forall|i: int| 0 <= i < text.len() ==> text[i] != '/' && text[i] != '\\'
}

/// Calls `std::path::Path::file_name`. Believed, not proved: the result depends on the
/// characters of the path alone, which is what gives it its name in contracts.
#[verifier::external_body]
pub(crate) fn file_name(path: &str) -> (name: Option<String>)
    ensures
        option_text(name) == path_file_name(path@),
{
    match Path::new(path).file_name() {
        Some(name) => Some(name.to_string_lossy().into_owned()),
        None => None,
    }
}

/// Calls `std::path::Path::file_stem`. Believed, not proved: it is the stem of what
/// `std::path::Path::file_name` gives for the same path, which is how std documents it.
#[verifier::external_body]
pub(crate) fn file_stem(path: &str) -> (stem: Option<String>)
    ensures
        option_text(stem) == path_file_stem(path@),
{
    match Path::new(path).file_stem() {
        Some(stem) => Some(stem.to_string_lossy().into_owned()),
        None => None,
    }
}

/// Calls `std::path::Path::parent`. Believed, not proved: the result depends on the
/// characters of the path alone.
#[verifier::external_body]
pub(crate) fn parent(path: &str) -> (parent: Option<String>)
    ensures
        option_text(parent) == path_parent(path@),
{
    match Path::new(path).parent() {
        Some(parent) => Some(parent.to_string_lossy().into_owned()),
        None => None,
    }
}

/// Calls `std::path::Path::join`. Believed, not proved: the result depends on the characters
/// of the two paths alone.
#[verifier::external_body]
pub(crate) fn join(base: &str, path: &str) -> (joined: String)
    ensures
        joined@ == path_join(base@, path@),
{
    Path::new(base).join(path).to_string_lossy().into_owned()
}

/// Calls `std::path::Path::strip_prefix`. Believed, not proved: whether it succeeds, and
/// with what, depends on the characters of the two paths alone.
#[verifier::external_body]
pub(crate) fn strip_prefix(path: &str, base: &str) -> (rest: Result<String, StripPrefixError>)
    ensures
        match rest {
            Ok(rest) => path_strip_prefix(path@, base@) == Some(rest@),
            Err(_) => path_strip_prefix(path@, base@) is None,
        },
{
    match Path::new(path).strip_prefix(base) {
        Ok(rest) => Ok(rest.to_string_lossy().into_owned()),
        Err(error) => Err(error),
    }
}

/// Calls `std::path::Path::with_extension`, which panics on an extension that holds a path
/// separator. Believed, not proved: the result depends on the characters of the path and of
/// the extension alone.
#[verifier::external_body]
pub(crate) fn with_extension(path: &str, extension: &str) -> (changed: String)
    requires
        no_separator(extension@),
    ensures
        changed@ == path_with_extension(path@, extension@),
{
    Path::new(path).with_extension(extension).to_string_lossy().into_owned()
}

} // verus!
