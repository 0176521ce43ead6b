//! Calls into `url` (through `tower-lsp`) and into `std::path`, for the
//! facts of URLs and paths that the library decides on.

use vstd::prelude::*;

verus! {

/// The text of the URL that `Url::parse` makes of `s` (its serialization,
/// normalized as the `url` crate normalizes it), or `None` when `s` is not a
/// URL.
pub uninterp spec fn url_normalized(s: Seq<char>) -> Option<Seq<char>>;

/// `Url::parse`, with the parsed URL written back as text (`Url`'s
/// `Display` writes its serialization).
#[verifier::external_body]
pub(crate) fn normalize_url(s: &str) -> (r: Option<String>)
    ensures
        match r {
            Some(u) => url_normalized(s@) == Some(u@),
            None => url_normalized(s@) is None,
        },
{
    match tower_lsp::lsp_types::Url::parse(s) {
        Ok(u) => Some(u.to_string()),
        Err(_) => None,
    }
}

/// `Path::parent`, with the parent written as text. The parent is a
/// leading part of the path (`Path::parent` returns a prefix slice of it).
/// Which prefix, and when there is none, depends on the platform's path
/// syntax and is not stated here.
#[verifier::external_body]
pub(crate) fn parent_of(p: &str) -> (r: Option<String>)
    ensures
        r matches Some(d) ==> d@.is_prefix_of(p@),
{
    match std::path::Path::new(p).parent() {
        Some(d) => Some(d.to_string_lossy().into_owned()),
        None => None,
    }
}

/// A non-empty piece of the text `p` that holds no `/`: what a path's last
/// component is on every platform (`/` separates components everywhere).
pub open spec fn is_component_of(n: Seq<char>, p: Seq<char>) -> bool {
    &&& n.len() > 0
    &&& !n.contains('/')
    &&& exists|i: int| 0 <= i && i + n.len() <= p.len() && #[trigger] p.subrange(i, i + n.len()) == n
}

/// `Path::file_name`, with the name written as text. The name is a
/// non-empty piece of the path without `/` (`Path::file_name` returns its
/// last normal component, a slice of it, and `/` separates components on
/// every platform). Which piece, and when there is none, depends on the
/// platform's path syntax and is not stated here.
#[verifier::external_body]
pub(crate) fn file_name_of(p: &str) -> (r: Option<String>)
    ensures
        r matches Some(n) ==> is_component_of(n@, p@),
{
    match std::path::Path::new(p).file_name() {
        Some(n) => Some(n.to_string_lossy().into_owned()),
        None => None,
    }
}

/// `Path::file_stem`, with the stem written as text: the file name without
/// its last extension, or the whole name where that would leave nothing
/// (`.bashrc`). It is a slice of the file name, so like it a non-empty piece
/// of the path without `/`. Which piece, and when there is none, depends on
/// the platform's path syntax and is not stated here.
#[verifier::external_body]
pub(crate) fn file_stem_of(p: &str) -> (r: Option<String>)
    ensures
        r matches Some(n) ==> is_component_of(n@, p@),
{
    match std::path::Path::new(p).file_stem() {
        Some(n) => Some(n.to_string_lossy().into_owned()),
        None => None,
    }
}

/// `Url::parse` then `Url::to_file_path`, with the path written as text.
/// There is a path only where the text parses as a URL; which path, and
/// for which URLs (scheme, host), depends on the platform and is not stated
/// here.
#[verifier::external_body]
pub(crate) fn file_path_of(uri: &str) -> (r: Option<String>)
    ensures
        r is Some ==> url_normalized(uri@) is Some,
{
    match tower_lsp::lsp_types::Url::parse(uri) {
        Ok(u) => match u.to_file_path() {
            Ok(path) => Some(path.to_string_lossy().into_owned()),
            Err(_) => None,
        },
        Err(_) => None,
    }
}

} // verus!
