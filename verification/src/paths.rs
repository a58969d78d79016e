//! File system paths, handled as text.

use vstd::prelude::*;

verus! {

/// The path that `Path::join` gives for `base` and `name`, as text.
pub uninterp spec fn spec_path_join(base: Seq<char>, name: Seq<char>) -> Seq<char>;

/// Joins `name` onto `base`.
///
/// Trusted: calls `std::path::Path::join`; its result depends on the two
/// paths alone, and is named by `spec_path_join`. The two arguments are
/// UTF-8, so the joined path is too and the lossy conversion changes nothing.
#[verifier::external_body]
pub(crate) fn path_join(base: &str, name: &str) -> (r: String)
    ensures
        r@ == spec_path_join(base@, name@),
{
    std::path::Path::new(base).join(name).to_string_lossy().into_owned()
}

/// What `Path::strip_prefix` gives for `path` and `base`, as text: the
/// rest of the path after the leading components of `base`, if `base` is
/// such a prefix.
pub uninterp spec fn spec_path_strip_prefix(path: Seq<char>, base: Seq<char>) -> Option<Seq<char>>;

/// The rest of `path` after the components of `base`.
///
/// Trusted: calls `std::path::Path::strip_prefix`, which compares whole
/// components, fails when `base` is not a prefix of `path`, and depends on
/// the two paths alone; its result is named by `spec_path_strip_prefix`.
/// The path is UTF-8, so its parts are too and the lossy conversion changes
/// nothing.
#[verifier::external_body]
pub(crate) fn path_strip_prefix(path: &str, base: &str) -> (r: Option<String>)
    ensures
        r matches Some(s) ==> spec_path_strip_prefix(path@, base@) == Some(s@),
        r is None ==> spec_path_strip_prefix(path@, base@) is None,
{
    match std::path::Path::new(path).strip_prefix(base) {
        Ok(rest) => Some(rest.to_string_lossy().into_owned()),
        Err(_) => None,
    }
}

} // verus!
