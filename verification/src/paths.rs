//! Filesystem paths, handled by `std::path` for the target system.
use vstd::prelude::*;

verus! {

/// `Path::canonicalize`, read back as text (non-UTF-8 parts replaced). It
/// consults the filesystem, so which path comes back is not stated; std
/// documents that it is the absolute form of the path, which is all that is
/// claimed.
#[verifier::external_body]
pub(crate) fn canonicalize_path(path: &str) -> (r: Option<String>)
    ensures
        r matches Some(p) ==> absolute_path(p@),
{
    std::path::Path::new(path).canonicalize().ok().map(|p| p.to_string_lossy().into_owned())
}

/// `Path::is_dir`; it consults the filesystem, so nothing is promised.
#[verifier::external_body]
pub(crate) fn path_is_dir(path: &str) -> (r: bool) {
    std::path::Path::new(path).is_dir()
}

/// `Path::is_file`; it consults the filesystem, so nothing is promised.
#[verifier::external_body]
pub(crate) fn path_is_file(path: &str) -> (r: bool) {
    std::path::Path::new(path).is_file()
}

/// Whether `Path::is_absolute` holds of a path text, by the path rules of the
/// system the library is built for.
pub uninterp spec fn absolute_path(path: Seq<char>) -> bool;

/// `Path::is_absolute`: a function of the text for a given target system;
/// only named here.
#[verifier::external_body]
pub(crate) fn path_is_absolute(path: &str) -> (r: bool)
    ensures
        r == absolute_path(path@),
{
    std::path::Path::new(path).is_absolute()
}

/// What `Path::join` makes of a base and a further path, as text.
pub uninterp spec fn joined_path(base: Seq<char>, rest: Seq<char>) -> Seq<char>;

/// `Path::join`, read back as text; only named here.
#[verifier::external_body]
pub(crate) fn path_join(base: &str, rest: &str) -> (r: String)
    ensures
        r@ == joined_path(base@, rest@),
{
    std::path::Path::new(base).join(rest).to_string_lossy().into_owned()
}

/// Whether `Path::starts_with` holds: `base` is a leading run of whole
/// components of `path`.
pub uninterp spec fn path_within(path: Seq<char>, base: Seq<char>) -> bool;

/// `Path::starts_with` (component-wise prefix); only named here.
#[verifier::external_body]
pub(crate) fn path_starts_with(path: &str, base: &str) -> (r: bool)
    ensures
        r == path_within(path@, base@),
{
    std::path::Path::new(path).starts_with(base)
}

/// The last component of a path, as `Path::file_name` gives it (none for a
/// path that ends in `..` or is a root), by the path rules of the target.
pub uninterp spec fn file_name_of(path: Seq<char>) -> Option<Seq<char>>;

/// `Path::file_name`, as text; only named here.
#[verifier::external_body]
pub(crate) fn path_file_name(path: &str) -> (r: Option<String>)
    ensures
        match r {
            Some(n) => file_name_of(path@) == Some(n@),
            None => file_name_of(path@) is None,
        },
{
    std::path::Path::new(path).file_name().and_then(|n| n.to_str()).map(|n| n.to_string())
}

} // verus!
