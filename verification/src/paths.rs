use vstd::prelude::*;

verus! {

/// What `Path::extension` gives for this path: the part of the file name
/// after its last dot, if it has one.
pub uninterp spec fn path_extension(path: Seq<char>) -> Option<Seq<char>>;

/// What `Path::parent` gives for this path.
pub uninterp spec fn path_parent(path: Seq<char>) -> Option<Seq<char>>;

/// What `Path::join` gives for these paths.
pub uninterp spec fn path_joined(base: Seq<char>, tail: Seq<char>) -> Seq<char>;

/// Whether `Path`'s `==` holds these paths equal (component by component).
pub uninterp spec fn same_path(a: Seq<char>, b: Seq<char>) -> bool;

/// What `Path::strip_prefix` gives for `path` and `base`, when it succeeds.
pub uninterp spec fn path_stripped(path: Seq<char>, base: Seq<char>) -> Option<Seq<char>>;

/// The extension of `path`: calls `std::path::Path::extension` and returns
/// it as text. Trusted: the contract claims only that the result is the
/// value `path_extension` names for this path, and `None` exactly when that
/// is `None`; how the extension is found is left to std.
#[verifier::external_body]
pub(crate) fn extension_of(path: &str) -> (res: Option<String>)
    ensures
        match res {
            Some(e) => path_extension(path@) == Some(e@),
            None => path_extension(path@) is None,
        },
{
    match std::path::Path::new(path).extension() {
        Some(e) => Some(e.to_string_lossy().into_owned()),
        None => None,
    }
}

/// The parent of `path`: calls `std::path::Path::parent` and returns it as
/// text. Trusted: the contract claims only that the result is the value
/// `path_parent` names for this path.
#[verifier::external_body]
pub(crate) fn parent_of(path: &str) -> (res: Option<String>)
    ensures
        match res {
            Some(p) => path_parent(path@) == Some(p@),
            None => path_parent(path@) is None,
        },
{
    match std::path::Path::new(path).parent() {
        Some(p) => Some(p.to_string_lossy().into_owned()),
        None => None,
    }
}

/// `tail` joined onto `base`: calls `std::path::Path::join`. Trusted: the
/// contract claims only that the result is the value `path_joined` names
/// for these two paths.
#[verifier::external_body]
pub(crate) fn join_path(base: &str, tail: &str) -> (res: String)
    ensures
        res@ == path_joined(base@, tail@),
{
    std::path::Path::new(base).join(tail).to_string_lossy().into_owned()
}

/// Whether two paths are equal as paths: compares them with `==` on
/// `std::path::Path`, which compares their components. Trusted: the
/// contract claims that the answer is what `same_path` names, and that two
/// identical texts are equal paths (they have the same components).
#[verifier::external_body]
pub(crate) fn paths_equal(a: &str, b: &str) -> (res: bool)
    ensures
        res == same_path(a@, b@),
        a@ == b@ ==> res,
{
    std::path::Path::new(a) == std::path::Path::new(b)
}

/// `path` relative to `base`, if `base` is a prefix of it: calls
/// `std::path::Path::strip_prefix` and returns the rest as text, `None` on
/// its error. Trusted: the contract claims only that the result is what
/// `path_stripped` names for these paths.
#[verifier::external_body]
pub(crate) fn strip_path_prefix(path: &str, base: &str) -> (res: Option<String>)
    ensures
        match res {
            Some(p) => path_stripped(path@, base@) == Some(p@),
            None => path_stripped(path@, base@) is None,
        },
{
    match std::path::Path::new(path).strip_prefix(base) {
        Ok(p) => Some(p.to_string_lossy().into_owned()),
        Err(_) => None,
    }
}

} // verus!
