//! File system paths, which the library carries as `String`s.
use vstd::prelude::*;

verus! {

/// What `std::path::Path::join` gives, rendered back to text. The path
/// rules are those of the platform the program is built for, so within one
/// build the result depends on the two texts alone; they take pages to
/// state and are not restated here.
pub uninterp spec fn path_joined(dir: Seq<char>, name: Seq<char>) -> Seq<char>;

/// What `Path::file_name` gives, as UTF-8 text (`None` when the path has no
/// file name or it is not UTF-8); named like [`path_joined`].
pub uninterp spec fn path_file_name(path: Seq<char>) -> Option<Seq<char>>;

/// What `Path::with_file_name` gives, rendered back to text; named like
/// [`path_joined`].
pub uninterp spec fn path_with_file_name(path: Seq<char>, name: Seq<char>) -> Seq<char>;

/// Whether two paths are equal as `std::path::Path` compares them: by their
/// components, so that a trailing `/` or an inner `.` makes no difference.
/// The component rules are the platform's; named like [`path_joined`].
pub uninterp spec fn path_equal(a: Seq<char>, b: Seq<char>) -> bool;

/// `==` on `std::path::Path`: the two paths have the same components. The
/// contract names the result ([`path_equal`]) and states only that a text
/// is always the same path as itself (`Path`'s equality is an `Eq`).
#[verifier::external_body]
pub(crate) fn same_path(a: &str, b: &str) -> (r: bool)
    ensures
        r == path_equal(a@, b@),
        a@ == b@ ==> r,
{
    std::path::Path::new(a) == std::path::Path::new(b)
}

/// `std::path::Path::join`: `name` appended to `dir` as one more path
/// component, rendered back to text. The contract names the result
/// ([`path_joined`]) and says no more of it.
#[verifier::external_body]
pub(crate) fn join_path(dir: &str, name: &str) -> (r: String)
    ensures
        r@ == path_joined(dir@, name@),
{
    std::path::Path::new(dir).join(name).to_string_lossy().into_owned()
}

/// `Path::file_name` of a path, as UTF-8: `None` when the path has no file
/// name (it ends in `..`, or is a root or a prefix) or the name is not
/// UTF-8. The contract names the result ([`path_file_name`]) and says no
/// more of it.
#[verifier::external_body]
pub(crate) fn file_name(path: &str) -> (r: Option<String>)
    ensures
        match r {
            Some(s) => path_file_name(path@) == Some(s@),
            None => path_file_name(path@) is None,
        },
{
    match std::path::Path::new(path).file_name() {
        Some(n) => match n.to_str() {
            Some(s) => Some(s.to_string()),
            None => None,
        },
        None => None,
    }
}

/// `Path::with_file_name`: the path with its file name replaced by `name`
/// (or `name` appended when it has none), rendered back to text. The
/// contract names the result ([`path_with_file_name`]) and says no more of
/// it.
#[verifier::external_body]
pub(crate) fn with_file_name(path: &str, name: &str) -> (r: String)
    ensures
        r@ == path_with_file_name(path@, name@),
{
    std::path::Path::new(path).with_file_name(name).to_string_lossy().into_owned()
}

} // verus!
