//! File-system paths as texts. What a path means is left to `std::path`: the
//! library asks it for the parts of a path and never takes a path apart
//! itself.

use vstd::prelude::*;

verus! {

/// The last component of `path`, where it has one, as `std::path::Path`
/// tells it on the platform that the library is built for.
pub uninterp spec fn path_file_name(path: Seq<char>) -> Option<Seq<char>>;

/// `path` with `other` adjoined, as `std::path::Path` adjoins paths on the
/// platform that the library is built for.
pub uninterp spec fn path_join(path: Seq<char>, other: Seq<char>) -> Seq<char>;

/// Calls `std::path::Path::file_name` on `path`. The contract gives the result
/// the name `path_file_name` and claims nothing else of it.
#[verifier::external_body]
pub(crate) fn file_name(path: &str) -> (name: Option<String>)
    ensures
        match name {
            Some(name) => path_file_name(path@) == Some(name@),
            None => path_file_name(path@) is None,
        },
{
    std::path::Path::new(path).file_name().map(|name| name.to_string_lossy().into_owned())
}

/// Calls `std::path::Path::join` on `path` with `other`. The contract gives
/// the result the name `path_join` and claims nothing else of it.
#[verifier::external_body]
pub(crate) fn join(path: &str, other: &str) -> (joined: String)
    ensures
        joined@ == path_join(path@, other@),
{
    std::path::Path::new(path).join(other).to_string_lossy().into_owned()
}

/// Whether `path` starts with a tilde that stands alone or before a
/// separator.
pub open spec fn starts_with_home(path: Seq<char>) -> bool {
    path.len() > 0 && path[0] == '~' && (path.len() == 1 || path[1] == '/' || path[1] == '\\')
}

/// Calls `shellexpand::tilde` on `path`, which puts the home directory of the
/// user in the place of a leading tilde. Whether there is a home directory
/// hangs on the user and the machine, so the contract claims only what holds either
/// way: a path without such a tilde comes back as it is, and any other comes
/// back as it is or with something in the place of its first character.
#[verifier::external_body]
pub(crate) fn expand_tilde(path: &str) -> (expanded: String)
    ensures
        !starts_with_home(path@) ==> expanded@ == path@,
        expanded@ == path@ || exists|home: Seq<char>| expanded@ == home + path@.skip(1),
{
    shellexpand::tilde(path).into_owned()
}

} // verus!
