//! The two questions that are put to the path rules of the platform.

use vstd::prelude::*;

verus! {

/// The last component of `path` as `std::path::Path::file_name` gives it
/// under the path rules of the platform, or `None` where it gives none.
pub uninterp spec fn file_name_of(path: Seq<char>) -> Option<Seq<char>>;

/// `path` with its last component replaced by `file_name`, as
/// `std::path::Path::with_file_name` gives it under the path rules of the
/// platform.
pub uninterp spec fn with_file_name_of(path: Seq<char>, file_name: Seq<char>) -> Seq<char>;

/// The name of the module-definition file beside the archiver's argument file.
pub open spec fn definition_file_name() -> Seq<char> {
    "build_def.def"@
}

/// Where the module-definition file goes: beside `archiver_file`, under a
/// fixed name.
pub open spec fn definition_path_of(archiver_file: Seq<char>) -> Seq<char> {
    with_file_name_of(archiver_file, definition_file_name())
}

/// Calls `std::path::Path::file_name` on `path`. The call takes the path
/// apart by the platform's rules and hands back its last component; the
/// contract only gives that result its name. The path is text, so its
/// components are text too and nothing is lost in handing one back as a
/// `String`.
#[verifier::external_body]
pub(crate) fn file_name(path: &str) -> (name: Option<String>)
    ensures
        (name is Some) == (file_name_of(path@) is Some),
        name matches Some(text) ==> file_name_of(path@) == Some(text@),
{
    match std::path::Path::new(path).file_name() {
        Some(name) => Some(name.to_string_lossy().into_owned()),
        None => None,
    }
}

/// Calls `std::path::Path::with_file_name` on `path`. The call replaces the
/// last component of the path by `file_name`, or adds it where the path has
/// none; the contract only gives that result its name. Both arguments are
/// text, so the new path is text too.
#[verifier::external_body]
pub(crate) fn with_file_name(path: &str, file_name: &str) -> (sibling: String)
    ensures
        sibling@ == with_file_name_of(path@, file_name@),
{
    std::path::Path::new(path).with_file_name(file_name).to_string_lossy().into_owned()
}

/// The path of the module-definition file that belongs to `archiver_file`.
pub fn definition_path(archiver_file: &str) -> (path: String)
    ensures
        path@ == definition_path_of(archiver_file@),
{
    with_file_name(archiver_file, "build_def.def")
}

} // verus!
