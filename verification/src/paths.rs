//! Path operations, which the platform's rules decide.
use vstd::prelude::*;
use crate::text::texts;

verus! {

/// What `camino::Utf8Path::join` gives for a path and a part to adjoin, by
/// the rules of the platform that the library is built for.
pub uninterp spec fn joined_path(base: Seq<char>, part: Seq<char>) -> Seq<char>;

/// What `camino::Utf8Path::with_file_name` gives for a path and the file
/// name to put in place of its last component.
pub uninterp spec fn renamed_path(path: Seq<char>, name: Seq<char>) -> Seq<char>;

/// What `camino::Utf8Path::file_name` gives for a path.
pub uninterp spec fn file_name_of(path: Seq<char>) -> Option<Seq<char>>;

/// What `camino::Utf8Path::ancestors` hands out for a path, in order.
pub uninterp spec fn ancestors_of(path: Seq<char>) -> Seq<Seq<char>>;

/// `camino::Utf8Path::join`: the path with `part` adjoined. It reads
/// nothing but its two arguments, so the result is the one that
/// `joined_path` names.
#[verifier::external_body]
pub(crate) fn join_path(base: &str, part: &str) -> (path: String)
    ensures
        path@ == joined_path(base@, part@),
{
    camino::Utf8Path::new(base).join(part).into_string()
}

/// `camino::Utf8Path::with_file_name`: the path with its last component
/// replaced by `name`, or with `name` adjoined where it has none.
#[verifier::external_body]
pub(crate) fn with_file_name(path: &str, name: &str) -> (changed: String)
    ensures
        changed@ == renamed_path(path@, name@),
{
    camino::Utf8Path::new(path).with_file_name(name).into_string()
}

/// `camino::Utf8Path::file_name`: the final component, if there is one.
#[verifier::external_body]
pub(crate) fn path_file_name(path: &str) -> (name: Option<String>)
    ensures
        file_name_of(path@) == match name {
            Some(n) => Some(n@),
            None => None,
        },
{
    camino::Utf8Path::new(path).file_name().map(|name| name.to_owned())
}

/// `camino::Utf8Path::ancestors`: the path itself, then each of its parents
/// in turn, each as a string of its own.
#[verifier::external_body]
pub(crate) fn ancestors(path: &str) -> (dirs: Vec<String>)
    ensures
        texts(dirs@) == ancestors_of(path@),
{
    camino::Utf8Path::new(path).ancestors().map(|dir| dir.as_str().to_owned()).collect()
}

} // verus!
