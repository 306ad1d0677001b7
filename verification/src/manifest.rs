//! Finding the manifest that a run is about.
use vstd::prelude::*;
use crate::paths::{
    ancestors, ancestors_of, join_path, joined_path, renamed_path, with_file_name,
};
use crate::text::{concat3, texts};

verus! {

/// No manifest was found in the directory or above it.
#[derive(Clone, Debug)]
pub struct NoManifest {
    pub cwd: String,
}

/// The text of the error.
pub open spec fn no_manifest_text(cwd: Seq<char>) -> Seq<char> {
    "could not find `Cargo.toml` in `"@ + cwd + "` or any parent directory"@
}

impl NoManifest {
    /// The error's text.
    pub fn message(&self) -> (text: String)
        ensures
            text@ == no_manifest_text(self.cwd@),
    {
        concat3("could not find `Cargo.toml` in `", self.cwd.as_str(), "` or any parent directory")
    }
}

/// Where a manifest may lie for a run in `cwd`: `Cargo.toml` in `cwd`
/// itself, then in each directory above it, nearest first.
pub fn manifest_candidates(cwd: &str) -> (paths: Vec<String>)
    ensures
        texts(paths@) == candidate_texts(cwd@),
{
    let dirs = ancestors(cwd);
    let mut paths: Vec<String> = Vec::new();
    let mut i: usize = 0;
    while i < dirs.len()
        invariant
            i <= dirs@.len(),
            texts(dirs@) == ancestors_of(cwd@),
            paths@.len() == i,
            forall|j: int|
                0 <= j < i ==> (#[trigger] paths@[j])@ == joined_path(dirs@[j]@, "Cargo.toml"@),
        decreases dirs@.len() - i,
    {
        paths.push(join_path(dirs[i].as_str(), "Cargo.toml"));
        i += 1;
    }
    assert forall|j: int| 0 <= j < paths@.len() implies texts(paths@)[j] == candidate_texts(
        cwd@,
    )[j] by {
        assert(ancestors_of(cwd@)[j] == texts(dirs@)[j]);
    }
    assert(texts(paths@) =~= candidate_texts(cwd@));
    paths
}

/// The manifest candidates for a run in `cwd`: for `cwd` and each directory
/// above it, in the order in which the ancestors come, that directory with
/// `Cargo.toml` adjoined.
pub open spec fn candidate_texts(cwd: Seq<char>) -> Seq<Seq<char>> {
    Seq::new(
        ancestors_of(cwd).len(),
        |i: int| joined_path(ancestors_of(cwd)[i], "Cargo.toml"@),
    )
}

/// The root directory of the package whose manifest lies at
/// `manifest_path`: that path with its file name taken away. The builder
/// and the tools run there.
pub fn package_root(manifest_path: &str) -> (dir: String)
    ensures
        dir@ == renamed_path(manifest_path@, Seq::empty()),
{
    proof {
        reveal_strlit("");
        assert(""@ =~= Seq::<char>::empty());
    }
    with_file_name(manifest_path, "")
}

/// Whether `k` is the first index at which a candidate is present.
pub open spec fn is_first_present(present: Seq<bool>, k: int) -> bool {
    &&& 0 <= k < present.len()
    &&& present[k]
    &&& forall|j: int| 0 <= j < k ==> !present[j]
}

/// Picks the manifest: the first candidate that is present. `present` says
/// of each candidate, in order, whether it exists; a candidate without an
/// entry counts as absent.
pub fn locate_project(cwd: &str, candidates: &Vec<String>, present: &Vec<bool>) -> (r: Result<
    String,
    NoManifest,
>)
    ensures
        match r {
            Ok(path) => exists|k: int|
                #[trigger] is_first_present(present@, k) && k < candidates@.len() && path@
                    == candidates@[k]@,
            Err(err) => {
                &&& forall|k: int|
                    0 <= k < candidates@.len() && k < present@.len() ==> !present@[k]
                &&& err.cwd@ == cwd@
            },
        },
{
    let mut k: usize = 0;
    while k < candidates.len() && k < present.len()
        invariant
            k <= candidates@.len(),
            k <= present@.len(),
            forall|j: int| 0 <= j < k ==> !present@[j],
        decreases candidates@.len() - k,
    {
        if present[k] {
            assert(is_first_present(present@, k as int));
            return Ok(candidates[k].clone());
        }
        k += 1;
    }
    Err(NoManifest { cwd: cwd.to_owned() })
}

} // verus!
