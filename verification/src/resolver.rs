//! Target resolution: which executable target of a workspace a run is about.
use vstd::prelude::*;
use vstd::string::StringExecFns;
use crate::text::{concat3, join, joined, texts};

verus! {

/// A buildable entry point of a package.
#[derive(Clone, Debug)]
pub struct BuildTarget {
    pub name: String,
    pub kind: Vec<String>,
    pub src_path: String,
}

/// A package of the dependency graph, with its targets.
#[derive(Clone, Debug)]
pub struct Package {
    pub id: String,
    pub manifest_path: String,
    pub targets: Vec<BuildTarget>,
}

/// What is known of a workspace: every package of the graph, the identities
/// of those that are members, and the shared build-output directory.
#[derive(Clone, Debug)]
pub struct Metadata {
    pub packages: Vec<Package>,
    pub workspace_members: Vec<String>,
    pub target_directory: String,
}

/// How the caller points at a target.
#[derive(Clone, Debug)]
pub enum Selection {
    ByName(String),
    BySourcePath(String),
    Infer,
}

/// A selection as contracts see it.
pub enum Criterion {
    Name(Seq<char>),
    SourcePath(Seq<char>),
    Any,
}

impl View for Selection {
    type V = Criterion;

    open spec fn view(&self) -> Criterion {
        match self {
            Selection::ByName(name) => Criterion::Name(name@),
            Selection::BySourcePath(path) => Criterion::SourcePath(path@),
            Selection::Infer => Criterion::Any,
        }
    }
}

/// Why no single target was resolved.
#[derive(Clone, Debug)]
pub enum ResolveError {
    NoTargetNamed(String),
    MultipleTargetsNamed(String),
    NotMainSource(String),
    /// Several targets have the source path: the path, then their names.
    MultipleTargetsWithSource(String, Vec<String>),
    NoTarget,
    Ambiguous(Vec<String>),
}

/// A target as contracts see it.
pub struct TargetModel {
    pub name: Seq<char>,
    pub kind: Seq<Seq<char>>,
    pub src_path: Seq<char>,
}

/// A package as contracts see it.
pub struct PackageModel {
    pub id: Seq<char>,
    pub manifest_path: Seq<char>,
    pub targets: Seq<TargetModel>,
}

/// A workspace as contracts see it.
pub struct Workspace {
    pub packages: Seq<PackageModel>,
    pub members: Seq<Seq<char>>,
    pub target_directory: Seq<char>,
}

impl View for BuildTarget {
    type V = TargetModel;

    open spec fn view(&self) -> TargetModel {
        TargetModel { name: self.name@, kind: texts(self.kind@), src_path: self.src_path@ }
    }
}

impl View for Package {
    type V = PackageModel;

    open spec fn view(&self) -> PackageModel {
        PackageModel {
            id: self.id@,
            manifest_path: self.manifest_path@,
            targets: Seq::new(self.targets@.len(), |i: int| self.targets@[i]@),
        }
    }
}

impl View for Metadata {
    type V = Workspace;

    open spec fn view(&self) -> Workspace {
        Workspace {
            packages: Seq::new(self.packages@.len(), |i: int| self.packages@[i]@),
            members: texts(self.workspace_members@),
            target_directory: self.target_directory@,
        }
    }
}

/// A position in the metadata: the package's index and the target's index
/// within it.
pub type Position = (usize, usize);

/// Whether the target's kind is exactly the one-element list `["bin"]`.
pub open spec fn is_executable(target: TargetModel) -> bool {
    target.kind.len() == 1 && target.kind[0] == "bin"@
}

/// Whether `id` is among the workspace's members.
pub open spec fn is_member(ws: Workspace, id: Seq<char>) -> bool {
    exists|k: int| 0 <= k < ws.members.len() && #[trigger] ws.members[k] == id
}

/// Whether `(p, t)` is an executable target of a member package.
pub open spec fn is_candidate(ws: Workspace, p: int, t: int) -> bool {
    &&& 0 <= p < ws.packages.len()
    &&& 0 <= t < ws.packages[p].targets.len()
    &&& is_member(ws, ws.packages[p].id)
    &&& is_executable(ws.packages[p].targets[t])
}

/// The executable targets among the first `upto` targets of package `p`.
pub open spec fn package_candidates(ws: Workspace, p: int, upto: int) -> Seq<Position>
    decreases upto,
{
    if upto <= 0 {
        Seq::empty()
    } else {
        let rest = package_candidates(ws, p, upto - 1);
        if is_executable(ws.packages[p].targets[upto - 1]) {
            rest.push((p as usize, (upto - 1) as usize))
        } else {
            rest
        }
    }
}

/// The candidates among the first `upto` packages.
pub open spec fn candidates_upto(ws: Workspace, upto: int) -> Seq<Position>
    decreases upto,
{
    if upto <= 0 {
        Seq::empty()
    } else {
        let rest = candidates_upto(ws, upto - 1);
        if is_member(ws, ws.packages[upto - 1].id) {
            rest + package_candidates(ws, upto - 1, ws.packages[upto - 1].targets.len() as int)
        } else {
            rest
        }
    }
}

/// Every executable target of a member package, by package and then by
/// target, each once.
pub open spec fn candidates(ws: Workspace) -> Seq<Position> {
    candidates_upto(ws, ws.packages.len() as int)
}

/// The target at a position.
pub open spec fn target_at(ws: Workspace, c: Position) -> TargetModel {
    ws.packages[c.0 as int].targets[c.1 as int]
}

/// Whether a selection admits the target at `c`.
pub open spec fn selects(ws: Workspace, sel: Criterion, c: Position) -> bool {
    match sel {
        Criterion::Name(name) => target_at(ws, c).name == name,
        Criterion::SourcePath(path) => target_at(ws, c).src_path == path,
        Criterion::Any => true,
    }
}

/// Those of `cands` that the selection admits, in order.
pub open spec fn admitted(ws: Workspace, sel: Criterion, cands: Seq<Position>) -> Seq<Position>
    decreases cands.len(),
{
    if cands.len() == 0 {
        Seq::empty()
    } else {
        let rest = admitted(ws, sel, cands.drop_last());
        if selects(ws, sel, cands.last()) {
            rest.push(cands.last())
        } else {
            rest
        }
    }
}

/// The candidates that a selection admits.
pub open spec fn matches_of(ws: Workspace, sel: Criterion) -> Seq<Position> {
    admitted(ws, sel, candidates(ws))
}

/// The names of the targets at the given positions.
pub open spec fn names_at(ws: Workspace, cands: Seq<Position>) -> Seq<Seq<char>> {
    Seq::new(cands.len(), |i: int| target_at(ws, cands[i]).name)
}

/// Whether every position is inside the metadata.
pub open spec fn in_bounds(ws: Workspace, cands: Seq<Position>) -> bool {
    forall|i: int|
        0 <= i < cands.len() ==> is_candidate(ws, (#[trigger] cands[i]).0 as int, cands[i].1 as int)
}

/// Whether `err` is the error that a selection gives when the number of
/// admitted candidates is not one: for a name or a path, which of them was
/// asked for; with nothing asked for, the names of all candidates.
pub open spec fn failure_of(ws: Workspace, sel: Criterion, err: ResolveError) -> bool {
    let found = matches_of(ws, sel);
    match sel {
        Criterion::Name(name) => if found.len() == 0 {
            err matches ResolveError::NoTargetNamed(n) && n@ == name
        } else {
            err matches ResolveError::MultipleTargetsNamed(n) && n@ == name
        },
        Criterion::SourcePath(path) => if found.len() == 0 {
            err matches ResolveError::NotMainSource(p) && p@ == path
        } else {
            err matches ResolveError::MultipleTargetsWithSource(p, names) && p@ == path && texts(
                names@,
            ) == names_at(ws, found)
        },
        Criterion::Any => if found.len() == 0 {
            err is NoTarget
        } else {
            err matches ResolveError::Ambiguous(names) && texts(names@) == names_at(ws, found)
        },
    }
}

/// What resolution owes: the one admitted candidate with its package when
/// there is exactly one, and otherwise the selection's error.
pub open spec fn resolved(
    ws: Workspace,
    sel: Criterion,
    r: Result<(&BuildTarget, &Package), ResolveError>,
) -> bool {
    let found = matches_of(ws, sel);
    match r {
        Ok((target, package)) => {
            &&& found.len() == 1
            &&& is_candidate(ws, found[0].0 as int, found[0].1 as int)
            &&& package@ == ws.packages[found[0].0 as int]
            &&& target@ == target_at(ws, found[0])
        },
        Err(err) => found.len() != 1 && failure_of(ws, sel, err),
    }
}

/// A position is among the candidates exactly if it is an executable
/// target of a member package.
pub proof fn lemma_candidates_exact(md: &Metadata, p: int, t: int)
    ensures
        is_candidate(md@, p, t) <==> (0 <= p <= usize::MAX && 0 <= t <= usize::MAX && candidates(md@,
        ).contains((p as usize, t as usize))),
{
    lemma_candidates_upto(md, md.packages@.len() as int, p, t);
}

proof fn lemma_package_candidates(md: &Metadata, p: int, upto: int, q: int, t: int)
    requires
        0 <= p < md.packages@.len(),
        0 <= upto <= md.packages@[p].targets@.len(),
        0 <= p <= usize::MAX,
        upto <= usize::MAX + 1,
    ensures
        (0 <= q <= usize::MAX && 0 <= t <= usize::MAX && package_candidates(md@, p, upto).contains(
            (q as usize, t as usize),
        )) <==> (q == p && 0 <= t < upto && is_executable(md@.packages[p].targets[t])),
    decreases upto,
{
    if upto > 0 {
        lemma_package_candidates(md, p, upto - 1, q, t);
        let rest = package_candidates(md@, p, upto - 1);
        let last = (p as usize, (upto - 1) as usize);
        if is_executable(md@.packages[p].targets[upto - 1]) {
            assert(rest.push(last).last() == last);
            assert(rest.push(last).drop_last() =~= rest);
            assert(forall|c: Position| rest.push(last).contains(c) <==> (rest.contains(c) || c == last)) by {
                assert forall|c: Position| rest.push(last).contains(c) implies (rest.contains(c) || c
                    == last) by {
                    let i = choose|i: int| 0 <= i < rest.push(last).len() && rest.push(last)[i] == c;
                    if i < rest.len() {
                        assert(rest[i] == c);
                    }
                }
                assert forall|c: Position| (rest.contains(c) || c == last) implies rest.push(
                    last,
                ).contains(c) by {
                    if rest.contains(c) {
                        let i = choose|i: int| 0 <= i < rest.len() && rest[i] == c;
                        assert(rest.push(last)[i] == c);
                    } else {
                        assert(rest.push(last)[rest.len() as int] == c);
                    }
                }
            }
        }
    }
}

proof fn lemma_candidates_upto(md: &Metadata, upto: int, p: int, t: int)
    requires
        0 <= upto <= md.packages@.len(),
    ensures
        (0 <= p <= usize::MAX && 0 <= t <= usize::MAX && candidates_upto(md@, upto).contains(
            (p as usize, t as usize),
        )) <==> (p < upto && is_candidate(md@, p, t)),
    decreases upto,
{
    if upto > 0 {
        lemma_candidates_upto(md, upto - 1, p, t);
        let rest = candidates_upto(md@, upto - 1);
        if is_member(md@, md@.packages[upto - 1].id) {
            assert(md.packages.len() == md.packages@.len());
            assert(md.packages@[upto - 1].targets.len() == md.packages@[upto - 1].targets@.len());
            let more = package_candidates(md@,
                upto - 1,
                md.packages@[upto - 1].targets@.len() as int,
            );
            lemma_package_candidates(
                md,
                upto - 1,
                md.packages@[upto - 1].targets@.len() as int,
                p,
                t,
            );
            if 0 <= p <= usize::MAX && 0 <= t <= usize::MAX {
                let c = (p as usize, t as usize);
                if (rest + more).contains(c) {
                    let i = choose|i: int| 0 <= i < (rest + more).len() && (rest + more)[i] == c;
                    if i < rest.len() {
                        assert(rest[i] == c);
                    } else {
                        assert(more[i - rest.len()] == c);
                    }
                }
                if rest.contains(c) {
                    let i = choose|i: int| 0 <= i < rest.len() && rest[i] == c;
                    assert((rest + more)[i] == c);
                }
                if more.contains(c) {
                    let i = choose|i: int| 0 <= i < more.len() && more[i] == c;
                    assert((rest + more)[i + rest.len()] == c);
                }
            }
        }
    }
}

/// Whether `a` comes before `b`: in an earlier package, or earlier in the
/// same package.
pub open spec fn comes_before(a: Position, b: Position) -> bool {
    a.0 < b.0 || (a.0 == b.0 && a.1 < b.1)
}

/// Whether the positions stand in the order of the metadata.
pub open spec fn ordered(s: Seq<Position>) -> bool {
    forall|i: int, j: int| 0 <= i < j < s.len() ==> comes_before(#[trigger] s[i], #[trigger] s[j])
}

/// Whether every position lies in package `p`, before target `upto`.
pub open spec fn all_in_package(s: Seq<Position>, p: int, upto: int) -> bool {
    forall|i: int| 0 <= i < s.len() ==> (#[trigger] s[i]).0 == p && s[i].1 < upto
}

/// Whether every position lies in a package before `upto`.
pub open spec fn all_below(s: Seq<Position>, upto: int) -> bool {
    forall|i: int| 0 <= i < s.len() ==> (#[trigger] s[i]).0 < upto
}

proof fn lemma_package_candidates_ordered(md: &Metadata, p: int, upto: int)
    requires
        0 <= p < md@.packages.len(),
        0 <= upto <= md@.packages[p].targets.len(),
    ensures
        all_in_package(package_candidates(md@, p, upto), p, upto),
        ordered(package_candidates(md@, p, upto)),
    decreases upto,
{
    assert(md.packages.len() == md.packages@.len());
    assert(md.packages@[p].targets.len() == md.packages@[p].targets@.len());
    if upto > 0 {
        lemma_package_candidates_ordered(md, p, upto - 1);
        let rest = package_candidates(md@, p, upto - 1);
        let cur = package_candidates(md@, p, upto);
        let last = (p as usize, (upto - 1) as usize);
        if is_executable(md@.packages[p].targets[upto - 1]) {
            assert(cur == rest.push(last));
            assert forall|i: int| 0 <= i < cur.len() implies (#[trigger] cur[i]).0 == p && cur[i].1
                < upto by {
                if i < rest.len() {
                    assert(cur[i] == rest[i]);
                }
            }
            assert forall|i: int, j: int| 0 <= i < j < cur.len() implies comes_before(
                #[trigger] cur[i],
                #[trigger] cur[j],
            ) by {
                assert(cur[i] == rest[i]);
                if j < rest.len() {
                    assert(cur[j] == rest[j]);
                }
            }
        } else {
            assert(cur == rest);
            assert forall|i: int| 0 <= i < cur.len() implies (#[trigger] cur[i]).0 == p && cur[i].1
                < upto by {
                assert(cur[i] == rest[i]);
            }
        }
    }
}

proof fn lemma_candidates_upto_ordered(md: &Metadata, upto: int)
    requires
        0 <= upto <= md@.packages.len(),
    ensures
        all_below(candidates_upto(md@, upto), upto),
        ordered(candidates_upto(md@, upto)),
    decreases upto,
{
    if upto > 0 {
        lemma_candidates_upto_ordered(md, upto - 1);
        let rest = candidates_upto(md@, upto - 1);
        let cur = candidates_upto(md@, upto);
        if is_member(md@, md@.packages[upto - 1].id) {
            let n = md@.packages[upto - 1].targets.len() as int;
            let more = package_candidates(md@, upto - 1, n);
            lemma_package_candidates_ordered(md, upto - 1, n);
            assert(cur == rest + more);
            assert forall|i: int| 0 <= i < cur.len() implies (#[trigger] cur[i]).0 < upto by {
                if i < rest.len() {
                    assert(cur[i] == rest[i]);
                } else {
                    assert(cur[i] == more[i - rest.len()]);
                }
            }
            assert forall|i: int, j: int| 0 <= i < j < cur.len() implies comes_before(
                #[trigger] cur[i],
                #[trigger] cur[j],
            ) by {
                if j < rest.len() {
                    assert(cur[i] == rest[i] && cur[j] == rest[j]);
                } else if i < rest.len() {
                    assert(cur[i] == rest[i] && cur[j] == more[j - rest.len()]);
                } else {
                    assert(cur[i] == more[i - rest.len()] && cur[j] == more[j - rest.len()]);
                }
            }
        } else {
            assert(cur == rest);
            assert forall|i: int| 0 <= i < cur.len() implies (#[trigger] cur[i]).0 < upto by {
                assert(cur[i] == rest[i]);
            }
        }
    }
}

/// The candidates stand in the order of the metadata, so none stands
/// twice.
pub proof fn lemma_candidates_ordered(md: &Metadata)
    ensures
        ordered(candidates(md@)),
        candidates(md@).no_duplicates(),
{
    lemma_candidates_upto_ordered(md, md@.packages.len() as int);
    let all = candidates(md@);
    assert forall|i: int, j: int| 0 <= i < all.len() && 0 <= j < all.len() && i != j implies all[i]
        != all[j] by {
        if i < j {
            assert(comes_before(all[i], all[j]));
        } else {
            assert(comes_before(all[j], all[i]));
        }
    }
}

/// Whether `id` is one of the workspace's members.
pub fn is_workspace_member(md: &Metadata, id: &String) -> (found: bool)
    ensures
        found == is_member(md@, id@),
{
    let mut k: usize = 0;
    while k < md.workspace_members.len()
        invariant
            k <= md.workspace_members@.len(),
            forall|j: int| 0 <= j < k ==> #[trigger] md@.members[j] != id@,
        decreases md.workspace_members@.len() - k,
    {
        if md.workspace_members[k] == *id {
            assert(md@.members[k as int] == id@);
            return true;
        }
        k += 1;
    }
    false
}

/// Whether the target is an executable: its kind is the list `["bin"]`.
pub fn is_bin_target(target: &BuildTarget) -> (yes: bool)
    ensures
        yes == is_executable(target@),
{
    if target.kind.len() != 1 {
        return false;
    }
    let bin = "bin".to_owned();
    target.kind[0] == bin
}

/// Lists every executable target of the workspace's member packages, by
/// package and then by target.
pub fn bin_targets(md: &Metadata) -> (found: Vec<Position>)
    ensures
        found@ == candidates(md@),
        in_bounds(md@, found@),
{
    let mut found: Vec<Position> = Vec::new();
    let mut p: usize = 0;
    while p < md.packages.len()
        invariant
            p <= md.packages@.len(),
            found@ == candidates_upto(md@, p as int),
            in_bounds(md@, found@),
        decreases md.packages@.len() - p,
    {
        let package = &md.packages[p];
        if is_workspace_member(md, &package.id) {
            let mut t: usize = 0;
            let ghost before = found@;
            while t < package.targets.len()
                invariant
                    p < md.packages@.len(),
                    *package == md.packages@[p as int],
                    is_member(md@, package.id@),
                    t <= package.targets@.len(),
                    before == candidates_upto(md@, p as int),
                    found@ == before + package_candidates(md@, p as int, t as int),
                    in_bounds(md@, found@),
                decreases package.targets@.len() - t,
            {
                if is_bin_target(&package.targets[t]) {
                    found.push((p, t));
                    assert(found@ =~= before + package_candidates(md@, p as int, t + 1));
                }
                t += 1;
            }
        }
        p += 1;
    }
    found
}

/// Whether the selection admits the candidate at `c`.
pub fn admits(md: &Metadata, sel: &Selection, c: Position) -> (yes: bool)
    requires
        is_candidate(md@, c.0 as int, c.1 as int),
    ensures
        yes == selects(md@, sel@, c),
{
    let target = &md.packages[c.0].targets[c.1];
    match sel {
        Selection::ByName(name) => target.name == *name,
        Selection::BySourcePath(path) => target.src_path == *path,
        Selection::Infer => true,
    }
}

/// Keeps, in order, the candidates that the selection admits.
pub fn keep_admitted(md: &Metadata, sel: &Selection, cands: &Vec<Position>) -> (found: Vec<Position>)
    requires
        in_bounds(md@, cands@),
    ensures
        found@ == admitted(md@, sel@, cands@),
        in_bounds(md@, found@),
{
    let mut found: Vec<Position> = Vec::new();
    let mut i: usize = 0;
    while i < cands.len()
        invariant
            i <= cands@.len(),
            in_bounds(md@, cands@),
            found@ == admitted(md@, sel@, cands@.take(i as int)),
            in_bounds(md@, found@),
        decreases cands@.len() - i,
    {
        let c = cands[i];
        assert(cands@.take(i + 1).drop_last() =~= cands@.take(i as int));
        assert(cands@.take(i + 1).last() == c);
        if admits(md, sel, c) {
            found.push(c);
        }
        i += 1;
    }
    assert(cands@.take(cands@.len() as int) =~= cands@);
    found
}

/// The names of the targets at the given positions, in order.
pub fn names_of(md: &Metadata, cands: &Vec<Position>) -> (names: Vec<String>)
    requires
        in_bounds(md@, cands@),
    ensures
        texts(names@) == names_at(md@, cands@),
{
    let mut names: Vec<String> = Vec::new();
    let mut i: usize = 0;
    while i < cands.len()
        invariant
            i <= cands@.len(),
            in_bounds(md@, cands@),
            names@.len() == i,
            forall|j: int| 0 <= j < i ==> (#[trigger] names@[j])@ == target_at(md@, cands@[j]).name,
        decreases cands@.len() - i,
    {
        let c = cands[i];
        names.push(md.packages[c.0].targets[c.1].name.clone());
        i += 1;
    }
    assert(texts(names@) =~= names_at(md@, cands@));
    names
}

/// Resolves a selection to the one target that it admits, with the package
/// that owns it. Succeeds exactly if one candidate is admitted; otherwise
/// the error says what was asked for, or names every candidate when nothing
/// was asked for. No default is ever applied.
pub fn resolve<'a>(md: &'a Metadata, sel: &Selection) -> (r: Result<
    (&'a BuildTarget, &'a Package),
    ResolveError,
>)
    ensures
        resolved(md@, sel@, r),
        r is Ok <==> matches_of(md@, sel@).len() == 1,
{
    let cands = bin_targets(md);
    let found = keep_admitted(md, sel, &cands);
    if found.len() == 1 {
        let c = found[0];
        let package = &md.packages[c.0];
        return Ok((&package.targets[c.1], package));
    }
    let none = found.len() == 0;
    match sel {
        Selection::ByName(name) => if none {
            Err(ResolveError::NoTargetNamed(name.clone()))
        } else {
            Err(ResolveError::MultipleTargetsNamed(name.clone()))
        },
        Selection::BySourcePath(path) => if none {
            Err(ResolveError::NotMainSource(path.clone()))
        } else {
            Err(ResolveError::MultipleTargetsWithSource(path.clone(), names_of(md, &found)))
        },
        Selection::Infer => if none {
            Err(ResolveError::NoTarget)
        } else {
            Err(ResolveError::Ambiguous(names_of(md, &found)))
        },
    }
}

/// The one executable target called `name`.
pub fn bin_target_by_name<'a>(md: &'a Metadata, name: &str) -> (r: Result<
    (&'a BuildTarget, &'a Package),
    ResolveError,
>)
    ensures
        resolved(md@, Criterion::Name(name@), r),
        r is Ok <==> matches_of(md@, Criterion::Name(name@)).len() == 1,
{
    resolve(md, &Selection::ByName(name.to_owned()))
}

/// The one executable target whose main source file is `src_path`, an
/// absolute path that is compared as it stands.
pub fn bin_target_by_src_path<'a>(md: &'a Metadata, src_path: &str) -> (r: Result<
    (&'a BuildTarget, &'a Package),
    ResolveError,
>)
    ensures
        resolved(md@, Criterion::SourcePath(src_path@), r),
        r is Ok <==> matches_of(md@, Criterion::SourcePath(src_path@)).len() == 1,
{
    resolve(md, &Selection::BySourcePath(src_path.to_owned()))
}

/// The workspace's only executable target.
pub fn exactly_one_bin_target<'a>(md: &'a Metadata) -> (r: Result<
    (&'a BuildTarget, &'a Package),
    ResolveError,
>)
    ensures
        resolved(md@, Criterion::Any, r),
        r is Ok <==> candidates(md@).len() == 1,
{
    proof {
        lemma_admitted_all(md@, candidates(md@));
    }
    resolve(md, &Selection::Infer)
}

/// What an ambiguous inference says before it lists the candidates.
pub const AMBIGUOUS_HEAD: &'static str =
    "could not determine which binary to choose. Use the `--bin` option or `--src` option to specify a binary.\navailable binaries: ";

/// What it says after them.
pub const AMBIGUOUS_NOTE: &'static str =
    "\nnote: currently `cargo-executable-payload` does not support the `default-run` manifest key.";

/// The text of an error, as the user reads it.
pub open spec fn message_text(err: ResolveError) -> Seq<char> {
    match err {
        ResolveError::NoTargetNamed(name) => "no bin target named `"@ + name@ + "`"@,
        ResolveError::MultipleTargetsNamed(name) => "multiple bin targets named `"@ + name@
            + "` in this workspace"@,
        ResolveError::NotMainSource(path) => "`"@ + path@
            + "` is not the main source file of any bin targets in this workspace "@,
        ResolveError::MultipleTargetsWithSource(path, names) =>
            "multiple bin targets which `src_path` is `"@ + path@ + "`: "@ + joined(
                texts(names@),
                ", "@,
            ),
        ResolveError::NoTarget => "no bin target in this workspace"@,
        ResolveError::Ambiguous(names) => AMBIGUOUS_HEAD@
            + joined(texts(names@), ", "@)
            + AMBIGUOUS_NOTE@,
    }
}

impl ResolveError {
    /// The error's text. An ambiguous inference lists every candidate's
    /// name, and a source path that several targets share lists theirs,
    /// separated by commas, so that the caller can pick one.
    pub fn message(&self) -> (text: String)
        ensures
            text@ == message_text(*self),
    {
        match self {
            ResolveError::NoTargetNamed(name) => concat3("no bin target named `", name.as_str(), "`"),
            ResolveError::MultipleTargetsNamed(name) => concat3(
                "multiple bin targets named `",
                name.as_str(),
                "` in this workspace",
            ),
            ResolveError::NotMainSource(path) => concat3(
                "`",
                path.as_str(),
                "` is not the main source file of any bin targets in this workspace ",
            ),
            ResolveError::MultipleTargetsWithSource(path, names) => {
                let listed = join(names, ", ");
                let mut text = concat3(
                    "multiple bin targets which `src_path` is `",
                    path.as_str(),
                    "`: ",
                );
                text.append(listed.as_str());
                text
            },
            ResolveError::NoTarget => "no bin target in this workspace".to_owned(),
            ResolveError::Ambiguous(names) => {
                let listed = join(names, ", ");
                concat3(
                    AMBIGUOUS_HEAD,
                    listed.as_str(),
                    AMBIGUOUS_NOTE,
                )
            },
        }
    }
}

/// When a target is to be inferred and there are several candidates, the
/// error's text names every one of them, in order.
pub proof fn lemma_ambiguity_names_all(ws: Workspace, err: ResolveError)
    requires
        candidates(ws).len() > 1,
        failure_of(ws, Criterion::Any, err),
    ensures
        message_text(err)
            == AMBIGUOUS_HEAD@
            + joined(names_at(ws, candidates(ws)), ", "@)
            + AMBIGUOUS_NOTE@,
{
    lemma_admitted_all(ws, candidates(ws));
}

/// When several targets share the source path that was asked for, the
/// error's text names every one of them, in order.
pub proof fn lemma_shared_source_names_all(ws: Workspace, path: Seq<char>, err: ResolveError)
    requires
        matches_of(ws, Criterion::SourcePath(path)).len() > 1,
        failure_of(ws, Criterion::SourcePath(path), err),
    ensures
        message_text(err) == "multiple bin targets which `src_path` is `"@ + path + "`: "@ + joined(
            names_at(ws, matches_of(ws, Criterion::SourcePath(path))),
            ", "@,
        ),
{
}

/// Every target that a name admits bears that name, so the error for a name
/// that several targets bear names each of them.
pub proof fn lemma_named_matches_bear_the_name(ws: Workspace, name: Seq<char>, i: int)
    requires
        0 <= i < matches_of(ws, Criterion::Name(name)).len(),
    ensures
        names_at(ws, matches_of(ws, Criterion::Name(name)))[i] == name,
{
    let found = matches_of(ws, Criterion::Name(name));
    lemma_admitted_exact(ws, Criterion::Name(name), candidates(ws), found[i]);
    assert(found.contains(found[i]));
}

/// A position is among those admitted exactly if it is among those given
/// and the selection admits it.
pub proof fn lemma_admitted_exact(ws: Workspace, sel: Criterion, cands: Seq<Position>, c: Position)
    ensures
        admitted(ws, sel, cands).contains(c) <==> cands.contains(c) && selects(ws, sel, c),
    decreases cands.len(),
{
    if cands.len() > 0 {
        let front = cands.drop_last();
        let last = cands.last();
        lemma_admitted_exact(ws, sel, front, c);
        let rest = admitted(ws, sel, front);
        if cands.contains(c) {
            let i = choose|i: int| 0 <= i < cands.len() && cands[i] == c;
            if i < front.len() {
                assert(front[i] == c);
            }
        }
        if front.contains(c) {
            let i = choose|i: int| 0 <= i < front.len() && front[i] == c;
            assert(cands[i] == c);
        }
        assert(cands[cands.len() - 1] == last);
        if selects(ws, sel, last) {
            let all = rest.push(last);
            if all.contains(c) {
                let i = choose|i: int| 0 <= i < all.len() && all[i] == c;
                if i < rest.len() {
                    assert(rest[i] == c);
                }
            }
            if rest.contains(c) {
                let i = choose|i: int| 0 <= i < rest.len() && rest[i] == c;
                assert(all[i] == c);
            }
            assert(all[rest.len() as int] == last);
        }
    }
}

/// A position is among the matches of a selection exactly if it is an
/// executable target of a member package that the selection admits.
pub proof fn lemma_matches_exact(md: &Metadata, sel: Criterion, p: int, t: int)
    ensures
        (is_candidate(md@, p, t) && selects(md@, sel, (p as usize, t as usize))) <==> (0 <= p
            <= usize::MAX && 0 <= t <= usize::MAX && matches_of(md@, sel).contains(
            (p as usize, t as usize),
        )),
{
    lemma_candidates_exact(md, p, t);
    lemma_admitted_exact(md@, sel, candidates(md@), (p as usize, t as usize));
}

/// With nothing asked for, every candidate is admitted.
pub proof fn lemma_admitted_all(ws: Workspace, cands: Seq<Position>)
    ensures
        admitted(ws, Criterion::Any, cands) == cands,
    decreases cands.len(),
{
    if cands.len() > 0 {
        lemma_admitted_all(ws, cands.drop_last());
        assert(cands.drop_last().push(cands.last()) =~= cands);
    }
}

} // verus!
