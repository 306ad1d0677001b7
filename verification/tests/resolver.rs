use cargo_executable_payload::options::{default_target, selection_of};
use cargo_executable_payload::resolver::{
    bin_target_by_name, bin_target_by_src_path, bin_targets, exactly_one_bin_target,
    is_bin_target, is_workspace_member, resolve, BuildTarget, Metadata, Package, ResolveError,
    Selection,
};

fn target(name: &str, kind: &[&str], src_path: &str) -> BuildTarget {
    BuildTarget {
        name: name.to_owned(),
        kind: kind.iter().map(|k| (*k).to_owned()).collect(),
        src_path: src_path.to_owned(),
    }
}

fn package(id: &str, targets: Vec<BuildTarget>) -> Package {
    Package {
        id: id.to_owned(),
        manifest_path: format!("/ws/{}/Cargo.toml", id),
        targets,
    }
}

fn workspace(packages: Vec<Package>, members: &[&str]) -> Metadata {
    Metadata {
        packages,
        workspace_members: members.iter().map(|m| (*m).to_owned()).collect(),
        target_directory: "/ws/target".to_owned(),
    }
}

fn two_bins() -> Metadata {
    workspace(
        vec![package(
            "p",
            vec![
                target("p", &["lib"], "/ws/p/src/lib.rs"),
                target("a", &["bin"], "/ws/p/src/bin/a.rs"),
                target("b", &["bin"], "/ws/p/src/bin/b.rs"),
            ],
        )],
        &["p"],
    )
}

#[test]
fn infer_single_target() {
    let md = workspace(
        vec![package("hello", vec![target("hello", &["bin"], "/ws/hello/src/main.rs")])],
        &["hello"],
    );
    let (t, p) = exactly_one_bin_target(&md).unwrap();
    assert_eq!(t.name, "hello");
    assert_eq!(t.src_path, "/ws/hello/src/main.rs");
    assert_eq!(p.id, "hello");
    assert_eq!(p.manifest_path, "/ws/hello/Cargo.toml");
}

#[test]
fn infer_two_targets_lists_both() {
    let md = two_bins();
    let err = exactly_one_bin_target(&md).unwrap_err();
    match &err {
        ResolveError::Ambiguous(names) => assert_eq!(names, &vec!["a".to_owned(), "b".to_owned()]),
        other => panic!("unexpected error {:?}", other),
    }
    assert_eq!(
        err.message(),
        "could not determine which binary to choose. Use the `--bin` option or `--src` option to specify a binary.\navailable binaries: a, b\nnote: currently `cargo-executable-payload` does not support the `default-run` manifest key."
    );
}

#[test]
fn by_name_selects_only_that_target() {
    let md = two_bins();
    let (t, p) = bin_target_by_name(&md, "a").unwrap();
    assert_eq!(t.name, "a");
    assert_eq!(t.src_path, "/ws/p/src/bin/a.rs");
    assert_eq!(p.id, "p");
    let (t, _) = bin_target_by_name(&md, "b").unwrap();
    assert_eq!(t.src_path, "/ws/p/src/bin/b.rs");
}

#[test]
fn by_name_missing() {
    let md = two_bins();
    let err = bin_target_by_name(&md, "c").unwrap_err();
    assert!(matches!(&err, ResolveError::NoTargetNamed(n) if n == "c"));
    assert_eq!(err.message(), "no bin target named `c`");
    // a library of that name is no candidate
    let err = bin_target_by_name(&md, "p").unwrap_err();
    assert!(matches!(&err, ResolveError::NoTargetNamed(n) if n == "p"));
}

#[test]
fn by_name_ambiguous_across_packages() {
    let md = workspace(
        vec![
            package("x", vec![target("tool", &["bin"], "/ws/x/src/main.rs")]),
            package("y", vec![target("tool", &["bin"], "/ws/y/src/main.rs")]),
        ],
        &["x", "y"],
    );
    let err = bin_target_by_name(&md, "tool").unwrap_err();
    assert!(matches!(&err, ResolveError::MultipleTargetsNamed(n) if n == "tool"));
    assert_eq!(err.message(), "multiple bin targets named `tool` in this workspace");
    let (t, p) = bin_target_by_src_path(&md, "/ws/y/src/main.rs").unwrap();
    assert_eq!(t.name, "tool");
    assert_eq!(p.id, "y");
}

#[test]
fn by_src_path_errors() {
    let md = two_bins();
    let err = bin_target_by_src_path(&md, "/ws/p/src/lib.rs").unwrap_err();
    assert!(matches!(&err, ResolveError::NotMainSource(p) if p == "/ws/p/src/lib.rs"));
    assert_eq!(
        err.message(),
        "`/ws/p/src/lib.rs` is not the main source file of any bin targets in this workspace "
    );
    let md = workspace(
        vec![package(
            "p",
            vec![
                target("a", &["bin"], "/ws/p/src/main.rs"),
                target("b", &["bin"], "/ws/p/src/main.rs"),
            ],
        )],
        &["p"],
    );
    let err = bin_target_by_src_path(&md, "/ws/p/src/main.rs").unwrap_err();
    assert!(matches!(
        &err,
        ResolveError::MultipleTargetsWithSource(p, names)
            if p == "/ws/p/src/main.rs" && names == &["a", "b"]
    ));
    assert_eq!(
        err.message(),
        "multiple bin targets which `src_path` is `/ws/p/src/main.rs`: a, b"
    );
}

#[test]
fn infer_no_target() {
    let md = workspace(
        vec![package("p", vec![target("p", &["lib"], "/ws/p/src/lib.rs")])],
        &["p"],
    );
    let err = exactly_one_bin_target(&md).unwrap_err();
    assert!(matches!(err, ResolveError::NoTarget));
    assert_eq!(err.message(), "no bin target in this workspace");
    let empty = workspace(vec![], &[]);
    assert!(matches!(exactly_one_bin_target(&empty), Err(ResolveError::NoTarget)));
}

#[test]
fn non_members_are_no_candidates() {
    let md = workspace(
        vec![
            package("dep", vec![target("dep-tool", &["bin"], "/reg/dep/src/main.rs")]),
            package("mine", vec![target("mine", &["bin"], "/ws/mine/src/main.rs")]),
        ],
        &["mine"],
    );
    assert_eq!(bin_targets(&md), vec![(1, 0)]);
    let (t, _) = exactly_one_bin_target(&md).unwrap();
    assert_eq!(t.name, "mine");
    assert!(matches!(
        bin_target_by_name(&md, "dep-tool"),
        Err(ResolveError::NoTargetNamed(_))
    ));
    assert!(is_workspace_member(&md, &"mine".to_owned()));
    assert!(!is_workspace_member(&md, &"dep".to_owned()));
}

#[test]
fn kind_must_be_exactly_bin() {
    assert!(is_bin_target(&target("a", &["bin"], "/a.rs")));
    assert!(!is_bin_target(&target("a", &["lib"], "/a.rs")));
    assert!(!is_bin_target(&target("a", &["bin", "lib"], "/a.rs")));
    assert!(!is_bin_target(&target("a", &[], "/a.rs")));
    assert!(!is_bin_target(&target("a", &["example"], "/a.rs")));
}

#[test]
fn candidates_in_order() {
    let md = workspace(
        vec![
            package(
                "x",
                vec![
                    target("x1", &["bin"], "/x1.rs"),
                    target("x", &["lib"], "/x.rs"),
                    target("x2", &["bin"], "/x2.rs"),
                ],
            ),
            package("skip", vec![target("s", &["bin"], "/s.rs")]),
            package("y", vec![target("y1", &["bin"], "/y1.rs")]),
        ],
        &["y", "x"],
    );
    assert_eq!(bin_targets(&md), vec![(0, 0), (0, 2), (2, 0)]);
    match exactly_one_bin_target(&md) {
        Err(ResolveError::Ambiguous(names)) => assert_eq!(names, vec!["x1", "x2", "y1"]),
        other => panic!("unexpected result {:?}", other.map(|(t, _)| t.name.clone())),
    }
}

#[test]
fn resolve_by_selection() {
    let md = two_bins();
    let (t, _) = resolve(&md, &Selection::ByName("b".to_owned())).unwrap();
    assert_eq!(t.name, "b");
    let (t, _) = resolve(&md, &Selection::BySourcePath("/ws/p/src/bin/a.rs".to_owned())).unwrap();
    assert_eq!(t.name, "a");
    assert!(matches!(
        resolve(&md, &Selection::Infer),
        Err(ResolveError::Ambiguous(_))
    ));
}

#[test]
fn selection_from_options() {
    assert!(matches!(
        selection_of(Some("a".to_owned()), Some("/x.rs".to_owned())),
        Selection::ByName(n) if n == "a"
    ));
    assert!(matches!(
        selection_of(None, Some("/x.rs".to_owned())),
        Selection::BySourcePath(p) if p == "/x.rs"
    ));
    assert!(matches!(selection_of(None, None), Selection::Infer));
    assert_eq!(default_target(), "x86_64-unknown-linux-musl");
}

#[test]
fn shared_source_path_names_every_match() {
    let md = workspace(
        vec![
            package(
                "w",
                vec![
                    target("x", &["bin"], "/w/src/main.rs"),
                    target("other", &["bin"], "/w/src/other.rs"),
                    target("w", &["lib"], "/w/src/main.rs"),
                ],
            ),
            package("v", vec![target("y", &["bin"], "/w/src/main.rs")]),
            package("dep", vec![target("z", &["bin"], "/w/src/main.rs")]),
        ],
        &["w", "v"],
    );
    let err = bin_target_by_src_path(&md, "/w/src/main.rs").unwrap_err();
    match &err {
        ResolveError::MultipleTargetsWithSource(path, names) => {
            assert_eq!(path, "/w/src/main.rs");
            assert_eq!(names, &vec!["x".to_owned(), "y".to_owned()]);
        }
        other => panic!("unexpected error {:?}", other),
    }
    let message = err.message();
    assert_eq!(
        message,
        "multiple bin targets which `src_path` is `/w/src/main.rs`: x, y"
    );
    assert!(!message.contains("other") && !message.contains('z'));
}
