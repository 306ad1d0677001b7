use cargo_executable_payload::manifest::{locate_project, manifest_candidates, package_root};
use cargo_executable_payload::options::Opt;
use cargo_executable_payload::resolver::Selection;
use cargo_executable_payload::report::{caused_by, error_report, justified, running_line};
use cargo_executable_payload::template::generate;

#[test]
fn labels_are_set_flush_right() {
    assert_eq!(justified("Running"), "     Running");
    assert_eq!(justified("Running"), format!("{:>12}", "Running"));
    assert_eq!(justified(""), "            ");
    assert_eq!(justified("exactly12chr"), "exactly12chr");
    assert_eq!(justified("longer than twelve"), "longer than twelve");
    assert_eq!(justified("héllo"), format!("{:>12}", "héllo"));
}

#[test]
fn running_lines() {
    assert_eq!(running_line("`cargo build`"), "     Running `cargo build`");
}

#[test]
fn causes_are_indented() {
    assert_eq!(caused_by("No such file"), "\nCaused by:\n  No such file\n");
    assert_eq!(
        caused_by("first\n\nthird\n"),
        "\nCaused by:\n  first\n\n  third\n"
    );
    assert_eq!(caused_by(""), "\nCaused by:\n");
}

#[test]
fn reports_chain_causes() {
    assert_eq!(error_report("it failed", &vec![]), "error: it failed\n");
    assert_eq!(
        error_report(
            "could not read `/x`",
            &vec!["outer".to_owned(), "inner a\ninner b".to_owned()]
        ),
        "error: could not read `/x`\n\nCaused by:\n  outer\n\nCaused by:\n  inner a\n  inner b\n"
    );
}

#[test]
fn manifest_is_the_nearest_present() {
    let candidates = manifest_candidates("/ws/pkg/src");
    assert_eq!(
        candidates,
        vec![
            "/ws/pkg/src/Cargo.toml",
            "/ws/pkg/Cargo.toml",
            "/ws/Cargo.toml",
            "/Cargo.toml"
        ]
    );
    let found = locate_project("/ws/pkg/src", &candidates, &vec![false, true, true, false]);
    assert_eq!(found.unwrap(), "/ws/pkg/Cargo.toml");
    let found = locate_project("/ws/pkg/src", &candidates, &vec![true, false, false, false]);
    assert_eq!(found.unwrap(), "/ws/pkg/src/Cargo.toml");
}

#[test]
fn manifest_missing() {
    let candidates = manifest_candidates("/ws/pkg");
    let err = locate_project("/ws/pkg", &candidates, &vec![false, false, false]).unwrap_err();
    assert_eq!(err.cwd, "/ws/pkg");
    assert_eq!(
        err.message(),
        "could not find `Cargo.toml` in `/ws/pkg` or any parent directory"
    );
    assert!(locate_project("/ws", &vec![], &vec![]).is_err());
    assert!(locate_project("/ws", &candidates, &vec![]).is_err());
    let short = vec!["/a/Cargo.toml".to_owned()];
    assert!(locate_project("/a", &short, &vec![false, true]).is_err());
}

#[test]
fn generate_encodes_then_fills_the_template() {
    let out = generate("fn main() {}\n", b"foob");
    assert!(out.contains("//! fn main() {}\n//! ```\n"));
    assert!(out.ends_with("static PAYLOAD: &str = \"Zm9vYg==\";\n"));
    assert_eq!(out, generate("fn main() {}\n", b"foob"));
}

#[test]
fn options_give_config_and_selection() {
    let opt = Opt::ExecutablePayload {
        use_cross: true,
        strip_exe: Some("/bin/strip".to_owned()),
        no_upx: true,
        output: None,
        src: Some("/ws/src/main.rs".to_owned()),
        bin: None,
        target: "x86_64-unknown-linux-musl".to_owned(),
        manifest_path: None,
    };
    let config = opt.build_config();
    assert_eq!(config.target, "x86_64-unknown-linux-musl");
    assert!(config.use_cross);
    assert!(config.no_upx);
    assert_eq!(config.strip_exe.as_deref(), Some("/bin/strip"));
    assert_eq!(config.manifest_path, None);
    assert!(matches!(opt.selection(), Selection::BySourcePath(p) if p == "/ws/src/main.rs"));
}

#[test]
fn package_root_is_the_manifest_directory() {
    assert_eq!(package_root("/ws/pkg/Cargo.toml"), "/ws/pkg/");
    assert_eq!(package_root("Cargo.toml"), "");
    assert_eq!(package_root("/ws/pkg/sub/Cargo.toml"), "/ws/pkg/sub/");
}
