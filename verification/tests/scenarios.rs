use cargo_executable_payload::codec::decode;
use cargo_executable_payload::options::selection_of;
use cargo_executable_payload::orchestrator::{advance, command_for, start, Outcome, Step};
use cargo_executable_payload::resolver::{
    resolve, BuildTarget, Metadata, Package, ResolveError,
};
use cargo_executable_payload::template::generate;

fn bin(name: &str, src_path: &str) -> BuildTarget {
    BuildTarget {
        name: name.to_owned(),
        kind: vec!["bin".to_owned()],
        src_path: src_path.to_owned(),
    }
}

fn workspace(targets: Vec<BuildTarget>) -> Metadata {
    Metadata {
        packages: vec![Package {
            id: "pkg 0.1.0 (path+file:///ws)".to_owned(),
            manifest_path: "/ws/Cargo.toml".to_owned(),
            targets,
        }],
        workspace_members: vec!["pkg 0.1.0 (path+file:///ws)".to_owned()],
        target_directory: "/ws/target".to_owned(),
    }
}

fn payload_of(generated: &str) -> &str {
    let marker = "static PAYLOAD: &str = \"";
    let start = generated.rfind(marker).unwrap() + marker.len();
    let end = generated.rfind("\";\n").unwrap();
    &generated[start..end]
}

#[test]
fn single_target_end_to_end() {
    let md = workspace(vec![bin("hello", "/ws/src/main.rs")]);
    let (target, package) = resolve(&md, &selection_of(None, None)).unwrap();
    assert_eq!(target.name, "hello");
    assert_eq!(package.manifest_path, "/ws/Cargo.toml");

    let mut progress = start();
    let mut commands = Vec::new();
    while progress.step != Step::Finished {
        if let Some(command) =
            command_for(progress.step, "tool".to_owned(), &target.name, "x86_64-unknown-linux-musl", "/scratch/hello")
        {
            commands.push(command.args);
        }
        progress = advance(false, progress, Outcome::Done);
    }
    assert_eq!(progress.failed_at, None);
    assert!(!progress.scratch);
    assert_eq!(
        commands,
        vec![
            vec!["build", "--release", "--bin", "hello", "--target", "x86_64-unknown-linux-musl"],
            vec!["-s", "/scratch/hello"],
            vec!["--best", "/scratch/hello"],
        ]
    );

    let artifact: Vec<u8> = b"\x7fELF\x02\x01\x01\x00 stripped artifact bytes \xff\xfe".to_vec();
    let generated = generate("fn main() {\n    println!(\"Hello\");\n}\n", &artifact);
    assert!(generated.contains("//! fn main() {\n//!     println!(\"Hello\");\n//! }\n"));
    assert!(generated.contains("static PATH: &str = \"/tmp/a.out\";"));
    assert_eq!(decode(payload_of(&generated)), artifact);
}

#[test]
fn two_targets_need_a_name() {
    let md = workspace(vec![bin("a", "/ws/src/bin/a.rs"), bin("b", "/ws/src/bin/b.rs")]);
    let err = resolve(&md, &selection_of(None, None)).unwrap_err();
    assert!(matches!(&err, ResolveError::Ambiguous(names) if names == &["a", "b"]));
    let message = err.message();
    assert!(message.contains("available binaries: a, b\n"));

    let (target, _) = resolve(&md, &selection_of(Some("a".to_owned()), None)).unwrap();
    assert_eq!(target.name, "a");
    assert_eq!(target.src_path, "/ws/src/bin/a.rs");
}

#[test]
fn missing_compressor_is_skipped() {
    let mut progress = start();
    let mut ran = Vec::new();
    while progress.step != Step::Finished {
        let outcome = if progress.step == Step::LocateCompressor {
            Outcome::Missing
        } else {
            Outcome::Done
        };
        if command_for(progress.step, "tool".to_owned(), "hello", "t", "/scratch/hello").is_some() {
            ran.push(progress.step);
        }
        progress = advance(false, progress, outcome);
    }
    assert_eq!(ran, vec![Step::Build, Step::Strip]);
    assert_eq!(progress.failed_at, None);
    assert!(!progress.scratch);
}
