use cargo_executable_payload::codec::{decode, encode};
use cargo_executable_payload::template::{format_with_template, render_doc_line};

const HEAD: &str = "//! This code is generated by [cargo-executable-payload](https://github.com/qryxip/cargo-executable-payload).\n//!\n//! # Original source code\n//!\n//! ```\n";

fn doc_block(out: &str) -> &str {
    let rest = &out[HEAD.len()..];
    let end = rest.find("//! ```\n\nuse std::{").unwrap();
    &rest[..end]
}

#[test]
fn doc_lines_rendered() {
    assert_eq!(render_doc_line(""), "//!\n");
    assert_eq!(render_doc_line("fn main() {}"), "//! fn main() {}\n");
    assert_eq!(render_doc_line("    indented"), "//!     indented\n");
    assert_eq!(render_doc_line(" "), "//!  \n");
}

#[test]
fn template_doc_block() {
    let out = format_with_template("fn main() {\n\n    println!(\"hi\");\n}\n", "AAAA");
    assert!(out.starts_with(HEAD));
    assert_eq!(
        doc_block(&out),
        "//! fn main() {\n//!\n//!     println!(\"hi\");\n//! }\n"
    );
}

#[test]
fn template_line_count_matches_source() {
    for source in [
        "",
        "\n",
        "a",
        "a\n",
        "a\nb",
        "a\n\n\nb\n",
        "\n\n",
        "a\r\nb\r\n",
        "x\ry\n",
    ] {
        let out = format_with_template(source, "");
        let block = doc_block(&out);
        assert_eq!(block.lines().count(), source.lines().count(), "{:?}", source);
        assert_eq!(block.matches('\n').count(), source.lines().count());
    }
}

#[test]
fn template_line_endings() {
    let out = format_with_template("a\r\n\r\nb", "");
    assert_eq!(doc_block(&out), "//! a\n//!\n//! b\n");
    let out = format_with_template("x\ry\n", "");
    assert_eq!(doc_block(&out), "//! x\ry\n");
    let out = format_with_template("a\r", "");
    assert_eq!(doc_block(&out), "//! a\r\n");
}

#[test]
fn template_embeds_payload() {
    let out = format_with_template("fn main() {}\n", "Zm9vYg==");
    assert!(out.ends_with("static PATH: &str = \"/tmp/a.out\";\nstatic PAYLOAD: &str = \"Zm9vYg==\";\n"));
    assert_eq!(out.matches("Zm9vYg==").count(), 1);
    assert!(out.contains("file.set_permissions(Permissions::from_mode(0o755))?;"));
    assert!(out.contains("b\"ABCDEFGHIJKLMNOPQRSTUVWXYZabcdefghijklmnopqrstuvwxyz0123456789+/\""));
    assert!(out.contains("Err(Command::new(PATH).exec())"));
}

#[test]
fn template_empty_inputs() {
    let out = format_with_template("", "");
    assert!(out.starts_with(HEAD));
    assert_eq!(doc_block(&out), "");
    assert!(out.ends_with("static PAYLOAD: &str = \"\";\n"));
    assert_eq!(out.lines().count(), 56);
}

#[test]
fn template_is_deterministic() {
    let source = "fn main() {\n    loop {}\n}\n";
    let payload = encode(b"\x7fELF binary bytes");
    let first = format_with_template(source, &payload);
    let second = format_with_template(source, &payload);
    assert_eq!(first, second);
    assert_eq!(first.len(), format_with_template("", "").len() + "//! fn main() {\n//!     loop {}\n//! }\n".len() + payload.len());
}

#[test]
fn payload_survives_the_template() {
    let artifact: Vec<u8> = (0..200u32).map(|i| (i * 7 % 256) as u8).collect();
    let out = format_with_template("fn main() {}\n", &encode(&artifact));
    let marker = "static PAYLOAD: &str = \"";
    let start = out.rfind(marker).unwrap() + marker.len();
    let end = out.rfind("\";\n").unwrap();
    assert_eq!(decode(&out[start..end]), artifact);
}
