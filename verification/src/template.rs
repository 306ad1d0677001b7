//! The source template: the target's own source as a documentation block, then
//! the loader with the payload as a literal.
use vstd::prelude::*;
use vstd::string::StringExecFns;
use crate::codec::{encode, payload_text};
use crate::text::{
    concat3, count_of, join, joined, lemma_count_absent, lemma_count_concat,
    lemma_lines_hold_no_line_feed, lines, lines_of, texts,
};

verus! {

/// A line of the target's source as a line of the documentation block: the comment
/// marker alone for an empty line, else the marker, a space and the line.
pub open spec fn doc_line(line: Seq<char>) -> Seq<char> {
    if line.len() == 0 {
        "//!\n"@
    } else {
        "//! "@ + line + "\n"@
    }
}

/// The documentation lines for the given lines, one for each.
pub open spec fn doc_lines(lines: Seq<Seq<char>>) -> Seq<Seq<char>> {
    Seq::new(lines.len(), |i: int| doc_line(lines[i]))
}

/// The documentation block for a source text.
pub open spec fn doc_block(source: Seq<char>) -> Seq<char> {
    joined(doc_lines(lines_of(source)), Seq::empty())
}

/// The lines above the documentation block.
pub const HEAD: &'static str =
    "//! This code is generated by [cargo-executable-payload](https://github.com/qryxip/cargo-executable-payload).\n//!\n//! # Original source code\n//!\n//! ```\n";

/// The loader: it writes the decoded payload to a fixed path, makes the file
/// executable and replaces itself with it.
pub const LOADER: &'static str =
    "//! ```\n\nuse std::{\n    fs::{File, Permissions},\n    io::{self, Write as _},\n    os::unix::{fs::PermissionsExt as _, process::CommandExt as _},\n    process::Command,\n};\n\nfn main() -> io::Result<()> {\n    let mut file = File::create(PATH)?;\n    file.write_all(&decode())?;\n    file.set_permissions(Permissions::from_mode(0o755))?;\n    file.sync_all()?;\n    drop(file);\n    Err(Command::new(PATH).exec())\n}\n\nfn decode() -> Vec<u8> {\n    let mut table = [0; 256];\n    for (i, &c) in b\"ABCDEFGHIJKLMNOPQRSTUVWXYZabcdefghijklmnopqrstuvwxyz0123456789+/\"\n        .iter()\n        .enumerate()\n    {\n        table[usize::from(c)] = i as u8;\n    }\n\n    let mut acc = vec![];\n\n    for chunk in PAYLOAD.as_bytes().chunks(4) {\n        let index0 = table[usize::from(chunk[0])];\n        let index1 = table[usize::from(chunk[1])];\n        let index2 = table[usize::from(chunk[2])];\n        let index3 = table[usize::from(chunk[3])];\n        acc.push((index0 << 2) + (index1 >> 4));\n        acc.push((index1 << 4) + (index2 >> 2));\n        acc.push((index2 << 6) + index3);\n    }\n\n    if PAYLOAD.ends_with(\"==\") {\n        acc.pop();\n        acc.pop();\n    } else if PAYLOAD.ends_with('=') {\n        acc.pop();\n    }\n\n    acc\n}\n\nstatic PATH: &str = \"/tmp/a.out\";\nstatic PAYLOAD: &str = \"";

/// What stands above the documentation block.
pub open spec fn head_text() -> Seq<char> {
    HEAD@
}

/// The loader, from the end of the documentation block up to the opening
/// quote of the payload literal.
pub open spec fn loader_text() -> Seq<char> {
    LOADER@
}

/// What closes the payload literal.
pub open spec fn tail_text() -> Seq<char> {
    "\";\n"@
}

/// The whole output for a source text and a payload.
pub open spec fn template_text(source: Seq<char>, payload: Seq<char>) -> Seq<char> {
    head_text() + doc_block(source) + loader_text() + payload + tail_text()
}

/// Renders one line of the target's source as a documentation line.
pub fn render_doc_line(line: &str) -> (text: String)
    ensures
        text@ == doc_line(line@),
{
    if line.is_empty() {
        "//!\n".to_owned()
    } else {
        concat3("//! ", line, "\n")
    }
}

/// Composes the output: the target's source as a documentation block, one
/// comment line for each of its lines, then the fixed loader with `payload`
/// as its literal. The payload is taken as it is.
pub fn format_with_template(original_source_code: &str, payload: &str) -> (out: String)
    ensures
        out@ == template_text(original_source_code@, payload@),
{
    let lines = lines(original_source_code);
    let mut rendered: Vec<String> = Vec::new();
    let mut i: usize = 0;
    while i < lines.len()
        invariant
            i <= lines@.len(),
            texts(lines@) == lines_of(original_source_code@),
            rendered@.len() == i,
            forall|j: int| 0 <= j < i ==> (#[trigger] rendered@[j])@ == doc_line(lines@[j]@),
        decreases lines@.len() - i,
    {
        rendered.push(render_doc_line(lines[i].as_str()));
        i += 1;
    }
    assert(texts(rendered@) =~= doc_lines(texts(lines@)));
    let block = join(&rendered, "");
    proof {
        reveal_strlit("");
        assert(""@ =~= Seq::<char>::empty());
    }
    let mut out = String::from_str(HEAD);
    out.append(block.as_str());
    out.append(LOADER);
    out.append(payload);
    out.append("\";\n");
    out
}

/// Encodes an artifact and composes the output around its payload.
pub fn generate(original_source_code: &str, artifact: &[u8]) -> (out: String)
    ensures
        out@ == template_text(original_source_code@, payload_text(artifact@)),
{
    let payload = encode(artifact);
    format_with_template(original_source_code, payload.as_str())
}

/// The documentation block has one line for each line of the source,
/// empty lines included.
pub proof fn lemma_doc_line_count(source: Seq<char>)
    ensures
        doc_lines(lines_of(source)).len() == lines_of(source).len(),
{
}

/// A documentation line ends in the only line feed it holds, if the line
/// it renders holds none.
pub proof fn lemma_doc_line_one_line_feed(line: Seq<char>)
    requires
        forall|i: int| 0 <= i < line.len() ==> line[i] != '\n',
    ensures
        count_of('\n', doc_line(line)) == 1,
{
    reveal_strlit("//!\n");
    reveal_strlit("//! ");
    reveal_strlit("\n");
    let feed = "\n"@;
    assert(feed.drop_last().len() == 0);
    assert(count_of('\n', feed) == 1) by {
        assert(count_of('\n', feed.drop_last()) == 0);
    }
    if line.len() == 0 {
        let marker = "//!"@;
        reveal_strlit("//!");
        assert("//!\n"@ =~= marker + feed);
        lemma_count_absent('\n', marker);
        lemma_count_concat('\n', marker, feed);
    } else {
        lemma_count_absent('\n', "//! "@);
        lemma_count_absent('\n', line);
        lemma_count_concat('\n', "//! "@, line);
        lemma_count_concat('\n', "//! "@ + line, feed);
    }
}

proof fn lemma_block_line_feeds(lines: Seq<Seq<char>>)
    requires
        forall|k: int, i: int| 0 <= k < lines.len() && 0 <= i < lines[k].len() ==> lines[k][i] != '\n',
    ensures
        count_of('\n', joined(doc_lines(lines), Seq::empty())) == lines.len(),
    decreases lines.len(),
{
    let rendered = doc_lines(lines);
    if lines.len() == 1 {
        lemma_doc_line_one_line_feed(lines[0]);
    } else if lines.len() > 1 {
        assert(rendered.drop_last() =~= doc_lines(lines.drop_last()));
        lemma_block_line_feeds(lines.drop_last());
        lemma_doc_line_one_line_feed(lines.last());
        let before = joined(rendered.drop_last(), Seq::empty());
        assert(before + Seq::<char>::empty() =~= before);
        lemma_count_concat('\n', before, rendered.last());
    }
}

/// The documentation block holds as many line feeds, and so as many lines,
/// as the source has lines.
pub proof fn lemma_doc_block_line_feeds(source: Seq<char>)
    ensures
        count_of('\n', doc_block(source)) == lines_of(source).len(),
{
    lemma_lines_hold_no_line_feed(source);
    lemma_block_line_feeds(lines_of(source));
}

} // verus!
