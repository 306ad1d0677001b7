//! What the user is told: status labels and the chain of an error's causes.
use vstd::prelude::*;
use vstd::string::StringExecFns;
use crate::text::{concat3, join, joined, lines, lines_of, texts};

verus! {

/// The width to which a status label is filled.
pub const LABEL_WIDTH: usize = 12;

/// `n` spaces.
pub open spec fn spaces(n: nat) -> Seq<char> {
    Seq::new(n, |i: int| ' ')
}

/// A label set flush right in a field of `LABEL_WIDTH` characters; a longer
/// label stays as it is.
pub open spec fn justified_text(label: Seq<char>) -> Seq<char> {
    if label.len() >= LABEL_WIDTH {
        label
    } else {
        spaces((LABEL_WIDTH - label.len()) as nat) + label
    }
}

/// Sets a status label flush right, as it stands before a message.
pub fn justified(label: &str) -> (text: String)
    ensures
        text@ == justified_text(label@),
        text@.len() >= LABEL_WIDTH,
{
    let n: usize = label.unicode_len();
    let mut text = String::new();
    let mut i: usize = n;
    while i < LABEL_WIDTH
        invariant
            n == label@.len(),
            n <= i,
            n >= LABEL_WIDTH ==> i == n,
            n < LABEL_WIDTH ==> i <= LABEL_WIDTH,
            text@ == spaces((i - n) as nat),
        decreases LABEL_WIDTH - i,
    {
        proof {
            reveal_strlit(" ");
            assert(spaces((i - n) as nat) + " "@ =~= spaces((i + 1 - n) as nat));
        }
        text.append(" ");
        i += 1;
    }
    text.append(label);
    assert(text@ =~= justified_text(label@));
    text
}

/// The announcement of a command before it runs: the label `Running`, flush
/// right, then the command line.
pub fn running_line(command_line: &str) -> (text: String)
    ensures
        text@ == justified_text("Running"@) + " "@ + command_line@,
{
    let label = justified("Running");
    concat3(label.as_str(), " ", command_line)
}

/// A line of a cause as it is shown: indented by two spaces, or empty.
pub open spec fn cause_line(line: Seq<char>) -> Seq<char> {
    if line.len() == 0 {
        "\n"@
    } else {
        "  "@ + line + "\n"@
    }
}

/// The paragraph of one cause: an empty line, the heading, then the cause's
/// lines.
pub open spec fn cause_text(cause: Seq<char>) -> Seq<char> {
    "\nCaused by:\n"@ + joined(
        Seq::new(lines_of(cause).len(), |i: int| cause_line(lines_of(cause)[i])),
        Seq::empty(),
    )
}

/// Writes the paragraph of one cause.
pub fn caused_by(cause: &str) -> (text: String)
    ensures
        text@ == cause_text(cause@),
{
    let source = lines(cause);
    let mut shown: Vec<String> = Vec::new();
    let mut i: usize = 0;
    while i < source.len()
        invariant
            i <= source@.len(),
            texts(source@) == lines_of(cause@),
            shown@.len() == i,
            forall|j: int| 0 <= j < i ==> (#[trigger] shown@[j])@ == cause_line(source@[j]@),
        decreases source@.len() - i,
    {
        let line = source[i].as_str();
        if line.is_empty() {
            shown.push("\n".to_owned());
        } else {
            shown.push(concat3("  ", line, "\n"));
        }
        i += 1;
    }
    assert(texts(shown@) =~= Seq::new(
        lines_of(cause@).len(),
        |i: int| cause_line(lines_of(cause@)[i]),
    ));
    proof {
        reveal_strlit("");
        assert(""@ =~= Seq::<char>::empty());
    }
    let body = join(&shown, "");
    let text = concat3("\nCaused by:\n", body.as_str(), "");
    assert(text@ =~= cause_text(cause@));
    text
}

/// The report of a failure: the message after `error:`, then a paragraph
/// for each cause, outermost first.
pub open spec fn report_text(message: Seq<char>, causes: Seq<Seq<char>>) -> Seq<char> {
    "error: "@ + message + "\n"@ + joined(
        Seq::new(causes.len(), |i: int| cause_text(causes[i])),
        Seq::empty(),
    )
}

/// Writes the report of a failure with the chain of its causes.
pub fn error_report(message: &str, causes: &Vec<String>) -> (text: String)
    ensures
        text@ == report_text(message@, texts(causes@)),
{
    let mut paragraphs: Vec<String> = Vec::new();
    let mut i: usize = 0;
    while i < causes.len()
        invariant
            i <= causes@.len(),
            paragraphs@.len() == i,
            forall|j: int| 0 <= j < i ==> (#[trigger] paragraphs@[j])@ == cause_text(causes@[j]@),
        decreases causes@.len() - i,
    {
        paragraphs.push(caused_by(causes[i].as_str()));
        i += 1;
    }
    assert(texts(paragraphs@) =~= Seq::new(
        texts(causes@).len(),
        |i: int| cause_text(texts(causes@)[i]),
    ));
    proof {
        reveal_strlit("");
        assert(""@ =~= Seq::<char>::empty());
    }
    let chain = join(&paragraphs, "");
    let mut text = concat3("error: ", message, "\n");
    text.append(chain.as_str());
    text
}

} // verus!
