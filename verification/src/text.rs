//! Small operations on text that the other modules share.
use vstd::prelude::*;
use vstd::string::StringExecFns;

verus! {

/// The views of a list of strings, in order.
pub open spec fn texts(parts: Seq<String>) -> Seq<Seq<char>> {
    Seq::new(parts.len(), |i: int| parts[i]@)
}

/// The parts in order with `sep` between each two neighbours.
pub open spec fn joined(parts: Seq<Seq<char>>, sep: Seq<char>) -> Seq<char>
    decreases parts.len(),
{
    if parts.len() == 0 {
        Seq::empty()
    } else if parts.len() == 1 {
        parts[0]
    } else {
        joined(parts.drop_last(), sep) + sep + parts.last()
    }
}

/// `itertools::Itertools::join` on the strings of a list: nothing for an
/// empty list, else the first string followed, for each later one, by the
/// separator and that string.
#[verifier::external_body]
pub(crate) fn join(parts: &Vec<String>, sep: &str) -> (text: String)
    ensures
        text@ == joined(texts(parts@), sep@),
{
    itertools::Itertools::join(&mut parts.iter(), sep)
}

/// Where the first line feed of `s` stands, or the length of `s` if it has
/// none.
pub open spec fn first_line_feed(s: Seq<char>) -> int
    decreases s.len(),
{
    if s.len() == 0 || s[0] == '\n' {
        0
    } else {
        1 + first_line_feed(s.drop_first())
    }
}

/// A line without the carriage return that stood before its line feed.
pub open spec fn without_carriage_return(line: Seq<char>) -> Seq<char> {
    if line.len() > 0 && line.last() == '\r' {
        line.drop_last()
    } else {
        line
    }
}

/// The lines of a text: it is cut after each line feed, the line feed and a
/// carriage return just before it are left out, and what follows the last
/// line feed is a line only if it is not empty.
pub open spec fn lines_of(s: Seq<char>) -> Seq<Seq<char>>
    decreases s.len(),
{
    let i = first_line_feed(s);
    if s.len() == 0 {
        Seq::empty()
    } else if 0 <= i < s.len() {
        seq![without_carriage_return(s.take(i))] + lines_of(s.skip(i + 1))
    } else {
        seq![s]
    }
}

/// `str::lines`, each line as a string of its own: the text is split at
/// `\n` and `\r\n`, the line endings are not part of the lines, and a final
/// line ending opens no further line.
#[verifier::external_body]
pub(crate) fn lines(text: &str) -> (lines: Vec<String>)
    ensures
        texts(lines@) == lines_of(text@),
{
    text.lines().map(|line| line.to_owned()).collect()
}

/// How often `c` occurs in `s`.
pub open spec fn count_of(c: char, s: Seq<char>) -> nat
    decreases s.len(),
{
    if s.len() == 0 {
        0
    } else {
        count_of(c, s.drop_last()) + if s.last() == c {
            1nat
        } else {
            0nat
        }
    }
}

/// Occurrences add up over a concatenation.
pub proof fn lemma_count_concat(c: char, a: Seq<char>, b: Seq<char>)
    ensures
        count_of(c, a + b) == count_of(c, a) + count_of(c, b),
    decreases b.len(),
{
    if b.len() == 0 {
        assert(a + b =~= a);
    } else {
        assert((a + b).drop_last() =~= a + b.drop_last());
        lemma_count_concat(c, a, b.drop_last());
    }
}

/// A text in which `c` stands nowhere has no occurrence of it.
pub proof fn lemma_count_absent(c: char, s: Seq<char>)
    requires
        forall|i: int| 0 <= i < s.len() ==> s[i] != c,
    ensures
        count_of(c, s) == 0,
    decreases s.len(),
{
    if s.len() > 0 {
        lemma_count_absent(c, s.drop_last());
    }
}

/// The first line feed stands inside the text or at its end, and no line
/// feed stands before it.
pub proof fn lemma_first_line_feed(s: Seq<char>)
    ensures
        0 <= first_line_feed(s) <= s.len(),
        forall|i: int| 0 <= i < first_line_feed(s) ==> s[i] != '\n',
        first_line_feed(s) < s.len() ==> s[first_line_feed(s)] == '\n',
    decreases s.len(),
{
    if !(s.len() == 0 || s[0] == '\n') {
        lemma_first_line_feed(s.drop_first());
        assert forall|i: int| 0 <= i < first_line_feed(s) implies s[i] != '\n' by {
            if i > 0 {
                assert(s[i] == s.drop_first()[i - 1]);
            }
        }
        if first_line_feed(s) < s.len() {
            assert(s[first_line_feed(s)] == s.drop_first()[first_line_feed(s) - 1]);
        }
    }
}

/// No line of a text holds a line feed.
pub proof fn lemma_lines_hold_no_line_feed(s: Seq<char>)
    ensures
        forall|k: int, i: int|
            0 <= k < lines_of(s).len() && 0 <= i < lines_of(s)[k].len() ==> lines_of(s)[k][i]
                != '\n',
    decreases s.len(),
{
    lemma_first_line_feed(s);
    let i = first_line_feed(s);
    if s.len() > 0 && i < s.len() {
        lemma_lines_hold_no_line_feed(s.skip(i + 1));
        let first = without_carriage_return(s.take(i));
        let rest = lines_of(s.skip(i + 1));
        assert forall|k: int, j: int|
            0 <= k < lines_of(s).len() && 0 <= j < lines_of(s)[k].len() implies lines_of(s)[k][j]
            != '\n' by {
            if k == 0 {
                assert(lines_of(s)[0] == first);
                assert(first[j] == s[j]);
            } else {
                assert(lines_of(s)[k] == rest[k - 1]);
            }
        }
    }
}

/// The concatenation of three pieces of text.
pub fn concat3(a: &str, b: &str, c: &str) -> (text: String)
    ensures
        text@ == a@ + b@ + c@,
{
    let mut text = String::from_str(a);
    text.append(b);
    text.append(c);
    text
}

} // verus!
