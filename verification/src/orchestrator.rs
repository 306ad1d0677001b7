//! The build plan: which programs run with which arguments, where the
//! artifact lies, and in what order the steps follow each other.
use vstd::prelude::*;
use vstd::string::StringExecFns;
use crate::paths::{file_name_of, join_path, joined_path, path_file_name};
use crate::text::{concat3, join, joined, texts};

verus! {

/// Why a build could not go on.
#[derive(Clone, Debug)]
pub enum BuildError {
    /// No builder was handed in and `cross` was not asked for.
    CargoNotPresent,
    /// The program was not found on the search path.
    ProgramMissing(String),
    /// The command, given as its command line, did not exit successfully.
    CommandFailed(String),
}

/// The text of a build error.
pub open spec fn build_message_text(err: BuildError) -> Seq<char> {
    match err {
        BuildError::CargoNotPresent => "`$CARGO` is not present"@,
        BuildError::ProgramMissing(program) => "`"@ + program@ + "` does not seem to exist"@,
        BuildError::CommandFailed(line) => line@ + " didn't exit successfully"@,
    }
}

impl BuildError {
    /// The error's text.
    pub fn message(&self) -> (text: String)
        ensures
            text@ == build_message_text(*self),
    {
        match self {
            BuildError::CargoNotPresent => "`$CARGO` is not present".to_owned(),
            BuildError::ProgramMissing(program) => concat3(
                "`",
                program.as_str(),
                "` does not seem to exist",
            ),
            BuildError::CommandFailed(line) => {
                let text = concat3(line.as_str(), " didn't exit successfully", "");
                proof {
                    reveal_strlit("");
                    assert(line@ + " didn't exit successfully"@ + ""@ =~= line@
                        + " didn't exit successfully"@);
                }
                text
            },
        }
    }
}

/// The builder to run: `cross` where it was asked for, else the build tool
/// that the environment names, which must then be there.
pub fn builder_program(use_cross: bool, cargo: Option<String>) -> (r: Result<String, BuildError>)
    ensures
        use_cross ==> (r matches Ok(program) && program@ == "cross"@),
        !use_cross ==> match cargo {
            Some(named) => (r matches Ok(program) && program@ == named@),
            None => r matches Err(BuildError::CargoNotPresent),
        },
{
    if use_cross {
        Ok("cross".to_owned())
    } else {
        match cargo {
            Some(named) => Ok(named),
            None => Err(BuildError::CargoNotPresent),
        }
    }
}

/// The strip tool to look for: the override if there is one, else `strip`.
pub fn strip_program(strip_exe: Option<String>) -> (program: String)
    ensures
        program@ == match strip_exe {
            Some(path) => path@,
            None => "strip"@,
        },
{
    match strip_exe {
        Some(path) => path,
        None => "strip".to_owned(),
    }
}

/// The builder's arguments: a release build of the one target, for the
/// platform triple.
pub fn build_arguments(bin_name: &str, target: &str) -> (args: Vec<String>)
    ensures
        texts(args@) == seq![
            "build"@,
            "--release"@,
            "--bin"@,
            bin_name@,
            "--target"@,
            target@,
        ],
{
    let mut args: Vec<String> = Vec::new();
    args.push("build".to_owned());
    args.push("--release".to_owned());
    args.push("--bin".to_owned());
    args.push(bin_name.to_owned());
    args.push("--target".to_owned());
    args.push(target.to_owned());
    assert(texts(args@) =~= seq![
        "build"@,
        "--release"@,
        "--bin"@,
        bin_name@,
        "--target"@,
        target@,
    ]);
    args
}

/// The arguments of a tool that works on the artifact in place: its one
/// flag, then the artifact's path.
pub fn in_place_arguments(flag: &str, artifact_path: &str) -> (args: Vec<String>)
    ensures
        texts(args@) == seq![flag@, artifact_path@],
{
    let mut args: Vec<String> = Vec::new();
    args.push(flag.to_owned());
    args.push(artifact_path.to_owned());
    assert(texts(args@) =~= seq![flag@, artifact_path@]);
    args
}

/// The strip tool's arguments: strip all symbols of the artifact.
pub fn strip_arguments(artifact_path: &str) -> (args: Vec<String>)
    ensures
        texts(args@) == seq!["-s"@, artifact_path@],
{
    in_place_arguments("-s", artifact_path)
}

/// The packer's arguments: best compression of the artifact.
pub fn compress_arguments(artifact_path: &str) -> (args: Vec<String>)
    ensures
        texts(args@) == seq!["--best"@, artifact_path@],
{
    in_place_arguments("--best", artifact_path)
}

/// Whether `needle` occurs in `hay` as a run of neighbouring characters.
pub open spec fn occurs_in(hay: Seq<char>, needle: Seq<char>) -> bool {
    exists|i: int|
        0 <= i && i + needle.len() <= hay.len() && #[trigger] hay.subrange(i, i + needle.len())
            == needle
}

/// `str::contains` with a string as the pattern: whether the pattern matches
/// a sub-slice of the text.
#[verifier::external_body]
fn contains_text(hay: &str, needle: &str) -> (found: bool)
    ensures
        found == occurs_in(hay@, needle@),
{
    hay.contains(needle)
}

/// Whether the platform triple denotes a Windows target, whose executables
/// carry the suffix `.exe`.
pub fn is_windows_target(target: &str) -> (yes: bool)
    ensures
        yes == occurs_in(target@, "windows"@),
{
    contains_text(target, "windows")
}

/// Where the builder leaves the artifact, and whether the suffix `.exe` was
/// appended, as it is for a Windows target.
pub fn artifact_path(target_dir: &str, target: &str, bin_name: &str) -> (r: (String, bool))
    ensures
        r.1 == occurs_in(target@, "windows"@),
        r.0@ == artifact_path_text(target_dir@, target@, bin_name@),
{
    let under_triple = join_path(target_dir, target);
    let under_release = join_path(under_triple.as_str(), "release");
    let mut path = join_path(under_release.as_str(), bin_name);
    if is_windows_target(target) {
        path.append(".exe");
        (path, true)
    } else {
        (path, false)
    }
}

/// The name under which the artifact is copied into the scratch directory:
/// the last component of its path, or nothing where the path has none.
pub fn file_name_or_empty(name: Option<String>) -> (text: String)
    ensures
        text@ == match name {
            Some(n) => n@,
            None => Seq::<char>::empty(),
        },
{
    match name {
        Some(n) => n,
        None => String::new(),
    }
}

/// Where the isolated copy of the artifact lies: in the scratch directory,
/// under the artifact's own file name only.
pub fn isolated_path(scratch_dir: &str, artifact: &str) -> (path: String)
    ensures
        path@ == isolated_path_text(scratch_dir@, artifact@),
{
    let name = file_name_or_empty(path_file_name(artifact));
    join_path(scratch_dir, name.as_str())
}

/// The isolated copy's path: the scratch directory with the file name of
/// the artifact's path adjoined, and with nothing adjoined where that path
/// has no file name. No directory of the artifact's path is kept.
pub open spec fn isolated_path_text(scratch_dir: Seq<char>, artifact: Seq<char>) -> Seq<char> {
    joined_path(
        scratch_dir,
        match file_name_of(artifact) {
            Some(name) => name,
            None => Seq::empty(),
        },
    )
}

/// The artifact's path: the build-output directory with the platform
/// triple, `release` and the target's name adjoined in turn, and for a
/// Windows target the suffix `.exe` after the whole of it.
pub open spec fn artifact_path_text(
    target_dir: Seq<char>,
    target: Seq<char>,
    bin_name: Seq<char>,
) -> Seq<char> {
    let path = joined_path(joined_path(joined_path(target_dir, target), "release"@), bin_name);
    if occurs_in(target, "windows"@) {
        path + ".exe"@
    } else {
        path
    }
}

/// Whether a character needs no quoting in any shell: a letter or digit of
/// ASCII, or one of `- _ = / , . +`.
pub open spec fn is_plain_char(c: char) -> bool {
    ('a' <= c <= 'z') || ('A' <= c <= 'Z') || ('0' <= c <= '9') || c == '-' || c == '_' || c == '='
        || c == '/' || c == ',' || c == '.' || c == '+'
}

/// Whether a text is not empty and holds plain characters only.
pub open spec fn is_plain_word(text: Seq<char>) -> bool {
    text.len() > 0 && forall|i: int| 0 <= i < text.len() ==> is_plain_char(#[trigger] text[i])
}

/// Whether every text of a list is a plain word.
pub open spec fn all_plain_words(words: Seq<Seq<char>>) -> bool {
    forall|i: int| 0 <= i < words.len() ==> is_plain_word(#[trigger] words[i])
}

/// `shell_escape::escape`: the text quoted for a shell, by the rules of the
/// platform and environment that this runs in. Under each of its rules a
/// plain word comes back as it is; of other texts nothing is claimed.
#[verifier::external_body]
fn shell_escaped(text: &str) -> (escaped: String)
    ensures
        is_plain_word(text@) ==> escaped@ == text@,
{
    shell_escape::escape(std::borrow::Cow::Borrowed(text)).into_owned()
}

/// A command line from parts that are escaped already: the program and its
/// arguments with single spaces between them, in backquotes.
pub open spec fn command_line_text(program: Seq<char>, args: Seq<Seq<char>>) -> Seq<char> {
    "`"@ + joined(seq![program] + args, " "@) + "`"@
}

/// Writes a command line from parts that are escaped already.
pub fn render_command_line(program: String, args: Vec<String>) -> (line: String)
    ensures
        line@ == command_line_text(program@, texts(args@)),
{
    let mut words: Vec<String> = Vec::new();
    words.push(program);
    let mut i: usize = 0;
    while i < args.len()
        invariant
            i <= args@.len(),
            words@.len() == i + 1,
            words@[0]@ == program@,
            forall|k: int| 1 <= k <= i ==> (#[trigger] words@[k])@ == args@[k - 1]@,
        decreases args@.len() - i,
    {
        words.push(args[i].clone());
        i += 1;
    }
    assert(texts(words@) =~= seq![program@] + texts(args@));
    let spaced = join(&words, " ");
    concat3("`", spaced.as_str(), "`")
}

/// The command line that is logged before a program runs: the program and
/// each argument escaped for a shell, so that the step can be repeated by
/// hand. Where the program and every argument are plain words, nothing
/// needs escaping and the line holds them as they are.
pub fn command_line(program: &str, args: &Vec<String>) -> (line: String)
    ensures
        exists|escaped_program: Seq<char>, escaped_args: Seq<Seq<char>>|
            {
                &&& line@ == #[trigger] command_line_text(escaped_program, escaped_args)
                &&& escaped_args.len() == args@.len()
                &&& is_plain_word(program@) ==> escaped_program == program@
                &&& forall|j: int|
                    0 <= j < args@.len() && is_plain_word(args@[j]@) ==> #[trigger] escaped_args[j]
                        == args@[j]@
            },
        is_plain_word(program@) && all_plain_words(texts(args@)) ==> line@ == command_line_text(
            program@,
            texts(args@),
        ),
{
    let escaped_program = shell_escaped(program);
    let mut escaped: Vec<String> = Vec::new();
    let mut i: usize = 0;
    while i < args.len()
        invariant
            i <= args@.len(),
            escaped@.len() == i,
            forall|j: int|
                0 <= j < i && is_plain_word(args@[j]@) ==> (#[trigger] escaped@[j])@ == args@[j]@,
        decreases args@.len() - i,
    {
        escaped.push(shell_escaped(args[i].as_str()));
        i += 1;
    }
    let ghost p = escaped_program@;
    let ghost a = texts(escaped@);
    let line = render_command_line(escaped_program, escaped);
    assert(line@ == command_line_text(p, a));
    assert forall|j: int| 0 <= j < args@.len() && is_plain_word(args@[j]@) implies #[trigger] a[j]
        == args@[j]@ by {
        assert(a[j] == escaped@[j]@);
    }
    proof {
        if is_plain_word(program@) && all_plain_words(texts(args@)) {
            assert forall|j: int| 0 <= j < args@.len() implies a[j] == texts(args@)[j] by {
                assert(is_plain_word(texts(args@)[j]));
            }
            assert(a =~= texts(args@));
        }
    }
    line
}

/// A step of the build. Each names the outside work that is due.
#[derive(Clone, Copy, Debug, PartialEq, Eq, Structural)]
pub enum Step {
    /// Create the scratch directory.
    CreateScratch,
    /// Find the builder on the search path.
    LocateBuilder,
    /// Run the builder.
    Build,
    /// Copy the artifact into the scratch directory.
    Isolate,
    /// Look for the strip tool.
    LocateStrip,
    /// Strip the isolated copy in place.
    Strip,
    /// Look for the packer.
    LocateCompressor,
    /// Compress the isolated copy in place.
    Compress,
    /// Read the isolated copy.
    Read,
    /// Remove the scratch directory and all that is in it.
    RemoveScratch,
    /// Nothing is left to do.
    Finished,
}

/// How the work of a step ended.
#[derive(Clone, Copy, Debug, PartialEq, Eq, Structural)]
pub enum Outcome {
    /// It was done.
    Done,
    /// What it needs was not found.
    Missing,
    /// It was tried and failed.
    Failed,
}

/// Where a build stands: the step that is due, whether the scratch
/// directory exists, and the step at which the build failed, if it did.
#[derive(Clone, Copy, Debug, PartialEq, Eq, Structural)]
pub struct Progress {
    pub step: Step,
    pub scratch: bool,
    pub failed_at: Option<Step>,
}

/// A tool to run in the package's directory.
#[derive(Clone, Debug)]
pub struct Command {
    pub program: String,
    pub args: Vec<String>,
    /// Whether what the tool writes to its standard output goes to the
    /// diagnostic stream instead.
    pub stdout_to_stderr: bool,
}

/// The arguments of the tool that a step runs, if it runs one.
pub open spec fn arguments_of(
    step: Step,
    bin_name: Seq<char>,
    target: Seq<char>,
    isolated: Seq<char>,
) -> Option<Seq<Seq<char>>> {
    match step {
        Step::Build => Some(seq!["build"@, "--release"@, "--bin"@, bin_name, "--target"@, target]),
        Step::Strip => Some(seq!["-s"@, isolated]),
        Step::Compress => Some(seq!["--best"@, isolated]),
        _ => None,
    }
}

/// The command of a step: the builder with its arguments, or a tool that
/// works on the isolated copy in place. Only the packer's output is sent to
/// the diagnostic stream. Steps that run no tool have no command.
pub fn command_for(step: Step, program: String, bin_name: &str, target: &str, isolated: &str) -> (r:
    Option<Command>)
    ensures
        match arguments_of(step, bin_name@, target@, isolated@) {
            Some(args) => (r matches Some(c) && c.program@ == program@ && texts(c.args@) == args
                && c.stdout_to_stderr == (step == Step::Compress)),
            None => r is None,
        },
{
    match step {
        Step::Build => Some(
            Command { program, args: build_arguments(bin_name, target), stdout_to_stderr: false },
        ),
        Step::Strip => Some(
            Command { program, args: strip_arguments(isolated), stdout_to_stderr: false },
        ),
        Step::Compress => Some(
            Command { program, args: compress_arguments(isolated), stdout_to_stderr: true },
        ),
        _ => None,
    }
}

/// The program that a step looks for on the search path, if it looks for
/// one: the builder, the strip tool, or the packer `upx`.
pub fn program_sought(
    step: Step,
    use_cross: bool,
    cargo: Option<String>,
    strip_exe: Option<String>,
) -> (r: Option<Result<String, BuildError>>)
    ensures
        match step {
            Step::LocateBuilder => (r matches Some(b) && (use_cross ==> (b matches Ok(program)
                && program@ == "cross"@)) && (!use_cross ==> match cargo {
                Some(named) => (b matches Ok(program) && program@ == named@),
                None => b matches Err(BuildError::CargoNotPresent),
            })),
            Step::LocateStrip => (r matches Some(Ok(program)) && program@ == match strip_exe {
                Some(path) => path@,
                None => "strip"@,
            }),
            Step::LocateCompressor => (r matches Some(Ok(program)) && program@ == "upx"@),
            _ => r is None,
        },
{
    match step {
        Step::LocateBuilder => Some(builder_program(use_cross, cargo)),
        Step::LocateStrip => Some(Ok(strip_program(strip_exe))),
        Step::LocateCompressor => Some(Ok("upx".to_owned())),
        _ => None,
    }
}

/// What follows stripping: compression, unless it is switched off.
pub open spec fn after_strip(no_upx: bool) -> Step {
    if no_upx {
        Step::Read
    } else {
        Step::LocateCompressor
    }
}

/// The step after `step` when its work was done.
pub open spec fn step_after(no_upx: bool, step: Step) -> Step {
    match step {
        Step::CreateScratch => Step::LocateBuilder,
        Step::LocateBuilder => Step::Build,
        Step::Build => Step::Isolate,
        Step::Isolate => Step::LocateStrip,
        Step::LocateStrip => Step::Strip,
        Step::Strip => after_strip(no_upx),
        Step::LocateCompressor => Step::Compress,
        Step::Compress => Step::Read,
        Step::Read => Step::RemoveScratch,
        Step::RemoveScratch => Step::Finished,
        Step::Finished => Step::Finished,
    }
}

/// Where a build stands before anything was done.
pub open spec fn initial() -> Progress {
    Progress { step: Step::CreateScratch, scratch: false, failed_at: None }
}

/// Where a build stands after the work of the step that was due ended with
/// `outcome`. Looking for the strip tool or the packer in vain only skips
/// that tool; any other step that is not done ends the build, through the
/// removal of the scratch directory if it exists.
pub open spec fn next_progress(no_upx: bool, p: Progress, outcome: Outcome) -> Progress {
    match p.step {
        Step::Finished => p,
        Step::CreateScratch => if outcome == Outcome::Done {
            Progress { step: Step::LocateBuilder, scratch: true, failed_at: None }
        } else {
            Progress { step: Step::Finished, scratch: false, failed_at: Some(Step::CreateScratch) }
        },
        Step::LocateStrip => if outcome == Outcome::Done {
            Progress { step: Step::Strip, ..p }
        } else {
            Progress { step: after_strip(no_upx), ..p }
        },
        Step::LocateCompressor => if outcome == Outcome::Done {
            Progress { step: Step::Compress, ..p }
        } else {
            Progress { step: Step::Read, ..p }
        },
        Step::RemoveScratch => if outcome == Outcome::Done {
            Progress { step: Step::Finished, scratch: false, failed_at: p.failed_at }
        } else {
            Progress {
                step: Step::Finished,
                scratch: p.scratch,
                failed_at: if p.failed_at is Some {
                    p.failed_at
                } else {
                    Some(Step::RemoveScratch)
                },
            }
        },
        _ => if outcome == Outcome::Done {
            Progress { step: step_after(no_upx, p.step), ..p }
        } else {
            Progress { step: Step::RemoveScratch, scratch: p.scratch, failed_at: Some(p.step) }
        },
    }
}

/// Where a build stands after the given outcomes, one for each step that
/// was due in turn.
pub open spec fn progress_after(no_upx: bool, outcomes: Seq<Outcome>) -> Progress
    decreases outcomes.len(),
{
    if outcomes.len() == 0 {
        initial()
    } else {
        next_progress(no_upx, progress_after(no_upx, outcomes.drop_last()), outcomes.last())
    }
}

/// What holds of every state that a build passes through.
pub open spec fn coherent(no_upx: bool, p: Progress) -> bool {
    match p.step {
        Step::CreateScratch => !p.scratch && p.failed_at is None,
        Step::RemoveScratch => p.scratch,
        Step::Finished => p.scratch ==> p.failed_at is Some,
        Step::LocateCompressor | Step::Compress => p.scratch && p.failed_at is None && !no_upx,
        _ => p.scratch && p.failed_at is None,
    }
}

/// Where a build stands before anything was done.
pub fn start() -> (p: Progress)
    ensures
        p == initial(),
{
    Progress { step: Step::CreateScratch, scratch: false, failed_at: None }
}

/// Takes the outcome of the step that was due and says what is due next.
pub fn advance(no_upx: bool, p: Progress, outcome: Outcome) -> (next: Progress)
    ensures
        next == next_progress(no_upx, p, outcome),
{
    let done = outcome == Outcome::Done;
    let skip_strip = if no_upx {
        Step::Read
    } else {
        Step::LocateCompressor
    };
    let on_failure = Progress { step: Step::RemoveScratch, scratch: p.scratch, failed_at: Some(p.step) };
    let to = |step: Step| -> (q: Progress)
        ensures
            q == (Progress { step: step, ..p }),
        { Progress { step: step, scratch: p.scratch, failed_at: p.failed_at } };
    match p.step {
        Step::Finished => p,
        Step::CreateScratch => if done {
            Progress { step: Step::LocateBuilder, scratch: true, failed_at: None }
        } else {
            Progress { step: Step::Finished, scratch: false, failed_at: Some(Step::CreateScratch) }
        },
        Step::LocateStrip => if done {
            to(Step::Strip)
        } else {
            to(skip_strip)
        },
        Step::LocateCompressor => if done {
            to(Step::Compress)
        } else {
            to(Step::Read)
        },
        Step::RemoveScratch => if done {
            Progress { step: Step::Finished, scratch: false, failed_at: p.failed_at }
        } else {
            let failed_at = match p.failed_at {
                Some(step) => Some(step),
                None => Some(Step::RemoveScratch),
            };
            Progress { step: Step::Finished, scratch: p.scratch, failed_at }
        },
        Step::LocateBuilder => if done { to(Step::Build) } else { on_failure },
        Step::Build => if done { to(Step::Isolate) } else { on_failure },
        Step::Isolate => if done { to(Step::LocateStrip) } else { on_failure },
        Step::Strip => if done { to(skip_strip) } else { on_failure },
        Step::Compress => if done { to(Step::Read) } else { on_failure },
        Step::Read => if done { to(Step::RemoveScratch) } else { on_failure },
    }
}

/// Whatever the outcomes, a build is in a coherent state: while it works
/// the scratch directory exists and nothing has failed, it never compresses
/// when compression is switched off, and once it has finished the scratch
/// directory is gone unless its removal itself failed or a failure was
/// recorded before.
pub proof fn lemma_progress_coherent(no_upx: bool, outcomes: Seq<Outcome>)
    ensures
        coherent(no_upx, progress_after(no_upx, outcomes)),
    decreases outcomes.len(),
{
    if outcomes.len() > 0 {
        lemma_progress_coherent(no_upx, outcomes.drop_last());
    }
}

/// A build finishes only by removing the scratch directory, or by failing
/// to create it: and a removal that was done leaves no scratch directory.
pub proof fn lemma_finish_through_removal(no_upx: bool, p: Progress, outcome: Outcome)
    requires
        coherent(no_upx, p),
        p.step != Step::Finished,
        next_progress(no_upx, p, outcome).step == Step::Finished,
    ensures
        p.step == Step::RemoveScratch || (p.step == Step::CreateScratch && outcome
            != Outcome::Done),
        outcome == Outcome::Done ==> !next_progress(no_upx, p, outcome).scratch,
        p.step == Step::CreateScratch ==> !next_progress(no_upx, p, outcome).scratch,
{
}

/// A step that is tried and not done ends the build with that step as the
/// failure; only the search for the strip tool or the packer may come up
/// empty without one.
pub proof fn lemma_failure_gates(no_upx: bool, p: Progress, outcome: Outcome)
    requires
        coherent(no_upx, p),
        p.step != Step::Finished,
        outcome != Outcome::Done,
    ensures
        (p.step == Step::LocateStrip || p.step == Step::LocateCompressor) ==> next_progress(
            no_upx,
            p,
            outcome,
        ).failed_at is None,
        (p.step != Step::LocateStrip && p.step != Step::LocateCompressor && p.step
            != Step::RemoveScratch) ==> next_progress(no_upx, p, outcome).failed_at == Some(p.step),
        p.step != Step::LocateStrip && p.step != Step::LocateCompressor ==> (next_progress(
            no_upx,
            p,
            outcome,
        ).step == Step::RemoveScratch || next_progress(no_upx, p, outcome).step == Step::Finished),
{
}

} // verus!
