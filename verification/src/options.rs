//! The command surface as plain values.
use vstd::prelude::*;
use crate::resolver::{Criterion, Selection};

verus! {

/// The subcommands with their options. Paths are text; `target` is the
/// platform triple to build for.
#[derive(Clone, Debug)]
pub enum Opt {
    ExecutablePayload {
        use_cross: bool,
        strip_exe: Option<String>,
        no_upx: bool,
        output: Option<String>,
        src: Option<String>,
        bin: Option<String>,
        target: String,
        manifest_path: Option<String>,
    },
}

/// The knobs of a build, fixed once the options are read.
#[derive(Clone, Debug)]
pub struct BuildConfig {
    /// The platform triple to build for.
    pub target: String,
    /// Whether `cross` builds instead of the default builder.
    pub use_cross: bool,
    /// The strip tool to use instead of the default one.
    pub strip_exe: Option<String>,
    /// Whether compression is switched off.
    pub no_upx: bool,
    /// The manifest to use instead of the nearest one.
    pub manifest_path: Option<String>,
}

/// The text of an optional string, if there is one.
pub open spec fn text_of(s: Option<String>) -> Option<Seq<char>> {
    match s {
        Some(t) => Some(t@),
        None => None,
    }
}

fn copy_of(s: &Option<String>) -> (r: Option<String>)
    ensures
        text_of(r) == text_of(*s),
{
    match s {
        Some(t) => Some(t.clone()),
        None => None,
    }
}

impl Opt {
    /// The build's knobs as the options give them.
    pub fn build_config(&self) -> (config: BuildConfig)
        ensures
            match *self {
                Opt::ExecutablePayload { use_cross, strip_exe, no_upx, target, manifest_path, .. } => {
                    &&& config.target@ == target@
                    &&& config.use_cross == use_cross
                    &&& text_of(config.strip_exe) == text_of(strip_exe)
                    &&& config.no_upx == no_upx
                    &&& text_of(config.manifest_path) == text_of(manifest_path)
                },
            },
    {
        match self {
            Opt::ExecutablePayload { use_cross, strip_exe, no_upx, target, manifest_path, .. } => {
                BuildConfig {
                    target: target.clone(),
                    use_cross: *use_cross,
                    strip_exe: copy_of(strip_exe),
                    no_upx: *no_upx,
                    manifest_path: copy_of(manifest_path),
                }
            },
        }
    }

    /// The selection that the options ask for, with the source path taken
    /// as it stands.
    pub fn selection(&self) -> (sel: Selection)
        ensures
            match *self {
                Opt::ExecutablePayload { src, bin, .. } => sel@ == match (bin, src) {
                    (Some(name), _) => Criterion::Name(name@),
                    (None, Some(path)) => Criterion::SourcePath(path@),
                    (None, None) => Criterion::Any,
                },
            },
    {
        match self {
            Opt::ExecutablePayload { src, bin, .. } => selection_of(copy_of(bin), copy_of(src)),
        }
    }
}

/// The platform triple that is built for when none is given.
pub fn default_target() -> (triple: String)
    ensures
        triple@ == "x86_64-unknown-linux-musl"@,
{
    "x86_64-unknown-linux-musl".to_owned()
}

/// The selection that the options ask for: a name wins over a source path,
/// and with neither the target is inferred. `src` is the source path as an
/// absolute path.
pub fn selection_of(bin: Option<String>, src: Option<String>) -> (sel: Selection)
    ensures
        sel@ == match (bin, src) {
            (Some(name), _) => Criterion::Name(name@),
            (None, Some(path)) => Criterion::SourcePath(path@),
            (None, None) => Criterion::Any,
        },
{
    match bin {
        Some(name) => Selection::ByName(name),
        None => match src {
            Some(path) => Selection::BySourcePath(path),
            None => Selection::Infer,
        },
    }
}

} // verus!
