//! Configuration surface consumed by the pipeline.

use vstd::prelude::*;

verus! {

/// How much trust the classifier places in file extensions when deciding
/// whether to attempt a tag read.
#[derive(Clone, Copy, Debug, PartialEq, Eq, Structural)]
pub enum FileMatchStrictness {
    /// Probe any regular file with the fast tag read, whatever its extension.
    TrustyGuesser,
    /// Only probe files whose extension is in the audio-extension set; trust
    /// the extension and use the fast tag read.
    FilterByExt,
    /// Ignore extensions entirely and always use the slower format-probing
    /// tag read for every regular file.
    Paranoid,
}

impl Default for FileMatchStrictness {
    fn default() -> (r: Self)
        ensures
            r == FileMatchStrictness::FilterByExt,
    {
        FileMatchStrictness::FilterByExt
    }
}

/// Which existing sidecar states cause a track to be skipped outright,
/// before any tag read is attempted.
#[derive(Clone, Copy, Debug, PartialEq, Eq, Structural)]
pub enum LrcAcquireBehavior {
    /// Never skip: attempt a download even when a `.lrc` or `.nolrc` exists.
    All,
    /// Skip only tracks that already have a `.nolrc` sentinel.
    OverwriteExceptNolrc,
    /// Skip only tracks that already have a `.lrc` sidecar.
    LrcMissingAll,
    /// Skip tracks that already have either sidecar.
    LrcMissing,
}

/// The validated configuration the pipeline runs under. The unverified
/// command-line layer owns parsing and validation; the pipeline itself only
/// relies on [`Cli::wf`].
pub struct Cli {
    /// Roots to scan; the run aborts before any work when this is empty.
    pub paths: Vec<String>,
    /// Do not skip hidden files and directories.
    pub no_ignore_hidden: bool,
    /// Do not follow symlinks during traversal.
    pub no_follow_symlinks: bool,
    /// Sidecar-based skip policy.
    pub lrc_acquire_behavior: LrcAcquireBehavior,
    /// Never create `.nolrc` sentinel files.
    pub deny_nolrc: bool,
    /// Extension-trust policy for the classifier.
    pub strictness: FileMatchStrictness,
    /// How many fetches may be in flight at once; always at least one.
    pub download_jobs: u16,
    /// Traversal worker threads; zero means the platform default.
    pub traversal_jobs: u16,
    /// Optional outbound proxy address.
    pub proxy: Option<String>,
}

impl Cli {
    /// The command-line layer guarantees a positive fetch concurrency limit.
    pub open spec fn wf(&self) -> bool {
        self.download_jobs >= 1
    }
}

} // verus!
