//! The external capabilities the navigator consumes: the version-control
//! backend that computes attributions, diffs and commit metadata, and the
//! formatter that turns a raw diff into display-ready lines. Both are
//! injected at construction; the navigator relies on nothing about their
//! replies beyond the types — its contracts hold for every possible reply.

use vstd::prelude::*;

use crate::blame::BlameFrame;
use crate::commit::CommitHash;
use crate::commit::CommitInfo;
use crate::diff::Diff;

verus! {

/// A failure of the version-control backend.
#[derive(Debug, Clone)]
pub struct GatewayError {
    pub message: String,
}

impl GatewayError {
    pub fn new(message: String) -> (r: Self)
        ensures
            r.message@ == message@,
    {
        GatewayError { message }
    }
}

/// A failure of the external diff formatter.
#[derive(Debug, Clone)]
pub struct FormatterError {
    pub message: String,
}

impl FormatterError {
    pub fn new(message: String) -> (r: Self)
        ensures
            r.message@ == message@,
    {
        FormatterError { message }
    }
}

/// The version-control backend.
pub trait GitGateway {
    /// The per-line attribution of the file at the given commit.
    fn blame(&self, file_path: &String, commit: &CommitHash) -> Result<BlameFrame, GatewayError>;

    /// The raw diff of the given commit against its first parent.
    fn diff(&self, commit: &CommitHash) -> Result<Diff, GatewayError>;

    /// The metadata of the given commit, parent included.
    fn commit_info(&self, commit: &CommitHash) -> Result<CommitInfo, GatewayError>;

    /// A browsable URL for the commit, when the backend knows one.
    fn github_commit_url(&self, commit: &CommitHash) -> Option<String>;
}

/// The external diff formatter.
pub trait DiffFormatter {
    /// Turns a raw diff into display-ready lines.
    fn format(&self, diff: &Diff) -> Result<Vec<String>, FormatterError>;

    /// Whether the formatter can run at all; checked once at startup.
    fn is_available(&self) -> bool;
}

} // verus!
