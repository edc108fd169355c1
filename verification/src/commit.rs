//! Commit identifiers and transient commit metadata.

use vstd::prelude::*;

verus! {

/// A commit identifier, as handed out by the version-control backend.
#[derive(Debug, Clone)]
pub struct CommitHash(String);

/// The shortened form of a commit identifier: its first seven characters,
/// or all of them when it is shorter than that.
pub open spec fn short_of(s: Seq<char>) -> Seq<char> {
    if s.len() <= 7 {
        s
    } else {
        s.subrange(0, 7)
    }
}

impl View for CommitHash {
    type V = Seq<char>;

    closed spec fn view(&self) -> Seq<char> {
        self.0@
    }
}

impl CommitHash {
    pub fn new(hash: String) -> (r: Self)
        ensures
            r@ == hash@,
    {
        CommitHash(hash)
    }

    pub fn as_str(&self) -> (r: &str)
        ensures
            r@ == self@,
    {
        self.0.as_str()
    }

    /// The shortened identifier: the first seven characters.
    pub fn short(&self) -> (r: &str)
        ensures
            r@ == short_of(self@),
    {
        let n = self.0.as_str().unicode_len();
        let cut = if n <= 7 { n } else { 7 };
        self.0.as_str().substring_char(0, cut)
    }

    /// The symbolic name of the most recent revision.
    pub fn head() -> (r: Self)
        ensures
            r@ == "HEAD"@,
    {
        CommitHash(String::from_str("HEAD"))
    }
}

impl PartialEq for CommitHash {
    fn eq(&self, other: &Self) -> (r: bool) {
        self.0 == other.0
    }
}

impl Eq for CommitHash {}

impl vstd::std_specs::cmp::PartialEqSpecImpl for CommitHash {
    open spec fn obeys_eq_spec() -> bool {
        true
    }

    open spec fn eq_spec(&self, other: &Self) -> bool {
        self@ == other@
    }
}

/// Metadata of one commit: its identity, its first parent (absent for a root
/// commit), and display fields. Used transiently to discover the parent for
/// drilling down; never retained.
#[derive(Debug, Clone)]
pub struct CommitInfo {
    pub hash: CommitHash,
    pub parent: Option<CommitHash>,
    pub author: String,
    pub timestamp: i64,
    pub message: String,
}

} // verus!
