//! Raw diff text, as returned by the version-control backend.

use vstd::prelude::*;

verus! {

/// The raw textual diff of one commit against its first parent.
#[derive(Debug, Clone)]
pub struct Diff(String);

impl View for Diff {
    type V = Seq<char>;

    closed spec fn view(&self) -> Seq<char> {
        self.0@
    }
}

impl Diff {
    pub fn new(content: String) -> (r: Self)
        ensures
            r@ == content@,
    {
        Diff(content)
    }

    pub fn as_str(&self) -> (r: &str)
        ensures
            r@ == self@,
    {
        self.0.as_str()
    }
}

} // verus!
