//! Per-line attribution frames and the navigation history: a stack of
//! visited file/revision pairs, manipulated in strict last-in-first-out
//! order.

use vstd::prelude::*;

use crate::commit::short_of;
use crate::commit::CommitHash;

verus! {

/// One attributed line: its 1-based line number, the commit that last
/// touched it, and display fields. Immutable once produced.
#[derive(Debug, Clone)]
pub struct BlameEntry {
    pub line_number: usize,
    pub commit_hash: CommitHash,
    pub author: String,
    pub timestamp: i64,
    pub content: String,
}

/// A snapshot of one file's line-by-line attribution at one commit, plus a
/// selection cursor.
#[derive(Debug, Clone)]
pub struct BlameFrame {
    pub file_path: String,
    pub commit_hash: CommitHash,
    pub entries: Vec<BlameEntry>,
    pub selected_line: usize,
}

impl BlameFrame {
    /// The selection invariant: a valid index into `entries` when any exist,
    /// and zero otherwise.
    pub open spec fn wf(&self) -> bool {
        if self.entries@.len() == 0 {
            self.selected_line == 0
        } else {
            self.selected_line < self.entries@.len()
        }
    }

    /// Restores the selection invariant on a frame that arrived from
    /// outside; a frame that already satisfies it is left unchanged.
    pub fn clamp_selection(&mut self)
        ensures
            final(self).wf(),
            final(self).file_path == old(self).file_path,
            final(self).commit_hash == old(self).commit_hash,
            final(self).entries == old(self).entries,
            old(self).wf() ==> final(self).selected_line == old(self).selected_line,
    {
        let n = self.entries.len();
        if n == 0 {
            self.selected_line = 0;
        } else if self.selected_line >= n {
            self.selected_line = n - 1;
        }
    }
}

/// The textual hash chain of a history: the shortened identifier of every
/// frame from oldest to newest, joined by arrow separators.
pub open spec fn chain_of(frames: Seq<BlameFrame>) -> Seq<char>
    decreases frames.len(),
{
    if frames.len() == 0 {
        Seq::empty()
    } else if frames.len() == 1 {
        short_of(frames[0].commit_hash@)
    } else {
        chain_of(frames.drop_last()) + " -> "@ + short_of(frames.last().commit_hash@)
    }
}

/// An ordered history of visited file/revision frames. Grown by `push`,
/// shrunk by `pop`; `pop` on an empty stack returns nothing, and it is the
/// navigator's task never to pop the last remaining frame.
#[derive(Debug)]
pub struct BlameStack {
    frames: Vec<BlameFrame>,
}

impl View for BlameStack {
    type V = Seq<BlameFrame>;

    closed spec fn view(&self) -> Seq<BlameFrame> {
        self.frames@
    }
}

impl Default for BlameStack {
    fn default() -> (r: Self)
        ensures
            r@ == Seq::<BlameFrame>::empty(),
    {
        BlameStack::new()
    }
}

impl BlameStack {
    pub fn new() -> (r: Self)
        ensures
            r@ == Seq::<BlameFrame>::empty(),
    {
        let r = BlameStack { frames: Vec::new() };
        assert(r@ =~= Seq::<BlameFrame>::empty());
        r
    }

    /// Appends a frame; depth grows by one.
    pub fn push(&mut self, frame: BlameFrame)
        ensures
            final(self)@ == old(self)@.push(frame),
    {
        self.frames.push(frame);
    }

    /// Removes and returns the most recent frame, or nothing when the stack
    /// is empty.
    pub fn pop(&mut self) -> (r: Option<BlameFrame>)
        ensures
            old(self)@.len() == 0 ==> r is None && final(self)@ == old(self)@,
            old(self)@.len() > 0 ==> r == Some(old(self)@.last()) && final(self)@ == old(
                self,
            )@.drop_last(),
    {
        self.frames.pop()
    }

    /// The most recent frame, or nothing before any push.
    pub fn current(&self) -> (r: Option<&BlameFrame>)
        ensures
            self@.len() == 0 ==> r is None,
            self@.len() > 0 ==> (r matches Some(f) && *f == self@.last()),
    {
        if self.frames.len() == 0 {
            None
        } else {
            Some(&self.frames[self.frames.len() - 1])
        }
    }

    /// The most recent frame, for mutation. The caller may change only that
    /// frame; the rest of the stack is untouched.
    pub fn current_mut(&mut self) -> (r: &mut BlameFrame)
        requires
            old(self)@.len() > 0,
        ensures
            *r == old(self)@.last(),
            final(self)@ == old(self)@.update(old(self)@.len() - 1, *final(r)),
            final(self)@.len() == old(self)@.len(),
    {
        let i = self.frames.len() - 1;
        &mut self.frames[i]
    }

    /// How many frames the history holds.
    pub fn depth(&self) -> (r: usize)
        ensures
            r == self@.len(),
    {
        self.frames.len()
    }

    pub fn is_empty(&self) -> (r: bool)
        ensures
            r == (self@.len() == 0),
    {
        self.frames.len() == 0
    }

    /// The shortened identifiers of every frame, oldest first, joined by
    /// arrows; nothing when the history holds at most one frame.
    pub fn hash_chain(&self) -> (r: Option<String>)
        ensures
            self@.len() <= 1 ==> r is None,
            self@.len() > 1 ==> (r matches Some(s) && s@ == chain_of(self@)),
    {
        let n = self.frames.len();
        if n <= 1 {
            return None;
        }
        let mut out = String::new();
        let mut i: usize = 0;
        while i < n
            invariant
                n == self@.len(),
                i <= n,
                out@ == chain_of(self@.take(i as int)),
            decreases n - i,
        {
            proof {
                assert(self@.take(i + 1).drop_last() =~= self@.take(i as int));
                assert(self@.take(i + 1).last() == self@[i as int]);
                assert(self@.take(i + 1)[0] == self@[0]);
            }
            if i > 0 {
                out.append(" -> ");
            }
            out.append(self.frames[i].commit_hash.short());
            i += 1;
        }
        proof {
            assert(self@.take(n as int) =~= self@);
        }
        Some(out)
    }
}

/// The stack contents after pushing each frame of `fs`, in order, onto a
/// stack holding `s0`.
pub open spec fn pushed_all(s0: Seq<BlameFrame>, fs: Seq<BlameFrame>) -> Seq<BlameFrame>
    decreases fs.len(),
{
    if fs.len() == 0 {
        s0
    } else {
        pushed_all(s0.push(fs[0]), fs.drop_first())
    }
}

/// Pushing frames appends them in order.
pub proof fn lemma_pushed_all_appends(s0: Seq<BlameFrame>, fs: Seq<BlameFrame>)
    ensures
        pushed_all(s0, fs) == s0 + fs,
    decreases fs.len(),
{
    if fs.len() == 0 {
        assert(pushed_all(s0, fs) =~= s0 + fs);
    } else {
        lemma_pushed_all_appends(s0.push(fs[0]), fs.drop_first());
        assert(s0.push(fs[0]) + fs.drop_first() =~= s0 + fs);
    }
}

/// After N pushes onto an empty stack the depth is exactly N.
pub proof fn lemma_depth_after_pushes(fs: Seq<BlameFrame>)
    ensures
        pushed_all(Seq::empty(), fs).len() == fs.len(),
{
    lemma_pushed_all_appends(Seq::empty(), fs);
    assert(pushed_all(Seq::empty(), fs) =~= fs);
}

/// Pops after N pushes return the frames in exact reverse order: with the
/// first k most recent frames already popped, the stack holds the oldest
/// N - k frames and the next pop returns the frame pushed (N - k)-th.
pub proof fn lemma_lifo(fs: Seq<BlameFrame>, k: int)
    requires
        0 <= k < fs.len(),
    ensures
        pushed_all(Seq::empty(), fs).take(fs.len() - k).last() == fs[fs.len() - 1 - k],
        pushed_all(Seq::empty(), fs).take(fs.len() - k).drop_last() == pushed_all(
            Seq::empty(),
            fs,
        ).take(fs.len() - k - 1),
{
    lemma_pushed_all_appends(Seq::empty(), fs);
    assert(pushed_all(Seq::empty(), fs) =~= fs);
    assert(fs.take(fs.len() - k).last() == fs[fs.len() - 1 - k]);
    assert(fs.take(fs.len() - k).drop_last() =~= fs.take(fs.len() - k - 1));
}

/// After a push, the current (top) frame is exactly the frame just pushed.
pub proof fn lemma_current_after_push(s: Seq<BlameFrame>, f: BlameFrame)
    ensures
        s.push(f).last() == f,
        s.push(f).len() == s.len() + 1,
{
}


/// The combined length of the shortened identifiers of all frames.
pub open spec fn total_short_len(frames: Seq<BlameFrame>) -> int
    decreases frames.len(),
{
    if frames.len() == 0 {
        0
    } else {
        total_short_len(frames.drop_last()) + short_of(frames.last().commit_hash@).len()
    }
}

/// Law: the hash chain of N frames joins their shortened identifiers with
/// exactly N - 1 arrow separators: its length is their combined length plus
/// the separators'.
pub proof fn lemma_chain_separator_count(frames: Seq<BlameFrame>)
    requires
        frames.len() >= 1,
    ensures
        chain_of(frames).len() == total_short_len(frames) + 4 * (frames.len() - 1),
    decreases frames.len(),
{
    reveal_strlit(" -> ");
    assert(" -> "@.len() == 4);
    if frames.len() == 1 {
        assert(frames.drop_last() =~= Seq::<BlameFrame>::empty());
        assert(total_short_len(frames.drop_last()) == 0);
        assert(chain_of(frames) == short_of(frames[0].commit_hash@));
        assert(frames.last() == frames[0]);
    } else {
        lemma_chain_separator_count(frames.drop_last());
        assert(chain_of(frames).len() == chain_of(frames.drop_last()).len() + 4 + short_of(
            frames.last().commit_hash@,
        ).len());
    }
}

/// Law: every frame's shortened identifier appears in the hash chain, at
/// some position, exactly as rendered.
pub proof fn lemma_chain_contains_each_short(frames: Seq<BlameFrame>, i: int)
    requires
        0 <= i < frames.len(),
    ensures
        exists|p: int|
            {
                &&& 0 <= p
                &&& p + short_of(frames[i].commit_hash@).len() <= chain_of(frames).len()
                &&& #[trigger] chain_of(frames).subrange(
                    p,
                    p + short_of(frames[i].commit_hash@).len(),
                ) == short_of(frames[i].commit_hash@)
            },
    decreases frames.len(),
{
    reveal_strlit(" -> ");
    assert(" -> "@.len() == 4);
    let chain = chain_of(frames);
    let short = short_of(frames[i].commit_hash@);
    if frames.len() == 1 {
        let w: int = 0;
        assert(chain.subrange(w, w + short.len()) =~= short);
        assert(chain_of(frames).subrange(w, w + short_of(frames[i].commit_hash@).len())
            == short_of(frames[i].commit_hash@));
    } else if i == frames.len() - 1 {
        let w: int = chain_of(frames.drop_last()).len() as int + 4;
        assert(chain.subrange(w, w + short.len()) =~= short);
        assert(chain_of(frames).subrange(w, w + short_of(frames[i].commit_hash@).len())
            == short_of(frames[i].commit_hash@));
    } else {
        assert(frames.drop_last()[i] == frames[i]);
        lemma_chain_contains_each_short(frames.drop_last(), i);
        let prev = chain_of(frames.drop_last());
        let w = choose|w: int|
            {
                &&& 0 <= w
                &&& w + short_of(frames.drop_last()[i].commit_hash@).len() <= prev.len()
                &&& #[trigger] prev.subrange(
                    w,
                    w + short_of(frames.drop_last()[i].commit_hash@).len(),
                ) == short_of(frames.drop_last()[i].commit_hash@)
            };
        assert(chain.subrange(w, w + short.len()) =~= prev.subrange(w, w + short.len()));
        assert(chain_of(frames).subrange(w, w + short_of(frames[i].commit_hash@).len())
            == short_of(frames[i].commit_hash@));
    }
}

} // verus!
