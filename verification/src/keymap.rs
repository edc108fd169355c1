//! The four binding tables — one per interaction mode plus the global
//! table — each a mapping from key binding to action. Backed by small
//! association lists with unique keys, viewed as mathematical maps.

use vstd::prelude::*;

use crate::action::Action;
use crate::action::BlameAction;
use crate::action::DiffAction;
use crate::action::GlobalAction;
use crate::action::HelpAction;
use crate::binding::KeyBinding;
use crate::binding::KeyCode;
use crate::binding::KeyModifiers;

verus! {

/// The map a table's entries denote; a later entry for the same key wins.
pub open spec fn table_map(s: Seq<(KeyBinding, Action)>) -> Map<KeyBinding, Action>
    decreases s.len(),
{
    if s.len() == 0 {
        Map::empty()
    } else {
        table_map(s.drop_last()).insert(s.last().0, s.last().1)
    }
}

/// Each key appears at most once.
pub open spec fn table_wf(s: Seq<(KeyBinding, Action)>) -> bool {
    forall|i: int, j: int| 0 <= i < j < s.len() ==> s[i].0 != s[j].0
}

proof fn lemma_table_wf_drop_last(s: Seq<(KeyBinding, Action)>)
    requires
        table_wf(s),
        s.len() > 0,
    ensures
        table_wf(s.drop_last()),
{
    assert forall|i: int, j: int| 0 <= i < j < s.drop_last().len() implies s.drop_last()[i].0 != s
        .drop_last()[j].0 by {
        assert(s.drop_last()[i] == s[i]);
        assert(s.drop_last()[j] == s[j]);
    }
}

/// A key is in the map exactly when some entry holds it.
proof fn lemma_table_map_dom(s: Seq<(KeyBinding, Action)>, k: KeyBinding)
    ensures
        table_map(s).contains_key(k) <==> (exists|i: int| 0 <= i < s.len() && s[i].0 == k),
    decreases s.len(),
{
    if s.len() > 0 {
        lemma_table_map_dom(s.drop_last(), k);
        if s.last().0 == k {
            assert(s[s.len() - 1].0 == k);
        } else if table_map(s).contains_key(k) {
            let i = choose|i: int| 0 <= i < s.drop_last().len() && s.drop_last()[i].0 == k;
            assert(s[i].0 == k);
        } else {
            assert forall|i: int| 0 <= i < s.len() implies s[i].0 != k by {
                if i < s.len() - 1 {
                    assert(s.drop_last()[i].0 == s[i].0);
                }
            }
        }
    }
}

/// With unique keys, each entry's value is the map's value for its key.
proof fn lemma_table_map_index(s: Seq<(KeyBinding, Action)>, i: int)
    requires
        table_wf(s),
        0 <= i < s.len(),
    ensures
        table_map(s).contains_key(s[i].0),
        table_map(s)[s[i].0] == s[i].1,
    decreases s.len(),
{
    if i == s.len() - 1 {
    } else {
        lemma_table_wf_drop_last(s);
        assert(s.drop_last()[i] == s[i]);
        lemma_table_map_index(s.drop_last(), i);
        assert(s[i].0 != s.last().0);
    }
}

/// Looks a key up in a table.
fn table_get(t: &Vec<(KeyBinding, Action)>, k: &KeyBinding) -> (r: Option<Action>)
    requires
        table_wf(t@),
    ensures
        table_map(t@).contains_key(*k) ==> r == Some(table_map(t@)[*k]),
        !table_map(t@).contains_key(*k) ==> r is None,
{
    let n = t.len();
    let mut i: usize = 0;
    while i < n
        invariant
            n == t@.len(),
            i <= n,
            table_wf(t@),
            forall|j: int| 0 <= j < i ==> t@[j].0 != *k,
        decreases n - i,
    {
        if t[i].0 == *k {
            proof {
                lemma_table_map_index(t@, i as int);
            }
            return Some(t[i].1);
        }
        i += 1;
    }
    proof {
        lemma_table_map_dom(t@, *k);
    }
    None
}

proof fn lemma_table_map_update(s: Seq<(KeyBinding, Action)>, i: int, v: Action)
    requires
        table_wf(s),
        0 <= i < s.len(),
    ensures
        table_map(s.update(i, (s[i].0, v))) == table_map(s).insert(s[i].0, v),
        table_wf(s.update(i, (s[i].0, v))),
    decreases s.len(),
{
    let s2 = s.update(i, (s[i].0, v));
    assert forall|p: int, q: int| 0 <= p < q < s2.len() implies s2[p].0 != s2[q].0 by {
        assert(s2[p].0 == s[p].0);
        assert(s2[q].0 == s[q].0);
    }
    if i == s.len() - 1 {
        assert(s2.drop_last() =~= s.drop_last());
        assert(table_map(s2) == table_map(s.drop_last()).insert(s[i].0, v));
        assert(table_map(s).insert(s[i].0, v) =~= table_map(s.drop_last()).insert(s[i].0, v));
    } else {
        lemma_table_wf_drop_last(s);
        assert(s.drop_last()[i] == s[i]);
        lemma_table_map_update(s.drop_last(), i, v);
        assert(s2.drop_last() =~= s.drop_last().update(i, (s[i].0, v)));
        assert(s2.last() == s.last());
        assert(table_map(s2) == table_map(s.drop_last()).insert(s[i].0, v).insert(
            s.last().0,
            s.last().1,
        ));
        assert(s[i].0 != s.last().0);
        assert(table_map(s.drop_last()).insert(s[i].0, v).insert(s.last().0, s.last().1)
            =~= table_map(s.drop_last()).insert(s.last().0, s.last().1).insert(s[i].0, v));
    }
}

/// Binds a key in a table, replacing any earlier binding of the same key.
fn table_set(t: &mut Vec<(KeyBinding, Action)>, k: KeyBinding, v: Action)
    requires
        table_wf(old(t)@),
    ensures
        table_wf(final(t)@),
        table_map(final(t)@) == table_map(old(t)@).insert(k, v),
{
    let n = t.len();
    let mut i: usize = 0;
    while i < n
        invariant
            n == t@.len(),
            i <= n,
            t@ == old(t)@,
            table_wf(t@),
            forall|j: int| 0 <= j < i ==> t@[j].0 != k,
        decreases n - i,
    {
        if t[i].0 == k {
            proof {
                lemma_table_map_update(t@, i as int, v);
            }
            let entry = &mut t[i];
            *entry = (k, v);
            return ;
        }
        i += 1;
    }
    proof {
        lemma_table_map_dom(t@, k);
        let s2 = t@.push((k, v));
        assert(s2.drop_last() =~= t@);
        assert forall|p: int, q: int| 0 <= p < q < s2.len() implies s2[p].0 != s2[q].0 by {
            if q < s2.len() - 1 {
                assert(s2[p] == t@[p]);
                assert(s2[q] == t@[q]);
            } else {
                assert(s2[p] == t@[p]);
                assert(!table_map(t@).contains_key(k));
            }
        }
    }
    t.push((k, v));
}

/// The keys of a table that are bound to the given action, in table order.
fn table_keys_for(t: &Vec<(KeyBinding, Action)>, v: Action) -> (r: Vec<KeyBinding>)
    requires
        table_wf(t@),
    ensures
        forall|k: KeyBinding|
            r@.contains(k) <==> (table_map(t@).contains_key(k) && table_map(t@)[k] == v),
        r@.no_duplicates(),
{
    let n = t.len();
    let mut r: Vec<KeyBinding> = Vec::new();
    let mut i: usize = 0;
    while i < n
        invariant
            n == t@.len(),
            i <= n,
            table_wf(t@),
            forall|k: KeyBinding|
                r@.contains(k) <==> (exists|j: int| 0 <= j < i && t@[j].0 == k && t@[j].1 == v),
            r@.no_duplicates(),
        decreases n - i,
    {
        let ghost r_pre = r@;
        let ghost x = t@[i as int].0;
        if t[i].1 == v {
            proof {
                if r_pre.contains(x) {
                    let j = choose|j: int| 0 <= j < i && t@[j].0 == x && t@[j].1 == v;
                    assert(false);
                }
            }
            r.push(t[i].0);
            proof {
                assert(r@ == r_pre.push(x));
                assert(r@[r@.len() - 1] == x);
                assert forall|p: int, q: int| 0 <= p < q < r@.len() implies r@[p] != r@[q] by {
                    if q < r@.len() - 1 {
                        assert(r@[p] == r_pre[p]);
                        assert(r@[q] == r_pre[q]);
                    } else {
                        assert(r@[p] == r_pre[p]);
                        assert(r_pre.contains(r_pre[p]));
                    }
                }
            }
        }
        proof {
            assert forall|k: KeyBinding| r@.contains(k) implies (exists|j: int|
                0 <= j < i + 1 && t@[j].0 == k && t@[j].1 == v) by {
                let idx = choose|idx: int| 0 <= idx < r@.len() && r@[idx] == k;
                if idx < r_pre.len() {
                    assert(r_pre[idx] == k);
                    assert(r_pre.contains(k));
                    let j = choose|j: int| 0 <= j < i && t@[j].0 == k && t@[j].1 == v;
                    assert(0 <= j < i + 1 && t@[j].0 == k && t@[j].1 == v);
                } else {
                    assert(k == x);
                    assert(t@[i as int].0 == k && t@[i as int].1 == v);
                }
            }
            assert forall|k: KeyBinding| (exists|j: int|
                0 <= j < i + 1 && t@[j].0 == k && t@[j].1 == v) implies r@.contains(k) by {
                let j = choose|j: int| 0 <= j < i + 1 && t@[j].0 == k && t@[j].1 == v;
                if j < i {
                    assert(r_pre.contains(k));
                    let idx = choose|idx: int| 0 <= idx < r_pre.len() && r_pre[idx] == k;
                    assert(r@[idx] == k);
                } else {
                    assert(r@[r@.len() - 1] == k);
                }
            }
        }
        i += 1;
    }
    proof {
        assert forall|k: KeyBinding| r@.contains(k) implies (table_map(t@).contains_key(k)
            && table_map(t@)[k] == v) by {
            let j = choose|j: int| 0 <= j < n && t@[j].0 == k && t@[j].1 == v;
            lemma_table_map_index(t@, j);
        }
        assert forall|k: KeyBinding|
            table_map(t@).contains_key(k) && table_map(t@)[k] == v implies r@.contains(k) by {
            lemma_table_map_dom(t@, k);
            let j = choose|j: int| 0 <= j < t@.len() && t@[j].0 == k;
            lemma_table_map_index(t@, j);
        }
    }
    r
}

/// The map after inserting each entry of `s`, in order, into `m`.
pub open spec fn inserted_all(
    m: Map<KeyBinding, Action>,
    s: Seq<(KeyBinding, Action)>,
) -> Map<KeyBinding, Action>
    decreases s.len(),
{
    if s.len() == 0 {
        m
    } else {
        inserted_all(m, s.drop_last()).insert(s.last().0, s.last().1)
    }
}

/// Inserting a table's entries lays its map over `m`.
proof fn lemma_inserted_all_union(m: Map<KeyBinding, Action>, s: Seq<(KeyBinding, Action)>)
    ensures
        inserted_all(m, s) == m.union_prefer_right(table_map(s)),
    decreases s.len(),
{
    if s.len() == 0 {
        assert(inserted_all(m, s) =~= m.union_prefer_right(table_map(s)));
    } else {
        lemma_inserted_all_union(m, s.drop_last());
        assert(inserted_all(m, s) == m.union_prefer_right(table_map(s.drop_last())).insert(
            s.last().0,
            s.last().1,
        ));
        assert(m.union_prefer_right(table_map(s.drop_last())).insert(s.last().0, s.last().1)
            =~= m.union_prefer_right(table_map(s)));
    }
}


/// Lays every entry of `src` over `dst`, replacing clashing keys.
fn merge_table(dst: &mut Vec<(KeyBinding, Action)>, src: &Vec<(KeyBinding, Action)>)
    requires
        table_wf(old(dst)@),
    ensures
        table_wf(final(dst)@),
        table_map(final(dst)@) == inserted_all(table_map(old(dst)@), src@),
{
    let ghost m0 = table_map(dst@);
    let n = src.len();
    let mut j: usize = 0;
    proof {
        assert(src@.take(0) =~= Seq::<(KeyBinding, Action)>::empty());
    }
    while j < n
        invariant
            n == src@.len(),
            j <= n,
            table_wf(dst@),
            table_map(dst@) == inserted_all(m0, src@.take(j as int)),
        decreases n - j,
    {
        table_set(dst, src[j].0, src[j].1);
        proof {
            assert(src@.take(j + 1).drop_last() =~= src@.take(j as int));
            assert(src@.take(j + 1).last() == src@[j as int]);
        }
        j += 1;
    }
    proof {
        assert(src@.take(n as int) =~= src@);
    }
}

/// A key binding, written out by its parts.
pub open spec fn kb(key: KeyCode, ctrl: bool, alt: bool, shift: bool) -> KeyBinding {
    KeyBinding { key, modifiers: KeyModifiers { ctrl, alt, shift } }
}

/// The built-in global bindings: quit and help.
pub open spec fn default_global_map() -> Map<KeyBinding, Action> {
    Map::empty().insert(kb(KeyCode::Char('q'), false, false, false), Action::Global(GlobalAction::Quit)).insert(
        kb(KeyCode::Char('c'), true, false, false),
        Action::Global(GlobalAction::Quit),
    ).insert(kb(KeyCode::Char('?'), false, false, false), Action::Global(GlobalAction::ShowHelp))
}

/// The built-in blame-mode bindings: the full movement, drill-down, go-back
/// and show-diff set.
pub open spec fn default_blame_map() -> Map<KeyBinding, Action> {
    Map::empty().insert(
        kb(KeyCode::Char('j'), false, false, false),
        Action::Blame(BlameAction::CursorDown),
    ).insert(kb(KeyCode::Char('J'), false, false, true), Action::Blame(BlameAction::Cursor10Down)).insert(
        kb(KeyCode::Char('k'), false, false, false),
        Action::Blame(BlameAction::CursorUp),
    ).insert(kb(KeyCode::Char('K'), false, false, true), Action::Blame(BlameAction::Cursor10Up)).insert(
        kb(KeyCode::Down, false, false, false),
        Action::Blame(BlameAction::CursorDown),
    ).insert(kb(KeyCode::Up, false, false, false), Action::Blame(BlameAction::CursorUp)).insert(
        kb(KeyCode::Char('d'), true, false, false),
        Action::Blame(BlameAction::CursorPageDown),
    ).insert(kb(KeyCode::Char('u'), true, false, false), Action::Blame(BlameAction::CursorPageUp)).insert(
        kb(KeyCode::Char('g'), false, false, false),
        Action::Blame(BlameAction::CursorTop),
    ).insert(kb(KeyCode::Char('G'), false, false, true), Action::Blame(BlameAction::CursorBottom)).insert(
        kb(KeyCode::Char(','), false, false, false),
        Action::Blame(BlameAction::DrillDown),
    ).insert(kb(KeyCode::Char('u'), false, false, false), Action::Blame(BlameAction::GoBack)).insert(
        kb(KeyCode::Enter, false, false, false),
        Action::Blame(BlameAction::ShowDiff),
    )
}

/// The built-in diff-mode bindings: scrolling and close.
pub open spec fn default_diff_map() -> Map<KeyBinding, Action> {
    Map::empty().insert(
        kb(KeyCode::Char('j'), false, false, false),
        Action::Diff(DiffAction::ScrollDown),
    ).insert(kb(KeyCode::Char('J'), false, false, true), Action::Diff(DiffAction::Scroll10Down)).insert(
        kb(KeyCode::Char('k'), false, false, false),
        Action::Diff(DiffAction::ScrollUp),
    ).insert(kb(KeyCode::Char('K'), false, false, true), Action::Diff(DiffAction::Scroll10Up)).insert(
        kb(KeyCode::Down, false, false, false),
        Action::Diff(DiffAction::ScrollDown),
    ).insert(kb(KeyCode::Up, false, false, false), Action::Diff(DiffAction::ScrollUp)).insert(
        kb(KeyCode::Char('d'), true, false, false),
        Action::Diff(DiffAction::ScrollPageDown),
    ).insert(kb(KeyCode::Char('u'), true, false, false), Action::Diff(DiffAction::ScrollPageUp)).insert(
        kb(KeyCode::Char('g'), false, false, false),
        Action::Diff(DiffAction::ScrollTop),
    ).insert(kb(KeyCode::Char('G'), false, false, true), Action::Diff(DiffAction::ScrollBottom)).insert(
        kb(KeyCode::Char('q'), false, false, false),
        Action::Diff(DiffAction::Close),
    ).insert(kb(KeyCode::Escape, false, false, false), Action::Diff(DiffAction::Close))
}

/// The built-in help-mode bindings: scrolling and close.
pub open spec fn default_help_map() -> Map<KeyBinding, Action> {
    Map::empty().insert(
        kb(KeyCode::Char('j'), false, false, false),
        Action::Help(HelpAction::ScrollDown),
    ).insert(kb(KeyCode::Char('k'), false, false, false), Action::Help(HelpAction::ScrollUp)).insert(
        kb(KeyCode::Char('J'), false, false, true),
        Action::Help(HelpAction::Scroll10Down),
    ).insert(kb(KeyCode::Char('K'), false, false, true), Action::Help(HelpAction::Scroll10Up)).insert(
        kb(KeyCode::Char('q'), false, false, false),
        Action::Help(HelpAction::Close),
    ).insert(kb(KeyCode::Escape, false, false, false), Action::Help(HelpAction::Close))
}

/// The four binding tables: the global one and one per interaction mode.
/// Built once from configuration at startup and read-only afterwards.
#[derive(Debug, Clone)]
pub struct KeymapConfig {
    global: Vec<(KeyBinding, Action)>,
    blame: Vec<(KeyBinding, Action)>,
    diff: Vec<(KeyBinding, Action)>,
    help: Vec<(KeyBinding, Action)>,
}

impl KeymapConfig {
    /// Each table binds a key at most once.
    pub closed spec fn wf(&self) -> bool {
        table_wf(self.global@) && table_wf(self.blame@) && table_wf(self.diff@) && table_wf(
            self.help@,
        )
    }

    pub closed spec fn global_map(&self) -> Map<KeyBinding, Action> {
        table_map(self.global@)
    }

    pub closed spec fn blame_map(&self) -> Map<KeyBinding, Action> {
        table_map(self.blame@)
    }

    pub closed spec fn diff_map(&self) -> Map<KeyBinding, Action> {
        table_map(self.diff@)
    }

    pub closed spec fn help_map(&self) -> Map<KeyBinding, Action> {
        table_map(self.help@)
    }

    /// An empty keymap: nothing bound anywhere.
    pub fn new() -> (r: Self)
        ensures
            r.wf(),
            r.global_map() == Map::<KeyBinding, Action>::empty(),
            r.blame_map() == Map::<KeyBinding, Action>::empty(),
            r.diff_map() == Map::<KeyBinding, Action>::empty(),
            r.help_map() == Map::<KeyBinding, Action>::empty(),
    {
        let r = KeymapConfig { global: Vec::new(), blame: Vec::new(), diff: Vec::new(), help: Vec::new() };
        proof {
            assert(r.global_map() =~= Map::<KeyBinding, Action>::empty());
            assert(r.blame_map() =~= Map::<KeyBinding, Action>::empty());
            assert(r.diff_map() =~= Map::<KeyBinding, Action>::empty());
            assert(r.help_map() =~= Map::<KeyBinding, Action>::empty());
        }
        r
    }

    /// Binds a key in the global table.
    pub fn bind_global(&mut self, k: KeyBinding, a: GlobalAction)
        requires
            old(self).wf(),
        ensures
            final(self).wf(),
            final(self).global_map() == old(self).global_map().insert(k, Action::Global(a)),
            final(self).blame_map() == old(self).blame_map(),
            final(self).diff_map() == old(self).diff_map(),
            final(self).help_map() == old(self).help_map(),
    {
        table_set(&mut self.global, k, Action::Global(a));
    }

    /// Binds a key in the blame-mode table.
    pub fn bind_blame(&mut self, k: KeyBinding, a: BlameAction)
        requires
            old(self).wf(),
        ensures
            final(self).wf(),
            final(self).blame_map() == old(self).blame_map().insert(k, Action::Blame(a)),
            final(self).global_map() == old(self).global_map(),
            final(self).diff_map() == old(self).diff_map(),
            final(self).help_map() == old(self).help_map(),
    {
        table_set(&mut self.blame, k, Action::Blame(a));
    }

    /// Binds a key in the diff-mode table.
    pub fn bind_diff(&mut self, k: KeyBinding, a: DiffAction)
        requires
            old(self).wf(),
        ensures
            final(self).wf(),
            final(self).diff_map() == old(self).diff_map().insert(k, Action::Diff(a)),
            final(self).global_map() == old(self).global_map(),
            final(self).blame_map() == old(self).blame_map(),
            final(self).help_map() == old(self).help_map(),
    {
        table_set(&mut self.diff, k, Action::Diff(a));
    }

    /// Binds a key in the help-mode table.
    pub fn bind_help(&mut self, k: KeyBinding, a: HelpAction)
        requires
            old(self).wf(),
        ensures
            final(self).wf(),
            final(self).help_map() == old(self).help_map().insert(k, Action::Help(a)),
            final(self).global_map() == old(self).global_map(),
            final(self).blame_map() == old(self).blame_map(),
            final(self).diff_map() == old(self).diff_map(),
    {
        table_set(&mut self.help, k, Action::Help(a));
    }

    /// Looks a binding up in the global table: a pure map read.
    pub fn get_global(&self, k: &KeyBinding) -> (r: Option<Action>)
        requires
            self.wf(),
        ensures
            self.global_map().contains_key(*k) ==> r == Some(self.global_map()[*k]),
            !self.global_map().contains_key(*k) ==> r is None,
    {
        table_get(&self.global, k)
    }

    /// Looks a binding up in the blame-mode table.
    pub fn get_blame(&self, k: &KeyBinding) -> (r: Option<Action>)
        requires
            self.wf(),
        ensures
            self.blame_map().contains_key(*k) ==> r == Some(self.blame_map()[*k]),
            !self.blame_map().contains_key(*k) ==> r is None,
    {
        table_get(&self.blame, k)
    }

    /// Looks a binding up in the diff-mode table.
    pub fn get_diff(&self, k: &KeyBinding) -> (r: Option<Action>)
        requires
            self.wf(),
        ensures
            self.diff_map().contains_key(*k) ==> r == Some(self.diff_map()[*k]),
            !self.diff_map().contains_key(*k) ==> r is None,
    {
        table_get(&self.diff, k)
    }

    /// Looks a binding up in the help-mode table.
    pub fn get_help(&self, k: &KeyBinding) -> (r: Option<Action>)
        requires
            self.wf(),
        ensures
            self.help_map().contains_key(*k) ==> r == Some(self.help_map()[*k]),
            !self.help_map().contains_key(*k) ==> r is None,
    {
        table_get(&self.help, k)
    }

    /// Every key bound to the given global action.
    pub fn keys_for_global(&self, action: GlobalAction) -> (r: Vec<KeyBinding>)
        requires
            self.wf(),
        ensures
            forall|k: KeyBinding|
                r@.contains(k) <==> (self.global_map().contains_key(k) && self.global_map()[k]
                    == Action::Global(action)),
            r@.no_duplicates(),
    {
        table_keys_for(&self.global, Action::Global(action))
    }

    /// Every key bound to the given blame-mode action.
    pub fn keys_for_blame(&self, action: BlameAction) -> (r: Vec<KeyBinding>)
        requires
            self.wf(),
        ensures
            forall|k: KeyBinding|
                r@.contains(k) <==> (self.blame_map().contains_key(k) && self.blame_map()[k]
                    == Action::Blame(action)),
            r@.no_duplicates(),
    {
        table_keys_for(&self.blame, Action::Blame(action))
    }

    /// Every key bound to the given diff-mode action.
    pub fn keys_for_diff(&self, action: DiffAction) -> (r: Vec<KeyBinding>)
        requires
            self.wf(),
        ensures
            forall|k: KeyBinding|
                r@.contains(k) <==> (self.diff_map().contains_key(k) && self.diff_map()[k]
                    == Action::Diff(action)),
            r@.no_duplicates(),
    {
        table_keys_for(&self.diff, Action::Diff(action))
    }

    /// Every key bound to the given help-mode action.
    pub fn keys_for_help(&self, action: HelpAction) -> (r: Vec<KeyBinding>)
        requires
            self.wf(),
        ensures
            forall|k: KeyBinding|
                r@.contains(k) <==> (self.help_map().contains_key(k) && self.help_map()[k]
                    == Action::Help(action)),
            r@.no_duplicates(),
    {
        table_keys_for(&self.help, Action::Help(action))
    }

    /// The built-in keymap: exactly the default bindings of every table.
    pub fn with_defaults() -> (r: Self)
        ensures
            r.wf(),
            r.global_map() == default_global_map(),
            r.blame_map() == default_blame_map(),
            r.diff_map() == default_diff_map(),
            r.help_map() == default_help_map(),
    {
        let mut c = KeymapConfig::new();

        c.bind_global(KeyBinding::new(KeyCode::Char('q')), GlobalAction::Quit);
        c.bind_global(
            KeyBinding::new(KeyCode::Char('c')).with_modifiers(KeyModifiers::ctrl()),
            GlobalAction::Quit,
        );
        c.bind_global(KeyBinding::new(KeyCode::Char('?')), GlobalAction::ShowHelp);

        c.bind_blame(KeyBinding::new(KeyCode::Char('j')), BlameAction::CursorDown);
        c.bind_blame(KeyBinding::new(KeyCode::Char('J')), BlameAction::Cursor10Down);
        c.bind_blame(KeyBinding::new(KeyCode::Char('k')), BlameAction::CursorUp);
        c.bind_blame(KeyBinding::new(KeyCode::Char('K')), BlameAction::Cursor10Up);
        c.bind_blame(KeyBinding::new(KeyCode::Down), BlameAction::CursorDown);
        c.bind_blame(KeyBinding::new(KeyCode::Up), BlameAction::CursorUp);
        c.bind_blame(
            KeyBinding::new(KeyCode::Char('d')).with_modifiers(KeyModifiers::ctrl()),
            BlameAction::CursorPageDown,
        );
        c.bind_blame(
            KeyBinding::new(KeyCode::Char('u')).with_modifiers(KeyModifiers::ctrl()),
            BlameAction::CursorPageUp,
        );
        c.bind_blame(KeyBinding::new(KeyCode::Char('g')), BlameAction::CursorTop);
        c.bind_blame(KeyBinding::new(KeyCode::Char('G')), BlameAction::CursorBottom);
        c.bind_blame(KeyBinding::new(KeyCode::Char(',')), BlameAction::DrillDown);
        c.bind_blame(KeyBinding::new(KeyCode::Char('u')), BlameAction::GoBack);
        c.bind_blame(KeyBinding::new(KeyCode::Enter), BlameAction::ShowDiff);

        c.bind_diff(KeyBinding::new(KeyCode::Char('j')), DiffAction::ScrollDown);
        c.bind_diff(KeyBinding::new(KeyCode::Char('J')), DiffAction::Scroll10Down);
        c.bind_diff(KeyBinding::new(KeyCode::Char('k')), DiffAction::ScrollUp);
        c.bind_diff(KeyBinding::new(KeyCode::Char('K')), DiffAction::Scroll10Up);
        c.bind_diff(KeyBinding::new(KeyCode::Down), DiffAction::ScrollDown);
        c.bind_diff(KeyBinding::new(KeyCode::Up), DiffAction::ScrollUp);
        c.bind_diff(
            KeyBinding::new(KeyCode::Char('d')).with_modifiers(KeyModifiers::ctrl()),
            DiffAction::ScrollPageDown,
        );
        c.bind_diff(
            KeyBinding::new(KeyCode::Char('u')).with_modifiers(KeyModifiers::ctrl()),
            DiffAction::ScrollPageUp,
        );
        c.bind_diff(KeyBinding::new(KeyCode::Char('g')), DiffAction::ScrollTop);
        c.bind_diff(KeyBinding::new(KeyCode::Char('G')), DiffAction::ScrollBottom);
        c.bind_diff(KeyBinding::new(KeyCode::Char('q')), DiffAction::Close);
        c.bind_diff(KeyBinding::new(KeyCode::Escape), DiffAction::Close);

        c.bind_help(KeyBinding::new(KeyCode::Char('j')), HelpAction::ScrollDown);
        c.bind_help(KeyBinding::new(KeyCode::Char('k')), HelpAction::ScrollUp);
        c.bind_help(KeyBinding::new(KeyCode::Char('J')), HelpAction::Scroll10Down);
        c.bind_help(KeyBinding::new(KeyCode::Char('K')), HelpAction::Scroll10Up);
        c.bind_help(KeyBinding::new(KeyCode::Char('q')), HelpAction::Close);
        c.bind_help(KeyBinding::new(KeyCode::Escape), HelpAction::Close);

        proof {
            assert(c.global_map() =~= default_global_map());
            assert(c.blame_map() =~= default_blame_map());
            assert(c.diff_map() =~= default_diff_map());
            assert(c.help_map() =~= default_help_map());
        }
        c
    }

    /// Fills every binding that this keymap leaves unresolved with the
    /// built-in default: existing bindings win over defaults.
    pub fn merge_defaults(&mut self)
        requires
            old(self).wf(),
        ensures
            final(self).wf(),
            final(self).global_map() == default_global_map().union_prefer_right(
                old(self).global_map(),
            ),
            final(self).blame_map() == default_blame_map().union_prefer_right(
                old(self).blame_map(),
            ),
            final(self).diff_map() == default_diff_map().union_prefer_right(old(self).diff_map()),
            final(self).help_map() == default_help_map().union_prefer_right(old(self).help_map()),
    {
        let mut merged = KeymapConfig::with_defaults();
        merge_table(&mut merged.global, &self.global);
        merge_table(&mut merged.blame, &self.blame);
        merge_table(&mut merged.diff, &self.diff);
        merge_table(&mut merged.help, &self.help);
        proof {
            lemma_inserted_all_union(default_global_map(), self.global@);
            lemma_inserted_all_union(default_blame_map(), self.blame@);
            lemma_inserted_all_union(default_diff_map(), self.diff@);
            lemma_inserted_all_union(default_help_map(), self.help@);
        }
        *self = merged;
    }
}

impl Default for KeymapConfig {
    /// An empty keymap.
    fn default() -> (r: Self)
        ensures
            r.wf(),
            r.global_map() == Map::<KeyBinding, Action>::empty(),
            r.blame_map() == Map::<KeyBinding, Action>::empty(),
            r.diff_map() == Map::<KeyBinding, Action>::empty(),
            r.help_map() == Map::<KeyBinding, Action>::empty(),
    {
        KeymapConfig::new()
    }
}

} // verus!
