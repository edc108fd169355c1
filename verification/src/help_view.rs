//! The help overlay's computing parts: the textual key list shown beside
//! each action and the full list of help lines. Drawing the overlay is the
//! program shell's work.

use vstd::prelude::*;

use crate::action::Action;
use crate::action::BlameAction;
use crate::action::DiffAction;
use crate::action::GlobalAction;
use crate::binding::binding_text;
use crate::binding::key_binding_to_string;
use crate::binding::KeyBinding;
use crate::blame_view::scroll_adjusted;
use crate::keymap::KeymapConfig;
use crate::text::pad_spaces_right;
use crate::text::space_padded_right;

verus! {

/// The keys bound to one action, rendered `a / b / c`, or a dash when
/// there are none.
pub open spec fn keys_text(keys: Seq<KeyBinding>) -> Seq<char>
    decreases keys.len(),
{
    if keys.len() == 0 {
        "-"@
    } else if keys.len() == 1 {
        binding_text(keys[0])
    } else {
        keys_text(keys.drop_last()) + " / "@ + binding_text(keys.last())
    }
}

/// One help entry: two spaces, the key list padded to a minimum width, a
/// space, and the description.
pub open spec fn help_line_text(keys: Seq<char>, desc: Seq<char>) -> Seq<char> {
    "  "@ + space_padded_right(keys, 15) + " "@ + desc
}

/// `ks` lists, without repetition, exactly the keys the table binds to the
/// action.
pub open spec fn is_keys_for(ks: Seq<KeyBinding>, table: Map<KeyBinding, Action>, a: Action) -> bool {
    &&& ks.no_duplicates()
    &&& forall|k: KeyBinding| ks.contains(k) <==> (table.contains_key(k) && table[k] == a)
}

/// `line` is the help entry for the action: some listing of exactly the
/// keys the table binds to it, rendered and padded, then the description.
pub open spec fn is_entry_line(
    line: Seq<char>,
    table: Map<KeyBinding, Action>,
    a: Action,
    desc: Seq<char>,
) -> bool {
    exists|ks: Seq<KeyBinding>|
        #[trigger] is_keys_for(ks, table, a) && line == help_line_text(keys_text(ks), desc)
}

/// The help overlay widget, rendered by the program shell over the keymap
/// it describes.
pub struct HelpView<'a> {
    pub keymap: &'a KeymapConfig,
}

impl<'a> HelpView<'a> {
    pub fn new(keymap: &'a KeymapConfig) -> (r: Self)
        ensures
            r.keymap == keymap,
    {
        HelpView { keymap }
    }

    /// Renders a key list for display beside an action.
    pub fn format_keys(&self, keys: Vec<KeyBinding>) -> (r: String)
        ensures
            r@ == keys_text(keys@),
    {
        let n = keys.len();
        if n == 0 {
            return String::from_str("-");
        }
        let mut out = key_binding_to_string(&keys[0]);
        proof {
            assert(keys@.take(1)[0] == keys@[0]);
            assert(out@ == keys_text(keys@.take(1)));
        }
        let mut i: usize = 1;
        while i < n
            invariant
                1 <= i <= n,
                n == keys@.len(),
                out@ == keys_text(keys@.take(i as int)),
            decreases n - i,
        {
            proof {
                assert(keys@.take(i + 1).drop_last() =~= keys@.take(i as int));
                assert(keys@.take(i + 1).last() == keys@[i as int]);
            }
            out.append(" / ");
            let ks = key_binding_to_string(&keys[i]);
            out.append(ks.as_str());
            i += 1;
        }
        proof {
            assert(keys@.take(n as int) =~= keys@);
        }
        out
    }

    fn help_entry(&self, keys: Vec<KeyBinding>, desc: &str) -> (r: String)
        ensures
            r@ == help_line_text(keys_text(keys@), desc@),
    {
        let ktxt = self.format_keys(keys);
        let padded = pad_spaces_right(ktxt, 15);
        let mut line = String::from_str("  ");
        line.append(padded.as_str());
        line.append(" ");
        line.append(desc);
        line
    }

    fn blame_entry_line(&self, a: BlameAction, desc: &str) -> (r: String)
        requires
            self.keymap.wf(),
        ensures
            is_entry_line(r@, self.keymap.blame_map(), Action::Blame(a), desc@),
    {
        let keys = self.keymap.keys_for_blame(a);
        let ghost ksv = keys@;
        let line = self.help_entry(keys, desc);
        proof {
            assert(is_keys_for(ksv, self.keymap.blame_map(), Action::Blame(a)));
            assert(line@ == help_line_text(keys_text(ksv), desc@));
        }
        line
    }

    fn diff_entry_line(&self, a: DiffAction, desc: &str) -> (r: String)
        requires
            self.keymap.wf(),
        ensures
            is_entry_line(r@, self.keymap.diff_map(), Action::Diff(a), desc@),
    {
        let keys = self.keymap.keys_for_diff(a);
        let ghost ksv = keys@;
        let line = self.help_entry(keys, desc);
        proof {
            assert(is_keys_for(ksv, self.keymap.diff_map(), Action::Diff(a)));
            assert(line@ == help_line_text(keys_text(ksv), desc@));
        }
        line
    }

    fn global_entry_line(&self, a: GlobalAction, desc: &str) -> (r: String)
        requires
            self.keymap.wf(),
        ensures
            is_entry_line(r@, self.keymap.global_map(), Action::Global(a), desc@),
    {
        let keys = self.keymap.keys_for_global(a);
        let ghost ksv = keys@;
        let line = self.help_entry(keys, desc);
        proof {
            assert(is_keys_for(ksv, self.keymap.global_map(), Action::Global(a)));
            assert(line@ == help_line_text(keys_text(ksv), desc@));
        }
        line
    }

    /// The full help text: a title, then each mode's bindings with their
    /// descriptions, blank-separated — twenty-nine lines in all, each entry
    /// listing exactly the keys bound to its action.
    pub fn help_lines(&self) -> (r: Vec<String>)
        requires
            self.keymap.wf(),
        ensures
            r@.len() == 29,
            r@[0]@ == "Keybindings"@,
            r@[1]@.len() == 0,
            r@[2]@ == "Blame Mode"@,
            is_entry_line(r@[3]@, self.keymap.blame_map(), Action::Blame(BlameAction::CursorDown), "Cursor down"@),
            is_entry_line(r@[4]@, self.keymap.blame_map(), Action::Blame(BlameAction::CursorUp), "Cursor up"@),
            is_entry_line(r@[5]@, self.keymap.blame_map(), Action::Blame(BlameAction::Cursor10Down), "Cursor 10 down"@),
            is_entry_line(r@[6]@, self.keymap.blame_map(), Action::Blame(BlameAction::Cursor10Up), "Cursor 10 up"@),
            is_entry_line(r@[7]@, self.keymap.blame_map(), Action::Blame(BlameAction::CursorPageDown), "Page down"@),
            is_entry_line(r@[8]@, self.keymap.blame_map(), Action::Blame(BlameAction::CursorPageUp), "Page up"@),
            is_entry_line(r@[9]@, self.keymap.blame_map(), Action::Blame(BlameAction::CursorTop), "Go to top"@),
            is_entry_line(r@[10]@, self.keymap.blame_map(), Action::Blame(BlameAction::CursorBottom), "Go to bottom"@),
            is_entry_line(r@[11]@, self.keymap.blame_map(), Action::Blame(BlameAction::DrillDown), "Drill down (blame at parent)"@),
            is_entry_line(r@[12]@, self.keymap.blame_map(), Action::Blame(BlameAction::GoBack), "Go back"@),
            is_entry_line(r@[13]@, self.keymap.blame_map(), Action::Blame(BlameAction::ShowDiff), "Show diff"@),
            r@[14]@.len() == 0,
            r@[15]@ == "Diff Mode"@,
            is_entry_line(r@[16]@, self.keymap.diff_map(), Action::Diff(DiffAction::ScrollDown), "Scroll down"@),
            is_entry_line(r@[17]@, self.keymap.diff_map(), Action::Diff(DiffAction::ScrollUp), "Scroll up"@),
            is_entry_line(r@[18]@, self.keymap.diff_map(), Action::Diff(DiffAction::Scroll10Down), "Scroll 10 down"@),
            is_entry_line(r@[19]@, self.keymap.diff_map(), Action::Diff(DiffAction::Scroll10Up), "Scroll 10 up"@),
            is_entry_line(r@[20]@, self.keymap.diff_map(), Action::Diff(DiffAction::ScrollPageDown), "Page down"@),
            is_entry_line(r@[21]@, self.keymap.diff_map(), Action::Diff(DiffAction::ScrollPageUp), "Page up"@),
            is_entry_line(r@[22]@, self.keymap.diff_map(), Action::Diff(DiffAction::ScrollTop), "Scroll to top"@),
            is_entry_line(r@[23]@, self.keymap.diff_map(), Action::Diff(DiffAction::ScrollBottom), "Scroll to bottom"@),
            is_entry_line(r@[24]@, self.keymap.diff_map(), Action::Diff(DiffAction::Close), "Close diff"@),
            r@[25]@.len() == 0,
            r@[26]@ == "Global"@,
            is_entry_line(r@[27]@, self.keymap.global_map(), Action::Global(GlobalAction::ShowHelp), "Show this help"@),
            is_entry_line(r@[28]@, self.keymap.global_map(), Action::Global(GlobalAction::Quit), "Quit"@),
    {
        let mut lines: Vec<String> = Vec::new();
        lines.push(String::from_str("Keybindings"));
        lines.push(String::new());
        lines.push(String::from_str("Blame Mode"));
        lines.push(self.blame_entry_line(BlameAction::CursorDown, "Cursor down"));
        lines.push(self.blame_entry_line(BlameAction::CursorUp, "Cursor up"));
        lines.push(self.blame_entry_line(BlameAction::Cursor10Down, "Cursor 10 down"));
        lines.push(self.blame_entry_line(BlameAction::Cursor10Up, "Cursor 10 up"));
        lines.push(self.blame_entry_line(BlameAction::CursorPageDown, "Page down"));
        lines.push(self.blame_entry_line(BlameAction::CursorPageUp, "Page up"));
        lines.push(self.blame_entry_line(BlameAction::CursorTop, "Go to top"));
        lines.push(self.blame_entry_line(BlameAction::CursorBottom, "Go to bottom"));
        lines.push(self.blame_entry_line(BlameAction::DrillDown, "Drill down (blame at parent)"));
        lines.push(self.blame_entry_line(BlameAction::GoBack, "Go back"));
        lines.push(self.blame_entry_line(BlameAction::ShowDiff, "Show diff"));
        lines.push(String::new());
        lines.push(String::from_str("Diff Mode"));
        lines.push(self.diff_entry_line(DiffAction::ScrollDown, "Scroll down"));
        lines.push(self.diff_entry_line(DiffAction::ScrollUp, "Scroll up"));
        lines.push(self.diff_entry_line(DiffAction::Scroll10Down, "Scroll 10 down"));
        lines.push(self.diff_entry_line(DiffAction::Scroll10Up, "Scroll 10 up"));
        lines.push(self.diff_entry_line(DiffAction::ScrollPageDown, "Page down"));
        lines.push(self.diff_entry_line(DiffAction::ScrollPageUp, "Page up"));
        lines.push(self.diff_entry_line(DiffAction::ScrollTop, "Scroll to top"));
        lines.push(self.diff_entry_line(DiffAction::ScrollBottom, "Scroll to bottom"));
        lines.push(self.diff_entry_line(DiffAction::Close, "Close diff"));
        lines.push(String::new());
        lines.push(String::from_str("Global"));
        lines.push(self.global_entry_line(GlobalAction::ShowHelp, "Show this help"));
        lines.push(self.global_entry_line(GlobalAction::Quit, "Quit"));
        lines
    }

    /// How many lines the help text holds.
    pub fn line_count(&self) -> (r: usize)
        requires
            self.keymap.wf(),
        ensures
            r == 29,
    {
        self.help_lines().len()
    }
}

/// The cursor and scroll position of the help overlay.
pub struct HelpViewState {
    pub scroll_offset: usize,
    pub selected_line: usize,
}

impl HelpViewState {
    /// Clamps the cursor to the help lines; nothing to show keeps it at
    /// zero.
    pub fn clamp_selection(&mut self, total: usize)
        ensures
            final(self).scroll_offset == old(self).scroll_offset,
            final(self).selected_line == (if old(self).selected_line < total {
                old(self).selected_line as int
            } else if total >= 1 {
                total - 1
            } else {
                0
            }),
    {
        if self.selected_line >= total {
            self.selected_line = if total >= 1 {
                total - 1
            } else {
                0
            };
        }
    }

    /// Moves the window so that the selected line stays visible in a
    /// window of `visible` rows.
    pub fn adjust_scroll(&mut self, visible: usize)
        requires
            visible >= 1 || old(self).selected_line < usize::MAX,
        ensures
            final(self).selected_line == old(self).selected_line,
            final(self).scroll_offset as int == scroll_adjusted(
                old(self).scroll_offset as int,
                old(self).selected_line as int,
                visible as int,
            ),
    {
        let selected = self.selected_line;
        if selected < self.scroll_offset {
            self.scroll_offset = selected;
        } else if visible == 0 {
            self.scroll_offset = selected + 1;
        } else if selected >= visible && selected - visible >= self.scroll_offset {
            self.scroll_offset = selected - visible + 1;
        }
    }
}

} // verus!
