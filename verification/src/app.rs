//! The navigator: owns the navigation history, the active mode and the
//! diff session; consumes resolved actions and mutates that state, calling
//! the injected gateway and formatter capabilities where an action needs
//! them. Errors those capabilities raise are propagated, never swallowed,
//! and never mutate state.

use vstd::prelude::*;

use crate::action::Action;
use crate::action::BlameAction;
use crate::action::DiffAction;
use crate::action::GlobalAction;
use crate::action::HelpAction;
use crate::blame::BlameFrame;
use crate::blame::BlameStack;
use crate::commit::CommitHash;
use crate::commit::CommitInfo;
use crate::config::AppConfig;
use crate::gateway::DiffFormatter;
use crate::gateway::GitGateway;
use crate::mode::Mode;

verus! {

/// Whether the display is one full-screen view or split with a diff panel
/// at the given percentage.
#[derive(Debug, Clone, Copy, PartialEq, Eq, Structural)]
pub enum LayoutState {
    FullScreen,
    Split { ratio: u16 },
}

/// Why a session ended or refused to start. Gateway and formatter failures
/// raised during dispatch propagate to the run loop.
#[derive(Debug, Clone)]
pub enum NavError {
    /// The external diff formatter is not installed.
    FormatterUnavailable,
    /// The version-control backend failed.
    Gateway(crate::gateway::GatewayError),
    /// The external diff formatter failed.
    Formatter(crate::gateway::FormatterError),
}

/// Clamped subtraction: `a - b`, stopping at zero.
pub open spec fn sub0(a: int, b: int) -> int {
    if a >= b {
        a - b
    } else {
        0
    }
}

/// A downward step of `amount`, clamped to the last valid index (or zero
/// when there is nothing to select).
pub open spec fn add_clamped(sel: int, total: int, amount: int) -> int {
    let cap = if total >= 1 {
        total - 1
    } else {
        0
    };
    if sel + amount <= cap {
        sel + amount
    } else {
        cap
    }
}

/// The exact cursor movement of each blame-mode action: single steps move
/// by one and never leave [0, N-1], big steps by ten, pages by twenty,
/// top and bottom jump to the ends. Anything else leaves the cursor alone.
pub open spec fn blame_moved(a: BlameAction, sel: int, total: int) -> int {
    match a {
        BlameAction::CursorUp => sub0(sel, 1),
        BlameAction::CursorDown => if sel < total - 1 {
            sel + 1
        } else {
            sel
        },
        BlameAction::Cursor10Up => sub0(sel, 10),
        BlameAction::Cursor10Down => add_clamped(sel, total, 10),
        BlameAction::CursorPageUp => sub0(sel, 20),
        BlameAction::CursorPageDown => add_clamped(sel, total, 20),
        BlameAction::CursorTop => 0,
        BlameAction::CursorBottom => sub0(total, 1),
        _ => sel,
    }
}

/// The exact scroll movement of each diff-mode action, with the same step
/// sizes as blame mode, clamped to the diff line count.
pub open spec fn diff_moved(a: DiffAction, sel: int, total: int) -> int {
    match a {
        DiffAction::ScrollUp => sub0(sel, 1),
        DiffAction::ScrollDown => if sel < total - 1 {
            sel + 1
        } else {
            sel
        },
        DiffAction::Scroll10Up => sub0(sel, 10),
        DiffAction::Scroll10Down => add_clamped(sel, total, 10),
        DiffAction::ScrollPageUp => sub0(sel, 20),
        DiffAction::ScrollPageDown => add_clamped(sel, total, 20),
        DiffAction::ScrollTop => 0,
        DiffAction::ScrollBottom => sub0(total, 1),
        _ => sel,
    }
}

/// The frame after a blame-mode movement: only the cursor changes.
pub open spec fn moved_frame(f: BlameFrame, a: BlameAction) -> BlameFrame {
    BlameFrame {
        selected_line: blame_moved(a, f.selected_line as int, f.entries@.len() as int) as usize,
        ..f
    }
}

/// The history after one go-back: the top frame leaves, except that the
/// root frame is never popped.
pub open spec fn go_back_stack(s: Seq<BlameFrame>) -> Seq<BlameFrame> {
    if s.len() > 1 {
        s.drop_last()
    } else {
        s
    }
}

/// The navigator. Owns the history, mode and diff session for the lifetime
/// of one run; the keymap inside `config` is read-only here.
pub struct App<G: GitGateway, F: DiffFormatter> {
    pub git: G,
    pub formatter: F,
    pub config: AppConfig,
    pub mode: Mode,
    pub blame_stack: BlameStack,
    pub diff_lines: Option<Vec<String>>,
    pub diff_commit_info: Option<CommitInfo>,
    pub layout: LayoutState,
    pub diff_selected_line: usize,
    pub help_scroll: usize,
    pub status_message: Option<String>,
    pub should_quit: bool,
}

/// Everything but the navigation history is unchanged.
pub open spec fn same_but_stack<G: GitGateway, F: DiffFormatter>(
    pre: App<G, F>,
    post: App<G, F>,
) -> bool {
    &&& post.git == pre.git
    &&& post.formatter == pre.formatter
    &&& post.config == pre.config
    &&& post.mode == pre.mode
    &&& post.diff_lines == pre.diff_lines
    &&& post.diff_commit_info == pre.diff_commit_info
    &&& post.layout == pre.layout
    &&& post.diff_selected_line == pre.diff_selected_line
    &&& post.help_scroll == pre.help_scroll
    &&& post.status_message == pre.status_message
    &&& post.should_quit == pre.should_quit
}

/// What each global action does: quit raises the quit flag; help switches
/// to help mode from any mode. Nothing else changes, and neither fails.
pub open spec fn global_rel<G: GitGateway, F: DiffFormatter>(
    pre: App<G, F>,
    post: App<G, F>,
    a: GlobalAction,
) -> bool {
    match a {
        GlobalAction::Quit => post == (App { should_quit: true, ..pre }),
        GlobalAction::ShowHelp => post == (App { mode: Mode::Help, ..pre }),
    }
}

/// What drilling down does: an empty current frame is a no-op that cannot
/// fail; otherwise, on a gateway failure the state is unchanged and the
/// error propagates, and on success the history either is unchanged (a
/// root commit without a parent) or has gained exactly one well-formed
/// frame, the parent's attribution.
pub open spec fn drill_rel<G: GitGateway, F: DiffFormatter>(
    pre: App<G, F>,
    post: App<G, F>,
    r: Result<(), NavError>,
) -> bool {
    &&& (pre.blame_stack@.last().entries@.len() == 0 ==> (r is Ok && post == pre))
    &&& match r {
        Ok(_) => same_but_stack(pre, post) && (post.blame_stack@ == pre.blame_stack@ || (exists|
            f: BlameFrame,
        |
            f.wf() && post.blame_stack@ == pre.blame_stack@.push(f))),
        Err(e) => post == pre && e is Gateway,
    }
}

/// What showing a diff does: an empty current frame is a no-op that
/// cannot fail; otherwise, on a gateway or formatter failure the state is
/// unchanged and the error propagates, and on success the formatted lines
/// and commit metadata become the active diff session, its cursor resets
/// to zero, the layout splits and the mode switches to diff.
pub open spec fn show_diff_rel<G: GitGateway, F: DiffFormatter>(
    pre: App<G, F>,
    post: App<G, F>,
    r: Result<(), NavError>,
) -> bool {
    &&& (pre.blame_stack@.last().entries@.len() == 0 ==> r is Ok)
    &&& match r {
        Ok(_) => {
            if pre.blame_stack@.last().entries@.len() == 0 {
                post == pre
            } else {
                exists|lines: Vec<String>, info: CommitInfo|
                    post == (App {
                        diff_lines: Some(lines),
                        diff_commit_info: Some(info),
                        diff_selected_line: 0usize,
                        layout: LayoutState::Split { ratio: 50u16 },
                        mode: Mode::Diff,
                        ..pre
                    })
            }
        },
        Err(e) => post == pre && (e is Gateway || e is Formatter),
    }
}

/// What each blame-mode action does: movement updates the current frame's
/// cursor by the exact clamped step; go-back pops one frame unless only
/// the root is left; drill-down and show-diff behave as their relations
/// say. Movement and go-back never fail.
pub open spec fn blame_rel<G: GitGateway, F: DiffFormatter>(
    pre: App<G, F>,
    post: App<G, F>,
    a: BlameAction,
    r: Result<(), NavError>,
) -> bool {
    match a {
        BlameAction::DrillDown => drill_rel(pre, post, r),
        BlameAction::GoBack => r is Ok && same_but_stack(pre, post) && post.blame_stack@
            == go_back_stack(pre.blame_stack@),
        BlameAction::ShowDiff => show_diff_rel(pre, post, r),
        _ => r is Ok && same_but_stack(pre, post) && post.blame_stack@ == pre.blame_stack@.update(
            pre.blame_stack@.len() - 1,
            moved_frame(pre.blame_stack@.last(), a),
        ),
    }
}

/// What each diff-mode action does: scrolling moves the diff cursor by the
/// exact clamped step against the diff line count; close clears the diff
/// session, restores the full-screen layout and returns to blame mode;
/// horizontal scrolling and the remote-link action change nothing. None
/// of them fails.
pub open spec fn diff_rel<G: GitGateway, F: DiffFormatter>(
    pre: App<G, F>,
    post: App<G, F>,
    a: DiffAction,
) -> bool {
    let total: int = match pre.diff_lines {
        Some(l) => l@.len() as int,
        None => 0,
    };
    match a {
        DiffAction::Close => post == (App {
            diff_lines: None::<Vec<String>>,
            diff_commit_info: None::<CommitInfo>,
            layout: LayoutState::FullScreen,
            mode: Mode::Blame,
            ..pre
        }),
        DiffAction::ScrollLeft | DiffAction::ScrollRight | DiffAction::OpenInGitHub => post == pre,
        _ => post == (App {
            diff_selected_line: diff_moved(a, pre.diff_selected_line as int, total) as usize,
            ..pre
        }),
    }
}

/// What each help-mode action does: scrolling moves the help cursor, a
/// single or big step, saturating at the ends; close always returns to
/// blame mode. None of them fails.
pub open spec fn help_rel<G: GitGateway, F: DiffFormatter>(
    pre: App<G, F>,
    post: App<G, F>,
    a: HelpAction,
) -> bool {
    match a {
        HelpAction::ScrollUp => post == (App {
            help_scroll: sub0(pre.help_scroll as int, 1) as usize,
            ..pre
        }),
        HelpAction::ScrollDown => post == (App {
            help_scroll: if pre.help_scroll < usize::MAX {
                (pre.help_scroll + 1) as usize
            } else {
                usize::MAX
            },
            ..pre
        }),
        HelpAction::Scroll10Up => post == (App {
            help_scroll: sub0(pre.help_scroll as int, 10) as usize,
            ..pre
        }),
        HelpAction::Scroll10Down => post == (App {
            help_scroll: if pre.help_scroll <= usize::MAX - 10 {
                (pre.help_scroll + 10) as usize
            } else {
                usize::MAX
            },
            ..pre
        }),
        HelpAction::Close => post == (App { mode: Mode::Blame, ..pre }),
    }
}

/// What dispatching one action does, action by action. An unbound key is a
/// no-op that never errors.
pub open spec fn dispatch_rel<G: GitGateway, F: DiffFormatter>(
    pre: App<G, F>,
    post: App<G, F>,
    action: Action,
    r: Result<(), NavError>,
) -> bool {
    match action {
        Action::Global(ga) => r is Ok && global_rel(pre, post, ga),
        Action::Blame(ba) => blame_rel(pre, post, ba, r),
        Action::Diff(da) => r is Ok && diff_rel(pre, post, da),
        Action::Help(ha) => r is Ok && help_rel(pre, post, ha),
        Action::Unbound => r is Ok && post == pre,
    }
}

fn sat_sub(a: usize, b: usize) -> (r: usize)
    ensures
        r as int == sub0(a as int, b as int),
{
    if a >= b {
        a - b
    } else {
        0
    }
}

fn sat_add_clamped(sel: usize, total: usize, amount: usize) -> (r: usize)
    ensures
        r as int == add_clamped(sel as int, total as int, amount as int),
{
    if total == 0 {
        return 0;
    }
    let cap = total - 1;
    if sel >= cap {
        cap
    } else if cap - sel <= amount {
        cap
    } else {
        sel + amount
    }
}

impl<G: GitGateway, F: DiffFormatter> App<G, F> {
    /// The navigator invariant: the history never empties after
    /// initialization, every frame's selection is a valid index (zero on an
    /// empty frame), the diff cursor is in bounds whenever a diff session
    /// is active, and the keymap is well formed.
    pub open spec fn wf(&self) -> bool {
        &&& self.blame_stack@.len() >= 1
        &&& forall|i: int| 0 <= i < self.blame_stack@.len() ==> (#[trigger] self.blame_stack@[i]).wf()
        &&& (self.diff_lines matches Some(l) ==> (if l@.len() == 0 {
            self.diff_selected_line == 0
        } else {
            self.diff_selected_line < l@.len()
        }))
        &&& self.config.keymap.wf()
    }

    /// Starts a session: refuses to start when the formatter is
    /// unavailable; otherwise takes the attribution of the file at the
    /// most recent revision from the gateway and begins in blame mode with
    /// that one frame, a full-screen layout, no diff session and the quit
    /// flag down.
    pub fn new(git: G, formatter: F, config: AppConfig, file_path: String) -> (r: Result<
        Self,
        NavError,
    >)
        requires
            config.keymap.wf(),
        ensures
            r matches Ok(app) ==> ({
                &&& app.wf()
                &&& app.mode == Mode::Blame
                &&& app.blame_stack@.len() == 1
                &&& app.layout == LayoutState::FullScreen
                &&& app.diff_lines is None
                &&& app.diff_commit_info is None
                &&& app.diff_selected_line == 0
                &&& app.help_scroll == 0
                &&& app.status_message is None
                &&& !app.should_quit
                &&& app.config == config
            }),
            r matches Err(e) ==> (e is FormatterUnavailable || e is Gateway),
    {
        if !formatter.is_available() {
            return Err(NavError::FormatterUnavailable);
        }
        let head = CommitHash::head();
        let mut initial = match git.blame(&file_path, &head) {
            Ok(f) => f,
            Err(e) => {
                return Err(NavError::Gateway(e));
            },
        };
        initial.clamp_selection();
        let mut blame_stack = BlameStack::new();
        blame_stack.push(initial);
        Ok(
            App {
                git,
                formatter,
                config,
                mode: Mode::Blame,
                blame_stack,
                diff_lines: None,
                diff_commit_info: None,
                layout: LayoutState::FullScreen,
                diff_selected_line: 0,
                help_scroll: 0,
                status_message: None,
                should_quit: false,
            },
        )
    }

    /// Consumes one resolved action and settles it completely: the one
    /// mutator of navigator state. Gateway and formatter errors propagate
    /// without touching state.
    pub fn dispatch(&mut self, action: Action) -> (r: Result<(), NavError>)
        requires
            old(self).wf(),
        ensures
            final(self).wf(),
            dispatch_rel(*old(self), *final(self), action, r),
    {
        match action {
            Action::Global(ga) => {
                self.handle_global(ga);
                Ok(())
            },
            Action::Blame(ba) => self.handle_blame(ba),
            Action::Diff(da) => {
                self.handle_diff(da);
                Ok(())
            },
            Action::Help(ha) => {
                self.handle_help(ha);
                Ok(())
            },
            Action::Unbound => Ok(()),
        }
    }

    fn handle_global(&mut self, action: GlobalAction)
        requires
            old(self).wf(),
        ensures
            final(self).wf(),
            global_rel(*old(self), *final(self), action),
    {
        match action {
            GlobalAction::Quit => {
                self.should_quit = true;
            },
            GlobalAction::ShowHelp => {
                self.mode = Mode::Help;
            },
        }
    }

    fn handle_blame(&mut self, action: BlameAction) -> (r: Result<(), NavError>)
        requires
            old(self).wf(),
        ensures
            final(self).wf(),
            blame_rel(*old(self), *final(self), action, r),
    {
        match action {
            BlameAction::DrillDown => self.drill_down(),
            BlameAction::GoBack => {
                self.go_back();
                Ok(())
            },
            BlameAction::ShowDiff => self.show_diff(),
            _ => {
                let ghost pre_stack = self.blame_stack@;
                let frame = self.blame_stack.current_mut();
                let total = frame.entries.len();
                match action {
                    BlameAction::CursorUp => {
                        frame.selected_line = sat_sub(frame.selected_line, 1);
                    },
                    BlameAction::CursorDown => {
                        if frame.selected_line < sat_sub(total, 1) {
                            frame.selected_line = frame.selected_line + 1;
                        }
                    },
                    BlameAction::Cursor10Up => {
                        frame.selected_line = sat_sub(frame.selected_line, 10);
                    },
                    BlameAction::Cursor10Down => {
                        frame.selected_line = sat_add_clamped(frame.selected_line, total, 10);
                    },
                    BlameAction::CursorPageUp => {
                        frame.selected_line = sat_sub(frame.selected_line, 20);
                    },
                    BlameAction::CursorPageDown => {
                        frame.selected_line = sat_add_clamped(frame.selected_line, total, 20);
                    },
                    BlameAction::CursorTop => {
                        frame.selected_line = 0;
                    },
                    BlameAction::CursorBottom => {
                        frame.selected_line = sat_sub(total, 1);
                    },
                    _ => {},
                }
                proof {
                    assert(self.blame_stack@ == pre_stack.update(
                        pre_stack.len() - 1,
                        moved_frame(pre_stack.last(), action),
                    ));
                    assert forall|i: int|
                        0 <= i < self.blame_stack@.len() implies (
                    #[trigger] self.blame_stack@[i]).wf() by {
                        if i < pre_stack.len() - 1 {
                            assert(self.blame_stack@[i] == pre_stack[i]);
                        }
                    }
                }
                Ok(())
            },
        }
    }

    /// Pops the top frame, unless only the root is left: the history never
    /// empties.
    fn go_back(&mut self)
        requires
            old(self).wf(),
        ensures
            final(self).wf(),
            same_but_stack(*old(self), *final(self)),
            final(self).blame_stack@ == go_back_stack(old(self).blame_stack@),
    {
        if self.blame_stack.depth() > 1 {
            let _ = self.blame_stack.pop();
            proof {
                assert forall|i: int|
                    0 <= i < self.blame_stack@.len() implies (#[trigger] self.blame_stack@[i]).wf()
                    by {
                    assert(self.blame_stack@[i] == old(self).blame_stack@[i]);
                }
            }
        }
    }

    /// Resolves the commit of the entry under the cursor, asks the gateway
    /// for its metadata, and — when it has a parent — pushes the parent's
    /// attribution of the same file: the one operation that grows the
    /// history. A root commit, or an empty frame, is a no-op.
    fn drill_down(&mut self) -> (r: Result<(), NavError>)
        requires
            old(self).wf(),
        ensures
            final(self).wf(),
            drill_rel(*old(self), *final(self), r),
    {
        let (file_path, commit_hash) = {
            let frame = match self.blame_stack.current() {
                Some(f) => f,
                None => {
                    return Ok(());
                },
            };
            if frame.selected_line >= frame.entries.len() {
                return Ok(());
            }
            let entry = &frame.entries[frame.selected_line];
            (
                String::from_str(frame.file_path.as_str()),
                CommitHash::new(String::from_str(entry.commit_hash.as_str())),
            )
        };
        let info = match self.git.commit_info(&commit_hash) {
            Ok(i) => i,
            Err(e) => {
                return Err(NavError::Gateway(e));
            },
        };
        let parent = match info.parent {
            Some(p) => p,
            None => {
                return Ok(());
            },
        };
        let mut new_frame = match self.git.blame(&file_path, &parent) {
            Ok(f) => f,
            Err(e) => {
                return Err(NavError::Gateway(e));
            },
        };
        new_frame.clamp_selection();
        self.blame_stack.push(new_frame);
        proof {
            assert forall|i: int|
                0 <= i < self.blame_stack@.len() implies (#[trigger] self.blame_stack@[i]).wf()
                by {
                if i < old(self).blame_stack@.len() {
                    assert(self.blame_stack@[i] == old(self).blame_stack@[i]);
                }
            }
        }
        Ok(())
    }

    /// Resolves the commit of the entry under the cursor, asks the gateway
    /// for its diff and metadata, formats the diff, and makes the result
    /// the active diff session: split layout, diff mode, cursor at the
    /// first line. An empty frame is a no-op.
    fn show_diff(&mut self) -> (r: Result<(), NavError>)
        requires
            old(self).wf(),
        ensures
            final(self).wf(),
            show_diff_rel(*old(self), *final(self), r),
    {
        let commit_hash = {
            let frame = match self.blame_stack.current() {
                Some(f) => f,
                None => {
                    return Ok(());
                },
            };
            if frame.selected_line >= frame.entries.len() {
                return Ok(());
            }
            let entry = &frame.entries[frame.selected_line];
            CommitHash::new(String::from_str(entry.commit_hash.as_str()))
        };
        let diff = match self.git.diff(&commit_hash) {
            Ok(d) => d,
            Err(e) => {
                return Err(NavError::Gateway(e));
            },
        };
        let info = match self.git.commit_info(&commit_hash) {
            Ok(i) => i,
            Err(e) => {
                return Err(NavError::Gateway(e));
            },
        };
        let lines = match self.formatter.format(&diff) {
            Ok(l) => l,
            Err(e) => {
                return Err(NavError::Formatter(e));
            },
        };
        self.diff_lines = Some(lines);
        self.diff_commit_info = Some(info);
        self.diff_selected_line = 0;
        self.layout = LayoutState::Split { ratio: 50 };
        self.mode = Mode::Diff;
        Ok(())
    }

    fn handle_diff(&mut self, action: DiffAction)
        requires
            old(self).wf(),
        ensures
            final(self).wf(),
            diff_rel(*old(self), *final(self), action),
    {
        let total = match &self.diff_lines {
            Some(l) => l.len(),
            None => 0,
        };
        match action {
            DiffAction::ScrollUp => {
                self.diff_selected_line = sat_sub(self.diff_selected_line, 1);
            },
            DiffAction::ScrollDown => {
                if self.diff_selected_line < sat_sub(total, 1) {
                    self.diff_selected_line = self.diff_selected_line + 1;
                }
            },
            DiffAction::Scroll10Up => {
                self.diff_selected_line = sat_sub(self.diff_selected_line, 10);
            },
            DiffAction::Scroll10Down => {
                self.diff_selected_line = sat_add_clamped(self.diff_selected_line, total, 10);
            },
            DiffAction::ScrollPageUp => {
                self.diff_selected_line = sat_sub(self.diff_selected_line, 20);
            },
            DiffAction::ScrollPageDown => {
                self.diff_selected_line = sat_add_clamped(self.diff_selected_line, total, 20);
            },
            DiffAction::ScrollTop => {
                self.diff_selected_line = 0;
            },
            DiffAction::ScrollBottom => {
                self.diff_selected_line = sat_sub(total, 1);
            },
            DiffAction::ScrollLeft | DiffAction::ScrollRight | DiffAction::OpenInGitHub => {},
            DiffAction::Close => {
                self.diff_lines = None;
                self.diff_commit_info = None;
                self.layout = LayoutState::FullScreen;
                self.mode = Mode::Blame;
            },
        }
    }

    fn handle_help(&mut self, action: HelpAction)
        requires
            old(self).wf(),
        ensures
            final(self).wf(),
            help_rel(*old(self), *final(self), action),
    {
        match action {
            HelpAction::ScrollUp => {
                self.help_scroll = sat_sub(self.help_scroll, 1);
            },
            HelpAction::ScrollDown => {
                if self.help_scroll < usize::MAX {
                    self.help_scroll = self.help_scroll + 1;
                }
            },
            HelpAction::Scroll10Up => {
                self.help_scroll = sat_sub(self.help_scroll, 10);
            },
            HelpAction::Scroll10Down => {
                if self.help_scroll <= usize::MAX - 10 {
                    self.help_scroll = self.help_scroll + 10;
                } else {
                    self.help_scroll = usize::MAX;
                }
            },
            HelpAction::Close => {
                self.mode = Mode::Blame;
            },
        }
    }
}

// ------------------------------------------------------------------
// Laws of the state machine.
// ------------------------------------------------------------------

/// Law: every movement action keeps the selection inside [0, N-1] on an
/// N-entry frame; on an empty frame the cursor stays at zero and every
/// movement is a no-op. With the frame invariant preserved by every step,
/// this holds over any sequence of movements.
pub proof fn lemma_movement_clamps(a: BlameAction, f: BlameFrame)
    requires
        f.wf(),
    ensures
        moved_frame(f, a).wf(),
        f.entries@.len() == 0 ==> moved_frame(f, a) == f,
{
}

/// Law: diff scrolling keeps the cursor inside [0, N-1] against N diff
/// lines, and is a no-op when there are none.
pub proof fn lemma_diff_scroll_clamps(a: DiffAction, sel: int, total: int)
    requires
        0 <= sel,
        total == 0 ==> sel == 0,
        total > 0 ==> sel < total,
    ensures
        0 <= diff_moved(a, sel, total),
        total == 0 ==> diff_moved(a, sel, total) == sel,
        total > 0 ==> diff_moved(a, sel, total) < total,
{
}

/// Law: going back pops exactly one frame while more than one is held,
/// refuses to pop the root, and so never empties the history.
pub proof fn lemma_go_back_keeps_root(stack: Seq<BlameFrame>)
    requires
        stack.len() >= 1,
    ensures
        go_back_stack(stack).len() >= 1,
        stack.len() > 1 ==> go_back_stack(stack) == stack.drop_last(),
        stack.len() == 1 ==> go_back_stack(stack) == stack,
{
}

/// Law: from a three-frame history, three go-backs leave depth one, and a
/// fourth is refused — the depth stays one.
pub proof fn lemma_go_back_bottoms_out(stack: Seq<BlameFrame>)
    requires
        stack.len() == 3,
    ensures
        go_back_stack(go_back_stack(go_back_stack(stack))).len() == 1,
        go_back_stack(go_back_stack(go_back_stack(go_back_stack(stack)))) == go_back_stack(
            go_back_stack(go_back_stack(stack)),
        ),
{
}

/// Law: a successful show-diff on a frame with entries switches the mode
/// to diff and the layout to split, and a following close returns to blame
/// mode and the full-screen layout and clears the diff session; the
/// history, help scroll and quit flag ride through both steps untouched.
pub proof fn lemma_show_diff_then_close<G: GitGateway, F: DiffFormatter>(
    pre: App<G, F>,
    mid: App<G, F>,
    post: App<G, F>,
    r1: Result<(), NavError>,
)
    requires
        pre.blame_stack@.last().entries@.len() > 0,
        show_diff_rel(pre, mid, r1),
        r1 is Ok,
        diff_rel(mid, post, DiffAction::Close),
    ensures
        mid.mode == Mode::Diff,
        mid.layout == (LayoutState::Split { ratio: 50u16 }),
        mid.diff_lines is Some,
        mid.diff_commit_info is Some,
        mid.diff_selected_line == 0,
        post.mode == Mode::Blame,
        post.layout == LayoutState::FullScreen,
        post.diff_lines is None,
        post.diff_commit_info is None,
        post.blame_stack == pre.blame_stack,
        post.help_scroll == pre.help_scroll,
        post.should_quit == pre.should_quit,
{
}

/// Law: every cursor movement succeeds and moves only the current frame's
/// cursor, by the exact clamped step against its entry count; on an empty
/// frame the whole state is unchanged. With the invariant preserved at
/// every step, this holds over any sequence of movements.
pub proof fn lemma_dispatch_movement_clamps<G: GitGateway, F: DiffFormatter>(
    pre: App<G, F>,
    post: App<G, F>,
    a: BlameAction,
    r: Result<(), NavError>,
)
    requires
        pre.wf(),
        !(a is DrillDown),
        !(a is GoBack),
        !(a is ShowDiff),
        dispatch_rel(pre, post, Action::Blame(a), r),
    ensures
        r is Ok,
        same_but_stack(pre, post),
        post.blame_stack@.len() == pre.blame_stack@.len(),
        post.blame_stack@.last().entries == pre.blame_stack@.last().entries,
        post.blame_stack@.last().selected_line as int == blame_moved(
            a,
            pre.blame_stack@.last().selected_line as int,
            pre.blame_stack@.last().entries@.len() as int,
        ),
        post.blame_stack@.last().wf(),
        pre.blame_stack@.last().entries@.len() == 0 ==> post.blame_stack@ == pre.blame_stack@,
{
    let s = pre.blame_stack@;
    let f = s.last();
    let mf = moved_frame(f, a);
    assert(s[s.len() - 1].wf());
    lemma_movement_clamps(a, f);
    assert(post.blame_stack@ == s.update(s.len() - 1, mf));
    assert(post.blame_stack@.last() == mf);
    // a vector never holds more entries than indices exist
    assert(f.entries.len() == f.entries@.len());
    assert(0 <= blame_moved(a, f.selected_line as int, f.entries@.len() as int) <= usize::MAX);
    if f.entries@.len() == 0 {
        assert(mf == f);
        assert(s.update(s.len() - 1, f) =~= s);
    }
}

/// Law: starting from a three-frame history, three go-backs leave depth
/// one and a fourth is refused, whatever else each step carried — stated
/// over the dispatch relation itself.
pub proof fn lemma_dispatch_go_back_bottoms_out<G: GitGateway, F: DiffFormatter>(
    s0: App<G, F>,
    s1: App<G, F>,
    s2: App<G, F>,
    s3: App<G, F>,
    s4: App<G, F>,
    r1: Result<(), NavError>,
    r2: Result<(), NavError>,
    r3: Result<(), NavError>,
    r4: Result<(), NavError>,
)
    requires
        s0.blame_stack@.len() == 3,
        dispatch_rel(s0, s1, Action::Blame(BlameAction::GoBack), r1),
        dispatch_rel(s1, s2, Action::Blame(BlameAction::GoBack), r2),
        dispatch_rel(s2, s3, Action::Blame(BlameAction::GoBack), r3),
        dispatch_rel(s3, s4, Action::Blame(BlameAction::GoBack), r4),
    ensures
        s3.blame_stack@.len() == 1,
        s4.blame_stack@ == s3.blame_stack@,
{
}

} // verus!
