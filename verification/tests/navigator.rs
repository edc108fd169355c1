use blake::app::App;
use blake::app::LayoutState;
use blake::app::NavError;
use blake::config::AppConfig;
use blake::gateway::DiffFormatter;
use blake::gateway::FormatterError;
use blake::gateway::GatewayError;
use blake::gateway::GitGateway;
use blake::mode::Mode;
use blake::Action;
use blake::BlameAction;
use blake::BlameEntry;
use blake::BlameFrame;
use blake::CommitHash;
use blake::CommitInfo;
use blake::Diff;
use blake::DiffAction;
use blake::GlobalAction;
use blake::HelpAction;

/// An in-memory backend: HEAD is commit c3, whose parent chain is
/// c3 -> c2 -> c1, and c1 is the root. Every blame has the same
/// number of lines, all attributed to the frame's own commit.
struct FakeGit {
    entry_count: usize,
    fail_diff: bool,
}

impl FakeGit {
    fn target(&self, commit: &CommitHash) -> String {
        if commit.as_str() == "HEAD" {
            "c3".to_string()
        } else {
            commit.as_str().to_string()
        }
    }
}

impl GitGateway for FakeGit {
    fn blame(&self, file_path: &String, commit: &CommitHash) -> Result<BlameFrame, GatewayError> {
        let id = self.target(commit);
        let entries = (0..self.entry_count)
            .map(|i| BlameEntry {
                line_number: i + 1,
                commit_hash: CommitHash::new(id.clone()),
                author: "ada".to_string(),
                timestamp: 0,
                content: format!("line {}", i + 1),
            })
            .collect();
        Ok(BlameFrame {
            file_path: file_path.clone(),
            commit_hash: CommitHash::new(id),
            entries,
            selected_line: 0,
        })
    }

    fn diff(&self, commit: &CommitHash) -> Result<Diff, GatewayError> {
        if self.fail_diff {
            return Err(GatewayError::new("backend failed".to_string()));
        }
        Ok(Diff::new(format!("--- {}\n+++ {}", commit.as_str(), commit.as_str())))
    }

    fn commit_info(&self, commit: &CommitHash) -> Result<CommitInfo, GatewayError> {
        let id = self.target(commit);
        let parent = match id.as_str() {
            "c3" => Some(CommitHash::new("c2".to_string())),
            "c2" => Some(CommitHash::new("c1".to_string())),
            _ => None,
        };
        Ok(CommitInfo {
            hash: CommitHash::new(id),
            parent,
            author: "ada".to_string(),
            timestamp: 0,
            message: "a change".to_string(),
        })
    }

    fn github_commit_url(&self, _commit: &CommitHash) -> Option<String> {
        None
    }
}

struct FakeFormatter {
    available: bool,
}

impl DiffFormatter for FakeFormatter {
    fn format(&self, diff: &Diff) -> Result<Vec<String>, FormatterError> {
        Ok(diff.as_str().lines().map(|l| l.to_string()).collect())
    }

    fn is_available(&self) -> bool {
        self.available
    }
}

fn start(entry_count: usize) -> App<FakeGit, FakeFormatter> {
    App::new(
        FakeGit { entry_count, fail_diff: false },
        FakeFormatter { available: true },
        AppConfig::default(),
        "src/lib.rs".to_string(),
    )
    .unwrap()
}

fn selected(app: &App<FakeGit, FakeFormatter>) -> usize {
    app.blame_stack.current().unwrap().selected_line
}

#[test]
fn refuses_to_start_without_the_formatter() {
    let r = App::new(
        FakeGit { entry_count: 3, fail_diff: false },
        FakeFormatter { available: false },
        AppConfig::default(),
        "src/lib.rs".to_string(),
    );
    let e = match r {
        Ok(_) => panic!("the session started without a formatter"),
        Err(e) => e,
    };
    assert!(matches!(e, NavError::FormatterUnavailable));
}

#[test]
fn starts_in_blame_mode_with_one_frame() {
    let app = start(3);
    assert_eq!(app.mode, Mode::Blame);
    assert_eq!(app.blame_stack.depth(), 1);
    assert!(matches!(app.layout, LayoutState::FullScreen));
    assert!(app.diff_lines.is_none());
    assert!(!app.should_quit);
    assert_eq!(app.blame_stack.current().unwrap().commit_hash.as_str(), "c3");
}

#[test]
fn movement_clamps_to_the_frame_bounds() {
    let mut app = start(5);
    let steps = [
        (BlameAction::CursorDown, 1),
        (BlameAction::CursorDown, 2),
        (BlameAction::Cursor10Down, 4),
        (BlameAction::CursorDown, 4),
        (BlameAction::CursorUp, 3),
        (BlameAction::CursorTop, 0),
        (BlameAction::CursorUp, 0),
        (BlameAction::Cursor10Up, 0),
        (BlameAction::CursorBottom, 4),
        (BlameAction::CursorPageDown, 4),
        (BlameAction::CursorPageUp, 0),
    ];
    for (action, expected) in steps {
        app.dispatch(Action::Blame(action)).unwrap();
        assert_eq!(selected(&app), expected);
    }
}

#[test]
fn movement_is_a_no_op_on_an_empty_frame() {
    let mut app = start(0);
    for action in [
        BlameAction::CursorDown,
        BlameAction::CursorUp,
        BlameAction::Cursor10Down,
        BlameAction::Cursor10Up,
        BlameAction::CursorPageDown,
        BlameAction::CursorPageUp,
        BlameAction::CursorTop,
        BlameAction::CursorBottom,
    ] {
        app.dispatch(Action::Blame(action)).unwrap();
        assert_eq!(selected(&app), 0);
    }
}

#[test]
fn drill_down_on_an_empty_frame_changes_nothing() {
    let mut app = start(0);
    app.dispatch(Action::Blame(BlameAction::DrillDown)).unwrap();
    assert_eq!(app.blame_stack.depth(), 1);
    assert_eq!(app.mode, Mode::Blame);
    assert_eq!(app.blame_stack.current().unwrap().commit_hash.as_str(), "c3");
}

#[test]
fn drill_down_walks_parents_and_stops_at_the_root() {
    let mut app = start(3);
    assert_eq!(app.blame_stack.depth(), 1);
    app.dispatch(Action::Blame(BlameAction::DrillDown)).unwrap();
    assert_eq!(app.blame_stack.depth(), 2);
    assert_eq!(app.blame_stack.current().unwrap().commit_hash.as_str(), "c2");
    app.dispatch(Action::Blame(BlameAction::DrillDown)).unwrap();
    assert_eq!(app.blame_stack.depth(), 3);
    assert_eq!(app.blame_stack.current().unwrap().commit_hash.as_str(), "c1");
    // the root commit has no parent: drilling further changes nothing
    app.dispatch(Action::Blame(BlameAction::DrillDown)).unwrap();
    assert_eq!(app.blame_stack.depth(), 3);
    assert_eq!(app.blame_stack.current().unwrap().commit_hash.as_str(), "c1");
}

#[test]
fn go_back_pops_frames_but_never_the_root() {
    let mut app = start(3);
    app.dispatch(Action::Blame(BlameAction::DrillDown)).unwrap();
    app.dispatch(Action::Blame(BlameAction::DrillDown)).unwrap();
    assert_eq!(app.blame_stack.depth(), 3);
    app.dispatch(Action::Blame(BlameAction::GoBack)).unwrap();
    assert_eq!(app.blame_stack.depth(), 2);
    app.dispatch(Action::Blame(BlameAction::GoBack)).unwrap();
    assert_eq!(app.blame_stack.depth(), 1);
    app.dispatch(Action::Blame(BlameAction::GoBack)).unwrap();
    assert_eq!(app.blame_stack.depth(), 1);
    app.dispatch(Action::Blame(BlameAction::GoBack)).unwrap();
    assert_eq!(app.blame_stack.depth(), 1);
    assert_eq!(app.blame_stack.current().unwrap().commit_hash.as_str(), "c3");
}

#[test]
fn show_diff_splits_the_view_and_close_restores_it() {
    let mut app = start(3);
    app.dispatch(Action::Blame(BlameAction::ShowDiff)).unwrap();
    assert_eq!(app.mode, Mode::Diff);
    assert!(matches!(app.layout, LayoutState::Split { ratio: 50 }));
    assert_eq!(app.diff_selected_line, 0);
    let lines = app.diff_lines.as_ref().unwrap();
    assert_eq!(lines.len(), 2);
    assert_eq!(lines[0], "--- c3");
    let info = app.diff_commit_info.as_ref().unwrap();
    assert_eq!(info.hash.as_str(), "c3");

    app.dispatch(Action::Diff(DiffAction::Close)).unwrap();
    assert_eq!(app.mode, Mode::Blame);
    assert!(matches!(app.layout, LayoutState::FullScreen));
    assert!(app.diff_lines.is_none());
    assert!(app.diff_commit_info.is_none());
}

#[test]
fn diff_scrolling_clamps_to_the_diff_lines() {
    let mut app = start(3);
    app.dispatch(Action::Blame(BlameAction::ShowDiff)).unwrap();
    app.dispatch(Action::Diff(DiffAction::ScrollDown)).unwrap();
    assert_eq!(app.diff_selected_line, 1);
    app.dispatch(Action::Diff(DiffAction::ScrollDown)).unwrap();
    assert_eq!(app.diff_selected_line, 1);
    app.dispatch(Action::Diff(DiffAction::Scroll10Down)).unwrap();
    assert_eq!(app.diff_selected_line, 1);
    app.dispatch(Action::Diff(DiffAction::ScrollTop)).unwrap();
    assert_eq!(app.diff_selected_line, 0);
    app.dispatch(Action::Diff(DiffAction::ScrollBottom)).unwrap();
    assert_eq!(app.diff_selected_line, 1);
    app.dispatch(Action::Diff(DiffAction::ScrollUp)).unwrap();
    assert_eq!(app.diff_selected_line, 0);
}

#[test]
fn show_diff_on_an_empty_frame_changes_nothing() {
    let mut app = start(0);
    app.dispatch(Action::Blame(BlameAction::ShowDiff)).unwrap();
    assert_eq!(app.mode, Mode::Blame);
    assert!(app.diff_lines.is_none());
    assert!(matches!(app.layout, LayoutState::FullScreen));
}

#[test]
fn gateway_errors_propagate_and_leave_state_alone() {
    let mut app = App::new(
        FakeGit { entry_count: 3, fail_diff: true },
        FakeFormatter { available: true },
        AppConfig::default(),
        "src/lib.rs".to_string(),
    )
    .unwrap();
    let r = app.dispatch(Action::Blame(BlameAction::ShowDiff));
    assert!(matches!(r.unwrap_err(), NavError::Gateway(_)));
    assert_eq!(app.mode, Mode::Blame);
    assert!(app.diff_lines.is_none());
    assert!(matches!(app.layout, LayoutState::FullScreen));
    assert_eq!(app.blame_stack.depth(), 1);
}

#[test]
fn quit_raises_the_flag_and_help_overlays_any_mode() {
    let mut app = start(3);
    app.dispatch(Action::Global(GlobalAction::ShowHelp)).unwrap();
    assert_eq!(app.mode, Mode::Help);
    app.dispatch(Action::Help(HelpAction::ScrollDown)).unwrap();
    assert_eq!(app.help_scroll, 1);
    app.dispatch(Action::Help(HelpAction::Scroll10Down)).unwrap();
    assert_eq!(app.help_scroll, 11);
    app.dispatch(Action::Help(HelpAction::Scroll10Up)).unwrap();
    assert_eq!(app.help_scroll, 1);
    app.dispatch(Action::Help(HelpAction::ScrollUp)).unwrap();
    assert_eq!(app.help_scroll, 0);
    app.dispatch(Action::Help(HelpAction::ScrollUp)).unwrap();
    assert_eq!(app.help_scroll, 0);
    app.dispatch(Action::Help(HelpAction::Close)).unwrap();
    assert_eq!(app.mode, Mode::Blame);
    assert!(!app.should_quit);
    app.dispatch(Action::Global(GlobalAction::Quit)).unwrap();
    assert!(app.should_quit);
}

#[test]
fn an_unbound_key_is_a_no_op() {
    let mut app = start(3);
    app.dispatch(Action::Unbound).unwrap();
    assert_eq!(app.mode, Mode::Blame);
    assert_eq!(app.blame_stack.depth(), 1);
    assert_eq!(selected(&app), 0);
}
