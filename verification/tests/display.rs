use blake::binding::KeyBinding;
use blake::binding::KeyCode;
use blake::config::default_formatter;
use blake::config::AppConfig;
use blake::config::ConfigLoader;
use blake::config::GeneralConfig;
use blake::event::EventHandler;
use blake::keymap::KeymapConfig;
use blake::mode::Mode;
use blake::status_bar::StatusBar;
use blake::text::split_lines;
use blake::text::u64_to_string;
use blake::text::u64_to_string_padded;
use blake::blame_view::is_leap_year;
use blake::blame_view::truncate;
use blake::blame_view::BlameView;
use blake::blame_view::BlameViewState;
use blake::diff_view::DiffView;
use blake::diff_view::DiffViewState;
use blake::help_view::HelpView;
use blake::help_view::HelpViewState;
use blake::Action;
use blake::BlameFrame;
use blake::CommitHash;
use blake::CommitInfo;
use blake::Diff;
use blake::GlobalAction;

#[test]
fn timestamps_render_as_calendar_dates() {
    assert_eq!(blake::blame_view::format_timestamp(0), "1970-01-01");
    assert_eq!(blake::blame_view::format_timestamp(86400), "1970-01-02");
    // a leap day
    assert_eq!(blake::blame_view::format_timestamp(1709164800), "2024-02-29");
    // the last second of a century year that is also a leap year
    assert_eq!(blake::blame_view::format_timestamp(978307199), "2000-12-31");
}

#[test]
fn diff_timestamps_carry_the_time_of_day() {
    assert_eq!(blake::diff_view::format_timestamp(0), "1970-01-01 00:00:00");
    assert_eq!(blake::diff_view::format_timestamp(1709164800 + 3661), "2024-02-29 01:01:01");
    assert_eq!(blake::diff_view::format_timestamp(978307199), "2000-12-31 23:59:59");
}

#[test]
fn leap_years_follow_the_gregorian_rule() {
    assert!(is_leap_year(2024));
    assert!(!is_leap_year(2023));
    assert!(!is_leap_year(1900));
    assert!(is_leap_year(2000));
}

#[test]
fn long_authors_are_truncated_with_a_marker() {
    assert_eq!(truncate("ada", 12), "ada");
    assert_eq!(truncate("exactly12own", 12), "exactly12own");
    assert_eq!(truncate("a rather long name", 12), "a rather l.. ");
}

#[test]
fn decimal_rendering_and_padding() {
    assert_eq!(u64_to_string(0), "0");
    assert_eq!(u64_to_string(907), "907");
    assert_eq!(u64_to_string_padded(7, 4), "0007");
    assert_eq!(u64_to_string_padded(2024, 4), "2024");
    assert_eq!(u64_to_string_padded(12345, 4), "12345");
}

#[test]
fn texts_split_into_lines_like_the_display_expects() {
    assert_eq!(split_lines(""), Vec::<String>::new());
    assert_eq!(split_lines("a\nb\r\nc"), vec!["a", "b", "c"]);
    assert_eq!(split_lines("a\n"), vec!["a"]);
    assert_eq!(split_lines("\n\n"), vec!["", ""]);
    // a carriage return not followed by a line feed is kept
    assert_eq!(split_lines("a\r"), vec!["a\r"]);
}

#[test]
fn the_status_bar_shows_a_one_based_position() {
    let bar = StatusBar::new(Mode::Blame, "src/lib.rs", 4, 10, 2);
    assert_eq!(bar.position, "5/10");
    assert_eq!(bar.file_path, "src/lib.rs");
    assert_eq!(bar.stack_depth, 2);
    assert_eq!(bar.mode.name(), "BLAME");
    assert_eq!(Mode::Diff.name(), "DIFF");
    assert_eq!(Mode::Help.name(), "HELP");
}

#[test]
fn the_help_view_lists_every_binding_group() {
    let km = KeymapConfig::with_defaults();
    let view = HelpView::new(&km);
    assert_eq!(view.line_count(), 29);
    let lines = view.help_lines();
    assert_eq!(lines.len(), 29);
    assert_eq!(lines[0], "Keybindings");
    assert_eq!(lines[2], "Blame Mode");
    assert_eq!(lines[15], "Diff Mode");
    assert_eq!(lines[26], "Global");
    // the quit line names both of its default keys
    assert!(lines[28].contains("q"));
    assert!(lines[28].contains("Ctrl+c"));
    assert!(lines[28].contains("Quit"));
}

#[test]
fn format_keys_joins_bindings_or_shows_a_dash() {
    let km = KeymapConfig::with_defaults();
    let view = HelpView::new(&km);
    assert_eq!(view.format_keys(vec![]), "-");
    let j = KeyBinding::new(KeyCode::Char('j'));
    let down = KeyBinding::new(KeyCode::Down);
    assert_eq!(view.format_keys(vec![j]), "j");
    assert_eq!(view.format_keys(vec![j, down]), "j / Down");
}

#[test]
fn view_states_keep_the_selection_visible() {
    let mut state = BlameViewState { scroll_offset: 0 };
    // selection below the window: scroll just far enough down
    state.adjust_scroll(25, 10);
    assert_eq!(state.scroll_offset, 16);
    // selection above the window: scroll up to it
    state.adjust_scroll(3, 10);
    assert_eq!(state.scroll_offset, 3);
    // selection inside the window: stay put
    state.adjust_scroll(7, 10);
    assert_eq!(state.scroll_offset, 3);

    let mut dstate = DiffViewState { scroll_offset: 0, selected_line: 9 };
    dstate.clamp_selection(4);
    assert_eq!(dstate.selected_line, 3);
    dstate.clamp_selection(0);
    assert_eq!(dstate.selected_line, 0);
    dstate.adjust_scroll(12, 5);
    assert_eq!(dstate.scroll_offset, 8);

    let mut hstate = HelpViewState { scroll_offset: 0, selected_line: 40 };
    hstate.clamp_selection(29);
    assert_eq!(hstate.selected_line, 28);
    hstate.adjust_scroll(10);
    assert_eq!(hstate.scroll_offset, 19);
}

#[test]
fn widgets_carry_what_the_shell_renders() {
    let frame = BlameFrame {
        file_path: "src/lib.rs".to_string(),
        commit_hash: CommitHash::new("abcdef0123".to_string()),
        entries: vec![],
        selected_line: 0,
    };
    let view = BlameView::new(&frame);
    assert_eq!(view.frame.commit_hash.as_str(), "abcdef0123");

    let lines = vec!["+one".to_string(), "-two".to_string()];
    let info = CommitInfo {
        hash: CommitHash::new("abcdef0123".to_string()),
        parent: None,
        author: "ada".to_string(),
        timestamp: 0,
        message: "first".to_string(),
    };
    let dview = DiffView::new(&lines, Some(&info));
    let header = dview.header_lines();
    assert_eq!(header.len(), 6);
    assert_eq!(header[0], "commit abcdef0123");
    assert_eq!(header[1], "Author: ada");
    assert_eq!(header[2], "Date:   1970-01-01 00:00:00");
    assert_eq!(header[3], "");
    assert_eq!(header[4], "    first");
    assert_eq!(header[5], "");
    let bare = DiffView::new(&lines, None);
    assert!(bare.header_lines().is_empty());
}

#[test]
fn configuration_defaults_and_finishing() {
    let config = AppConfig::default();
    assert_eq!(config.general.diff_formatter, "delta");
    assert_eq!(default_formatter(), "delta");
    assert_eq!(GeneralConfig::default().diff_formatter, "delta");

    // a configuration that binds only one key is completed with defaults
    let mut keymap = KeymapConfig::new();
    keymap.bind_global(KeyBinding::new(KeyCode::F(2)), GlobalAction::ShowHelp);
    let finished = ConfigLoader::finish(AppConfig { general: GeneralConfig::default(), keymap });
    let f2 = KeyBinding::new(KeyCode::F(2));
    assert_eq!(finished.keymap.get_global(&f2), Some(Action::Global(GlobalAction::ShowHelp)));
    let q = KeyBinding::new(KeyCode::Char('q'));
    assert_eq!(finished.keymap.get_global(&q), Some(Action::Global(GlobalAction::Quit)));
}

#[test]
fn the_event_handler_keeps_its_tick_rate() {
    let handler = EventHandler::new(100);
    assert_eq!(handler.tick_rate_ms(), 100);
}

#[test]
fn diffs_keep_their_content() {
    let diff = Diff::new("raw diff text".to_string());
    assert_eq!(diff.as_str(), "raw diff text");
}
