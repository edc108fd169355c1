//! Core of a terminal navigator for per-line commit attribution: the
//! key-binding model with its textual form, the keymap tables and the
//! two-tier action resolver, the mode/action state machine, and the
//! stack-based history of visited file revisions.

pub mod action;
pub mod app;
pub mod binding;
pub mod blame;
pub mod blame_view;
pub mod commit;
pub mod config;
pub mod date;
pub mod diff;
pub mod diff_view;
pub mod event;
pub mod gateway;
pub mod help_view;
pub mod keymap;
pub mod mode;
pub mod status_bar;
pub mod text;

pub use action::Action;
pub use action::BlameAction;
pub use action::DiffAction;
pub use action::GlobalAction;
pub use action::HelpAction;
pub use app::App;
pub use app::LayoutState;
pub use app::NavError;
pub use binding::KeyBinding;
pub use binding::KeyCode;
pub use binding::KeyModifiers;
pub use binding::KeyParseError;
pub use blame::BlameEntry;
pub use blame::BlameFrame;
pub use blame::BlameStack;
pub use commit::CommitHash;
pub use commit::CommitInfo;
pub use config::AppConfig;
pub use config::ConfigLoader;
pub use config::GeneralConfig;
pub use diff::Diff;
pub use event::EventHandler;
pub use gateway::DiffFormatter;
pub use gateway::FormatterError;
pub use gateway::GatewayError;
pub use gateway::GitGateway;
pub use keymap::KeymapConfig;
pub use mode::BlameModeHandler;
pub use mode::DiffModeHandler;
pub use mode::HelpModeHandler;
pub use mode::Mode;
pub use mode::ModeHandler;
pub use status_bar::StatusBar;
