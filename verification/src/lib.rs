pub mod launchd;
pub mod text;
pub mod tui;
