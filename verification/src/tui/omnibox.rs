pub mod command;
pub mod state;
pub mod view;
pub mod filter_bar;
