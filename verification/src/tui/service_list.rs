pub mod list_item;
pub mod view;
