pub mod dialog;
pub mod omnibox;
pub mod root;
pub mod service_list;
pub mod table;
pub mod table_list_view;
pub mod service;
