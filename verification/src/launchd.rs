pub mod config;
pub mod entry_status;
pub mod enums;
pub mod job_type_filter;
pub mod label_map;
pub mod plist;
pub mod service;
pub mod xpc;
pub mod message;
pub mod messages;
pub mod command;
pub mod query;
pub mod plist_edit;
