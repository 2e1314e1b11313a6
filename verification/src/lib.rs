//! Verified core of a sandbox toolkit server.

pub mod text;
pub mod path;
pub mod workspace;
pub mod address;
pub mod resolve;
pub mod api;
pub mod buffers;
pub mod exec_frame;
pub mod process;
pub mod pty_frame;
pub mod read_window;
pub mod command;
pub mod tools;
pub mod plugins;
pub mod skills;
pub mod target;
pub mod jsonrpc;
pub mod content;
pub mod metadata;
pub mod exec_request;
pub mod exec_run;
pub mod listing;
pub mod process_api;
pub mod process_group;
pub mod server_fs;
pub mod normal_form;
pub mod ordering;
pub mod binaries;
pub mod file_ops;
