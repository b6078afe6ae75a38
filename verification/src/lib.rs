//! Decision core of a dual-pane SFTP file browser.

pub mod cache;
pub mod confirm;
pub mod connect;
pub mod display;
pub mod drops;
pub mod edit_sync;
pub mod events;
pub mod frame;
pub mod i18n;
pub mod input;
pub mod job;
pub mod keymap;
pub mod keys;
pub mod listing;
pub mod local_copy;
pub mod overlay;
pub mod panel;
pub mod parallel;
pub mod paths;
pub mod publish;
pub mod queue;
pub mod registry;
pub mod remote_dirs;
pub mod render;
pub mod scan;
pub mod sessions;
pub mod single;
pub mod state;
pub mod stream;
pub mod target;
pub mod text;
pub mod transfer;
pub mod types;
pub mod units;
pub mod worker;
