//! A file-browsing engine: directory snapshots, navigation history,
//! selection, background copy accounting and file search, with every
//! rule stated as a contract and proved.

pub mod text;
pub mod paths;
pub mod file_item;
pub mod arrange;
pub mod file_manager;
pub mod pattern;
pub mod search;
pub mod copy;
pub mod format;
pub mod icons;
pub mod file_utils;
pub mod thumbnail;
pub mod view;
pub mod order_laws;
pub mod archive;
pub mod settings;
pub mod bookmark;
pub mod tabs;
pub mod status;
pub mod intents;
pub mod operations;
pub mod walk;
