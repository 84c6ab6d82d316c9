//! A two-location file synchronizer: a local tree and a tree on a
//! file-transfer server are walked, joined by relative path, and each file is
//! uploaded, downloaded or left alone by the newer modification time.
//!
//! The library decides; the caller performs the listings, copies and
//! transfers it plans, and reports back how each went.

pub mod paths;
pub mod records;
pub mod walk;
pub mod config;
pub mod link;
pub mod link_lemmas;
pub mod execute;
pub mod run;
pub mod listing;
pub mod args;
pub mod menu;
pub mod config_file;
