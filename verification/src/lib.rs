//! Verified core of a small file-listing application: the selection-set
//! gestures of the file table, the case-insensitive substring filter over
//! file names, the synthesized placeholder file list, and the routing
//! decision of the static-file server.
//!
//! Rendering and I/O live outside this crate; everything here is plain
//! state manipulation with contracts.

pub mod names;
pub mod route;
pub mod selection;
pub mod text;
pub mod ui;
