//! The state and the rules of an interactive BitTorrent client.
//!
//! The terminal, the file system and the BitTorrent session stay outside: callers hand in what
//! they read there as plain values and carry out what the functions here decide.
pub mod app;
pub mod completion_state;
pub mod config;
pub mod desktop;
pub mod downloads_view;
pub mod engine;
pub mod errors;
pub mod form;
pub mod laws;
pub mod order;
pub mod path_completion;
pub mod paths;
pub mod preview;
pub mod size;
pub mod text;
pub mod torrent;
pub mod view;
