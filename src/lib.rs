//! Decision engine of a queue shuffler for a music-playback daemon: when to
//! enqueue tracks, which tracks are eligible, and which ones were already played.

pub mod activity;
pub mod control;
pub mod filter;
pub mod select;
pub mod state;
pub mod track;
