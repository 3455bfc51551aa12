//! Fetching of streamed audio files: which bytes of a file are there, which are
//! to be requested next, and what a reader of the file is handed.
#![allow(unused_imports)]

pub mod audio_file;
pub mod content_range;
pub mod controller;
pub mod guarantees;
pub mod laws;
pub mod opening;
pub mod range_set;
pub mod shared;
pub mod streaming;
