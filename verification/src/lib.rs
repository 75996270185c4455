//! Decision logic of an AC-4 object-audio player.
//!
//! Every module holds plain data and verified functions over it. Threads,
//! files, the database, audio devices and drawing live in the application that
//! links this library.
use vstd::prelude::*;

pub mod backend;
pub mod bitstream_ui;
pub mod decoder;
pub mod file_catalog;
pub mod head_tracking;
pub mod hptf_profile;
pub mod inspection;
pub mod install_check;
pub mod library;
pub mod licenses;
pub mod media;
pub mod model;
pub mod numeric;
pub mod order;
pub mod paths;
pub mod playlist;
pub mod playlist_ui;
pub mod posebridge;
pub mod scene_view;
pub mod text;
pub mod words;

verus! {

} // verus!
