//! Output: consuming decoded scenes and steering the renderers.
pub mod atmos;
pub mod consumer;
pub mod controller;
pub mod macinrender;
pub mod output;
pub mod playout;
pub mod preview;
pub mod producer;
pub mod settings;
pub mod source;
pub mod state;
