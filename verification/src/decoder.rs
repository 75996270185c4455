//! Decoding: the scene model, its metadata timing and the decode decisions.
pub mod continuity;
pub mod controller;
pub mod demo;
pub mod frame;
pub mod index;
pub mod level;
pub mod metadata;
pub mod queue;
pub mod run;
pub mod scene;
pub mod signature;
pub mod snapshot;
pub mod tracking;
pub mod worker;
