//! The demonstration programme: a canon whose notes are objects.
pub mod stage;
pub mod voice;
