//! Interactive selection, staging and batch deletion of remote repositories.
pub mod text;
pub mod repo;
pub mod fuzzy;
pub mod state;
pub mod pipeline;
pub mod app;
pub mod deletion;
pub mod laws;
