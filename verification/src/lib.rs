//! Selects the pieces of a task that a peer downloads next.
pub mod announce;
pub mod collected;
pub mod history;
pub mod index;
pub mod laws;
mod lemmas;
pub mod outcomes;
pub mod parents;
pub mod records;
pub mod selector;
pub mod state;
pub mod store;
pub mod types;
