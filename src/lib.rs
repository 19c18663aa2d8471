//! Event-sourced aggregates: an append-only commit log, replay of an
//! instance's history into its model, and the dispatchers that persist
//! commands' results and answer snapshot queries.
pub mod model;
pub mod commit;
pub mod replay;
pub mod backend;
pub mod store;
pub mod entity;
pub mod counter;
pub mod lemmas;
pub mod manager;
