//! The run saga: one actor per run that is not over.
//!
//! The actor folds the events of its run into a view and then advances: it looks
//! at the state and says what is still to be done. Advancing is idempotent, so
//! going on after a restart is no special case. The actor decides; what it
//! decides is carried out by its caller, which hands the outcome back.
pub mod actor;
pub mod integration;
pub mod jobs;
pub mod reconcile;
pub mod schedule;
pub mod start;
pub mod supervisor;
pub mod view;
