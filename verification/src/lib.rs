//! Decides which branches of a repository are safe to delete because their
//! work has already reached a base branch, and in which order and scope the
//! deletions are to be carried out.
//!
//! The library never touches a repository itself. Every fact about the
//! repository arrives as a plain value, and every effect leaves as a request
//! that the caller performs.
//!
//! - [`options`]: the configuration of a run and its validation.
//! - [`branch`]: branches, and which listed names are candidates at all.
//! - [`classify`]: merged, squashed, unpushed or active.
//! - [`plan`]: the ordered deletion plan.
//! - [`confirm`]: what the user is asked, and what counts as a yes.
//! - [`execute`]: the outcome of each deletion and the status of the run.
//! - [`protocol`], [`model`], [`engine`]: a whole run as a state machine
//!   that asks for one thing at a time.
//! - [`laws`]: what holds of every run.
//! - [`text`]: comparing and searching names.

pub mod branch;
pub mod classify;
pub mod confirm;
pub mod engine;
pub mod error;
pub mod execute;
pub mod laws;
pub mod model;
pub mod options;
pub mod plan;
pub mod protocol;
pub mod text;
