//! Verified core of a batch audio converter.
//!
//! The library plans a batch of conversion jobs from a queue of files,
//! drives the interactive resolution of output-path conflicts, models the
//! sequential background worker that invokes an external transcoder, and
//! applies the worker's event stream back to the controller state.

pub mod controller;
pub mod decimal;
pub mod events;
pub mod jobs;
pub mod paths;
pub mod worker;
