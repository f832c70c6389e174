//! Scaling decision engine for an ephemeral CI build agent.
//!
//! The crate decides when a single cloud compute instance that hosts a CI
//! worker should be started or stopped, based on periodic observations of the
//! CI server's job queue. It contains the label-based admission filter, the
//! hysteresis-driven scaling strategy, and the generic provider lifecycle
//! state machine with its bounded-wait polling discipline. All network and
//! cloud-SDK plumbing lives outside this crate; the functions here work on
//! plain observed values and are fully verified.

pub mod agent;
pub mod fleet;
pub mod lifecycle;
pub mod strategy;
pub mod text;
