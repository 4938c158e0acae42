//! Core of a submission-relay service: structured payloads collected through
//! short-lived forms are published into a shared broadcast channel, with one
//! stored record per submitter so that a resubmission edits the earlier
//! broadcast message instead of adding a new one.

pub mod submission;
pub mod text;
pub mod codec;
pub mod error;
pub mod store;
pub mod trigger;
pub mod collector;
pub mod endpoint;
pub mod flow;
