//! Catalog and pipeline logic for tiering cold relational data into object
//! storage: credential configuration, idempotent bucket provisioning, upload
//! acknowledgment handling, and the source/target lifecycle state machine.

pub mod credential;
pub mod errors;
pub mod listing;
pub mod pipeline;
pub mod provision;
pub mod registry;
pub mod upload;
