//! Bounded buffering of event notifications received from subscription feeds,
//! with the decision logic of the ingest loops and of coordinated shutdown.

pub mod address;
pub mod buffer;
pub mod event_type;
pub mod filter;
pub mod ingestor;
pub mod orchestrator;
pub mod query;
pub mod record;
