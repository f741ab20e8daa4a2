//! Verified core of the mine fleet live tracker: the wire records, the
//! health classifier, the per-truck fleet store with its bounded history,
//! the dashboard labels, request validation, live-stream event selection
//! and the haul-truck simulator's decisions.

pub mod floatbits;
pub mod health;
pub mod order;
pub mod proto;
pub mod sim;
pub mod state;
pub mod stream;
pub mod text;
pub mod dto;
pub mod error;
pub mod ingest;
