//! Type marshalling between a self-describing CBOR scalar encoding and three
//! SQL engines, with a per-tenant connection-pool registry.

pub mod bind;
pub mod cbor;
pub mod columns;
pub mod config;
pub mod error;
pub mod laws;
pub mod model;
pub mod registry;
pub mod rows;
pub mod temporal;
