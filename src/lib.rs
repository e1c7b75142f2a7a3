//! Validation core of a storage node: record framing, spend aggregation,
//! payment-proof checks, the decisions of the record validators and the
//! node's event handling.
pub mod aggregate;
pub mod build_info;
pub mod bytes;
pub mod codec;
pub mod dbc;
pub mod error;
pub mod files;
pub mod names;
pub mod node;
pub mod payment;
pub mod register;
pub mod store;
pub mod validation;
pub mod wallet;
