//! The inference connector: the interface and its local-endpoint
//! implementation details.

pub mod connector;
pub mod local_model;
