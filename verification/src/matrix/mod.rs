//! The room service as the gateway sees it.

pub mod model;
pub mod events;
pub mod client;
pub mod scan;
pub mod json;
