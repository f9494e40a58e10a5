//! The channel protocol as the gateway sees it.

pub mod protocol;
