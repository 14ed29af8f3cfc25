//! The structures that travel over the wire, and the descriptors they are built from.

pub mod message;
pub mod rule;
pub mod sock_diag;
