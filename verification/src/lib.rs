//! Wire encoding for netlink policy-routing rules and inet socket diagnostics.

pub mod bytes;
pub mod consts;
pub mod envelope;
pub mod error;
pub mod handle;
pub mod types;
