//! From descriptors to requests, and from replies to records.

pub mod rule;
pub mod sock_diag;
