//! The management API: what requests are answered and which actions they ask
//! for.

pub mod mapping;
pub mod service;
