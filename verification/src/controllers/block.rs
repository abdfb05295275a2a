//! Block controllers: disks are discovered, provisioned and mounted.

use vstd::prelude::*;

pub mod discovery;
pub mod mount;
pub mod provision;

verus! {

/// The namespace of block resources.
pub const NS: &'static str = "block";

} // verus!
