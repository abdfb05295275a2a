//! Container runtime controllers.

use vstd::prelude::*;

pub mod health;
pub mod pod;

verus! {

/// The namespace of runtime resources.
pub const NS: &'static str = "runtime";

} // verus!
