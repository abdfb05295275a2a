//! Time controllers.

use vstd::prelude::*;

pub mod sync;

verus! {

/// The namespace of time resources.
pub const NS: &'static str = "runtime";

} // verus!
