//! Build-time linkage resolution for a foreign managed runtime.
//!
//! The library computes, from a package manager's install plan, the ordered
//! linker directives (search paths, library names, runtime search paths)
//! needed to link a host program against libraries produced by a foreign
//! compiler toolchain, together with the declaration filtering and the
//! runtime lifecycle bookkeeping around it.

pub mod bindings;
pub mod error;
pub mod lifecycle;
pub mod plan;
pub mod resolve;
pub mod text;

use vstd::prelude::*;

verus! {

} // verus!
