//! Memory management that does not depend on the page-table format.

use vstd::prelude::*;

pub mod kernel;
pub mod memory_device;
pub mod mmu;

verus! {

/// Size in bytes of a page frame.
pub const PAGE_SIZE: u64 = 4096;

} // verus!
