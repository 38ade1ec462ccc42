//! The SV39 memory-management unit: 39-bit virtual addresses, three levels of
//! 512-entry tables and 4 KiB pages.

use vstd::prelude::*;

pub mod page_table;
pub mod page_table_entry;
pub mod virtual_address;

verus! {

/// Size in bytes of a page, the unit of mapping.
pub const PAGE_SIZE: u64 = 4096;

/// The highest virtual address that SV39 can express.
pub const HIGHEST_VIRTUAL_ADDRESS: u64 = 0x7F_FFFF_FFFF;

/// One past the highest physical address that a page-table entry can name.
pub const PHYSICAL_ADDRESS_LIMIT: u64 = 0x0100_0000_0000_0000;

} // verus!
