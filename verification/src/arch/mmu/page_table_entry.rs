//! The SV39 page-table entry: one 64-bit cell that is either invalid, a pointer
//! to a child table, or a leaf that maps a page.
//!
//! From the low bit up the cell holds Valid, Readable, Writable, eXecutable,
//! User, Global, Accessed, Dirty, two bits for software, 44 bits of physical
//! page number and ten reserved bits.

use vstd::prelude::*;

verus! {

/// Bits 54..63, which must be zero in every entry that is in use.
pub const PTE_RESERVED: u64 = 0xFFC0_0000_0000_0000;

/// Bits 10..53, the physical page number.
pub const PTE_PPN: u64 = 0x003F_FFFF_FFFF_FC00;

/// Bits 8..9, which the hardware leaves to the operating system.
pub const PTE_RSW: u64 = 0x0300;

/// Dirty: the page has been written to.
pub const PTE_D: u64 = 0x80;

/// Accessed: the page has been read or written.
pub const PTE_A: u64 = 0x40;

/// Global: the mapping is shared by all address spaces.
pub const PTE_G: u64 = 0x20;

/// User: the page can be reached from user mode.
pub const PTE_U: u64 = 0x10;

/// Execute permission.
pub const PTE_X: u64 = 0x08;

/// Write permission.
pub const PTE_W: u64 = 0x04;

/// Read permission.
pub const PTE_R: u64 = 0x02;

/// Valid: the entry is in use.
pub const PTE_V: u64 = 0x01;

/// Who gives a mapped page back to the allocator.
#[derive(Clone, Copy, PartialEq, Eq, Structural, Debug)]
pub enum PageManagement {
    /// The mapper keeps the page; unmapping hands its address back.
    Manual,
    /// The table owns the page; unmapping returns it to the free pages.
    Automatic,
    /// The page is shared and must be copied before the first write.
    CopyOnWrite,
    /// This entry is the owner among the entries that share the page.
    CowOwner,
}

/// The four states of a cell. Every 64-bit value is in exactly one of them.
#[derive(Clone, Copy, PartialEq, Eq, Structural, Debug)]
pub enum EntryState {
    /// A reserved bit is set; such a cell is never followed.
    ReservedDirty,
    /// The Valid bit is clear.
    Invalid,
    /// Valid, with none of R, W, X: the page number names a child table.
    TablePointer,
    /// Valid, with at least one of R, W, X: the page number names a page.
    Leaf,
}

/// What invalidating an entry leaves for its owner to give back.
#[derive(Clone, Copy, PartialEq, Eq, Structural, Debug)]
pub enum Reclaim {
    /// Nothing was owned through the entry.
    Nothing,
    /// The child table in the page at this address, with all it owns.
    ChildTable(u64),
    /// The page at this address.
    Page(u64),
}

/// The fields of a cell, decoded.
pub struct EntryView {
    pub valid: bool,
    pub readable: bool,
    pub writable: bool,
    pub executable: bool,
    pub user_accessible: bool,
    pub global: bool,
    pub accessed: bool,
    pub dirty: bool,
    pub management: PageManagement,
    /// The physical address that the page number stands for.
    pub address: u64,
    /// The reserved bits, in place.
    pub reserved: u64,
}

/// The number that stands for a management style in the software bits.
pub open spec fn management_code(management: PageManagement) -> u64 {
    match management {
        PageManagement::Manual => 0,
        PageManagement::Automatic => 1,
        PageManagement::CopyOnWrite => 2,
        PageManagement::CowOwner => 3,
    }
}

/// The management style that a cell's software bits stand for.
pub open spec fn management_of(bits: u64) -> PageManagement {
    let code = (bits & PTE_RSW) >> 8;
    if code == 0 {
        PageManagement::Manual
    } else if code == 1 {
        PageManagement::Automatic
    } else if code == 2 {
        PageManagement::CopyOnWrite
    } else {
        PageManagement::CowOwner
    }
}

/// The physical address that a cell's page number stands for.
pub open spec fn address_of(bits: u64) -> u64 {
    ((bits & PTE_PPN) >> 10) << 12
}

/// All fields of a cell.
pub open spec fn decode(bits: u64) -> EntryView {
    EntryView {
        valid: bits & PTE_V != 0,
        readable: bits & PTE_R != 0,
        writable: bits & PTE_W != 0,
        executable: bits & PTE_X != 0,
        user_accessible: bits & PTE_U != 0,
        global: bits & PTE_G != 0,
        accessed: bits & PTE_A != 0,
        dirty: bits & PTE_D != 0,
        management: management_of(bits),
        address: address_of(bits),
        reserved: bits & PTE_RESERVED,
    }
}

impl EntryView {
    /// The state that the fields put the cell in.
    pub open spec fn state(self) -> EntryState {
        if self.reserved != 0 {
            EntryState::ReservedDirty
        } else if !self.valid {
            EntryState::Invalid
        } else if !self.readable && !self.writable && !self.executable {
            EntryState::TablePointer
        } else {
            EntryState::Leaf
        }
    }

    /// What the owner of the cell has to give back when the cell is
    /// invalidated.
    pub open spec fn reclaim(self) -> Reclaim {
        if self.state() == EntryState::TablePointer {
            Reclaim::ChildTable(self.address)
        } else if self.state() == EntryState::Leaf && self.management
            == PageManagement::Automatic && self.address != 0 {
            Reclaim::Page(self.address)
        } else {
            Reclaim::Nothing
        }
    }
}

/// An address that a page number can hold: page-aligned and below 2^56.
pub open spec fn encodable_address(address: u64) -> bool {
    address % 4096 == 0 && address < 0x0100_0000_0000_0000
}

/// A cell with one flag set or cleared.
pub open spec fn with_flag(bits: u64, mask: u64, on: bool) -> u64 {
    if on {
        bits | mask
    } else {
        bits & !mask
    }
}

/// A cell with its software bits replaced.
pub open spec fn with_management(bits: u64, code: u64) -> u64 {
    (bits & !PTE_RSW) | (PTE_RSW & (code << 8))
}

/// A cell with its page number replaced by that of `address`.
pub open spec fn with_address(bits: u64, address: u64) -> u64 {
    (bits & !PTE_PPN) | (((address >> 12) << 10) & PTE_PPN)
}

/// Setting or clearing one flag changes that flag and nothing else.
pub proof fn lemma_flag_update(bits: u64, mask: u64, on: bool)
    by (bit_vector)
    requires
        mask == 0x01 || mask == 0x02 || mask == 0x04 || mask == 0x08 || mask == 0x10 || mask
            == 0x20 || mask == 0x40 || mask == 0x80,
    ensures
        ({
            let r = if on {
                bits | mask
            } else {
                bits & !mask
            };
            &&& (r & mask != 0) == on
            &&& mask != 0x01 ==> (r & 0x01) == (bits & 0x01)
            &&& mask != 0x02 ==> (r & 0x02) == (bits & 0x02)
            &&& mask != 0x04 ==> (r & 0x04) == (bits & 0x04)
            &&& mask != 0x08 ==> (r & 0x08) == (bits & 0x08)
            &&& mask != 0x10 ==> (r & 0x10) == (bits & 0x10)
            &&& mask != 0x20 ==> (r & 0x20) == (bits & 0x20)
            &&& mask != 0x40 ==> (r & 0x40) == (bits & 0x40)
            &&& mask != 0x80 ==> (r & 0x80) == (bits & 0x80)
            &&& (r & 0x0300) == (bits & 0x0300)
            &&& (r & 0x003F_FFFF_FFFF_FC00) == (bits & 0x003F_FFFF_FFFF_FC00)
            &&& (r & 0xFFC0_0000_0000_0000) == (bits & 0xFFC0_0000_0000_0000)
        }),
{
}

/// Clearing the reserved bits changes nothing else.
pub proof fn lemma_clear_reserved(bits: u64)
    by (bit_vector)
    ensures
        ({
            let r = bits & !0xFFC0_0000_0000_0000u64;
            &&& (r & 0xFFC0_0000_0000_0000) == 0
            &&& (r & 0x01) == (bits & 0x01)
            &&& (r & 0x02) == (bits & 0x02)
            &&& (r & 0x04) == (bits & 0x04)
            &&& (r & 0x08) == (bits & 0x08)
            &&& (r & 0x10) == (bits & 0x10)
            &&& (r & 0x20) == (bits & 0x20)
            &&& (r & 0x40) == (bits & 0x40)
            &&& (r & 0x80) == (bits & 0x80)
            &&& (r & 0x0300) == (bits & 0x0300)
            &&& (r & 0x003F_FFFF_FFFF_FC00) == (bits & 0x003F_FFFF_FFFF_FC00)
        }),
{
}

/// Replacing the software bits changes them and nothing else.
pub proof fn lemma_management_update(bits: u64, code: u64)
    by (bit_vector)
    requires
        code <= 3,
    ensures
        ({
            let r = (bits & !0x0300u64) | (0x0300u64 & (code << 8));
            &&& ((r & 0x0300) >> 8) == code
            &&& (r & 0x01) == (bits & 0x01)
            &&& (r & 0x02) == (bits & 0x02)
            &&& (r & 0x04) == (bits & 0x04)
            &&& (r & 0x08) == (bits & 0x08)
            &&& (r & 0x10) == (bits & 0x10)
            &&& (r & 0x20) == (bits & 0x20)
            &&& (r & 0x40) == (bits & 0x40)
            &&& (r & 0x80) == (bits & 0x80)
            &&& (r & 0x003F_FFFF_FFFF_FC00) == (bits & 0x003F_FFFF_FFFF_FC00)
            &&& (r & 0xFFC0_0000_0000_0000) == (bits & 0xFFC0_0000_0000_0000)
        }),
{
}

/// Replacing the page number changes it and nothing else, and the address
/// that was stored is the address that is read back.
pub proof fn lemma_address_update(bits: u64, address: u64)
    by (bit_vector)
    requires
        address % 4096 == 0,
        address < 0x0100_0000_0000_0000,
    ensures
        ({
            let r = (bits & !0x003F_FFFF_FFFF_FC00u64) | (((address >> 12) << 10)
                & 0x003F_FFFF_FFFF_FC00u64);
            &&& (((r & 0x003F_FFFF_FFFF_FC00) >> 10) << 12) == address
            &&& (r & 0x01) == (bits & 0x01)
            &&& (r & 0x02) == (bits & 0x02)
            &&& (r & 0x04) == (bits & 0x04)
            &&& (r & 0x08) == (bits & 0x08)
            &&& (r & 0x10) == (bits & 0x10)
            &&& (r & 0x20) == (bits & 0x20)
            &&& (r & 0x40) == (bits & 0x40)
            &&& (r & 0x80) == (bits & 0x80)
            &&& (r & 0x0300) == (bits & 0x0300)
            &&& (r & 0xFFC0_0000_0000_0000) == (bits & 0xFFC0_0000_0000_0000)
        }),
{
}

/// The fields of the two cells that constructors make, and the shape of
/// every address that a cell can hold.
pub proof fn lemma_fixed_cells(bits: u64)
    by (bit_vector)
    ensures
        (0u64 & 0x01) == 0 && (0u64 & 0x02) == 0 && (0u64 & 0x04) == 0 && (0u64 & 0x08) == 0,
        (0u64 & 0x10) == 0 && (0u64 & 0x20) == 0 && (0u64 & 0x40) == 0 && (0u64 & 0x80) == 0,
        ((0u64 & 0x0300) >> 8) == 0 && (0u64 & 0xFFC0_0000_0000_0000) == 0,
        (((0u64 & 0x003F_FFFF_FFFF_FC00) >> 10) << 12) == 0,
        (1u64 & 0x01) == 1 && (1u64 & 0x02) == 0 && (1u64 & 0x04) == 0 && (1u64 & 0x08) == 0,
        (1u64 & 0x10) == 0 && (1u64 & 0x20) == 0 && (1u64 & 0x40) == 0 && (1u64 & 0x80) == 0,
        ((1u64 & 0x0300) >> 8) == 0 && (1u64 & 0xFFC0_0000_0000_0000) == 0,
        (((1u64 & 0x003F_FFFF_FFFF_FC00) >> 10) << 12) == 0,
        (((bits & 0x003F_FFFF_FFFF_FC00) >> 10) << 12) % 4096 == 0,
        (((bits & 0x003F_FFFF_FFFF_FC00) >> 10) << 12) < 0x0100_0000_0000_0000,
        ((bits & 0x0300) >> 8) <= 3,
{
}

/// A page-table entry.
#[derive(Clone, Copy, Debug)]
pub struct PageTableEntry(u64);

impl View for PageTableEntry {
    type V = EntryView;

    open spec fn view(&self) -> EntryView {
        decode(self.bits())
    }
}

impl PageTableEntry {
    /// The raw cell.
    pub closed spec fn bits(&self) -> u64 {
        self.0
    }

    /// The address that an entry names is page-aligned and below 2^56.
    pub proof fn lemma_address_shape(&self)
        ensures
            encodable_address(self@.address),
    {
        lemma_fixed_cells(self.bits());
    }

    /// The fields of the all-zero cell.
    pub open spec fn invalid_view() -> EntryView {
        decode(0)
    }

    /// The all-zero cell is invalid: no flag is set, it names no address,
    /// and nothing is owned through it.
    pub proof fn lemma_invalid_view()
        ensures
            Self::invalid_view() == (EntryView {
                valid: false,
                readable: false,
                writable: false,
                executable: false,
                user_accessible: false,
                global: false,
                accessed: false,
                dirty: false,
                management: PageManagement::Manual,
                address: 0,
                reserved: 0,
            }),
            Self::invalid_view().state() == EntryState::Invalid,
            Self::invalid_view().reclaim() == Reclaim::Nothing,
    {
        lemma_fixed_cells(0);
    }

    /// A valid entry with every other bit clear, ready to be filled in.
    pub fn new() -> (entry: Self)
        ensures
            entry.bits() == PTE_V,
            entry@.valid,
            entry@.state() == EntryState::TablePointer,
            entry@.address == 0,
            entry@.management == PageManagement::Manual,
            !entry@.global && !entry@.user_accessible && !entry@.accessed && !entry@.dirty,
    {
        proof {
            lemma_fixed_cells(0);
        }
        PageTableEntry(PTE_V)
    }

    /// An invalid entry: the all-zero cell.
    pub fn new_invalid() -> (entry: Self)
        ensures
            entry.bits() == 0,
            entry@.state() == EntryState::Invalid,
            entry@.address == 0,
            entry@.management == PageManagement::Manual,
            entry@.reclaim() == Reclaim::Nothing,
    {
        proof {
            lemma_fixed_cells(0);
        }
        PageTableEntry(0)
    }

    /// An entry that points to the child table in the page at `page_address`,
    /// a page that the caller took from the free pages for that purpose.
    pub fn new_page_table_ptr(page_address: u64) -> (entry: Self)
        requires
            encodable_address(page_address),
        ensures
            entry.bits() == with_address(PTE_V, page_address),
            entry@.state() == EntryState::TablePointer,
            entry@.address == page_address,
            entry@.reclaim() == Reclaim::ChildTable(page_address),
    {
        let mut entry = Self::new();
        entry.set_table_address(page_address);
        proof {
            lemma_fixed_cells(0);
            lemma_clear_reserved(PTE_V);
            lemma_address_update(PTE_V, page_address);
            assert(PTE_V & !PTE_RESERVED == PTE_V) by (bit_vector);
        }
        entry
    }

    /// An entry with the given raw cell, as read from a table in memory.
    pub fn from_bits(bits: u64) -> (entry: Self)
        ensures
            entry.bits() == bits,
    {
        PageTableEntry(bits)
    }

    /// The raw cell, as the hardware reads it.
    pub fn to_bits(&self) -> (bits: u64)
        ensures
            bits == self.bits(),
    {
        self.0
    }

    /// Turns an entry that is not valid into a valid one: sets the Valid bit
    /// and clears the reserved bits.
    pub fn set_valid(&mut self)
        requires
            !(old(self)@.valid && old(self)@.reserved == 0),
        ensures
            final(self).bits() == (old(self).bits() | PTE_V) & !PTE_RESERVED,
            final(self)@ == (EntryView { valid: true, reserved: 0, ..old(self)@ }),
    {
        proof {
            lemma_flag_update(self.0, PTE_V, true);
            lemma_clear_reserved(self.0 | PTE_V);
        }
        self.0 = self.0 | PTE_V;
        self.0 = self.0 & !PTE_RESERVED;
    }

    /// Whether the entry is in use: Valid set and no reserved bit set.
    pub fn is_valid(&self) -> (valid: bool)
        ensures
            valid == (self@.valid && self@.reserved == 0),
            valid == (self@.state() == EntryState::TablePointer || self@.state()
                == EntryState::Leaf),
    {
        (self.0 & PTE_V) != 0 && (self.0 & PTE_RESERVED) == 0
    }

    /// Clears the whole cell and says what the entry owned, which the caller
    /// has to give back: a child table with all below it, or a page that the
    /// table managed itself.
    pub fn set_invalid(&mut self) -> (reclaim: Reclaim)
        ensures
            final(self).bits() == 0,
            final(self)@.state() == EntryState::Invalid,
            reclaim == old(self)@.reclaim(),
            reclaim matches Reclaim::Page(frame) ==> encodable_address(frame) && frame != 0,
            reclaim matches Reclaim::ChildTable(frame) ==> encodable_address(frame),
    {
        proof {
            lemma_fixed_cells(0);
            lemma_fixed_cells(self.0);
        }
        let reclaim = if self.is_page_table_ptr() {
            Reclaim::ChildTable(self.get_table_address())
        } else if self.is_leaf() && self.get_page_management() == PageManagement::Automatic
            && self.get_physical_address() != 0 {
            Reclaim::Page(self.get_physical_address())
        } else {
            Reclaim::Nothing
        };
        self.0 = 0;
        reclaim
    }

    /// Whether the entry points to a child table.
    pub fn is_page_table_ptr(&self) -> (pointer: bool)
        ensures
            pointer == (self@.state() == EntryState::TablePointer),
    {
        if self.0 & PTE_V == 0 || self.0 & PTE_RESERVED != 0 {
            return false;
        }
        self.0 & PTE_R == 0 && self.0 & PTE_W == 0 && self.0 & PTE_X == 0
    }

    /// Whether the entry maps a page.
    pub fn is_leaf(&self) -> (leaf: bool)
        ensures
            leaf == (self@.state() == EntryState::Leaf),
    {
        self.is_valid() && !self.is_page_table_ptr()
    }

    /// Records in the software bits who gives the page back.
    pub fn set_page_management(&mut self, page_management: PageManagement)
        ensures
            final(self).bits() == with_management(
                old(self).bits(),
                management_code(page_management),
            ),
            final(self)@ == (EntryView { management: page_management, ..old(self)@ }),
    {
        let code: u64 = match page_management {
            PageManagement::Manual => 0,
            PageManagement::Automatic => 1,
            PageManagement::CopyOnWrite => 2,
            PageManagement::CowOwner => 3,
        };
        proof {
            lemma_management_update(self.0, code);
        }
        self.0 = self.0 & !PTE_RSW;
        self.0 = self.0 | (PTE_RSW & (code << 8));
    }

    /// Who gives the page back.
    pub fn get_page_management(&self) -> (management: PageManagement)
        ensures
            management == self@.management,
    {
        let code = (self.0 & PTE_RSW) >> 8;
        if code == 0 {
            PageManagement::Manual
        } else if code == 1 {
            PageManagement::Automatic
        } else if code == 2 {
            PageManagement::CopyOnWrite
        } else {
            PageManagement::CowOwner
        }
    }

    /// The physical address of the child table. Only a table pointer has one.
    pub fn get_table_address(&self) -> (address: u64)
        requires
            self@.state() == EntryState::TablePointer,
        ensures
            address == self@.address,
            encodable_address(address),
    {
        proof {
            lemma_fixed_cells(self.0);
        }
        ((self.0 & PTE_PPN) >> 10) << 12
    }

    /// Points the entry at the child table in the page at `address`, and
    /// clears the reserved bits.
    pub fn set_table_address(&mut self, address: u64)
        requires
            encodable_address(address),
        ensures
            final(self).bits() == with_address(old(self).bits() & !PTE_RESERVED, address),
            final(self)@ == (EntryView { address: address, reserved: 0, ..old(self)@ }),
    {
        proof {
            lemma_clear_reserved(self.0);
            lemma_address_update(self.0 & !PTE_RESERVED, address);
        }
        let page_number = address >> 12;
        self.0 = self.0 & !PTE_RESERVED;
        self.0 = self.0 & !PTE_PPN;
        self.0 = self.0 | ((page_number << 10) & PTE_PPN);
    }

    /// Stores the page number of the page at `physical_address`.
    pub fn set_physical_address(&mut self, physical_address: u64)
        requires
            encodable_address(physical_address),
        ensures
            final(self).bits() == with_address(old(self).bits(), physical_address),
            final(self)@ == (EntryView { address: physical_address, ..old(self)@ }),
    {
        proof {
            lemma_address_update(self.0, physical_address);
        }
        let page_number = physical_address >> 12;
        self.0 = self.0 & !PTE_PPN;
        self.0 = self.0 | ((page_number << 10) & PTE_PPN);
    }

    /// The physical address of the mapped page. A table pointer has none.
    pub fn get_physical_address(&self) -> (address: u64)
        requires
            self@.state() != EntryState::TablePointer,
        ensures
            address == self@.address,
            encodable_address(address),
    {
        proof {
            lemma_fixed_cells(self.0);
        }
        let page_number = (self.0 & PTE_PPN) >> 10;
        page_number << 12
    }

    /// Whether the page has been written to.
    pub fn is_dirty(&self) -> (dirty: bool)
        ensures
            dirty == self@.dirty,
    {
        (self.0 & PTE_D) != 0
    }

    /// Clears the Dirty bit.
    pub fn clear_dirty(&mut self)
        ensures
            final(self).bits() == with_flag(old(self).bits(), PTE_D, false),
            final(self)@ == (EntryView { dirty: false, ..old(self)@ }),
    {
        proof {
            lemma_flag_update(self.0, PTE_D, false);
        }
        self.0 = self.0 & !PTE_D;
    }

    /// Whether the page has been read or written.
    pub fn is_accessed(&self) -> (accessed: bool)
        ensures
            accessed == self@.accessed,
    {
        (self.0 & PTE_A) != 0
    }

    /// Clears the Accessed bit.
    pub fn clear_accessed(&mut self)
        ensures
            final(self).bits() == with_flag(old(self).bits(), PTE_A, false),
            final(self)@ == (EntryView { accessed: false, ..old(self)@ }),
    {
        proof {
            lemma_flag_update(self.0, PTE_A, false);
        }
        self.0 = self.0 & !PTE_A;
    }

    /// Sets or clears the Global bit.
    pub fn set_global(&mut self, global: bool)
        ensures
            final(self).bits() == with_flag(old(self).bits(), PTE_G, global),
            final(self)@ == (EntryView { global: global, ..old(self)@ }),
    {
        proof {
            lemma_flag_update(self.0, PTE_G, global);
        }
        if global {
            self.0 = self.0 | PTE_G;
        } else {
            self.0 = self.0 & !PTE_G;
        }
    }

    /// Whether the mapping is shared by all address spaces.
    pub fn is_global(&self) -> (global: bool)
        ensures
            global == self@.global,
    {
        (self.0 & PTE_G) != 0
    }

    /// Sets or clears the User bit.
    pub fn set_user_accessible(&mut self, user_accessible: bool)
        ensures
            final(self).bits() == with_flag(old(self).bits(), PTE_U, user_accessible),
            final(self)@ == (EntryView { user_accessible: user_accessible, ..old(self)@ }),
    {
        proof {
            lemma_flag_update(self.0, PTE_U, user_accessible);
        }
        if user_accessible {
            self.0 = self.0 | PTE_U;
        } else {
            self.0 = self.0 & !PTE_U;
        }
    }

    /// Whether user mode can reach the page.
    pub fn is_user_accessible(&self) -> (user_accessible: bool)
        ensures
            user_accessible == self@.user_accessible,
    {
        (self.0 & PTE_U) != 0
    }

    /// Sets or clears the Read bit.
    pub fn set_readable(&mut self, readable: bool)
        ensures
            final(self).bits() == with_flag(old(self).bits(), PTE_R, readable),
            final(self)@ == (EntryView { readable: readable, ..old(self)@ }),
    {
        proof {
            lemma_flag_update(self.0, PTE_R, readable);
        }
        if readable {
            self.0 = self.0 | PTE_R;
        } else {
            self.0 = self.0 & !PTE_R;
        }
    }

    /// Whether the page can be read.
    pub fn is_readable(&self) -> (readable: bool)
        ensures
            readable == self@.readable,
    {
        (self.0 & PTE_R) != 0
    }

    /// Sets or clears the Write bit.
    pub fn set_writable(&mut self, writable: bool)
        ensures
            final(self).bits() == with_flag(old(self).bits(), PTE_W, writable),
            final(self)@ == (EntryView { writable: writable, ..old(self)@ }),
    {
        proof {
            lemma_flag_update(self.0, PTE_W, writable);
        }
        if writable {
            self.0 = self.0 | PTE_W;
        } else {
            self.0 = self.0 & !PTE_W;
        }
    }

    /// Whether the page can be written.
    pub fn is_writable(&self) -> (writable: bool)
        ensures
            writable == self@.writable,
    {
        (self.0 & PTE_W) != 0
    }

    /// Sets or clears the Execute bit.
    pub fn set_executable(&mut self, executable: bool)
        ensures
            final(self).bits() == with_flag(old(self).bits(), PTE_X, executable),
            final(self)@ == (EntryView { executable: executable, ..old(self)@ }),
    {
        proof {
            lemma_flag_update(self.0, PTE_X, executable);
        }
        if executable {
            self.0 = self.0 | PTE_X;
        } else {
            self.0 = self.0 & !PTE_X;
        }
    }

    /// Whether instructions can be fetched from the page.
    pub fn is_executable(&self) -> (executable: bool)
        ensures
            executable == self@.executable,
    {
        (self.0 & PTE_X) != 0
    }
}

impl Default for PageTableEntry {
    /// The invalid entry.
    fn default() -> (entry: Self)
        ensures
            entry.bits() == 0,
    {
        Self::new_invalid()
    }
}

} // verus!
