//! The SV39 page table: a tree of 512-entry tables, three levels deep, that
//! maps 4 KiB pages.
//!
//! A table owns the child tables that its entries point to. The page that a
//! child table takes up comes from the free pages and goes back to them when
//! the entry that points to it is invalidated.

use vstd::prelude::*;
use crate::arch::mmu::PHYSICAL_ADDRESS_LIMIT;
use crate::arch::mmu::page_table_entry::EntryState;
use crate::arch::mmu::page_table_entry::EntryView;
use crate::arch::mmu::page_table_entry::PageManagement;
use crate::arch::mmu::page_table_entry::PageTableEntry;
use crate::arch::mmu::page_table_entry::Reclaim;
use crate::arch::mmu::page_table_entry::encodable_address;
use crate::arch::mmu::virtual_address::VirtualAddress;
use crate::arch::mmu::virtual_address::lemma_low_bits;
use crate::arch::mmu::virtual_address::lemma_page_number;
use crate::arch::mmu::virtual_address::page_number;
use crate::arch::mmu::virtual_address::offset_of;
use crate::arch::mmu::virtual_address::vpn_of;
use crate::memory::mmu::free_page_list::FreePageList;
use crate::memory::mmu::free_page_list::add_free_page;
use crate::memory::mmu::free_page_list::remove_free_page;
use crate::memory::mmu::page_box::PageBoxable;
use crate::memory::mmu::permissions::Permissions;

verus! {

/// The number of entries in a table.
pub const PAGE_TABLE_SIZE: usize = 512;

/// The number of tables that a translation passes through.
pub const MAX_TABLE_INDIRECTIONS: usize = 3;

/// The level of the root table; the tables of leaves are at level 0.
pub const ROOT_LEVEL: usize = 2;

/// Why a page-table operation did not succeed.
#[derive(Clone, Copy, PartialEq, Eq, Structural, Debug)]
pub enum PageTableError {
    /// An address is not a multiple of the page size.
    UnalignedAddress,
    /// The physical address is zero.
    NullAddress,
    /// The virtual page is mapped already.
    AlreadyMapped,
    /// The virtual page is not mapped.
    NotMapped,
    /// The walk came to an entry that is not in use before it reached the
    /// table of leaves.
    IntermediateInvalid,
    /// The walk came to a leaf before it reached the table of leaves: the
    /// address is mapped with a larger page size.
    IntermediateMistyped,
    /// A table had to be made and no page was free.
    OutOfMemory,
}

/// What a virtual page is mapped to.
#[derive(Clone, Copy, PartialEq, Eq, Structural, Debug)]
pub struct Mapping {
    /// Physical address of the page.
    pub physical_address: u64,
    /// The access rights.
    pub permissions: Permissions,
    /// Who gives the page back.
    pub management: PageManagement,
}

/// The fields of the leaf that maps a page at `physical_address`.
pub open spec fn leaf_view(
    physical_address: u64,
    permissions: Permissions,
    management: PageManagement,
) -> EntryView {
    EntryView {
        valid: true,
        readable: permissions.readable,
        writable: permissions.writable,
        executable: permissions.executable,
        user_accessible: permissions.user_accessible,
        global: permissions.globally_accessible,
        accessed: false,
        dirty: false,
        management: management,
        address: physical_address,
        reserved: 0,
    }
}

/// The mapping that an entry stands for, where it is a leaf.
pub open spec fn mapping_of(entry: EntryView) -> Option<Mapping> {
    if entry.state() == EntryState::Leaf {
        Some(
            Mapping {
                physical_address: entry.address,
                permissions: Permissions {
                    readable: entry.readable,
                    writable: entry.writable,
                    executable: entry.executable,
                    user_accessible: entry.user_accessible,
                    globally_accessible: entry.global,
                },
                management: entry.management,
            },
        )
    } else {
        None
    }
}

/// Whether two virtual addresses select the same entry in a table of the
/// given level and in every table below it.
pub open spec fn same_slot(level: nat, a: u64, b: u64) -> bool {
    forall|k: int| 0 <= k <= level ==> vpn_of(a, k) == vpn_of(b, k)
}

/// Whether every free frame can be named by a page-table entry.
pub open spec fn frames_encodable(pool: &FreePageList) -> bool {
    forall|i: int| 0 <= i < pool@.len() ==> #[trigger] pool@[i] < PHYSICAL_ADDRESS_LIMIT
}

/// One table of the tree.
pub struct PageTable {
    entries: Vec<PageTableEntry>,
    children: Vec<Option<Box<PageTable>>>,
}

impl PageTable {
    /// What holds of one entry of a table at `level`: no reserved bit is
    /// set; an entry that is not valid is all zero; the entry has a child
    /// table exactly if it is a table pointer; a table of leaves holds no
    /// table pointer, and only a table of leaves holds leaves, since every
    /// page that is mapped here is a 4 KiB page.
    pub closed spec fn slot_ok(&self, level: nat, i: int) -> bool {
        let entry = self.entries[i];
        &&& entry@.reserved == 0
        &&& !entry@.valid ==> entry.bits() == 0
        &&& self.children[i].is_some() <==> (level > 0 && entry@.state()
            == EntryState::TablePointer)
        &&& level == 0 ==> entry@.state() != EntryState::TablePointer
        &&& level > 0 ==> entry@.state() != EntryState::Leaf
    }

    /// What holds of every table of the tree: it has 512 entries, each as
    /// `slot_ok` says, and each child table is well formed one level below.
    pub closed spec fn wf(&self, level: nat) -> bool
        decreases level,
    {
        &&& self.entries.len() == 512
        &&& self.children.len() == 512
        &&& forall|i: int| 0 <= i < 512 ==> #[trigger] self.slot_ok(level, i)
        &&& forall|i: int|
            0 <= i < 512 ==> ((#[trigger] self.children[i]).is_some() ==> level > 0
                && self.children[i].unwrap().wf((level - 1) as nat))
    }

    /// The entry that the walk for `address` ends at, from this table at
    /// `level` down to the table of leaves; or the reason why the walk
    /// stops before.
    pub closed spec fn lookup(&self, level: nat, address: u64) -> Result<EntryView, PageTableError>
        decreases level,
    {
        let index = vpn_of(address, level as int);
        let entry = self.entries[index]@;
        if level == 0 {
            Ok(entry)
        } else if self.children[index].is_some() {
            self.children[index].unwrap().lookup((level - 1) as nat, address)
        } else if entry.state() == EntryState::Leaf {
            Err(PageTableError::IntermediateMistyped)
        } else {
            Err(PageTableError::IntermediateInvalid)
        }
    }

    /// The number of tables that have to be made before `address` can be
    /// mapped: one for each level below the entry at which the walk finds
    /// nothing.
    pub closed spec fn missing(&self, level: nat, address: u64) -> nat
        decreases level,
    {
        let index = vpn_of(address, level as int);
        if level == 0 {
            0
        } else if self.children[index].is_some() {
            self.children[index].unwrap().missing((level - 1) as nat, address)
        } else {
            level
        }
    }

    /// What the page of `address` is mapped to, if it is mapped.
    pub open spec fn mapping(&self, level: nat, address: u64) -> Option<Mapping> {
        match self.lookup(level, address) {
            Ok(entry) => mapping_of(entry),
            Err(_) => None,
        }
    }

    /// What a translation of `address` gives: the physical address of the
    /// page plus the offset within it, or the reason why there is none.
    pub open spec fn translate(&self, level: nat, address: u64) -> Result<u64, PageTableError> {
        match self.lookup(level, address) {
            Ok(entry) => if entry.state() == EntryState::Leaf {
                Ok((entry.address + offset_of(address)) as u64)
            } else {
                Err(PageTableError::NotMapped)
            },
            Err(e) => Err(e),
        }
    }

    /// What mapping the page of `address` answers when `free` frames are
    /// free: success, or the error.
    pub open spec fn map_outcome(&self, level: nat, address: u64, free: nat) -> Result<
        (),
        PageTableError,
    > {
        match self.lookup(level, address) {
            Ok(entry) => if entry.valid {
                Err(PageTableError::AlreadyMapped)
            } else {
                Ok(())
            },
            Err(PageTableError::IntermediateMistyped) => Err(PageTableError::IntermediateMistyped),
            Err(_) => if free >= self.missing(level, address) {
                Ok(())
            } else {
                Err(PageTableError::OutOfMemory)
            },
        }
    }

    /// What unmapping the page of `address` answers: the address of the
    /// page where the mapper manages it, nothing where the table or a
    /// sharer does, or the error.
    pub open spec fn unmap_outcome(&self, level: nat, address: u64) -> Result<
        Option<u64>,
        PageTableError,
    > {
        match self.lookup(level, address) {
            Ok(entry) => if entry.state() == EntryState::Leaf {
                if entry.management == PageManagement::Manual {
                    Ok(Some(entry.address))
                } else {
                    Ok(None)
                }
            } else {
                Err(PageTableError::NotMapped)
            },
            Err(e) => Err(e),
        }
    }

    /// The frame that unmapping the page of `address` returns to the free
    /// pages: that of a page which the table manages itself.
    pub open spec fn unmap_reclaim(&self, level: nat, address: u64) -> Option<u64> {
        match self.lookup(level, address) {
            Ok(entry) => match entry.reclaim() {
                Reclaim::Page(frame) => Some(frame),
                _ => None,
            },
            Err(_) => None,
        }
    }

    /// Whether every entry of the table is the all-zero cell and no entry
    /// has a child table.
    pub closed spec fn is_blank(&self) -> bool {
        &&& self.entries.len() == 512
        &&& self.children.len() == 512
        &&& forall|k: int| 0 <= k < 512 ==> (#[trigger] self.entries[k]).bits() == 0
        &&& forall|k: int| 0 <= k < 512 ==> (#[trigger] self.children[k]).is_none()
    }

    /// A blank table is well formed at every level and maps nothing: a walk
    /// ends at an invalid entry in a table of leaves, and finds a table
    /// missing above; and it owns no frame.
    pub proof fn lemma_blank(&self)
        requires
            self.is_blank(),
        ensures
            forall|level: nat| #[trigger] self.wf(level),
            forall|level: nat, address: u64|
                #[trigger] self.lookup(level, address) == if level == 0 {
                    Ok::<EntryView, PageTableError>(PageTableEntry::invalid_view())
                } else {
                    Err::<EntryView, PageTableError>(PageTableError::IntermediateInvalid)
                },
            forall|level: nat, address: u64| #[trigger] self.missing(level, address) == level,
            forall|level: nat, address: u64| #[trigger] self.mapping(level, address) is None,
    {
        PageTableEntry::lemma_invalid_view();
        assert forall|level: nat| #[trigger] self.wf(level) by {
            assert forall|k: int| 0 <= k < 512 implies #[trigger] self.slot_ok(level, k) by {
                assert(self.entries[k].bits() == 0);
                assert(self.children[k].is_none());
            }
        }
        assert forall|level: nat, address: u64|
            #[trigger] self.lookup(level, address) == if level == 0 {
                Ok::<EntryView, PageTableError>(PageTableEntry::invalid_view())
            } else {
                Err::<EntryView, PageTableError>(PageTableError::IntermediateInvalid)
            } by {
            let index = vpn_of(address, level as int);
            assert(self.entries[index].bits() == 0);
            assert(self.children[index].is_none());
        }
        assert forall|level: nat, address: u64| #[trigger]
            self.missing(level, address) == level by {
            let index = vpn_of(address, level as int);
            assert(self.children[index].is_none());
        }
    }

    /// The table in the freshly allocated page at `page_address`, with
    /// every entry invalid. It maps nothing, at whatever level it is used.
    pub fn from_physical_address(page_address: u64) -> (table: Self)
        requires
            page_address % 4096 == 0,
        ensures
            table.is_blank(),
            forall|level: nat| #[trigger] table.wf(level),
            forall|level: nat, address: u64|
                #[trigger] table.lookup(level, address) == if level == 0 {
                    Ok::<EntryView, PageTableError>(PageTableEntry::invalid_view())
                } else {
                    Err::<EntryView, PageTableError>(PageTableError::IntermediateInvalid)
                },
            forall|level: nat, address: u64| #[trigger] table.missing(level, address) == level,
    {
        let mut entries: Vec<PageTableEntry> = Vec::new();
        let mut children: Vec<Option<Box<PageTable>>> = Vec::new();
        let mut i: usize = 0;
        while i < PAGE_TABLE_SIZE
            invariant
                i <= 512,
                entries.len() == i,
                children.len() == i,
                forall|k: int| 0 <= k < i ==> (#[trigger] entries[k]).bits() == 0,
                forall|k: int| 0 <= k < i ==> (#[trigger] children[k]).is_none(),
            decreases 512 - i,
        {
            entries.push(PageTableEntry::new_invalid());
            children.push(None);
            i += 1;
        }
        let table = PageTable { entries, children };
        proof {
            table.lemma_blank();
        }
        table
    }

    /// The entry that the walk for `virtual_address` ends at, from this
    /// table at `level` down to the table of leaves.
    pub fn look_up_page_entry(&self, level: usize, virtual_address: &VirtualAddress) -> (result:
        Result<PageTableEntry, PageTableError>)
        requires
            self.wf(level as nat),
            level <= 2,
        ensures
            match (result, self.lookup(level as nat, virtual_address@)) {
                (Ok(entry), Ok(view)) => entry@ == view && view.reserved == 0 && view.state()
                    != EntryState::TablePointer,
                (Err(e), Err(expected)) => e == expected,
                _ => false,
            },
        decreases level,
    {
        let index = virtual_address.get_vpn(level);
        let entry = self.entries[index];
        assert(self.slot_ok(level as nat, index as int));
        if level == 0 {
            return Ok(entry);
        }
        if entry.is_valid() {
            if !entry.is_page_table_ptr() {
                return Err(PageTableError::IntermediateMistyped);
            }
            assert(self.children[index as int].is_some());
            match &self.children[index] {
                Some(child) => child.look_up_page_entry(level - 1, virtual_address),
                None => Err(PageTableError::IntermediateInvalid),
            }
        } else {
            Err(PageTableError::IntermediateInvalid)
        }
    }

    /// Maps the page at `virtual_address` to the page at
    /// `physical_address`. Both addresses must be page-aligned and the
    /// physical address not zero. Tables that the walk needs and does not
    /// find are made, each in a page taken from the free pages. A page that
    /// is mapped already, or that lies within a larger mapped page, is left
    /// as it is.
    ///
    /// The permissions must grant at least one of read, write and execute:
    /// an entry that grants none is a pointer to a table. The physical
    /// address must fit the 44 bits of a page number.
    pub fn map_page(
        &mut self,
        pool: &mut FreePageList,
        virtual_address: u64,
        physical_address: u64,
        permissions: Permissions,
        page_management: PageManagement,
    ) -> (result: Result<(), PageTableError>)
        requires
            old(self).wf(2),
            old(pool).wf(),
            frames_encodable(old(pool)),
            physical_address < PHYSICAL_ADDRESS_LIMIT,
            permissions.grants_access(),
        ensures
            final(self).wf(2),
            final(pool).wf(),
            frames_encodable(final(pool)),
            result == if virtual_address % 4096 != 0 || physical_address % 4096 != 0 {
                Err(PageTableError::UnalignedAddress)
            } else if physical_address == 0 {
                Err(PageTableError::NullAddress)
            } else {
                old(self).map_outcome(2, virtual_address, old(pool)@.len())
            },
            result is Ok ==> {
                &&& final(self).lookup(2, virtual_address) == Ok::<EntryView, PageTableError>(
                    leaf_view(physical_address, permissions, page_management),
                )
                &&& final(self).translate(2, virtual_address) == Ok::<u64, PageTableError>(
                    physical_address,
                )
                &&& final(pool)@ == old(pool)@.subrange(
                    old(self).missing(2, virtual_address) as int,
                    old(pool)@.len() as int,
                )
                &&& forall|other: u64|
                    !same_slot(2, virtual_address, other) ==> #[trigger] final(self).mapping(
                        2,
                        other,
                    ) == old(self).mapping(2, other)
            },
            result is Err ==> forall|other: u64|
                #[trigger] final(self).mapping(2, other) == old(self).mapping(2, other),
            result == Err::<(), PageTableError>(PageTableError::OutOfMemory) ==> final(pool)@.len()
                == 0,
            result is Err && result != Err::<(), PageTableError>(PageTableError::OutOfMemory)
                ==> final(pool)@ == old(pool)@,
            forall|frame: u64| final(pool).contains(frame) ==> old(pool).contains(frame),
    {
        let address = VirtualAddress::truncate(virtual_address);
        if address.get_offset() != 0 {
            return Err(PageTableError::UnalignedAddress);
        }
        if physical_address % 4096 != 0 {
            return Err(PageTableError::UnalignedAddress);
        }
        if physical_address == 0 {
            return Err(PageTableError::NullAddress);
        }
        proof {
            self.lemma_truncated(2, virtual_address);
        }
        let ghost before = *self;
        let result = self.map_at(
            ROOT_LEVEL,
            pool,
            &address,
            physical_address,
            permissions,
            page_management,
        );
        proof {
            before.lemma_walk(2, address@);
            assert forall|frame: u64| pool.contains(frame) implies old(pool).contains(frame) by {
                if result is Ok {
                    let k = before.missing(2, address@) as int;
                    let i = choose|i: int| 0 <= i < pool@.len() && pool@[i] == frame;
                    assert(old(pool)@[k + i] == frame);
                } else if result == Err::<(), PageTableError>(PageTableError::OutOfMemory) {
                    assert(pool@.len() == 0);
                }
            }
            self.lemma_truncated(2, virtual_address);
            assert forall|other: u64| #[trigger]
                self.mapping(2, other) == self.mapping(2, (other % 0x80_0000_0000) as u64) by {
                self.lemma_truncated(2, other);
            }
            assert forall|other: u64| #[trigger]
                before.mapping(2, other) == before.mapping(2, (other % 0x80_0000_0000) as u64) by {
                before.lemma_truncated(2, other);
            }
            if result is Ok {
                assert forall|other: u64|
                    !same_slot(2, virtual_address, other) implies #[trigger] self.mapping(2, other)
                    == before.mapping(2, other) by {
                    lemma_slot_of_truncated(virtual_address, other);
                    let low = (other % 0x80_0000_0000) as u64;
                    assert(self.mapping(2, other) == self.mapping(2, low));
                    assert(before.mapping(2, other) == before.mapping(2, low));
                    assert(!same_slot(2, address@, low));
                    assert(self.mapping(2, low) == before.mapping(2, low));
                }
            } else {
                assert forall|other: u64| #[trigger]
                    self.mapping(2, other) == before.mapping(2, other) by {
                    let low = (other % 0x80_0000_0000) as u64;
                    assert(self.mapping(2, other) == self.mapping(2, low));
                    assert(before.mapping(2, other) == before.mapping(2, low));
                    assert(self.mapping(2, low) == before.mapping(2, low));
                }
            }
        }
        result
    }

    /// What a walk through a well-formed table can end in: an entry that
    /// is a leaf or not valid, or the finding that a table is missing. A
    /// mapping needs no more tables made than there are levels below.
    pub proof fn lemma_walk(&self, level: nat, address: u64)
        requires
            self.wf(level),
            level <= 2,
        ensures
            self.lookup(level, address) matches Ok(entry) ==> entry.reserved == 0 && entry.state()
                != EntryState::TablePointer && (entry.valid <==> mapping_of(entry) is Some)
                && encodable_address(entry.address),
            self.lookup(level, address) matches Err(e) ==> e
                == PageTableError::IntermediateInvalid,
            self.lookup(level, address) is Ok <==> self.missing(level, address) == 0,
            self.missing(level, address) <= level,
        decreases level,
    {
        let index = vpn_of(address, level as int);
        assert(self.slot_ok(level, index));
        self.entries[index].lemma_address_shape();
        if level > 0 && self.children[index].is_some() {
            self.children[index].unwrap().lemma_walk((level - 1) as nat, address);
        }
    }

    /// Where the walk for one address reaches an entry, the tables that
    /// it went through are there for its neighbours too: an address with
    /// the same page number at the root needs one table at most, and one
    /// with the same page number at the level below needs none.
    pub proof fn lemma_missing_near(&self, a: u64, b: u64)
        requires
            self.wf(2),
            self.lookup(2, a) is Ok,
        ensures
            vpn_of(a, 2) == vpn_of(b, 2) ==> self.missing(2, b) <= 1,
            vpn_of(a, 2) == vpn_of(b, 2) && vpn_of(a, 1) == vpn_of(b, 1) ==> self.missing(2, b)
                == 0,
    {
        reveal_with_fuel(PageTable::lookup, 3);
        reveal_with_fuel(PageTable::missing, 3);
        reveal_with_fuel(PageTable::wf, 3);
        let root = vpn_of(a, 2);
        crate::arch::mmu::virtual_address::lemma_address_parts(a);
        crate::arch::mmu::virtual_address::lemma_address_parts(b);
        assert(self.children[root].is_some());
        let child = self.children[root].unwrap();
        assert(child.wf(1));
        child.lemma_walk(1, b);
        let middle = vpn_of(a, 1);
        assert(child.lookup(1, a) is Ok);
        assert(child.children[middle].is_some());
    }

    /// A page that is mapped cannot be mapped again, however many frames
    /// are free; and unmapping it hands the page back where the mapper
    /// manages it.
    pub proof fn lemma_mapped_page(
        &self,
        address: u64,
        physical_address: u64,
        permissions: Permissions,
        management: PageManagement,
    )
        requires
            self.lookup(2, address) == Ok::<EntryView, PageTableError>(
                leaf_view(physical_address, permissions, management),
            ),
            permissions.grants_access(),
        ensures
            forall|free: nat| #[trigger]
                self.map_outcome(2, address, free) == Err::<(), PageTableError>(
                    PageTableError::AlreadyMapped,
                ),
            self.translate(2, address) == Ok::<u64, PageTableError>(
                (physical_address + offset_of(address)) as u64,
            ),
            self.mapping(2, address) == Some(
                Mapping {
                    physical_address: physical_address,
                    permissions: permissions,
                    management: management,
                },
            ),
            self.unmap_outcome(2, address) == Ok::<Option<u64>, PageTableError>(
                if management == PageManagement::Manual {
                    Some(physical_address)
                } else {
                    None
                },
            ),
    {
    }

    /// The walk looks at the page numbers of an address only: addresses of
    /// one page are treated alike.
    pub proof fn lemma_same_slot_lookup(&self, level: nat, a: u64, b: u64)
        requires
            level <= 2,
            same_slot(level, a, b),
        ensures
            self.lookup(level, a) == self.lookup(level, b),
            self.missing(level, a) == self.missing(level, b),
            self.mapping(level, a) == self.mapping(level, b),
        decreases level,
    {
        assert(vpn_of(a, level as int) == vpn_of(b, level as int));
        let index = vpn_of(a, level as int);
        if level > 0 && self.children[index].is_some() {
            assert(same_slot((level - 1) as nat, a, b)) by {
                assert forall|k: int| 0 <= k <= level - 1 implies vpn_of(a, k) == vpn_of(b, k) by {
                    assert(0 <= k <= level);
                }
            }
            self.children[index].unwrap().lemma_same_slot_lookup((level - 1) as nat, a, b);
        }
    }

    /// The walk looks at the low 39 bits of an address only.
    pub proof fn lemma_truncated(&self, level: nat, address: u64)
        requires
            level <= 2,
        ensures
            self.lookup(level, address) == self.lookup(level, (address % 0x80_0000_0000) as u64),
            self.missing(level, address) == self.missing(level, (address % 0x80_0000_0000) as u64),
            offset_of(address) == offset_of((address % 0x80_0000_0000) as u64),
        decreases level,
    {
        let low = (address % 0x80_0000_0000) as u64;
        lemma_vpn_of_truncated(address);
        let index = vpn_of(address, level as int);
        if level > 0 && self.children[index].is_some() {
            self.children[index].unwrap().lemma_truncated((level - 1) as nat, address);
        }
    }

    /// Maps a page from this table at `level` down.
    fn map_at(
        &mut self,
        level: usize,
        pool: &mut FreePageList,
        virtual_address: &VirtualAddress,
        physical_address: u64,
        permissions: Permissions,
        page_management: PageManagement,
    ) -> (result: Result<(), PageTableError>)
        requires
            old(self).wf(level as nat),
            level <= 2,
            old(pool).wf(),
            frames_encodable(old(pool)),
            encodable_address(physical_address),
            permissions.grants_access(),
        ensures
            final(self).wf(level as nat),
            final(pool).wf(),
            frames_encodable(final(pool)),
            result == old(self).map_outcome(level as nat, virtual_address@, old(pool)@.len()),
            result is Ok ==> {
                &&& final(self).lookup(level as nat, virtual_address@) == Ok::<
                    EntryView,
                    PageTableError,
                >(leaf_view(physical_address, permissions, page_management))
                &&& final(pool)@ == old(pool)@.subrange(
                    old(self).missing(level as nat, virtual_address@) as int,
                    old(pool)@.len() as int,
                )
                &&& forall|other: u64|
                    !same_slot(level as nat, virtual_address@, other) ==> #[trigger] final(self).mapping(level as nat, other) == old(self).mapping(level as nat, other)
            },
            result is Err ==> forall|other: u64|
                #[trigger] final(self).mapping(level as nat, other) == old(self).mapping(
                    level as nat,
                    other,
                ),
            result == Err::<(), PageTableError>(PageTableError::OutOfMemory) ==> final(pool)@.len()
                == 0,
            result is Err && result != Err::<(), PageTableError>(PageTableError::OutOfMemory)
                ==> final(pool)@ == old(pool)@,
        decreases level,
    {
        let ghost before = *self;
        let ghost va = virtual_address@;
        let index = virtual_address.get_vpn(level);
        let entry = self.entries[index];
        assert(self.slot_ok(level as nat, index as int));
        if level == 0 {
            if entry.is_valid() {
                return Err(PageTableError::AlreadyMapped);
            }
            let mut entry = entry;
            entry.set_valid();
            entry.clear_accessed();
            entry.clear_dirty();
            entry.set_global(permissions.globally_accessible);
            entry.set_user_accessible(permissions.user_accessible);
            entry.set_readable(permissions.readable);
            entry.set_writable(permissions.writable);
            entry.set_executable(permissions.executable);
            entry.set_page_management(page_management);
            entry.set_physical_address(physical_address);
            assert(entry@ == leaf_view(physical_address, permissions, page_management));
            self.entries[index] = entry;
            proof {
                assert(pool@ == pool@.subrange(0, pool@.len() as int));
                assert forall|k: int| 0 <= k < 512 implies #[trigger] self.slot_ok(0, k) by {
                    assert(before.slot_ok(0, k));
                }
                assert forall|other: u64| !same_slot(0, va, other) implies #[trigger] self.mapping(
                    0,
                    other,
                ) == before.mapping(0, other) by {
                    assert(vpn_of(va, 0) != vpn_of(other, 0));
                }
            }
            return Ok(());
        }
        let ghost created = !(entry@.valid && entry@.reserved == 0);
        let ghost start = *pool;
        if entry.is_valid() {
            if !entry.is_page_table_ptr() {
                return Err(PageTableError::IntermediateMistyped);
            }
        } else {
            match remove_free_page(pool) {
                None => {
                    return Err(PageTableError::OutOfMemory);
                },
                Some(table_address) => {
                    assert(start@[0] < PHYSICAL_ADDRESS_LIMIT);
                    self.entries[index] = PageTableEntry::new_page_table_ptr(table_address);
                    self.children[index] = Some(
                        Box::new(PageTable::from_physical_address(table_address)),
                    );
                },
            }
        }
        let ghost middle = *self;
        let ghost middle_pool = *pool;
        proof {
            assert forall|i: int| 0 <= i < middle_pool@.len() implies #[trigger] middle_pool@[i]
                < PHYSICAL_ADDRESS_LIMIT by {
                if created {
                    assert(middle_pool@[i] == start@[i + 1]);
                }
            }
            assert(middle.children[index as int].is_some());
            assert(middle.children[index as int].unwrap().wf((level - 1) as nat));
        }
        let mut child = self.children[index].take().unwrap();
        let ghost child_before = *child;
        let result = child.map_at(
            level - 1,
            pool,
            virtual_address,
            physical_address,
            permissions,
            page_management,
        );
        let ghost child_after = *child;
        self.children[index] = Some(child);
        proof {
            let l = level as nat;
            let below = (level - 1) as nat;
            assert(self.entries == middle.entries);
            assert forall|k: int| 0 <= k < 512 implies #[trigger] self.slot_ok(l, k) by {
                assert(before.slot_ok(l, k));
            }
            assert forall|k: int|
                0 <= k < 512 && (#[trigger] self.children[k]).is_some() implies l > 0
                && self.children[k].unwrap().wf(below) by {
                if k != index {
                    assert(self.children[k] == before.children[k]);
                }
            }
            assert(self.wf(l));
            // What the walk found before.
            if created {
                assert(before.lookup(l, va) == Err::<EntryView, PageTableError>(
                    PageTableError::IntermediateInvalid,
                ));
                assert(before.missing(l, va) == l);
                assert(child_before.missing(below, va) == below);
                assert(child_before.lookup(below, va) == if below == 0 {
                    Ok::<EntryView, PageTableError>(PageTableEntry::invalid_view())
                } else {
                    Err::<EntryView, PageTableError>(PageTableError::IntermediateInvalid)
                });
                PageTableEntry::lemma_invalid_view();
                assert(start@.len() >= 1);
                assert(middle_pool@ == start@.subrange(1, start@.len() as int));
                if result is Ok {
                    assert(pool@ == start@.subrange(l as int, start@.len() as int)) by {
                        assert(pool@ == middle_pool@.subrange(
                            below as int,
                            middle_pool@.len() as int,
                        ));
                    }
                }
            } else {
                assert(before.lookup(l, va) == child_before.lookup(below, va));
                assert(before.missing(l, va) == child_before.missing(below, va));
            }
            assert(self.lookup(l, va) == child_after.lookup(below, va));
            assert forall|other: u64|
                (result is Err || !same_slot(l, va, other)) implies #[trigger] self.mapping(
                l,
                other,
            ) == before.mapping(l, other) by {
                let other_index = vpn_of(other, level as int);
                if other_index == index {
                    assert(self.lookup(l, other) == child_after.lookup(below, other));
                    if result is Ok {
                        assert(!same_slot(below, va, other)) by {
                            if same_slot(below, va, other) {
                                assert forall|k: int| 0 <= k <= l implies vpn_of(va, k) == vpn_of(
                                    other,
                                    k,
                                ) by {
                                    if k < l {
                                        assert(0 <= k <= below);
                                    }
                                }
                            }
                        }
                    }
                    assert(child_after.mapping(below, other) == child_before.mapping(below, other));
                    if created {
                        assert(child_before.lookup(below, other) == if below == 0 {
                            Ok::<EntryView, PageTableError>(PageTableEntry::invalid_view())
                        } else {
                            Err::<EntryView, PageTableError>(PageTableError::IntermediateInvalid)
                        });
                        assert(before.lookup(l, other) == Err::<EntryView, PageTableError>(
                            PageTableError::IntermediateInvalid,
                        ));
                    } else {
                        assert(before.lookup(l, other) == child_before.lookup(below, other));
                    }
                } else {
                    assert(self.entries[other_index] == before.entries[other_index]);
                    assert(self.children[other_index] == before.children[other_index]);
                }
            }
        }
        result
    }

    /// Takes the mapping of the page at `virtual_address` out of the table.
    /// Where the mapper manages the page its physical address comes back;
    /// where the table manages it the page returns to the free pages, and
    /// where it is shared it is left alone.
    pub fn unmap_page(&mut self, pool: &mut FreePageList, virtual_address: u64) -> (result: Result<
        Option<u64>,
        PageTableError,
    >)
        requires
            old(self).wf(2),
            old(pool).wf(),
            frames_encodable(old(pool)),
        ensures
            final(self).wf(2),
            final(pool).wf(),
            frames_encodable(final(pool)),
            result == if virtual_address % 4096 != 0 {
                Err(PageTableError::UnalignedAddress)
            } else {
                old(self).unmap_outcome(2, virtual_address)
            },
            result is Ok ==> {
                &&& final(self).lookup(2, virtual_address) == Ok::<EntryView, PageTableError>(
                    PageTableEntry::invalid_view(),
                )
                &&& final(self).translate(2, virtual_address) == Err::<u64, PageTableError>(
                    PageTableError::NotMapped,
                )
                &&& forall|other: u64|
                    !same_slot(2, virtual_address, other) ==> #[trigger] final(self).mapping(
                        2,
                        other,
                    ) == old(self).mapping(2, other)
                &&& forall|frame: u64|
                    final(pool).contains(frame) <==> (old(pool).contains(frame) || old(self).unmap_reclaim(2, virtual_address) == Some(frame))
            },
            result is Err ==> final(pool)@ == old(pool)@ && forall|other: u64|
                #[trigger] final(self).mapping(2, other) == old(self).mapping(2, other),
            old(self).unmap_reclaim(2, virtual_address) is None ==> final(pool)@ == old(pool)@,
    {
        let address = VirtualAddress::truncate(virtual_address);
        if address.get_offset() != 0 {
            return Err(PageTableError::UnalignedAddress);
        }
        proof {
            self.lemma_truncated(2, virtual_address);
        }
        let ghost before = *self;
        let result = self.unmap_at(ROOT_LEVEL, pool, &address);
        proof {
            self.lemma_truncated(2, virtual_address);
            PageTableEntry::lemma_invalid_view();
            assert forall|other: u64| #[trigger]
                self.mapping(2, other) == self.mapping(2, (other % 0x80_0000_0000) as u64) by {
                self.lemma_truncated(2, other);
            }
            assert forall|other: u64| #[trigger]
                before.mapping(2, other) == before.mapping(2, (other % 0x80_0000_0000) as u64) by {
                before.lemma_truncated(2, other);
            }
            if result is Ok {
                assert forall|other: u64|
                    !same_slot(2, virtual_address, other) implies #[trigger] self.mapping(2, other)
                    == before.mapping(2, other) by {
                    lemma_slot_of_truncated(virtual_address, other);
                    let low = (other % 0x80_0000_0000) as u64;
                    assert(self.mapping(2, other) == self.mapping(2, low));
                    assert(before.mapping(2, other) == before.mapping(2, low));
                    assert(!same_slot(2, address@, low));
                    assert(self.mapping(2, low) == before.mapping(2, low));
                }
            } else {
                assert forall|other: u64| #[trigger]
                    self.mapping(2, other) == before.mapping(2, other) by {
                    let low = (other % 0x80_0000_0000) as u64;
                    assert(self.mapping(2, other) == self.mapping(2, low));
                    assert(before.mapping(2, other) == before.mapping(2, low));
                    assert(self.mapping(2, low) == before.mapping(2, low));
                }
            }
        }
        result
    }

    /// Unmaps a page from this table at `level` down.
    fn unmap_at(&mut self, level: usize, pool: &mut FreePageList, virtual_address: &VirtualAddress)
        -> (result: Result<Option<u64>, PageTableError>)
        requires
            old(self).wf(level as nat),
            level <= 2,
            old(pool).wf(),
            frames_encodable(old(pool)),
        ensures
            final(self).wf(level as nat),
            final(pool).wf(),
            frames_encodable(final(pool)),
            result == old(self).unmap_outcome(level as nat, virtual_address@),
            result is Ok ==> {
                &&& final(self).lookup(level as nat, virtual_address@) == Ok::<
                    EntryView,
                    PageTableError,
                >(PageTableEntry::invalid_view())
                &&& forall|other: u64|
                    !same_slot(level as nat, virtual_address@, other) ==> #[trigger] final(self).mapping(level as nat, other) == old(self).mapping(level as nat, other)
                &&& forall|frame: u64|
                    final(pool).contains(frame) <==> (old(pool).contains(frame) || old(self).unmap_reclaim(level as nat, virtual_address@) == Some(frame))
            },
            result is Err ==> final(pool)@ == old(pool)@ && forall|other: u64|
                #[trigger] final(self).mapping(level as nat, other) == old(self).mapping(
                    level as nat,
                    other,
                ),
            old(self).unmap_reclaim(level as nat, virtual_address@) is None ==> final(pool)@
                == old(pool)@,
        decreases level,
    {
        let ghost before = *self;
        let ghost va = virtual_address@;
        let index = virtual_address.get_vpn(level);
        let entry = self.entries[index];
        assert(self.slot_ok(level as nat, index as int));
        if level == 0 {
            return self.unmap_leaf(pool, virtual_address);
        }
        if !entry.is_valid() {
            return Err(PageTableError::IntermediateInvalid);
        }
        if !entry.is_page_table_ptr() {
            return Err(PageTableError::IntermediateMistyped);
        }
        assert(self.children[index as int].is_some());
        assert(self.children[index as int].unwrap().wf((level - 1) as nat));
        let mut child = self.children[index].take().unwrap();
        let ghost child_before = *child;
        let result = child.unmap_at(level - 1, pool, virtual_address);
        let ghost child_after = *child;
        self.children[index] = Some(child);
        proof {
            let l = level as nat;
            let below = (level - 1) as nat;
            assert(self.entries == before.entries);
            assert forall|k: int| 0 <= k < 512 implies #[trigger] self.slot_ok(l, k) by {
                assert(before.slot_ok(l, k));
            }
            assert forall|k: int|
                0 <= k < 512 && (#[trigger] self.children[k]).is_some() implies l > 0
                && self.children[k].unwrap().wf(below) by {
                if k != index {
                    assert(self.children[k] == before.children[k]);
                }
            }
            assert(self.wf(l));
            assert(before.lookup(l, va) == child_before.lookup(below, va));
            assert(self.lookup(l, va) == child_after.lookup(below, va));
            assert forall|other: u64|
                (result is Err || !same_slot(l, va, other)) implies #[trigger] self.mapping(
                l,
                other,
            ) == before.mapping(l, other) by {
                let other_index = vpn_of(other, level as int);
                if other_index == index {
                    assert(self.lookup(l, other) == child_after.lookup(below, other));
                    assert(before.lookup(l, other) == child_before.lookup(below, other));
                    if result is Ok {
                        assert(!same_slot(below, va, other)) by {
                            if same_slot(below, va, other) {
                                assert forall|k: int| 0 <= k <= l implies vpn_of(va, k) == vpn_of(
                                    other,
                                    k,
                                ) by {
                                    if k < l {
                                        assert(0 <= k <= below);
                                    }
                                }
                            }
                        }
                    }
                    assert(child_after.mapping(below, other) == child_before.mapping(below, other));
                } else {
                    assert(self.entries[other_index] == before.entries[other_index]);
                    assert(self.children[other_index] == before.children[other_index]);
                }
            }
        }
        result
    }

    /// Unmaps a page from this table of leaves.
    fn unmap_leaf(&mut self, pool: &mut FreePageList, virtual_address: &VirtualAddress) -> (result:
        Result<Option<u64>, PageTableError>)
        requires
            old(self).wf(0),
            old(pool).wf(),
            frames_encodable(old(pool)),
        ensures
            final(self).wf(0),
            final(pool).wf(),
            frames_encodable(final(pool)),
            result == old(self).unmap_outcome(0, virtual_address@),
            result is Ok ==> {
                &&& final(self).lookup(0, virtual_address@) == Ok::<EntryView, PageTableError>(
                    PageTableEntry::invalid_view(),
                )
                &&& forall|other: u64|
                    !same_slot(0, virtual_address@, other) ==> #[trigger] final(self).mapping(
                        0,
                        other,
                    ) == old(self).mapping(0, other)
                &&& forall|frame: u64|
                    final(pool).contains(frame) <==> (old(pool).contains(frame) || old(self).unmap_reclaim(0, virtual_address@) == Some(frame))
            },
            result is Err ==> final(pool)@ == old(pool)@ && forall|other: u64|
                #[trigger] final(self).mapping(0, other) == old(self).mapping(0, other),
            old(self).unmap_reclaim(0, virtual_address@) is None ==> final(pool)@ == old(pool)@,
    {
        let ghost before = *self;
        let ghost va = virtual_address@;
        let index = virtual_address.get_vpn(0);
        let entry = self.entries[index];
        assert(self.slot_ok(0, index as int));
        if !entry.is_leaf() {
            return Err(PageTableError::NotMapped);
        }
        let freed_page = match entry.get_page_management() {
            PageManagement::Manual => Some(entry.get_physical_address()),
            PageManagement::Automatic => None,
            PageManagement::CopyOnWrite => None,
            PageManagement::CowOwner => None,
        };
        let mut entry = entry;
        let reclaim = entry.set_invalid();
        self.entries[index] = entry;
        match reclaim {
            Reclaim::Page(frame) => {
                give_back(pool, frame);
            },
            _ => {},
        }
        proof {
            PageTableEntry::lemma_invalid_view();
            assert forall|k: int| 0 <= k < 512 implies #[trigger] self.slot_ok(0, k) by {
                assert(before.slot_ok(0, k));
            }
            assert forall|other: u64| !same_slot(0, va, other) implies #[trigger] self.mapping(
                0,
                other,
            ) == before.mapping(0, other) by {
                assert(vpn_of(va, 0) != vpn_of(other, 0));
            }
        }
        Ok(freed_page)
    }

    /// Whether the table at `level` owns the frame at `frame`: through one
    /// of its entries, or through a table below.
    pub open spec fn owns(&self, level: nat, frame: u64) -> bool {
        self.owns_upto(level, 512, frame)
    }

    /// Whether one of the first `count` entries of the table at `level`
    /// owns the frame: as the page of a leaf that the table manages
    /// itself, as the page of the child table that the entry points to, or
    /// through that child.
    pub closed spec fn owns_upto(&self, level: nat, count: nat, frame: u64) -> bool
        decreases level, count,
    {
        if count == 0 {
            false
        } else {
            let i = count - 1;
            self.owns_upto(level, i as nat, frame) || match self.entries[i]@.reclaim() {
                Reclaim::Page(page) => frame == page,
                Reclaim::ChildTable(page) => (frame == page && page != 0) || (level > 0
                    && self.children[i].is_some() && self.children[i].unwrap().owns_upto(
                    (level - 1) as nat,
                    512,
                    frame,
                )),
                Reclaim::Nothing => false,
            }
        }
    }

    /// Gives up the table: every frame that it owns returns to the free
    /// pages: the pages of the leaves that it manages itself, the pages of
    /// its child tables, and what those own in turn.
    pub fn release(self, pool: &mut FreePageList)
        requires
            self.wf(2),
            old(pool).wf(),
            frames_encodable(old(pool)),
        ensures
            final(pool).wf(),
            frames_encodable(final(pool)),
            forall|frame: u64|
                final(pool).contains(frame) <==> (old(pool).contains(frame) || self.owns(2, frame)),
    {
        self.release_frames(ROOT_LEVEL, pool);
    }

    /// Returns to the free pages every frame that this table at `level`
    /// owns.
    fn release_frames(&self, level: usize, pool: &mut FreePageList)
        requires
            self.wf(level as nat),
            level <= 2,
            old(pool).wf(),
            frames_encodable(old(pool)),
        ensures
            final(pool).wf(),
            frames_encodable(final(pool)),
            forall|frame: u64|
                final(pool).contains(frame) <==> (old(pool).contains(frame) || self.owns(
                    level as nat,
                    frame,
                )),
        decreases level,
    {
        let mut i: usize = 0;
        while i < PAGE_TABLE_SIZE
            invariant
                i <= 512,
                level <= 2,
                self.wf(level as nat),
                pool.wf(),
                frames_encodable(pool),
                forall|frame: u64|
                    pool.contains(frame) <==> (old(pool).contains(frame) || self.owns_upto(
                        level as nat,
                        i as nat,
                        frame,
                    )),
            decreases 512 - i,
        {
            let ghost start = *pool;
            let mut entry = self.entries[i];
            assert(self.slot_ok(level as nat, i as int));
            let reclaim = entry.set_invalid();
            match reclaim {
                Reclaim::Page(page) => {
                    give_back(pool, page);
                },
                Reclaim::ChildTable(page) => {
                    assert(self.children[i as int].is_some());
                    assert(self.children[i as int].unwrap().wf((level - 1) as nat));
                    match &self.children[i] {
                        Some(child) => {
                            child.release_frames(level - 1, pool);
                        },
                        None => {},
                    }
                    if page != 0 {
                        give_back(pool, page);
                    }
                },
                Reclaim::Nothing => {},
            }
            i += 1;
        }
    }

    /// The physical address that `virtual_address` translates to: the
    /// address of the mapped page plus the offset within the page.
    pub fn get_physical_address(&self, virtual_address: u64) -> (result: Result<
        u64,
        PageTableError,
    >)
        requires
            self.wf(2),
        ensures
            result == self.translate(2, virtual_address),
    {
        let address = VirtualAddress::truncate(virtual_address);
        proof {
            self.lemma_truncated(2, virtual_address);
        }
        match self.look_up_page_entry(ROOT_LEVEL, &address) {
            Ok(entry) => {
                if !entry.is_leaf() {
                    return Err(PageTableError::NotMapped);
                }
                let base_physical_address = entry.get_physical_address();
                Ok(base_physical_address + address.get_offset())
            },
            Err(e) => Err(e),
        }
    }

    /// What the page of `virtual_address` is mapped to.
    pub fn get_mapping(&self, virtual_address: u64) -> (result: Result<Mapping, PageTableError>)
        requires
            self.wf(2),
        ensures
            match self.mapping(2, virtual_address) {
                Some(mapping) => result == Ok::<Mapping, PageTableError>(mapping),
                None => result is Err && result->Err_0 == match self.lookup(2, virtual_address) {
                    Ok(_) => PageTableError::NotMapped,
                    Err(e) => e,
                },
            },
    {
        let address = VirtualAddress::truncate(virtual_address);
        proof {
            self.lemma_truncated(2, virtual_address);
        }
        match self.look_up_page_entry(ROOT_LEVEL, &address) {
            Ok(entry) => {
                if !entry.is_leaf() {
                    return Err(PageTableError::NotMapped);
                }
                Ok(
                    Mapping {
                        physical_address: entry.get_physical_address(),
                        permissions: Permissions {
                            readable: entry.is_readable(),
                            writable: entry.is_writable(),
                            executable: entry.is_executable(),
                            user_accessible: entry.is_user_accessible(),
                            globally_accessible: entry.is_global(),
                        },
                        management: entry.get_page_management(),
                    },
                )
            },
            Err(e) => Err(e),
        }
    }
}

/// Returns a frame to the free pages, unless it is free already.
pub fn give_back(pool: &mut FreePageList, frame: u64)
    requires
        old(pool).wf(),
        frames_encodable(old(pool)),
        encodable_address(frame),
        frame != 0,
    ensures
        final(pool).wf(),
        frames_encodable(final(pool)),
        forall|address: u64|
            final(pool).contains(address) <==> (old(pool).contains(address) || address == frame),
{
    if !pool.is_free(frame) {
        let ghost before = *pool;
        add_free_page(pool, frame);
        proof {
            assert forall|i: int| 0 <= i < pool@.len() implies #[trigger] pool@[i]
                < PHYSICAL_ADDRESS_LIMIT by {
                assert(pool.contains(pool@[i]));
                if before.contains(pool@[i]) {
                    let k = choose|k: int| 0 <= k < before@.len() && before@[k] == pool@[i];
                    assert(before@[k] < PHYSICAL_ADDRESS_LIMIT);
                }
            }
        }
    }
}

/// Two addresses select the same entries exactly if they lie in the same
/// virtual page.
pub proof fn lemma_same_slot(a: u64, b: u64)
    ensures
        same_slot(2, a, b) <==> page_number(a) == page_number(b),
{
    lemma_page_number(a);
    lemma_page_number(b);
    if same_slot(2, a, b) {
        assert(vpn_of(a, 0) == vpn_of(b, 0));
        assert(vpn_of(a, 1) == vpn_of(b, 1));
        assert(vpn_of(a, 2) == vpn_of(b, 2));
    }
}

/// The page numbers of an address are those of its low 39 bits.
pub proof fn lemma_vpn_of_truncated(address: u64)
    ensures
        forall|k: int|
            0 <= k <= 2 ==> #[trigger] vpn_of((address % 0x80_0000_0000) as u64, k) == vpn_of(
                address,
                k,
            ),
        offset_of((address % 0x80_0000_0000) as u64) == offset_of(address),
{
    lemma_low_bits(address);
}

/// Two addresses that differ in a page number differ in that page number
/// of their low 39 bits.
pub proof fn lemma_slot_of_truncated(a: u64, b: u64)
    ensures
        same_slot(2, a, b) == same_slot(
            2,
            (a % 0x80_0000_0000) as u64,
            (b % 0x80_0000_0000) as u64,
        ),
{
    lemma_vpn_of_truncated(a);
    lemma_vpn_of_truncated(b);
    let la = (a % 0x80_0000_0000) as u64;
    let lb = (b % 0x80_0000_0000) as u64;
    if same_slot(2, a, b) {
        assert forall|k: int| 0 <= k <= 2 implies vpn_of(la, k) == vpn_of(lb, k) by {
            assert(vpn_of(la, k) == vpn_of(a, k));
            assert(vpn_of(lb, k) == vpn_of(b, k));
        }
    }
    if same_slot(2, la, lb) {
        assert forall|k: int| 0 <= k <= 2 implies vpn_of(a, k) == vpn_of(b, k) by {
            assert(vpn_of(la, k) == vpn_of(a, k));
            assert(vpn_of(lb, k) == vpn_of(b, k));
        }
    }
}

impl PageBoxable for PageTable {
    /// A table that was made in place is blank.
    open spec fn initialized(&self, page_address: u64) -> bool {
        self.is_blank()
    }

    /// The blank table in the page at `page_address`.
    fn init_in_place(page_address: u64) -> (table: Self) {
        Self::from_physical_address(page_address)
    }
}

} // verus!
