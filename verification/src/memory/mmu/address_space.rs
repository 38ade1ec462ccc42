//! The virtual address space of the kernel or of a process: a root page
//! table, and the layout that every address space starts with.
//!
//! Every space maps the flash devices, the device registers and the kernel
//! image where they lie in physical memory, and all of RAM through the
//! linear window; the rest is left for the pages of the process.

use vstd::prelude::*;
use crate::arch::mmu::HIGHEST_VIRTUAL_ADDRESS;
use crate::arch::mmu::PHYSICAL_ADDRESS_LIMIT;
use crate::arch::mmu::page_table::Mapping;
use crate::arch::mmu::page_table::PageTable;
use crate::arch::mmu::page_table::PageTableError;
use crate::arch::mmu::page_table::frames_encodable;
use crate::arch::mmu::page_table::give_back;
use crate::arch::mmu::page_table::leaf_view;
use crate::arch::mmu::page_table::lemma_same_slot;
use crate::arch::mmu::page_table::same_slot;
use crate::arch::mmu::page_table_entry::EntryView;
use crate::arch::mmu::page_table_entry::PageManagement;
use crate::arch::mmu::virtual_address::lemma_page_number;
use crate::arch::mmu::virtual_address::offset_of;
use crate::arch::mmu::virtual_address::page_number;
use crate::memory::PAGE_SIZE;
use crate::memory::kernel::KernelMemoryLayout;
use crate::memory::kernel::SectionLayout;
use crate::memory::memory_device::SystemMemory;
use crate::memory::mmu::free_page_list::FreePageList;
use crate::memory::mmu::free_page_list::remove_free_page;
use crate::memory::mmu::page_box::PageBox;
use crate::memory::mmu::page_box::PageBoxable;
use crate::memory::mmu::permissions::Permissions;
use crate::memory::mmu::virtual_page_address::KernelAddressing;

verus! {

/// A range of physical memory that every address space maps, page by page.
#[derive(Clone, Copy, PartialEq, Eq, Structural, Debug)]
pub struct Region {
    /// Physical address of the first page.
    pub physical_address: u64,
    /// Length in bytes.
    pub range: u64,
    /// The access rights of its pages.
    pub permissions: Permissions,
    /// Whether the pages appear in the linear window of RAM, or where they
    /// lie in physical memory.
    pub virtualize: bool,
}

/// The number of pages that a range of `range` bytes takes up.
pub open spec fn pages_of(range: u64) -> int {
    (range + 4095) / 4096
}

/// The virtual page number of the first page of a region.
pub open spec fn first_page(region: Region, virtual_base: u64) -> int {
    (region.physical_address + if region.virtualize {
        virtual_base as int
    } else {
        0
    }) / 4096
}

/// What a region can be mapped under: it starts on a page boundary and not
/// at address zero, its pages have addresses that SV39 can translate, in
/// physical and in virtual memory, and they can be reached.
pub open spec fn region_ok(region: Region, virtual_base: u64) -> bool {
    &&& region.physical_address % 4096 == 0
    &&& virtual_base % 4096 == 0
    &&& region.range > 0 ==> region.physical_address != 0
    &&& region.physical_address + pages_of(region.range) * 4096 <= HIGHEST_VIRTUAL_ADDRESS + 1
    &&& region.virtualize ==> virtual_base + region.physical_address + pages_of(region.range)
        * 4096 <= HIGHEST_VIRTUAL_ADDRESS + 1
    &&& region.permissions.grants_access()
}

/// What a region maps the page of `address` to, if that page is one of
/// its pages.
pub open spec fn region_maps(region: Region, virtual_base: u64, address: u64) -> Option<Mapping> {
    let page = page_number(address);
    let first = first_page(region, virtual_base);
    if first <= page < first + pages_of(region.range) {
        Some(
            Mapping {
                physical_address: (region.physical_address + (page - first) * 4096) as u64,
                permissions: region.permissions,
                management: PageManagement::Manual,
            },
        )
    } else {
        None
    }
}

/// What the first `count` regions map the page of `address` to.
pub open spec fn layout_mapping(
    regions: Seq<Region>,
    count: nat,
    virtual_base: u64,
    address: u64,
) -> Option<Mapping>
    decreases count,
{
    if count == 0 {
        None
    } else {
        match region_maps(regions[count - 1], virtual_base, address) {
            Some(mapping) => Some(mapping),
            None => layout_mapping(regions, (count - 1) as nat, virtual_base, address),
        }
    }
}

/// Whether two of the regions claim one virtual page.
pub open spec fn layout_overlaps(regions: Seq<Region>, virtual_base: u64) -> bool {
    exists|address: u64, index: int|
        0 <= index < regions.len() && (#[trigger] region_maps(
            regions[index],
            virtual_base,
            address,
        )) is Some && layout_mapping(regions, index as nat, virtual_base, address) is Some
}

/// The region of a section of the kernel image.
pub open spec fn section_region(section: SectionLayout, permissions: Permissions) -> Region {
    Region {
        physical_address: section.start,
        range: section.size,
        permissions: permissions,
        virtualize: false,
    }
}

/// Read-only, for the kernel, in every address space.
pub open spec fn read_only() -> Permissions {
    Permissions {
        readable: true,
        writable: false,
        executable: false,
        user_accessible: false,
        globally_accessible: true,
    }
}

/// Read and write, for the kernel, in every address space.
pub open spec fn read_write() -> Permissions {
    Permissions {
        readable: true,
        writable: true,
        executable: false,
        user_accessible: false,
        globally_accessible: true,
    }
}

/// Read and execute, for the kernel, in every address space.
pub open spec fn read_execute() -> Permissions {
    Permissions {
        readable: true,
        writable: false,
        executable: true,
        user_accessible: false,
        globally_accessible: true,
    }
}

/// A region that maps nothing, in place of a device that is not there.
pub open spec fn no_region() -> Region {
    Region { physical_address: 0, range: 0, permissions: read_only(), virtualize: false }
}

/// The regions that every address space maps, in the order in which they
/// are mapped: the flash devices, read-only; the device registers, read and
/// write; the kernel code, read and execute; its constants, read-only; its
/// data, zeroed data, stacks and heap, read and write; and the RAM devices
/// in the linear window, read and write. All are for the kernel alone and
/// shared by all address spaces.
pub open spec fn layout(kernel_memory: KernelMemoryLayout, system_memory: SystemMemory) -> Seq<
    Region,
> {
    Seq::new(
        46,
        |i: int|
            if 0 <= i < 4 {
                match system_memory.flash_devices[i] {
                    Some(device) => Region {
                        physical_address: device.base_address,
                        range: device.range,
                        permissions: read_only(),
                        virtualize: false,
                    },
                    None => no_region(),
                }
            } else if 4 <= i < 36 {
                match system_memory.mmio_regions[i - 4] {
                    Some(region) => Region {
                        physical_address: region.base_address,
                        range: region.range,
                        permissions: read_write(),
                        virtualize: false,
                    },
                    None => no_region(),
                }
            } else if i == 36 {
                section_region(kernel_memory.text, read_execute())
            } else if i == 37 {
                section_region(kernel_memory.rodata, read_only())
            } else if i == 38 {
                section_region(kernel_memory.data, read_write())
            } else if i == 39 {
                section_region(kernel_memory.bss, read_write())
            } else if i == 40 {
                section_region(kernel_memory.stack, read_write())
            } else if i == 41 {
                section_region(kernel_memory.heap, read_write())
            } else {
                match system_memory.memory_devices[i - 42] {
                    Some(device) => Region {
                        physical_address: device.base_address,
                        range: device.range,
                        permissions: read_write(),
                        virtualize: true,
                    },
                    None => no_region(),
                }
            },
    )
}

/// Whether every region of the layout can be mapped.
pub open spec fn layout_ok(
    kernel_memory: KernelMemoryLayout,
    system_memory: SystemMemory,
    virtual_base: u64,
) -> bool {
    forall|i: int|
        0 <= i < 46 ==> region_ok(#[trigger] layout(kernel_memory, system_memory)[i], virtual_base)
}

/// Whether the table maps a page already that the region claims.
pub open spec fn overlaps_region(page_table: PageTable, region: Region, virtual_base: u64) -> bool {
    exists|address: u64|
        (#[trigger] region_maps(region, virtual_base, address)) is Some && page_table.mapping(
            2,
            address,
        ) is Some
}

/// The number of pages that a range of `range` bytes takes up.
pub fn page_count(range: u64) -> (pages: u64)
    ensures
        pages == pages_of(range),
{
    if range % PAGE_SIZE == 0 {
        range / PAGE_SIZE
    } else {
        range / PAGE_SIZE + 1
    }
}

/// Whether a region can be mapped.
pub fn check_region(region: &Region, virtual_base: u64) -> (ok: bool)
    ensures
        ok == region_ok(*region, virtual_base),
{
    if region.physical_address % PAGE_SIZE != 0 || virtual_base % PAGE_SIZE != 0 {
        return false;
    }
    if region.range > 0 && region.physical_address == 0 {
        return false;
    }
    if !region.permissions.can_map() {
        return false;
    }
    let limit: u64 = HIGHEST_VIRTUAL_ADDRESS + 1;
    if region.range > limit || region.physical_address > limit {
        return false;
    }
    let length = page_count(region.range) * PAGE_SIZE;
    if region.physical_address + length > limit {
        return false;
    }
    if region.virtualize && (virtual_base > limit || virtual_base + region.physical_address
        + length > limit) {
        return false;
    }
    true
}

/// Whether every region of the layout can be mapped.
pub fn check_layout(
    kernel_memory: &KernelMemoryLayout,
    system_memory: &SystemMemory,
    virtual_base: u64,
) -> (ok: bool)
    ensures
        ok == layout_ok(*kernel_memory, *system_memory, virtual_base),
{
    let regions = regions_of(kernel_memory, system_memory);
    let mut i: usize = 0;
    while i < 46
        invariant
            i <= 46,
            regions@ == layout(*kernel_memory, *system_memory),
            forall|k: int|
                0 <= k < i ==> region_ok(
                    #[trigger] layout(*kernel_memory, *system_memory)[k],
                    virtual_base,
                ),
        decreases 46 - i,
    {
        if !check_region(&regions[i], virtual_base) {
            assert(!region_ok(layout(*kernel_memory, *system_memory)[i as int], virtual_base));
            return false;
        }
        i += 1;
    }
    true
}

/// The largest number of tables that have to be made to map `pages` pages
/// from the page with the number `first` on: two for the first page, and
/// one more for each table of leaves and for each table above it that the
/// pages go on into.
#[verifier::opaque]
pub open spec fn tables_for(first: int, pages: int) -> int {
    if pages <= 0 {
        0
    } else {
        2 + ((first + pages - 1) / 512 - first / 512) + ((first + pages - 1) / 0x4_0000 - first
            / 0x4_0000)
    }
}

/// The tables that a region may need.
pub open spec fn region_tables(region: Region, virtual_base: u64) -> int {
    tables_for(first_page(region, virtual_base), pages_of(region.range))
}

/// Maps the pages of a region, one after the other from the lowest on, each
/// as a page that the mapper manages. The first page that cannot be mapped
/// ends the work. The tables that are made on the way take the lowest of
/// the free frames.
///
/// The region is mapped unless one of its pages is mapped already or the
/// free frames run out, which they do not where there are as many as the
/// region may need tables.
pub fn add_range(
    page_table: &mut PageTable,
    pool: &mut FreePageList,
    region: &Region,
    virtual_base: u64,
) -> (result: Result<(), PageTableError>)
    requires
        old(page_table).wf(2),
        old(pool).wf(),
        frames_encodable(old(pool)),
        region_ok(*region, virtual_base),
    ensures
        final(page_table).wf(2),
        final(pool).wf(),
        frames_encodable(final(pool)),
        forall|frame: u64| final(pool).contains(frame) ==> old(pool).contains(frame),
        final(pool)@.len() <= old(pool)@.len(),
        final(pool)@ == old(pool)@.subrange(
            old(pool)@.len() - final(pool)@.len(),
            old(pool)@.len() as int,
        ),
        old(pool)@.len() - final(pool)@.len() <= region_tables(*region, virtual_base),
        result is Ok ==> forall|address: u64|
            #[trigger] final(page_table).mapping(2, address) == match region_maps(
                *region,
                virtual_base,
                address,
            ) {
                Some(mapping) => Some(mapping),
                None => old(page_table).mapping(2, address),
            },
        result is Ok ==> !overlaps_region(*old(page_table), *region, virtual_base),
        result is Err ==> (result == Err::<(), PageTableError>(PageTableError::OutOfMemory)
            && final(pool)@.len() == 0 && old(pool)@.len() < region_tables(*region, virtual_base))
            || (result == Err::<(), PageTableError>(PageTableError::AlreadyMapped)
            && overlaps_region(*old(page_table), *region, virtual_base)),
{
    let offset: u64 = if region.virtualize {
        virtual_base
    } else {
        0
    };
    let pages = page_count(region.range);
    let ghost first = first_page(*region, virtual_base);
    let ghost before = *page_table;
    let mut done: u64 = 0;
    proof {
        assert(pool@ =~= old(pool)@.subrange(0, old(pool)@.len() as int));
        lemma_tables_grow(first, 0, 0);
        lemma_region_start(before, *region, virtual_base);
    }
    while done < pages
        invariant
            done <= pages,
            before == *old(page_table),
            pages == pages_of(region.range),
            first == first_page(*region, virtual_base),
            offset == if region.virtualize {
                virtual_base
            } else {
                0
            },
            region_ok(*region, virtual_base),
            page_table.wf(2),
            pool.wf(),
            frames_encodable(pool),
            forall|frame: u64| pool.contains(frame) ==> old(pool).contains(frame),
            pool@.len() <= old(pool)@.len(),
            pool@ == old(pool)@.subrange(old(pool)@.len() - pool@.len(), old(pool)@.len() as int),
            old(pool)@.len() - pool@.len() <= tables_for(first, done as int),
            mapped_upto(*page_table, before, *region, virtual_base, done as int),
        decreases pages - done,
    {
        let physical_address = region.physical_address + done * PAGE_SIZE;
        let virtual_address = offset + physical_address;
        let ghost current = *page_table;
        let ghost current_pool = *pool;
        proof {
            lemma_page_number(virtual_address);
            current.lemma_walk(2, virtual_address);
            lemma_step_needs(
                before,
                current,
                *region,
                virtual_base,
                done as int,
                virtual_address,
            );
            lemma_tables_grow(first, done as int + 1, pages as int);
            lemma_tables_grow(first, done as int, pages as int);
        }
        let result = page_table.map_page(
            pool,
            virtual_address,
            physical_address,
            region.permissions,
            PageManagement::Manual,
        );
        match result {
            Ok(()) => {},
            Err(e) => {
                proof {
                    if e == PageTableError::AlreadyMapped {
                        lemma_region_clash(
                            before,
                            current,
                            *region,
                            virtual_base,
                            done as int,
                            virtual_address,
                        );
                    } else {
                        assert(pool@ =~= old(pool)@.subrange(
                            old(pool)@.len() as int,
                            old(pool)@.len() as int,
                        ));
                    }
                }
                return Err(e);
            },
        }
        proof {
            let taken = current.missing(2, virtual_address) as int;
            let skipped = old(pool)@.len() - current_pool@.len();
            assert(pool@ =~= old(pool)@.subrange(skipped + taken, old(pool)@.len() as int));
            lemma_region_step(
                before,
                current,
                *page_table,
                *region,
                virtual_base,
                done as int,
                virtual_address,
                physical_address,
            );
        }
        done = done + 1;
    }
    proof {
        lemma_region_done(*page_table, before, *region, virtual_base);
    }
    Ok(())
}

/// Whether the first `done` pages of the region are mapped in `table`, and
/// all else is as in `before`, in which none of them was mapped.
#[verifier::opaque]
pub open spec fn mapped_upto(
    table: PageTable,
    before: PageTable,
    region: Region,
    virtual_base: u64,
    done: int,
) -> bool {
    &&& forall|address: u64|
        #[trigger] table.mapping(2, address) == if first_page(region, virtual_base) <= page_number(
            address,
        ) < first_page(region, virtual_base) + done {
            region_maps(region, virtual_base, address)
        } else {
            before.mapping(2, address)
        }
    &&& forall|address: u64|
        first_page(region, virtual_base) <= page_number(address) < first_page(region, virtual_base)
            + done ==> (#[trigger] before.mapping(2, address)) is None
}

/// Before the first page of a region is mapped the table is as it was.
pub proof fn lemma_region_start(before: PageTable, region: Region, virtual_base: u64)
    ensures
        mapped_upto(before, before, region, virtual_base, 0),
{
    reveal(mapped_upto);
}

/// When all pages of a region are mapped, the table maps what the region
/// asks for and else what it mapped before, and no page of the region was
/// mapped before.
pub proof fn lemma_region_done(
    table: PageTable,
    before: PageTable,
    region: Region,
    virtual_base: u64,
)
    requires
        mapped_upto(table, before, region, virtual_base, pages_of(region.range)),
    ensures
        forall|address: u64|
            #[trigger] table.mapping(2, address) == match region_maps(
                region,
                virtual_base,
                address,
            ) {
                Some(mapping) => Some(mapping),
                None => before.mapping(2, address),
            },
        !overlaps_region(before, region, virtual_base),
{
    reveal(mapped_upto);
    if overlaps_region(before, region, virtual_base) {
        let address = choose|address: u64|
            (#[trigger] region_maps(region, virtual_base, address)) is Some && before.mapping(
                2,
                address,
            ) is Some;
        assert(first_page(region, virtual_base) <= page_number(address) < first_page(
            region,
            virtual_base,
        ) + pages_of(region.range));
    }
}

/// A page of a region that is mapped before its turn was mapped before
/// the region was begun: the region claims a page that is taken.
pub proof fn lemma_region_clash(
    before: PageTable,
    current: PageTable,
    region: Region,
    virtual_base: u64,
    done: int,
    virtual_address: u64,
)
    requires
        0 <= done < pages_of(region.range),
        page_number(virtual_address) == first_page(region, virtual_base) + done,
        mapped_upto(current, before, region, virtual_base, done),
        current.mapping(2, virtual_address) is Some,
    ensures
        overlaps_region(before, region, virtual_base),
{
    reveal(mapped_upto);
    assert(region_maps(region, virtual_base, virtual_address) is Some);
    assert(before.mapping(2, virtual_address) is Some);
}

/// The more pages, the more tables they may need.
pub proof fn lemma_tables_grow(first: int, fewer: int, more: int)
    requires
        0 <= first,
        0 <= fewer <= more,
    ensures
        0 <= tables_for(first, fewer) <= tables_for(first, more),
        tables_for(first, 0) == 0,
{
    reveal(tables_for);
}

/// What the next page of a region needs of tables, when the pages before
/// it are mapped: no more than the bound grows by.
pub proof fn lemma_step_needs(
    before: PageTable,
    current: PageTable,
    region: Region,
    virtual_base: u64,
    done: int,
    virtual_address: u64,
)
    requires
        current.wf(2),
        0 <= done < pages_of(region.range),
        region_ok(region, virtual_base),
        virtual_address % 4096 == 0,
        page_number(virtual_address) == first_page(region, virtual_base) + done,
        virtual_address == first_page(region, virtual_base) * 4096 + done * 4096,
        mapped_upto(current, before, region, virtual_base, done),
    ensures
        current.missing(2, virtual_address) <= tables_for(
            first_page(region, virtual_base),
            done + 1,
        ) - tables_for(first_page(region, virtual_base), done),
{
    reveal(tables_for);
    reveal(mapped_upto);
    let first = first_page(region, virtual_base);
    let page = first + done;
    current.lemma_walk(2, virtual_address);
    if done > 0 {
        let previous = (virtual_address - 4096) as u64;
        lemma_page_number(previous);
        lemma_page_number(virtual_address);
        assert(page_number(previous) == page - 1);
        assert(current.mapping(2, previous) == region_maps(region, virtual_base, previous));
        assert(current.lookup(2, previous) is Ok);
        current.lemma_missing_near(previous, virtual_address);
    }
}

/// One more page of a region is mapped: what held of the pages before it
/// holds of the pages up to it.
pub proof fn lemma_region_step(
    before: PageTable,
    current: PageTable,
    after: PageTable,
    region: Region,
    virtual_base: u64,
    done: int,
    virtual_address: u64,
    physical_address: u64,
)
    requires
        0 <= done < pages_of(region.range),
        region_ok(region, virtual_base),
        page_number(virtual_address) == first_page(region, virtual_base) + done,
        physical_address == region.physical_address + done * 4096,
        mapped_upto(current, before, region, virtual_base, done),
        current.mapping(2, virtual_address) is None,
        after.lookup(2, virtual_address) == Ok::<EntryView, PageTableError>(
            leaf_view(physical_address, region.permissions, PageManagement::Manual),
        ),
        forall|other: u64|
            !same_slot(2, virtual_address, other) ==> #[trigger] after.mapping(2, other)
                == current.mapping(2, other),
    ensures
        mapped_upto(after, before, region, virtual_base, done + 1),
{
    reveal(mapped_upto);
    let first = first_page(region, virtual_base);
    assert forall|address: u64| first <= page_number(address) < first + done + 1 implies (
    #[trigger] before.mapping(2, address)) is None by {
        if page_number(address) == first + done {
            lemma_same_slot(virtual_address, address);
            before.lemma_same_slot_lookup(2, virtual_address, address);
            assert(current.mapping(2, virtual_address) == before.mapping(2, virtual_address));
        }
    }
    assert forall|address: u64|
        #[trigger] after.mapping(2, address) == if first <= page_number(address) < first + done
            + 1 {
            region_maps(region, virtual_base, address)
        } else {
            before.mapping(2, address)
        } by {
        lemma_same_slot(virtual_address, address);
        if page_number(address) == first + done {
            after.lemma_same_slot_lookup(2, virtual_address, address);
        } else {
            assert(after.mapping(2, address) == current.mapping(2, address));
        }
    }
}

/// The tables that the first `count` regions may need.
pub open spec fn layout_tables(regions: Seq<Region>, count: nat, virtual_base: u64) -> int
    decreases count,
{
    if count == 0 {
        0
    } else {
        layout_tables(regions, (count - 1) as nat, virtual_base) + region_tables(
            regions[count - 1],
            virtual_base,
        )
    }
}

/// The more regions, the more tables they may need.
pub proof fn lemma_layout_tables(regions: Seq<Region>, fewer: nat, more: nat, virtual_base: u64)
    requires
        fewer <= more,
    ensures
        0 <= layout_tables(regions, fewer, virtual_base) <= layout_tables(
            regions,
            more,
            virtual_base,
        ),
    decreases more,
{
    if more > 0 {
        let region = regions[more - 1];
        lemma_tables_grow(first_page(region, virtual_base), 0, pages_of(region.range));
        if fewer < more {
            lemma_layout_tables(regions, fewer, (more - 1) as nat, virtual_base);
        } else {
            lemma_layout_tables(regions, (fewer - 1) as nat, (more - 1) as nat, virtual_base);
        }
    }
}

/// An address space.
pub struct AddressSpace {
    page_table: PageBox<PageTable>,
}

impl AddressSpace {
    /// What holds of every address space: its root table is well formed and
    /// lies in a page of its own.
    pub closed spec fn wf(&self) -> bool {
        &&& self.page_table.value.wf(2)
        &&& self.page_table.page_address % 4096 == 0
        &&& self.page_table.page_address < PHYSICAL_ADDRESS_LIMIT
    }

    /// The root table.
    pub closed spec fn table(&self) -> PageTable {
        self.page_table.value
    }

    /// Physical address of the page that holds the root table.
    pub closed spec fn root_address(&self) -> u64 {
        self.page_table.page_address
    }

    /// What the page of `address` is mapped to, if it is mapped.
    pub open spec fn mapping(&self, address: u64) -> Option<Mapping> {
        self.table().mapping(2, address)
    }

    /// What a translation of `address` gives.
    pub open spec fn translate(&self, address: u64) -> Result<u64, PageTableError> {
        self.table().translate(2, address)
    }

    /// The address space of the kernel: a root table in the lowest free
    /// frame, in which every region of the layout is mapped, region after
    /// region. The tables that are made on the way take the lowest of the
    /// free frames.
    ///
    /// The space comes back unless two regions claim one virtual page or
    /// the free frames run out, which they do not where there are more
    /// than the regions may need tables. The frames taken up to a failure
    /// are not handed back.
    pub fn new(
        pool: &mut FreePageList,
        kernel_memory: &KernelMemoryLayout,
        system_memory: &SystemMemory,
        addressing: &KernelAddressing,
    ) -> (result: Result<Self, PageTableError>)
        requires
            old(pool).wf(),
            frames_encodable(old(pool)),
            layout_ok(*kernel_memory, *system_memory, addressing.virtual_base_offset),
        ensures
            final(pool).wf(),
            frames_encodable(final(pool)),
            forall|frame: u64| final(pool).contains(frame) ==> old(pool).contains(frame),
            final(pool)@.len() <= old(pool)@.len(),
            final(pool)@ == old(pool)@.subrange(
                old(pool)@.len() - final(pool)@.len(),
                old(pool)@.len() as int,
            ),
            old(pool)@.len() - final(pool)@.len() <= 1 + layout_tables(
                layout(*kernel_memory, *system_memory),
                46,
                addressing.virtual_base_offset,
            ),
            result matches Ok(space) ==> space.wf() && space.root_address() == old(pool)@[0]
                && forall|address: u64|
                #[trigger] space.mapping(address) == layout_mapping(
                    layout(*kernel_memory, *system_memory),
                    46,
                    addressing.virtual_base_offset,
                    address,
                ),
            result is Ok ==> !layout_overlaps(
                layout(*kernel_memory, *system_memory),
                addressing.virtual_base_offset,
            ),
            result is Err ==> (result->Err_0 == PageTableError::OutOfMemory && final(pool)@.len()
                == 0 && old(pool)@.len() <= layout_tables(
                layout(*kernel_memory, *system_memory),
                46,
                addressing.virtual_base_offset,
            )) || (result->Err_0 == PageTableError::AlreadyMapped && layout_overlaps(
                layout(*kernel_memory, *system_memory),
                addressing.virtual_base_offset,
            )),
    {
        let virtual_base = addressing.virtual_base_offset();
        let regions = regions_of(kernel_memory, system_memory);
        let ghost start = *pool;
        proof {
            lemma_layout_tables(regions@, 0, 46, virtual_base);
        }
        let page_table = match PageBox::<PageTable>::new(pool) {
            Some(page_table) => page_table,
            None => {
                assert(pool@ =~= old(pool)@.subrange(0, 0));
                return Err(PageTableError::OutOfMemory);
            },
        };
        let mut page_table = page_table;
        proof {
            page_table.value.lemma_blank();
            assert(start@[0] < PHYSICAL_ADDRESS_LIMIT);
            assert(start.contains(start@[0]));
            assert forall|i: int| 0 <= i < pool@.len() implies #[trigger] pool@[i]
                < PHYSICAL_ADDRESS_LIMIT by {
                assert(pool@[i] == start@[i + 1]);
            }
            assert forall|frame: u64| pool.contains(frame) implies start.contains(frame) by {
                let i = choose|i: int| 0 <= i < pool@.len() && pool@[i] == frame;
                assert(start@[i + 1] == frame);
            }
        }
        let mut index: usize = 0;
        while index < 46
            invariant
                index <= 46,
                virtual_base == addressing.virtual_base_offset,
                regions@ == layout(*kernel_memory, *system_memory),
                layout_ok(*kernel_memory, *system_memory, virtual_base),
                page_table.value.wf(2),
                page_table.page_address % 4096 == 0,
                page_table.page_address < PHYSICAL_ADDRESS_LIMIT,
                page_table.page_address == old(pool)@[0],
                pool.wf(),
                frames_encodable(pool),
                forall|frame: u64| pool.contains(frame) ==> old(pool).contains(frame),
                pool@.len() < old(pool)@.len(),
                pool@ == old(pool)@.subrange(
                    old(pool)@.len() - pool@.len(),
                    old(pool)@.len() as int,
                ),
                old(pool)@.len() - pool@.len() <= 1 + layout_tables(
                    regions@,
                    index as nat,
                    virtual_base,
                ),
                forall|address: u64|
                    #[trigger] page_table.value.mapping(2, address) == layout_mapping(
                        regions@,
                        index as nat,
                        virtual_base,
                        address,
                    ),
                forall|address: u64, i: int|
                    0 <= i < index && (#[trigger] region_maps(regions@[i], virtual_base, address))
                        is Some ==> layout_mapping(regions@, i as nat, virtual_base, address)
                        is None,
            decreases 46 - index,
        {
            let region = regions[index];
            assert(region_ok(layout(*kernel_memory, *system_memory)[index as int], virtual_base));
            let ghost current = page_table.value;
            let ghost current_pool = *pool;
            proof {
                lemma_layout_tables(regions@, index as nat + 1, 46, virtual_base);
            }
            match add_range(&mut page_table.value, pool, &region, virtual_base) {
                Ok(()) => {},
                Err(e) => {
                    proof {
                        assert(pool@ =~= old(pool)@.subrange(
                            old(pool)@.len() - pool@.len(),
                            old(pool)@.len() as int,
                        ));
                        if e == PageTableError::AlreadyMapped {
                            assert(overlaps_region(current, region, virtual_base));
                            let address = choose|address: u64|
                                (#[trigger] region_maps(region, virtual_base, address)) is Some
                                    && current.mapping(2, address) is Some;
                            assert(region_maps(regions@[index as int], virtual_base, address)
                                is Some);
                            assert(layout_mapping(regions@, index as nat, virtual_base, address)
                                is Some);
                            assert(layout_overlaps(regions@, virtual_base));
                        }
                    }
                    return Err(e);
                },
            }
            proof {
                assert(pool@ =~= old(pool)@.subrange(
                    old(pool)@.len() - pool@.len(),
                    old(pool)@.len() as int,
                ));
                assert forall|address: u64|
                    #[trigger] page_table.value.mapping(2, address) == layout_mapping(
                        regions@,
                        (index + 1) as nat,
                        virtual_base,
                        address,
                    ) by {
                    assert(current.mapping(2, address) == layout_mapping(
                        regions@,
                        index as nat,
                        virtual_base,
                        address,
                    ));
                }
                assert forall|address: u64, i: int|
                    0 <= i < index + 1 && (#[trigger] region_maps(
                        regions@[i],
                        virtual_base,
                        address,
                    )) is Some implies layout_mapping(regions@, i as nat, virtual_base, address)
                    is None by {
                    if i == index {
                        assert(current.mapping(2, address) == layout_mapping(
                            regions@,
                            index as nat,
                            virtual_base,
                            address,
                        ));
                    }
                }
            }
            index += 1;
        }
        Ok(AddressSpace { page_table })
    }

    /// The value that the address-translation register of a hart takes to
    /// run in this address space: the mode of SV39 above the page number of
    /// the root table. Writing it, between two full fences, is left to the
    /// code that owns the hart.
    pub fn make_current(&self) -> (satp: u64)
        requires
            self.wf(),
        ensures
            satp == 0x8000_0000_0000_0000 + self.root_address() / 4096,
    {
        0x8000_0000_0000_0000u64 + (self.page_table.page_address / PAGE_SIZE)
    }

    /// Takes the lowest free frame and maps it at `virtual_address`, as a
    /// page that the table manages: unmapping it returns it to the free
    /// pages. Where the page cannot be mapped the frame goes back to the
    /// free pages before the error is returned.
    pub fn allocate_page(
        &mut self,
        pool: &mut FreePageList,
        virtual_address: u64,
        permissions: Permissions,
    ) -> (result: Result<(), PageTableError>)
        requires
            old(self).wf(),
            old(pool).wf(),
            frames_encodable(old(pool)),
            permissions.grants_access(),
        ensures
            final(self).wf(),
            final(pool).wf(),
            frames_encodable(final(pool)),
            final(self).root_address() == old(self).root_address(),
            old(pool)@.len() == 0 ==> result == Err::<(), PageTableError>(
                PageTableError::OutOfMemory,
            ) && final(pool)@ == old(pool)@,
            old(pool)@.len() > 0 ==> result == if virtual_address % 4096 != 0 {
                Err(PageTableError::UnalignedAddress)
            } else if old(pool)@[0] == 0 {
                Err(PageTableError::NullAddress)
            } else {
                old(self).table().map_outcome(2, virtual_address, (old(pool)@.len() - 1) as nat)
            },
            result is Ok ==> {
                &&& final(self).mapping(virtual_address) == Some(
                    Mapping {
                        physical_address: old(pool)@[0],
                        permissions: permissions,
                        management: PageManagement::Automatic,
                    },
                )
                &&& final(self).translate(virtual_address) == Ok::<u64, PageTableError>(
                    old(pool)@[0],
                )
                &&& forall|other: u64|
                    !same_slot(2, virtual_address, other) ==> #[trigger] final(self).mapping(other)
                        == old(self).mapping(other)
                &&& final(pool)@ == old(pool)@.subrange(
                    1 + old(self).table().missing(2, virtual_address) as int,
                    old(pool)@.len() as int,
                )
            },
            result is Err ==> {
                &&& forall|other: u64| #[trigger]
                    final(self).mapping(other) == old(self).mapping(other)
                &&& old(pool)@.len() > 0 && old(pool)@[0] != 0 ==> final(pool).contains(
                    old(pool)@[0],
                )
                &&& forall|frame: u64| final(pool).contains(frame) ==> old(pool).contains(frame)
            },
    {
        let ghost start = *pool;
        let page = match remove_free_page(pool) {
            Some(page) => page,
            None => {
                return Err(PageTableError::OutOfMemory);
            },
        };
        let ghost middle = *pool;
        proof {
            assert(start@[0] < PHYSICAL_ADDRESS_LIMIT);
            assert forall|i: int| 0 <= i < pool@.len() implies #[trigger] pool@[i]
                < PHYSICAL_ADDRESS_LIMIT by {
                assert(pool@[i] == start@[i + 1]);
            }
        }
        let result = self.page_table.value.map_page(
            pool,
            virtual_address,
            page,
            permissions,
            PageManagement::Automatic,
        );
        if result.is_err() {
            let ghost after = *pool;
            proof {
                assert forall|frame: u64| after.contains(frame) implies start.contains(frame) by {
                    if result == Err::<(), PageTableError>(PageTableError::OutOfMemory) {
                        assert(after@.len() == 0);
                    } else {
                        let i = choose|i: int| 0 <= i < middle@.len() && middle@[i] == frame;
                        assert(start@[i + 1] == frame);
                    }
                }
            }
            if page != 0 {
                give_back(pool, page);
            }
            return result;
        }
        proof {
            old(self).page_table.value.lemma_walk(2, virtual_address);
            let missing = old(self).table().missing(2, virtual_address) as int;
            assert(pool@ == start@.subrange(1 + missing, start@.len() as int)) by {
                assert(pool@ == middle@.subrange(missing, middle@.len() as int));
                assert(middle@ == start@.subrange(1, start@.len() as int));
            }
        }
        Ok(())
    }

    /// Unmaps the page at `virtual_address` and returns its frame to the
    /// free pages: a page that the mapper manages as well as one that the
    /// table manages. A shared page is unmapped and left alone.
    pub fn free_page(&mut self, pool: &mut FreePageList, virtual_address: u64) -> (result: Result<
        (),
        PageTableError,
    >)
        requires
            old(self).wf(),
            old(pool).wf(),
            frames_encodable(old(pool)),
        ensures
            final(self).wf(),
            final(pool).wf(),
            frames_encodable(final(pool)),
            final(self).root_address() == old(self).root_address(),
            result is Ok <==> virtual_address % 4096 == 0 && old(self).mapping(virtual_address)
                is Some,
            result matches Err(e) ==> Err::<Option<u64>, PageTableError>(e)
                == if virtual_address % 4096 != 0 {
                Err(PageTableError::UnalignedAddress)
            } else {
                old(self).table().unmap_outcome(2, virtual_address)
            },
            result is Ok ==> {
                &&& final(self).mapping(virtual_address) is None
                &&& final(self).translate(virtual_address) == Err::<u64, PageTableError>(
                    PageTableError::NotMapped,
                )
                &&& forall|other: u64|
                    !same_slot(2, virtual_address, other) ==> #[trigger] final(self).mapping(other)
                        == old(self).mapping(other)
                &&& forall|frame: u64|
                    final(pool).contains(frame) <==> (old(pool).contains(frame) || frees(
                        old(self).mapping(virtual_address).unwrap(),
                        frame,
                    ))
            },
            result is Err ==> final(pool)@ == old(pool)@ && forall|other: u64|
                #[trigger] final(self).mapping(other) == old(self).mapping(other),
    {
        proof {
            self.page_table.value.lemma_walk(2, virtual_address);
        }
        let page = match self.page_table.value.unmap_page(pool, virtual_address) {
            Ok(page) => page,
            Err(e) => {
                return Err(e);
            },
        };
        if let Some(page) = page {
            if page != 0 {
                give_back(pool, page);
            }
        }
        Ok(())
    }

    /// Maps the page at `virtual_address` to the page at
    /// `physical_address`, which the caller owns and keeps managing.
    pub fn map_page(
        &mut self,
        pool: &mut FreePageList,
        virtual_address: u64,
        physical_address: u64,
        permissions: Permissions,
    ) -> (result: Result<(), PageTableError>)
        requires
            old(self).wf(),
            old(pool).wf(),
            frames_encodable(old(pool)),
            physical_address < PHYSICAL_ADDRESS_LIMIT,
            permissions.grants_access(),
        ensures
            final(self).wf(),
            final(pool).wf(),
            frames_encodable(final(pool)),
            final(self).root_address() == old(self).root_address(),
            result == if virtual_address % 4096 != 0 || physical_address % 4096 != 0 {
                Err(PageTableError::UnalignedAddress)
            } else if physical_address == 0 {
                Err(PageTableError::NullAddress)
            } else {
                old(self).table().map_outcome(2, virtual_address, old(pool)@.len())
            },
            result is Ok ==> {
                &&& final(self).mapping(virtual_address) == Some(
                    Mapping {
                        physical_address: physical_address,
                        permissions: permissions,
                        management: PageManagement::Manual,
                    },
                )
                &&& final(self).translate(virtual_address) == Ok::<u64, PageTableError>(
                    physical_address,
                )
                &&& forall|other: u64|
                    !same_slot(2, virtual_address, other) ==> #[trigger] final(self).mapping(other)
                        == old(self).mapping(other)
                &&& final(pool)@ == old(pool)@.subrange(
                    old(self).table().missing(2, virtual_address) as int,
                    old(pool)@.len() as int,
                )
            },
            result is Err ==> forall|other: u64|
                #[trigger] final(self).mapping(other) == old(self).mapping(other),
            result == Err::<(), PageTableError>(PageTableError::OutOfMemory) ==> final(pool)@.len()
                == 0,
            result is Err && result != Err::<(), PageTableError>(PageTableError::OutOfMemory)
                ==> final(pool)@ == old(pool)@,
    {
        self.page_table.value.map_page(
            pool,
            virtual_address,
            physical_address,
            permissions,
            PageManagement::Manual,
        )
    }

    /// Unmaps the page at `virtual_address`, which the mapper manages, and
    /// gives its physical address. The free pages stay as they are.
    pub fn unmap_page(&mut self, pool: &mut FreePageList, virtual_address: u64) -> (result: Result<
        u64,
        PageTableError,
    >)
        requires
            old(self).wf(),
            old(pool).wf(),
            frames_encodable(old(pool)),
            old(self).mapping(virtual_address) matches Some(mapping) ==> mapping.management
                == PageManagement::Manual,
        ensures
            final(self).wf(),
            final(pool).wf(),
            frames_encodable(final(pool)),
            final(pool)@ == old(pool)@,
            final(self).root_address() == old(self).root_address(),
            result matches Ok(address) ==> {
                &&& virtual_address % 4096 == 0
                &&& old(self).mapping(virtual_address) matches Some(mapping)
                    && mapping.physical_address == address
                &&& final(self).mapping(virtual_address) is None
                &&& final(self).translate(virtual_address) == Err::<u64, PageTableError>(
                    PageTableError::NotMapped,
                )
                &&& forall|other: u64|
                    !same_slot(2, virtual_address, other) ==> #[trigger] final(self).mapping(other)
                        == old(self).mapping(other)
            },
            result matches Err(e) ==> {
                &&& Err::<Option<u64>, PageTableError>(e) == if virtual_address % 4096 != 0 {
                    Err(PageTableError::UnalignedAddress)
                } else {
                    old(self).table().unmap_outcome(2, virtual_address)
                }
                &&& forall|other: u64| #[trigger]
                    final(self).mapping(other) == old(self).mapping(other)
            },
    {
        let ghost start = *pool;
        proof {
            self.page_table.value.lemma_walk(2, virtual_address);
        }
        match self.page_table.value.unmap_page(pool, virtual_address) {
            Ok(Some(address)) => Ok(address),
            Ok(None) => {
                proof {
                    assert(false);
                }
                Err(PageTableError::NotMapped)
            },
            Err(e) => Err(e),
        }
    }

    /// The physical address that `virtual_address` translates to.
    pub fn get_physical_address(&self, virtual_address: u64) -> (result: Result<
        u64,
        PageTableError,
    >)
        requires
            self.wf(),
        ensures
            result == self.translate(virtual_address),
    {
        self.page_table.value.get_physical_address(virtual_address)
    }

    /// What the page of `virtual_address` is mapped to.
    pub fn get_mapping(&self, virtual_address: u64) -> (result: Result<Mapping, PageTableError>)
        requires
            self.wf(),
        ensures
            result is Ok <==> self.mapping(virtual_address) is Some,
            result matches Ok(mapping) ==> self.mapping(virtual_address) == Some(mapping),
    {
        self.page_table.value.get_mapping(virtual_address)
    }

    /// Gives up the address space: the pages of its tables and the pages
    /// that the tables manage return to the free pages.
    pub fn release(self, pool: &mut FreePageList)
        requires
            self.wf(),
            old(pool).wf(),
            frames_encodable(old(pool)),
        ensures
            final(pool).wf(),
            forall|frame: u64|
                final(pool).contains(frame) <==> (old(pool).contains(frame) || self.table().owns(
                    2,
                    frame,
                ) || (frame == self.root_address() && frame != 0)),
    {
        let page_table = self.page_table;
        let table = page_table.release(pool);
        proof {
            assert forall|i: int| 0 <= i < pool@.len() implies #[trigger] pool@[i]
                < PHYSICAL_ADDRESS_LIMIT by {
                assert(pool.contains(pool@[i]));
                if old(pool).contains(pool@[i]) {
                    let k = choose|k: int| 0 <= k < old(pool)@.len() && old(pool)@[k] == pool@[i];
                    assert(old(pool)@[k] < PHYSICAL_ADDRESS_LIMIT);
                }
            }
        }
        table.release(pool);
    }
}

/// Whether unmapping a page with the given mapping returns `frame` to the
/// free pages: the frame of a page that the mapper or the table manages.
pub open spec fn frees(mapping: Mapping, frame: u64) -> bool {
    frame == mapping.physical_address && frame != 0 && (mapping.management
        == PageManagement::Manual || mapping.management == PageManagement::Automatic)
}

/// The regions that every address space maps, in the order in which they
/// are mapped.
pub fn regions_of(kernel_memory: &KernelMemoryLayout, system_memory: &SystemMemory) -> (regions:
    Vec<Region>)
    ensures
        regions@ == layout(*kernel_memory, *system_memory),
{
    let only_read = Permissions::builder().readable().globally_accessible().build();
    let with_write = Permissions::builder().readable().writable().globally_accessible().build();
    let with_execute = Permissions::builder().readable().executable().globally_accessible().build();
    let nothing = Region { physical_address: 0, range: 0, permissions: only_read, virtualize: false };
    let mut regions: Vec<Region> = Vec::new();
    let ghost expected = layout(*kernel_memory, *system_memory);
    let mut i: usize = 0;
    while i < 4
        invariant
            i <= 4,
            regions@.len() == i,
            expected == layout(*kernel_memory, *system_memory),
            only_read == read_only(),
            nothing == no_region(),
            forall|k: int| 0 <= k < i ==> #[trigger] regions@[k] == expected[k],
        decreases 4 - i,
    {
        let region = match system_memory.flash_devices[i] {
            Some(device) => Region {
                physical_address: device.base_address,
                range: device.range,
                permissions: only_read,
                virtualize: false,
            },
            None => nothing,
        };
        regions.push(region);
        i += 1;
    }
    let mut i: usize = 0;
    while i < 32
        invariant
            i <= 32,
            regions@.len() == 4 + i,
            expected == layout(*kernel_memory, *system_memory),
            with_write == read_write(),
            nothing == no_region(),
            forall|k: int| 0 <= k < 4 + i ==> #[trigger] regions@[k] == expected[k],
        decreases 32 - i,
    {
        let region = match system_memory.mmio_regions[i] {
            Some(device) => Region {
                physical_address: device.base_address,
                range: device.range,
                permissions: with_write,
                virtualize: false,
            },
            None => nothing,
        };
        regions.push(region);
        i += 1;
    }
    regions.push(section(&kernel_memory.text, with_execute));
    regions.push(section(&kernel_memory.rodata, only_read));
    regions.push(section(&kernel_memory.data, with_write));
    regions.push(section(&kernel_memory.bss, with_write));
    regions.push(section(&kernel_memory.stack, with_write));
    regions.push(section(&kernel_memory.heap, with_write));
    let mut i: usize = 0;
    while i < 4
        invariant
            i <= 4,
            regions@.len() == 42 + i,
            expected == layout(*kernel_memory, *system_memory),
            with_write == read_write(),
            nothing == no_region(),
            forall|k: int| 0 <= k < 42 + i ==> #[trigger] regions@[k] == expected[k],
        decreases 4 - i,
    {
        let region = match system_memory.memory_devices[i] {
            Some(device) => Region {
                physical_address: device.base_address,
                range: device.range,
                permissions: with_write,
                virtualize: true,
            },
            None => nothing,
        };
        regions.push(region);
        i += 1;
    }
    assert(regions@ =~= expected);
    regions
}

/// The region of a section of the kernel image.
pub fn section(layout: &SectionLayout, permissions: Permissions) -> (region: Region)
    ensures
        region == section_region(*layout, permissions),
{
    Region {
        physical_address: layout.start,
        range: layout.size,
        permissions,
        virtualize: false,
    }
}

/// Address spaces with one layout translate alike: two spaces that map
/// what the same regions ask for give the same physical address for every
/// virtual address that is mapped.
pub proof fn lemma_same_layout(
    first: AddressSpace,
    second: AddressSpace,
    regions: Seq<Region>,
    virtual_base: u64,
)
    requires
        forall|address: u64|
            #[trigger] first.mapping(address) == layout_mapping(
                regions,
                regions.len(),
                virtual_base,
                address,
            ),
        forall|address: u64|
            #[trigger] second.mapping(address) == layout_mapping(
                regions,
                regions.len(),
                virtual_base,
                address,
            ),
    ensures
        forall|address: u64| #[trigger] first.mapping(address) == second.mapping(address),
        forall|address: u64|
            first.mapping(address) is Some ==> #[trigger] first.translate(address)
                == second.translate(address) && first.translate(address) == Ok::<
                u64,
                PageTableError,
            >((first.mapping(address).unwrap().physical_address + offset_of(address)) as u64),
{
    assert forall|address: u64| #[trigger] first.mapping(address) == second.mapping(address) by {
        assert(first.mapping(address) == layout_mapping(
            regions,
            regions.len(),
            virtual_base,
            address,
        ));
    }
    assert forall|address: u64| first.mapping(address) is Some implies #[trigger] first.translate(
        address,
    ) == second.translate(address) && first.translate(address) == Ok::<u64, PageTableError>(
        (first.mapping(address).unwrap().physical_address + offset_of(address)) as u64,
    ) by {
        assert(first.mapping(address) == second.mapping(address));
    }
}

} // verus!
