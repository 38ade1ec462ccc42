//! Page-level memory management: the free pages, the address spaces built
//! from them, and the addresses by which the kernel reaches page frames.
//!
//! The state of the memory manager is one value, which the kernel keeps
//! behind its lock for the free pages.

use vstd::prelude::*;
use crate::arch::mmu::HIGHEST_VIRTUAL_ADDRESS;
use crate::arch::mmu::PHYSICAL_ADDRESS_LIMIT;
use crate::arch::mmu::page_table::PageTableError;
use crate::arch::mmu::page_table::frames_encodable;
use crate::memory::kernel::KernelMemoryLayout;
use crate::memory::memory_device::SystemMemory;
use crate::memory::mmu::address_space::AddressSpace;
use crate::memory::mmu::address_space::layout;
use crate::memory::mmu::address_space::layout_mapping;
use crate::memory::mmu::address_space::layout_ok;
use crate::memory::mmu::address_space::layout_tables;
use crate::memory::mmu::address_space::layout_overlaps;
use crate::memory::mmu::free_page_list::FreePageList;
use crate::memory::mmu::free_page_list::add_free_page;
use crate::memory::mmu::free_page_list::add_n_free_pages;
use crate::memory::mmu::free_page_list::device_holds;
use crate::memory::mmu::free_page_list::in_run;
use crate::memory::mmu::free_page_list::init_free_page_list;
use crate::memory::mmu::free_page_list::inventory_fits;
use crate::memory::mmu::free_page_list::is_free_frame;
use crate::memory::mmu::free_page_list::remove_free_page;
use crate::memory::mmu::free_page_list::remove_n_free_pages;
use crate::memory::mmu::free_page_list::run_at;
use crate::memory::mmu::virtual_page_address::KernelAddressing;
use crate::memory::mmu::virtual_page_address::align_down_spec;
use crate::memory::mmu::virtual_page_address::align_up_spec;
use crate::memory::mmu::virtual_page_address::init_virtual_base_offset;
use crate::memory::mmu::virtual_page_address::lemma_ram_end_bounds;
use crate::memory::mmu::virtual_page_address::set_kernel_in_virtual_mode;

pub mod address_space;
pub mod free_page_list;
pub mod page_box;
pub mod permissions;
pub mod virtual_page_address;
pub mod virtual_page_ptr;

verus! {

/// The state of the memory manager.
pub struct MemoryManager {
    /// Where the kernel image lies.
    pub kernel_memory: KernelMemoryLayout,
    /// The memory found at boot.
    pub system_memory: SystemMemory,
    /// The addressing mode and the place of the linear window of RAM.
    pub addressing: KernelAddressing,
    /// The free page frames.
    pub free_pages: FreePageList,
    /// The address space of the kernel, once it is built.
    pub kernel_address_space: Option<AddressSpace>,
}

/// The base of the linear window of RAM for a memory inventory: as high as
/// all of RAM fits below the highest virtual address, on a page boundary.
pub open spec fn virtual_base_of(system_memory: SystemMemory) -> int {
    align_down_spec(HIGHEST_VIRTUAL_ADDRESS - align_up_spec(system_memory.ram_end(), 4096), 4096)
}

impl MemoryManager {
    /// What holds of the memory manager between calls.
    pub open spec fn wf(&self) -> bool {
        &&& self.addressing.wf()
        &&& self.free_pages.wf()
        &&& frames_encodable(&self.free_pages)
        &&& forall|i: int|
            0 <= i < self.free_pages@.len() ==> 0 < #[trigger] self.free_pages@[i]
                < self.addressing.highest_physical_address
        &&& self.kernel_address_space matches Some(space) ==> space.wf()
    }
}

/// Sets the memory manager up: places the linear window of RAM, collects
/// the frames that are free at boot, and builds the address space of the
/// kernel, whose tables take the first of the free frames.
pub fn init_memory_manager(kernel_memory: &KernelMemoryLayout, system_memory: &SystemMemory) -> (result:
    Result<MemoryManager, PageTableError>)
    requires
        kernel_memory.wf(),
        inventory_fits(*system_memory),
        system_memory.ram_end() + 4095 <= HIGHEST_VIRTUAL_ADDRESS,
        layout_ok(*kernel_memory, *system_memory, virtual_base_of(*system_memory) as u64),
    ensures
        result matches Ok(manager) ==> {
            &&& manager.wf()
            &&& manager.kernel_memory == *kernel_memory
            &&& manager.system_memory == *system_memory
            &&& !manager.addressing.virtual_mode
            &&& manager.addressing.virtual_base_offset == virtual_base_of(*system_memory)
            &&& manager.addressing.highest_physical_address == align_up_spec(
                system_memory.ram_end(),
                4096,
            )
            &&& manager.kernel_address_space is Some
            &&& forall|address: u64|
                #[trigger] manager.kernel_address_space.unwrap().mapping(address)
                    == layout_mapping(
                    layout(*kernel_memory, *system_memory),
                    46,
                    manager.addressing.virtual_base_offset,
                    address,
                )
            &&& forall|frame: u64|
                manager.free_pages.contains(frame) ==> frame != 0 && is_free_frame(
                    *kernel_memory,
                    *system_memory,
                    frame,
                )
        },
        result is Ok ==> !layout_overlaps(
            layout(*kernel_memory, *system_memory),
            virtual_base_of(*system_memory) as u64,
        ),
        result is Err ==> (result->Err_0 == PageTableError::OutOfMemory && boot_frames(
            *kernel_memory,
            *system_memory,
        ).len() <= layout_tables(
            layout(*kernel_memory, *system_memory),
            46,
            virtual_base_of(*system_memory) as u64,
        )) || (result->Err_0 == PageTableError::AlreadyMapped && layout_overlaps(
            layout(*kernel_memory, *system_memory),
            virtual_base_of(*system_memory) as u64,
        )),
{
    let mut addressing = KernelAddressing::new();
    init_virtual_base_offset(&mut addressing, system_memory);
    let mut free_pages = collect_free_pages(kernel_memory, system_memory);
    let space = match AddressSpace::new(&mut free_pages, kernel_memory, system_memory, &addressing) {
        Ok(space) => space,
        Err(e) => {
            return Err(e);
        },
    };
    proof {
        assert forall|i: int| 0 <= i < free_pages@.len() implies 0 < #[trigger] free_pages@[i]
            < addressing.highest_physical_address by {
            assert(free_pages.contains(free_pages@[i]));
        }
    }
    Ok(
        MemoryManager {
            kernel_memory: *kernel_memory,
            system_memory: *system_memory,
            addressing,
            free_pages,
            kernel_address_space: Some(space),
        },
    )
}

/// The frames that can be handed out after boot: those that are free at
/// boot, but for the frame at address zero, which no page pointer can
/// name.
pub open spec fn boot_frames(kernel_memory: KernelMemoryLayout, system_memory: SystemMemory) -> Set<
    u64,
> {
    Set::new(|frame: u64| frame != 0 && is_free_frame(kernel_memory, system_memory, frame))
}

/// The frames that are free at boot, but for the frame at address zero,
/// which no page pointer can name.
pub fn collect_free_pages(kernel_memory: &KernelMemoryLayout, system_memory: &SystemMemory) -> (free_pages:
    FreePageList)
    requires
        kernel_memory.wf(),
        inventory_fits(*system_memory),
        system_memory.ram_end() + 4095 <= HIGHEST_VIRTUAL_ADDRESS,
    ensures
        free_pages.wf(),
        frames_encodable(&free_pages),
        forall|frame: u64|
            free_pages.contains(frame) <==> (frame != 0 && is_free_frame(
                *kernel_memory,
                *system_memory,
                frame,
            )),
        forall|frame: u64|
            free_pages.contains(frame) ==> frame < align_up_spec(system_memory.ram_end(), 4096),
        free_pages@.to_set() == boot_frames(*kernel_memory, *system_memory),
        boot_frames(*kernel_memory, *system_memory).finite(),
        free_pages@.len() == boot_frames(*kernel_memory, *system_memory).len(),
{
    let mut free_pages = FreePageList::new();
    init_free_page_list(&mut free_pages, kernel_memory, system_memory);
    let ghost all = free_pages;
    if free_pages.is_free(0) {
        proof {
            free_pages.lemma_order();
            let i = choose|i: int| 0 <= i < all@.len() && all@[i] == 0;
            assert(i == 0) by {
                if i > 0 {
                    assert(all@[0] < all@[i]);
                }
            }
        }
        let _ = remove_free_page(&mut free_pages);
    }
    proof {
        assert forall|frame: u64|
            free_pages.contains(frame) <==> (frame != 0 && all.contains(frame)) by {
            if all.contains(0) {
                if free_pages.contains(frame) {
                    let i = choose|i: int| 0 <= i < free_pages@.len() && free_pages@[i] == frame;
                    assert(all@[i + 1] == frame);
                    assert(all@[0] < all@[i + 1]);
                }
                if frame != 0 && all.contains(frame) {
                    let i = choose|i: int| 0 <= i < all@.len() && all@[i] == frame;
                    assert(free_pages@[i - 1] == frame);
                }
            }
        }
        assert forall|frame: u64| free_pages.contains(frame) implies frame < align_up_spec(
            system_memory.ram_end(),
            4096,
        ) by {
            assert(all.contains(frame));
            lemma_collected(*kernel_memory, *system_memory, frame);
        }
        assert forall|i: int| 0 <= i < free_pages@.len() implies #[trigger] free_pages@[i]
            < PHYSICAL_ADDRESS_LIMIT by {
            assert(free_pages.contains(free_pages@[i]));
        }
        free_pages.lemma_order();
        free_pages@.unique_seq_to_set();
        assert(free_pages@.to_set() =~= boot_frames(*kernel_memory, *system_memory)) by {
            assert forall|frame: u64|
                free_pages@.to_set().contains(frame) <==> boot_frames(
                    *kernel_memory,
                    *system_memory,
                ).contains(frame) by {
                assert(free_pages.contains(frame) <==> free_pages@.to_set().contains(frame));
            }
        }
    }
    free_pages
}

/// A frame that is free at boot lies below the end of RAM.
pub proof fn lemma_collected(
    kernel_memory: KernelMemoryLayout,
    system_memory: SystemMemory,
    frame: u64,
)
    requires
        is_free_frame(kernel_memory, system_memory, frame),
    ensures
        frame < system_memory.ram_end(),
        frame < align_up_spec(system_memory.ram_end(), 4096),
{
    let i = choose|i: int| 0 <= i < 4 && #[trigger] device_holds(system_memory, i, frame);
    lemma_ram_end_bounds(system_memory, i);
}

/// Where the kernel image lies.
pub fn get_kernel_memory_layout(manager: &MemoryManager) -> (layout: KernelMemoryLayout)
    ensures
        layout == manager.kernel_memory,
{
    manager.kernel_memory
}

/// The memory found at boot.
pub fn get_system_memory_layout(manager: &MemoryManager) -> (layout: SystemMemory)
    ensures
        layout == manager.system_memory,
{
    manager.system_memory
}

/// Moves a hart into the address space of the kernel: gives the value for
/// its address-translation register, and records the switch to virtual
/// mode when the hart is the first. The address space must have been built.
pub fn convert_to_kernel_address_space(manager: &mut MemoryManager, core_index: u64) -> (satp: u64)
    requires
        old(manager).wf(),
        old(manager).kernel_address_space is Some,
    ensures
        final(manager).wf(),
        satp == 0x8000_0000_0000_0000 + old(manager).kernel_address_space.unwrap().root_address()
            / 4096,
        final(manager).addressing.virtual_mode == (old(manager).addressing.virtual_mode
            || core_index == 0),
        final(manager).addressing.virtual_base_offset == old(manager).addressing.virtual_base_offset,
        final(manager).addressing.highest_physical_address == old(manager).addressing.highest_physical_address,
        final(manager).free_pages == old(manager).free_pages,
        final(manager).kernel_address_space == old(manager).kernel_address_space,
{
    let satp = match &manager.kernel_address_space {
        Some(space) => space.make_current(),
        None => 0,
    };
    if core_index == 0 {
        set_kernel_in_virtual_mode(&mut manager.addressing);
    }
    satp
}

/// Takes the lowest free frame and gives its physical address, or nothing
/// where no frame is free.
pub fn allocate_page(manager: &mut MemoryManager) -> (address: Option<u64>)
    requires
        old(manager).wf(),
    ensures
        final(manager).wf(),
        final(manager).addressing == old(manager).addressing,
        final(manager).kernel_address_space == old(manager).kernel_address_space,
        old(manager).free_pages@.len() == 0 ==> address is None && final(manager).free_pages@
            == old(manager).free_pages@,
        old(manager).free_pages@.len() > 0 ==> address == Some(old(manager).free_pages@[0])
            && final(manager).free_pages@ == old(manager).free_pages@.subrange(
            1,
            old(manager).free_pages@.len() as int,
        ),
{
    let ghost before = manager.free_pages;
    let address = remove_free_page(&mut manager.free_pages);
    proof {
        assert forall|i: int| 0 <= i < manager.free_pages@.len() implies 0
            < #[trigger] manager.free_pages@[i] < manager.addressing.highest_physical_address
            && manager.free_pages@[i] < PHYSICAL_ADDRESS_LIMIT by {
            if before@.len() > 0 {
                assert(manager.free_pages@[i] == before@[i + 1]);
            }
        }
    }
    address
}

/// Returns the frame at `physical_page_address` to the free pages. The
/// address must be that of a page of RAM, and the frame must not be free
/// already.
pub fn free_page(manager: &mut MemoryManager, physical_page_address: u64)
    requires
        old(manager).wf(),
        physical_page_address % 4096 == 0,
        0 < physical_page_address < old(manager).addressing.highest_physical_address,
        !old(manager).free_pages.contains(physical_page_address),
    ensures
        final(manager).wf(),
        final(manager).addressing == old(manager).addressing,
        final(manager).kernel_address_space == old(manager).kernel_address_space,
        forall|frame: u64|
            final(manager).free_pages.contains(frame) <==> (old(manager).free_pages.contains(frame)
                || frame == physical_page_address),
        final(manager).free_pages@.len() == old(manager).free_pages@.len() + 1,
{
    let ghost before = manager.free_pages;
    add_free_page(&mut manager.free_pages, physical_page_address);
    proof {
        assert forall|i: int| 0 <= i < manager.free_pages@.len() implies 0
            < #[trigger] manager.free_pages@[i] < manager.addressing.highest_physical_address
            && manager.free_pages@[i] < PHYSICAL_ADDRESS_LIMIT by {
            let frame = manager.free_pages@[i];
            assert(manager.free_pages.contains(frame));
            if before.contains(frame) {
                let k = choose|k: int| 0 <= k < before@.len() && before@[k] == frame;
                assert(0 < before@[k] < manager.addressing.highest_physical_address);
            }
        }
    }
}

/// Takes `count` free frames that lie one after the other in memory, those
/// of the first such run from the lowest frame on, and gives the address
/// of the lowest of them. Where there is no such run nothing changes.
pub fn allocate_n_pages(manager: &mut MemoryManager, count: usize) -> (address: Option<u64>)
    requires
        old(manager).wf(),
        count > 0,
    ensures
        final(manager).wf(),
        final(manager).addressing == old(manager).addressing,
        final(manager).kernel_address_space == old(manager).kernel_address_space,
        address is None ==> final(manager).free_pages@ == old(manager).free_pages@ && forall|
            i: int,
        | !run_at(old(manager).free_pages@, i, count as int),
        address matches Some(first) ==> exists|i: int|
            {
                &&& #[trigger] run_at(old(manager).free_pages@, i, count as int)
                &&& forall|j: int| 0 <= j < i ==> !run_at(old(manager).free_pages@, j, count as int)
                &&& first == old(manager).free_pages@[i]
                &&& final(manager).free_pages@ == old(manager).free_pages@.subrange(0, i) + old(manager).free_pages@.subrange(i + count, old(manager).free_pages@.len() as int)
            },
{
    let ghost before = manager.free_pages;
    let address = remove_n_free_pages(&mut manager.free_pages, count);
    proof {
        if address is Some {
            let at = choose|i: int|
                {
                    &&& #[trigger] run_at(before@, i, count as int)
                    &&& manager.free_pages@ == before@.subrange(0, i) + before@.subrange(
                        i + count,
                        before@.len() as int,
                    )
                };
            assert forall|i: int| 0 <= i < manager.free_pages@.len() implies 0
                < #[trigger] manager.free_pages@[i] < manager.addressing.highest_physical_address
                && manager.free_pages@[i] < PHYSICAL_ADDRESS_LIMIT by {
                if i < at {
                    assert(manager.free_pages@[i] == before@[i]);
                } else {
                    assert(manager.free_pages@[i] == before@[i + count]);
                }
            }
        }
    }
    address
}

/// Returns `count` frames to the free pages, those that lie one after the
/// other from `physical_page_address` on. They must be pages of RAM, none
/// of them may be free already, and no free frame may lie between them.
pub fn free_n_pages(manager: &mut MemoryManager, physical_page_address: u64, count: usize)
    requires
        old(manager).wf(),
        physical_page_address % 4096 == 0,
        count > 0,
        0 < physical_page_address,
        physical_page_address + count * 4096 <= old(manager).addressing.highest_physical_address,
        forall|frame: u64|
            old(manager).free_pages.contains(frame) ==> frame < physical_page_address || frame
                > physical_page_address + (count - 1) * 4096,
    ensures
        final(manager).wf(),
        final(manager).addressing == old(manager).addressing,
        final(manager).kernel_address_space == old(manager).kernel_address_space,
        forall|frame: u64|
            final(manager).free_pages.contains(frame) <==> (old(manager).free_pages.contains(frame)
                || in_run(
                physical_page_address,
                (physical_page_address + (count - 1) * 4096) as u64,
                frame,
            )),
        final(manager).free_pages@.len() == old(manager).free_pages@.len() + count,
{
    let ghost before = manager.free_pages;
    add_n_free_pages(&mut manager.free_pages, physical_page_address, count);
    proof {
        assert forall|i: int| 0 <= i < manager.free_pages@.len() implies 0
            < #[trigger] manager.free_pages@[i] < manager.addressing.highest_physical_address
            && manager.free_pages@[i] < PHYSICAL_ADDRESS_LIMIT by {
            let frame = manager.free_pages@[i];
            assert(manager.free_pages.contains(frame));
            if before.contains(frame) {
                let k = choose|k: int| 0 <= k < before@.len() && before@[k] == frame;
                assert(0 < before@[k] < manager.addressing.highest_physical_address);
            }
        }
    }
}

} // verus!
