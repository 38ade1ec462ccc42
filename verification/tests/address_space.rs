use xtra::arch::mmu::page_table::{Mapping, PageTableError};
use xtra::arch::mmu::page_table_entry::PageManagement;
use xtra::memory::kernel::KernelMemoryLayout;
use xtra::memory::memory_device::{FlashDevice, MemoryDevice, MmioRegion, SystemMemory};
use xtra::memory::mmu::address_space::{
    add_range, check_layout, check_region, page_count, AddressSpace, Region,
};
use xtra::memory::mmu::free_page_list::{add_n_free_pages, check_inventory, FreePageList};
use xtra::memory::mmu::permissions::Permissions;
use xtra::memory::mmu::virtual_page_address::{
    check_ram, init_virtual_base_offset, KernelAddressing,
};
use xtra::memory::mmu::{
    allocate_n_pages, allocate_page, convert_to_kernel_address_space, free_n_pages, free_page,
    get_kernel_memory_layout, get_system_memory_layout, init_memory_manager,
};

const WINDOW: u64 = 0x0000_007F_77FF_F000;

fn board() -> (KernelMemoryLayout, SystemMemory) {
    let kernel = KernelMemoryLayout::new(&[
        (0x8020_0000, 0x8020_8000),
        (0x8020_0000, 0x8020_2000),
        (0x8020_2000, 0x8020_3000),
        (0x8020_3000, 0x8020_4000),
        (0x8020_4000, 0x8020_5000),
        (0x8020_5000, 0x8020_8000),
        (0x8020_8000, 0x8021_0000),
    ]);
    let mut system = SystemMemory::empty();
    system.memory_devices[0] = Some(MemoryDevice { base_address: 0x8000_0000, range: 0x0800_0000 });
    system.mmio_regions[0] = Some(MmioRegion::from_range(0x1000_0000, 0x1000));
    (kernel, system)
}

fn kernel_pages() -> Permissions {
    Permissions::builder().readable().writable().globally_accessible().build()
}

fn built() -> (AddressSpace, FreePageList, KernelAddressing) {
    let (kernel, system) = board();
    let mut addressing = KernelAddressing::new();
    init_virtual_base_offset(&mut addressing, &system);
    let mut pool = FreePageList::new();
    add_n_free_pages(&mut pool, 0x8100_0000, 128);
    let space = AddressSpace::new(&mut pool, &kernel, &system, &addressing).unwrap();
    (space, pool, addressing)
}

#[test]
fn kernel_space_maps_devices_and_the_ram_window() {
    let (space, _, addressing) = built();
    assert_eq!(addressing.virtual_base_offset(), WINDOW);
    assert_eq!(addressing.highest_physical_address(), 0x8800_0000);
    assert_eq!(space.get_physical_address(0x1000_0000), Ok(0x1000_0000));
    let uart = space.get_mapping(0x1000_0000).unwrap();
    assert_eq!(uart.physical_address, 0x1000_0000);
    assert!(uart.permissions.readable && uart.permissions.writable);
    assert!(!uart.permissions.executable);
    assert!(!uart.permissions.user_accessible);
    assert_eq!(space.get_physical_address(WINDOW + 0x8000_0000), Ok(0x8000_0000));
    let ram = space.get_mapping(WINDOW + 0x8000_0000).unwrap();
    assert!(ram.permissions.readable && ram.permissions.writable);
    assert!(!ram.permissions.user_accessible);
    assert_eq!(ram.management, PageManagement::Manual);
}

#[test]
fn kernel_space_maps_the_image_where_it_lies() {
    let (space, _, _) = built();
    let text = space.get_mapping(0x8020_1000).unwrap();
    assert_eq!(text.physical_address, 0x8020_1000);
    assert!(text.permissions.readable && text.permissions.executable);
    assert!(!text.permissions.writable);
    let rodata = space.get_mapping(0x8020_2000).unwrap();
    assert!(rodata.permissions.readable);
    assert!(!rodata.permissions.writable && !rodata.permissions.executable);
    for address in [0x8020_3000u64, 0x8020_4000, 0x8020_5000, 0x8020_7000, 0x8020_8000, 0x8020_f000]
    {
        let mapping = space.get_mapping(address).unwrap();
        assert_eq!(
            mapping,
            Mapping {
                physical_address: address,
                permissions: kernel_pages(),
                management: PageManagement::Manual
            }
        );
    }
    assert!(space.get_physical_address(0x8021_0000).is_err());
    assert!(space.get_physical_address(0x801f_f000).is_err());
    assert!(space.get_physical_address(0x1000_1000).is_err());
}

#[test]
fn ram_window_covers_all_of_ram_and_no_more() {
    let (space, _, _) = built();
    assert_eq!(space.get_physical_address(WINDOW + 0x87ff_f123), Ok(0x87ff_f123));
    assert_eq!(space.get_physical_address(WINDOW + 0x8420_0010), Ok(0x8420_0010));
    assert!(space.get_physical_address(WINDOW + 0x7fff_f000).is_err());
    assert!(space.get_physical_address(0x8000_0000).is_err());
}

#[test]
fn two_spaces_from_one_inventory_translate_alike() {
    let (first, _, _) = built();
    let (kernel, system) = board();
    let mut addressing = KernelAddressing::new();
    init_virtual_base_offset(&mut addressing, &system);
    let mut pool = FreePageList::new();
    add_n_free_pages(&mut pool, 0x8300_0000, 100);
    let second = AddressSpace::new(&mut pool, &kernel, &system, &addressing).unwrap();
    let mut address: u64 = 0x1000_0000;
    while address < 0x1000_3000 {
        assert_eq!(first.get_mapping(address), second.get_mapping(address));
        address += 0x800;
    }
    address = 0x801f_0000;
    while address < 0x8022_0000 {
        assert_eq!(first.get_mapping(address), second.get_mapping(address));
        address += 0x1000;
    }
    address = WINDOW + 0x7fff_0000;
    while address < WINDOW + 0x8010_0000 {
        assert_eq!(first.get_physical_address(address), second.get_physical_address(address));
        address += 0x1000;
    }
    assert_ne!(first.make_current(), second.make_current());
}

#[test]
fn satp_names_the_root_table_in_sv39_mode() {
    let (space, _, _) = built();
    assert_eq!(space.make_current(), 0x8000_0000_0000_0000 | (0x8100_0000 >> 12));
}

#[test]
fn construction_without_frames_runs_out_of_memory() {
    let (kernel, system) = board();
    let mut addressing = KernelAddressing::new();
    init_virtual_base_offset(&mut addressing, &system);
    let mut pool = FreePageList::new();
    assert_eq!(
        AddressSpace::new(&mut pool, &kernel, &system, &addressing).err(),
        Some(PageTableError::OutOfMemory)
    );
    add_n_free_pages(&mut pool, 0x8100_0000, 3);
    assert_eq!(
        AddressSpace::new(&mut pool, &kernel, &system, &addressing).err(),
        Some(PageTableError::OutOfMemory)
    );
    assert!(pool.is_empty());
}

#[test]
fn overlapping_regions_are_refused() {
    let (kernel, mut system) = board();
    system.flash_devices[1] =
        Some(FlashDevice { base_address: 0x1000_0000, range: 0x2000, bank_width: 4 });
    let mut addressing = KernelAddressing::new();
    init_virtual_base_offset(&mut addressing, &system);
    let mut pool = FreePageList::new();
    add_n_free_pages(&mut pool, 0x8100_0000, 128);
    assert_eq!(
        AddressSpace::new(&mut pool, &kernel, &system, &addressing).err(),
        Some(PageTableError::AlreadyMapped)
    );
}

#[test]
fn allocated_page_is_the_lowest_free_frame_and_returns_on_free() {
    let (mut space, mut pool, _) = built();
    let lowest = pool.addresses()[0];
    let permissions = Permissions::new();
    assert_eq!(space.allocate_page(&mut pool, 0x4000_0000, permissions), Ok(()));
    assert_eq!(
        space.get_mapping(0x4000_0000),
        Ok(Mapping {
            physical_address: lowest,
            permissions,
            management: PageManagement::Automatic
        })
    );
    assert!(!pool.is_free(lowest));
    assert_eq!(space.free_page(&mut pool, 0x4000_0000), Ok(()));
    assert!(pool.is_free(lowest));
    assert!(space.get_mapping(0x4000_0000).is_err());
    assert!(space.free_page(&mut pool, 0x4000_0000).is_err());
}

#[test]
fn failed_allocation_gives_the_frame_back() {
    let (mut space, mut pool, _) = built();
    let before = pool.addresses();
    assert_eq!(
        space.allocate_page(&mut pool, 0x1000_0000, Permissions::new()),
        Err(PageTableError::AlreadyMapped)
    );
    assert_eq!(pool.addresses(), before);
    assert_eq!(
        space.allocate_page(&mut pool, 0x4000_0010, Permissions::new()),
        Err(PageTableError::UnalignedAddress)
    );
    assert_eq!(pool.addresses(), before);
    let mut empty = FreePageList::new();
    assert_eq!(
        space.allocate_page(&mut empty, 0x4000_0000, Permissions::new()),
        Err(PageTableError::OutOfMemory)
    );
}

#[test]
fn manual_page_is_mapped_and_unmapped() {
    let (mut space, mut pool, _) = built();
    let permissions = Permissions::builder().readable().writable().user_accessible().build();
    assert_eq!(space.map_page(&mut pool, 0x5000_0000, 0x8400_0000, permissions), Ok(()));
    assert_eq!(space.get_physical_address(0x5000_0abc), Ok(0x8400_0abc));
    assert_eq!(
        space.map_page(&mut pool, 0x5000_0000, 0x8400_1000, permissions),
        Err(PageTableError::AlreadyMapped)
    );
    let frames = pool.addresses();
    assert_eq!(space.unmap_page(&mut pool, 0x5000_0000), Ok(0x8400_0000));
    assert_eq!(pool.addresses(), frames);
    assert_eq!(space.get_physical_address(0x5000_0000), Err(PageTableError::NotMapped));
    assert_eq!(space.unmap_page(&mut pool, 0x5000_0000), Err(PageTableError::NotMapped));
}

#[test]
fn released_space_returns_its_tables() {
    let (kernel, system) = board();
    let mut addressing = KernelAddressing::new();
    init_virtual_base_offset(&mut addressing, &system);
    let mut pool = FreePageList::new();
    add_n_free_pages(&mut pool, 0x8100_0000, 128);
    let mut space = AddressSpace::new(&mut pool, &kernel, &system, &addressing).unwrap();
    assert!(pool.len() < 128);
    space.allocate_page(&mut pool, 0x4000_0000, Permissions::new()).unwrap();
    space.release(&mut pool);
    assert_eq!(pool.len(), 128);
    assert_eq!(pool.addresses()[0], 0x8100_0000);
    assert_eq!(pool.addresses()[127], 0x8107_f000);
}

#[test]
fn ranges_are_counted_in_whole_pages() {
    assert_eq!(page_count(0), 0);
    assert_eq!(page_count(1), 1);
    assert_eq!(page_count(4096), 1);
    assert_eq!(page_count(4097), 2);
    assert_eq!(page_count(0x0800_0000), 0x8000);
}

#[test]
fn range_is_mapped_page_by_page() {
    let mut pool = FreePageList::new();
    add_n_free_pages(&mut pool, 0x8100_0000, 8);
    let mut table = xtra::arch::mmu::page_table::PageTable::from_physical_address(0x80ff_f000);
    let region = Region {
        physical_address: 0x2000_0000,
        range: 0x2001,
        permissions: kernel_pages(),
        virtualize: true,
    };
    assert_eq!(add_range(&mut table, &mut pool, &region, 0x10_0000_0000), Ok(()));
    assert_eq!(table.get_physical_address(0x10_2000_0000), Ok(0x2000_0000));
    assert_eq!(table.get_physical_address(0x10_2000_2fff), Ok(0x2000_2fff));
    assert!(table.get_physical_address(0x10_2000_3000).is_err());
    assert!(table.get_physical_address(0x2000_0000).is_err());
}

#[test]
fn memory_manager_is_set_up_from_the_inventory() {
    let (kernel, system) = board();
    let mut manager = init_memory_manager(&kernel, &system).unwrap();
    assert_eq!(get_kernel_memory_layout(&manager), kernel);
    let found = get_system_memory_layout(&manager);
    assert_eq!(found.memory_devices, system.memory_devices);
    assert_eq!(found.flash_devices, system.flash_devices);
    assert_eq!(found.mmio_regions.to_vec(), system.mmio_regions.to_vec());
    assert_eq!(manager.addressing.virtual_base_offset(), WINDOW);
    assert!(!manager.addressing.virtual_mode);
    let space = manager.kernel_address_space.as_ref().unwrap();
    assert_eq!(space.get_physical_address(0x1000_0000), Ok(0x1000_0000));
    assert_eq!(space.get_physical_address(WINDOW + 0x8000_0000), Ok(0x8000_0000));
    assert_eq!(space.make_current(), 0x8000_0000_0000_0000 | 0x80000);
    assert!(!manager.free_pages.is_free(0x8000_0000));
    assert!(!manager.free_pages.is_free(0x8020_0000));
    assert!(!manager.free_pages.is_free(0x8020_f000));
    assert!(manager.free_pages.is_free(0x8021_0000));
    assert!(manager.free_pages.is_free(0x87ff_f000));
    assert!(!manager.free_pages.is_free(0x8800_0000));
    let satp = convert_to_kernel_address_space(&mut manager, 1);
    assert_eq!(satp, 0x8000_0000_0000_0000 | 0x80000);
    assert!(!manager.addressing.virtual_mode);
    convert_to_kernel_address_space(&mut manager, 0);
    assert!(manager.addressing.virtual_mode);
}

#[test]
fn memory_manager_hands_out_and_takes_back_frames() {
    let (kernel, mut system) = board();
    system.memory_devices[0] = Some(MemoryDevice { base_address: 0x8000_0000, range: 0x40_0000 });
    let mut manager = init_memory_manager(&kernel, &system).unwrap();
    let count = manager.free_pages.len();
    let first = allocate_page(&mut manager).unwrap();
    let second = allocate_page(&mut manager).unwrap();
    assert!(first < second);
    assert_eq!(manager.free_pages.len(), count - 2);
    free_page(&mut manager, first);
    assert!(manager.free_pages.is_free(first));
    assert_eq!(allocate_page(&mut manager), Some(first));
    let run = allocate_n_pages(&mut manager, 16).unwrap();
    for page in 0..16u64 {
        assert!(!manager.free_pages.is_free(run + page * 4096));
    }
    free_n_pages(&mut manager, run, 16);
    for page in 0..16u64 {
        assert!(manager.free_pages.is_free(run + page * 4096));
    }
    free_page(&mut manager, first);
    free_page(&mut manager, second);
    assert_eq!(manager.free_pages.len(), count);
    assert!(allocate_n_pages(&mut manager, 0x400).is_none());
    assert_eq!(manager.free_pages.len(), count);
}

#[test]
fn space_is_built_from_exactly_the_frames_it_needs() {
    let (kernel, system) = board();
    let mut addressing = KernelAddressing::new();
    init_virtual_base_offset(&mut addressing, &system);
    let mut pool = FreePageList::new();
    add_n_free_pages(&mut pool, 0x8100_0000, 128);
    let space = AddressSpace::new(&mut pool, &kernel, &system, &addressing).unwrap();
    let used = 128 - pool.len();
    assert_eq!(pool.addresses()[0], 0x8100_0000 + 4096 * used as u64);
    assert_eq!(space.make_current(), 0x8000_0000_0000_0000 | (0x8100_0000 >> 12));
    assert_eq!(used, 1 + 2 + 2 + 1 + 65);
    let mut enough = FreePageList::new();
    add_n_free_pages(&mut enough, 0x8100_0000, used);
    assert!(AddressSpace::new(&mut enough, &kernel, &system, &addressing).is_ok());
    assert!(enough.is_empty());
    let mut short = FreePageList::new();
    add_n_free_pages(&mut short, 0x8100_0000, used - 1);
    assert_eq!(
        AddressSpace::new(&mut short, &kernel, &system, &addressing).err(),
        Some(PageTableError::OutOfMemory)
    );
    assert!(short.is_empty());
}

#[test]
fn inventory_and_layout_are_checked_before_use() {
    let (kernel, system) = board();
    assert!(check_inventory(&system));
    assert!(check_ram(&system));
    assert!(check_layout(&kernel, &system, WINDOW));
    assert!(!check_layout(&kernel, &system, WINDOW + 1));
    assert!(check_layout(&kernel, &system, WINDOW + 0x1000));
    assert!(!check_layout(&kernel, &system, WINDOW + 0x2000));
    let mut unaligned = system;
    unaligned.memory_devices[0] = Some(MemoryDevice { base_address: 0x8000_0800, range: 0x800 });
    assert!(!check_inventory(&unaligned));
    let mut empty = system;
    empty.memory_devices[1] = Some(MemoryDevice { base_address: 0x9000_0000, range: 0 });
    assert!(!check_inventory(&empty));
    let mut ragged = system;
    ragged.memory_devices[1] = Some(MemoryDevice { base_address: 0x9000_0000, range: 0x1800 });
    assert!(!check_inventory(&ragged));
    let mut overlapping = system;
    overlapping.memory_devices[2] =
        Some(MemoryDevice { base_address: 0x8700_0000, range: 0x1000_0000 });
    assert!(!check_inventory(&overlapping));
    let mut sorted = system;
    sorted.memory_devices[2] = Some(MemoryDevice { base_address: 0x8800_0000, range: 0x1000_0000 });
    assert!(check_inventory(&sorted));
    let mut wrapping = system;
    wrapping.mmio_regions[31] = Some(MmioRegion::from_range(u64::MAX - 0xff, 0x100));
    assert!(!check_inventory(&wrapping));
    let mut high = system;
    high.memory_devices[3] =
        Some(MemoryDevice { base_address: 0x7F_FFFF_0000, range: 0x1_0000 });
    assert!(check_inventory(&high));
    assert!(!check_ram(&high));
    high.memory_devices[3] = Some(MemoryDevice { base_address: 0x7F_FFFE_0000, range: 0x1_0000 });
    assert!(check_ram(&high));
    let region = Region {
        physical_address: 0x1000_0000,
        range: 0x1001,
        permissions: kernel_pages(),
        virtualize: false,
    };
    assert!(check_region(&region, 0));
    assert!(!check_region(&region, 0x123));
    assert!(check_region(&region, u64::MAX & !0xfff));
    assert!(!check_region(&Region { virtualize: true, ..region }, 0x7F_F000_0000));
    assert!(check_region(&Region { virtualize: true, ..region }, 0x7F_EFFF_E000));
    assert!(!check_region(&Region { physical_address: 0x1000_0800, ..region }, 0));
    assert!(!check_region(&Region { physical_address: 0, ..region }, 0));
    assert!(check_region(&Region { physical_address: 0, range: 0, ..region }, 0));
    assert!(!check_region(&Region { range: 0x80_0000_0000, ..region }, 0));
    assert!(!check_region(
        &Region { permissions: Permissions::builder().user_accessible().build(), ..region },
        0
    ));
    assert!(Permissions::new().can_map());
    assert!(!Permissions::builder().globally_accessible().build().can_map());
}
