use xtra::memory::kernel::{KernelMemoryLayout, SectionLayout};
use xtra::memory::memory_device::{MemoryDevice, MmioRegion, SystemMemory};
use xtra::memory::mmu::free_page_list::{add_n_free_pages, is_kernel_page, is_mmio_page, FreePageList};
use xtra::memory::mmu::page_box::PageBox;
use xtra::memory::mmu::virtual_page_address::{
    align_down, align_up, init_virtual_base_offset, is_kernel_in_virtual_mode,
    set_kernel_in_virtual_mode, AddressError, KernelAddressing, VirtualPageAddress,
};
use xtra::memory::mmu::virtual_page_ptr::{virtualize_address, VirtualPagePtr};
use xtra::arch::mmu::page_table::PageTable;

const BASE: u64 = 0x0000_007F_77FF_F000;

fn addressing() -> KernelAddressing {
    let mut system = SystemMemory::empty();
    system.memory_devices[1] = Some(MemoryDevice { base_address: 0x8000_0000, range: 0x0800_0000 });
    system.memory_devices[3] = Some(MemoryDevice { base_address: 0x4000_0000, range: 0x1000 });
    let mut addressing = KernelAddressing::new();
    init_virtual_base_offset(&mut addressing, &system);
    addressing
}

#[test]
fn window_is_placed_below_the_highest_address() {
    let addressing = addressing();
    assert_eq!(addressing.highest_physical_address(), 0x8800_0000);
    assert_eq!(addressing.virtual_base_offset(), BASE);
    assert!(!is_kernel_in_virtual_mode(&addressing));
}

#[test]
fn window_for_ram_that_ends_inside_a_page() {
    let mut system = SystemMemory::empty();
    system.memory_devices[0] = Some(MemoryDevice { base_address: 0x8000_0000, range: 0x1801 });
    let mut addressing = KernelAddressing::new();
    init_virtual_base_offset(&mut addressing, &system);
    assert_eq!(addressing.highest_physical_address(), 0x8000_2000);
    assert_eq!(addressing.virtual_base_offset(), 0x7F_7FFF_D000);
}

#[test]
fn window_without_ram_sits_at_the_top() {
    let mut addressing = KernelAddressing::new();
    init_virtual_base_offset(&mut addressing, &SystemMemory::empty());
    assert_eq!(addressing.highest_physical_address(), 0);
    assert_eq!(addressing.virtual_base_offset(), 0x7F_FFFF_F000);
}

#[test]
fn addresses_are_aligned_to_pages() {
    assert_eq!(align_up(0), 0);
    assert_eq!(align_up(1), 0x1000);
    assert_eq!(align_up(0x1000), 0x1000);
    assert_eq!(align_up(0x1001), 0x2000);
    assert_eq!(align_down(0), 0);
    assert_eq!(align_down(0xfff), 0);
    assert_eq!(align_down(0x1000), 0x1000);
    assert_eq!(align_down(0x1fff), 0x1000);
    assert_eq!(align_down(u64::MAX), 0xFFFF_FFFF_FFFF_F000);
}

#[test]
fn physical_address_goes_into_the_window_and_back() {
    let addressing = addressing();
    let page = VirtualPageAddress::from_physical(&addressing, 0x8020_1000).unwrap();
    assert_eq!(page.to_virtual(), BASE + 0x8020_1000);
    assert_eq!(page.to_physical(&addressing), 0x8020_1000);
    assert_eq!(page.to_usize(&addressing), 0x8020_1000);
    let again = VirtualPageAddress::from_virtual(&addressing, BASE + 0x8020_1000).unwrap();
    assert_eq!(again, page);
    assert_eq!(VirtualPageAddress::from_ptr(&addressing, 0x8020_1000), Ok(page));
}

#[test]
fn mode_decides_the_form_of_a_raw_address() {
    let mut addressing = addressing();
    set_kernel_in_virtual_mode(&mut addressing);
    assert!(is_kernel_in_virtual_mode(&addressing));
    let page = VirtualPageAddress::from_ptr(&addressing, BASE + 0x8020_1000).unwrap();
    assert_eq!(page.to_physical(&addressing), 0x8020_1000);
    assert_eq!(page.to_usize(&addressing), BASE + 0x8020_1000);
    assert_eq!(
        VirtualPageAddress::from_ptr(&addressing, 0x8020_1000),
        Err(AddressError::BadVirtualAddress {
            address: 0x8020_1000,
            min: BASE,
            max: 0x7F_FFFF_FFFF
        })
    );
}

#[test]
fn bad_page_addresses_are_refused() {
    let addressing = addressing();
    assert_eq!(VirtualPageAddress::from_physical(&addressing, 0), Err(AddressError::Null));
    assert_eq!(VirtualPageAddress::from_virtual(&addressing, 0), Err(AddressError::Null));
    assert_eq!(
        VirtualPageAddress::from_physical(&addressing, 0x8020_1008),
        Err(AddressError::BadPageAlignment { address: 0x8020_1008, alignment: 4096 })
    );
    assert_eq!(
        VirtualPageAddress::from_virtual(&addressing, BASE + 1),
        Err(AddressError::BadPageAlignment { address: BASE + 1, alignment: 4096 })
    );
    assert_eq!(
        VirtualPageAddress::from_physical(&addressing, 0x8800_0000),
        Err(AddressError::BadPhysicalAddress { address: 0x8800_0000, max: 0x8800_0000 })
    );
    assert!(VirtualPageAddress::from_physical(&addressing, 0x87ff_f000).is_ok());
    assert_eq!(
        VirtualPageAddress::from_virtual(&addressing, BASE - 0x1000),
        Err(AddressError::BadVirtualAddress {
            address: BASE - 0x1000,
            min: BASE,
            max: 0x7F_FFFF_FFFF
        })
    );
    assert!(VirtualPageAddress::from_virtual(&addressing, BASE + 0x8800_0000).is_err());
    assert!(VirtualPageAddress::from_virtual(&addressing, BASE).is_ok());
}

#[test]
fn page_pointer_follows_the_mode() {
    let mut addressing = addressing();
    let pointer = VirtualPagePtr::<u64>::new(&addressing, 0x8020_1000).unwrap();
    assert_eq!(pointer.as_physical_address(&addressing), 0x8020_1000);
    assert_eq!(pointer.as_usize(&addressing), 0x8020_1000);
    assert_eq!(virtualize_address(&addressing, 0x8020_1000), BASE + 0x8020_1000);
    set_kernel_in_virtual_mode(&mut addressing);
    assert_eq!(pointer.as_physical_address(&addressing), 0x8020_1000);
    assert_eq!(pointer.as_usize(&addressing), BASE + 0x8020_1000);
    assert_eq!(virtualize_address(&addressing, 0x8020_1000), BASE + 0x8020_1000);
    let copy = pointer;
    assert_eq!(copy.clone().as_usize(&addressing), pointer.as_usize(&addressing));
    let other = VirtualPagePtr::<u64>::new_from_address(&addressing, BASE + 0x8020_2000).unwrap();
    assert_eq!(other.as_physical_address(&addressing), 0x8020_2000);
    assert!(VirtualPagePtr::<u64>::new(&addressing, 0x8020_1000).is_err());
}

#[test]
fn page_pointer_tells_the_two_address_spaces_apart() {
    let addressing = addressing();
    assert!(VirtualPagePtr::<u8>::is_in_physical_address_space(&addressing, 0x8020_1000));
    assert!(!VirtualPagePtr::<u8>::is_in_physical_address_space(&addressing, 0));
    assert!(!VirtualPagePtr::<u8>::is_in_physical_address_space(&addressing, 0x8800_0000));
    assert!(VirtualPagePtr::<u8>::is_in_virtual_address_space(&addressing, BASE));
    assert!(VirtualPagePtr::<u8>::is_in_virtual_address_space(&addressing, BASE + 0x8020_1000));
    assert!(!VirtualPagePtr::<u8>::is_in_virtual_address_space(&addressing, BASE - 1));
    assert!(!VirtualPagePtr::<u8>::is_in_virtual_address_space(&addressing, 0x8020_1000));
    assert_eq!(
        VirtualPagePtr::<u8>::from_physical(&addressing, 0x8020_1000)
            .unwrap()
            .as_physical_address(&addressing),
        0x8020_1000
    );
    assert_eq!(
        VirtualPagePtr::<u8>::from_virtual(&addressing, BASE + 0x8020_1000)
            .unwrap()
            .as_physical_address(&addressing),
        0x8020_1000
    );
    assert_eq!(VirtualPagePtr::<u8>::from_physical(&addressing, 0).err(), Some(AddressError::Null));
}

#[test]
fn sections_are_described_by_their_bounds() {
    let section = SectionLayout::between(0x8020_0000, 0x8020_2800);
    assert_eq!(section, SectionLayout { start: 0x8020_0000, end: 0x8020_2800, size: 0x2800 });
    let kernel = KernelMemoryLayout::new(&[
        (0x8020_0000, 0x8020_8000),
        (0x8020_0000, 0x8020_2000),
        (0x8020_2000, 0x8020_3000),
        (0x8020_3000, 0x8020_4000),
        (0x8020_4000, 0x8020_5000),
        (0x8020_5000, 0x8020_8000),
        (0x8020_8000, 0x8021_0000),
    ]);
    assert_eq!(kernel.kernel.size, 0x8000);
    assert_eq!(kernel.text.start, 0x8020_0000);
    assert_eq!(kernel.rodata.end, 0x8020_3000);
    assert_eq!(kernel.data.start, 0x8020_3000);
    assert_eq!(kernel.bss.size, 0x1000);
    assert_eq!(kernel.stack.size, 0x3000);
    assert_eq!(kernel.heap.end, 0x8021_0000);
    assert!(is_kernel_page(0x8020_0000, &kernel));
    assert!(is_kernel_page(0x8020_7000, &kernel));
    assert!(is_kernel_page(0x8020_8000, &kernel));
    assert!(is_kernel_page(0x8020_f000, &kernel));
    assert!(!is_kernel_page(0x8021_0000, &kernel));
    assert!(!is_kernel_page(0x801f_f000, &kernel));
}

#[test]
fn device_registers_are_no_free_pages() {
    let mut system = SystemMemory::empty();
    system.mmio_regions[5] = Some(MmioRegion::from_range(0x1000_0000, 0x100));
    system.mmio_regions[9] = Some(MmioRegion::from_range(0x1000_8000, 0x2000));
    assert!(is_mmio_page(0x1000_0000, &system));
    assert!(!is_mmio_page(0x1000_1000, &system));
    assert!(is_mmio_page(0x1000_8000, &system));
    assert!(is_mmio_page(0x1000_9000, &system));
    assert!(!is_mmio_page(0x1000_a000, &system));
    assert!(!is_mmio_page(0x1000_7000, &system));
}

#[test]
fn page_box_takes_the_lowest_frame_and_gives_it_back() {
    let mut pool = FreePageList::new();
    assert!(PageBox::<PageTable>::new(&mut pool).is_none());
    add_n_free_pages(&mut pool, 0x8030_0000, 2);
    let boxed = PageBox::<PageTable>::new(&mut pool).unwrap();
    assert_eq!(boxed.page_address, 0x8030_0000);
    assert_eq!(pool.addresses(), vec![0x8030_1000]);
    assert!(boxed.value.get_physical_address(0x1000).is_err());
    boxed.release(&mut pool);
    assert_eq!(pool.addresses(), vec![0x8030_0000, 0x8030_1000]);
    let other = PageBox::<PageTable>::from_physical_address(0x8040_0000);
    assert_eq!(other.page_address, 0x8040_0000);
    other.release(&mut pool);
    assert_eq!(pool.addresses(), vec![0x8030_0000, 0x8030_1000, 0x8040_0000]);
}

#[test]
fn address_errors_are_described_in_text() {
    assert_eq!(AddressError::Null.describe(), b"Address is a null pointer".to_vec());
    assert_eq!(
        AddressError::BadVirtualAddress { address: 4096, min: 8192, max: 549755813887 }.describe(),
        b"Virtual address 4096 is outside of the valid range [8192, 549755813887]".to_vec()
    );
    assert_eq!(
        AddressError::BadPhysicalAddress { address: 2281701376, max: 2281701376 }.describe(),
        b"Physical address 2281701376 is outside of the valid range [0, 2281701376]".to_vec()
    );
    assert_eq!(
        AddressError::BadPageAlignment { address: 17, alignment: 4096 }.describe(),
        b"Address 17 is not properly aligned to a page boundary of 4096".to_vec()
    );
}
