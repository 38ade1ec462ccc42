use xtra::arch::mmu::page_table::{Mapping, PageTable, PageTableError};
use xtra::arch::mmu::page_table_entry::PageManagement;
use xtra::arch::mmu::virtual_address::VirtualAddress;
use xtra::memory::mmu::free_page_list::{add_n_free_pages, FreePageList};
use xtra::memory::mmu::permissions::Permissions;

fn frames(first: u64, count: usize) -> FreePageList {
    let mut pool = FreePageList::new();
    add_n_free_pages(&mut pool, first, count);
    pool
}

fn read_write_pages() -> Permissions {
    Permissions::builder().readable().writable().build()
}

#[test]
fn map_translate_and_unmap_a_high_address() {
    let mut pool = frames(0x8030_0000, 8);
    let mut root = PageTable::from_physical_address(0x802f_f000);
    let mapped = root.map_page(
        &mut pool,
        0xFFFF_FFC0_0000_1000,
        0x8020_1000,
        read_write_pages(),
        PageManagement::Manual,
    );
    assert_eq!(mapped, Ok(()));
    assert_eq!(root.get_physical_address(0xFFFF_FFC0_0000_1123), Ok(0x8020_1123));
    assert_eq!(root.unmap_page(&mut pool, 0xFFFF_FFC0_0000_1000), Ok(Some(0x8020_1000)));
}

#[test]
fn mapping_takes_two_frames_for_the_tables_on_the_way() {
    let mut pool = frames(0x8030_0000, 8);
    let mut root = PageTable::from_physical_address(0x802f_f000);
    root.map_page(&mut pool, 0x4000_0000, 0x8020_1000, read_write_pages(), PageManagement::Manual)
        .unwrap();
    assert_eq!(pool.len(), 6);
    assert_eq!(pool.addresses()[0], 0x8030_2000);
    root.map_page(&mut pool, 0x4000_1000, 0x8020_2000, read_write_pages(), PageManagement::Manual)
        .unwrap();
    assert_eq!(pool.len(), 6);
    root.map_page(&mut pool, 0x4020_0000, 0x8020_3000, read_write_pages(), PageManagement::Manual)
        .unwrap();
    assert_eq!(pool.len(), 5);
    assert_eq!(root.get_physical_address(0x4000_0fff), Ok(0x8020_1fff));
    assert_eq!(root.get_physical_address(0x4000_1000), Ok(0x8020_2000));
    assert_eq!(root.get_physical_address(0x4020_0010), Ok(0x8020_3010));
}

#[test]
fn second_map_at_one_address_is_refused() {
    let mut pool = frames(0x8030_0000, 8);
    let mut root = PageTable::from_physical_address(0x802f_f000);
    let permissions = Permissions::builder().readable().executable().build();
    assert_eq!(
        root.map_page(&mut pool, 0x7000, 0x8020_1000, permissions, PageManagement::Manual),
        Ok(())
    );
    assert_eq!(root.get_physical_address(0x7000), Ok(0x8020_1000));
    let left = pool.addresses();
    assert_eq!(
        root.map_page(&mut pool, 0x7000, 0x8020_5000, permissions, PageManagement::Manual),
        Err(PageTableError::AlreadyMapped)
    );
    assert_eq!(pool.addresses(), left);
    assert_eq!(root.get_physical_address(0x7000), Ok(0x8020_1000));
    assert_eq!(root.unmap_page(&mut pool, 0x7000), Ok(Some(0x8020_1000)));
    assert_eq!(root.get_physical_address(0x7000), Err(PageTableError::NotMapped));
    assert_eq!(root.get_mapping(0x7000), Err(PageTableError::NotMapped));
    assert_eq!(
        root.map_page(&mut pool, 0x7000, 0x8020_5000, permissions, PageManagement::Manual),
        Ok(())
    );
    assert_eq!(root.get_physical_address(0x7004), Ok(0x8020_5004));
}

#[test]
fn unaligned_and_null_addresses_are_refused() {
    let mut pool = frames(0x8030_0000, 8);
    let mut root = PageTable::from_physical_address(0x802f_f000);
    let permissions = read_write_pages();
    assert_eq!(
        root.map_page(&mut pool, 0x7001, 0x8020_1000, permissions, PageManagement::Manual),
        Err(PageTableError::UnalignedAddress)
    );
    assert_eq!(
        root.map_page(&mut pool, 0x7000, 0x8020_1800, permissions, PageManagement::Manual),
        Err(PageTableError::UnalignedAddress)
    );
    assert_eq!(
        root.map_page(&mut pool, 0x7000, 0, permissions, PageManagement::Manual),
        Err(PageTableError::NullAddress)
    );
    assert_eq!(root.unmap_page(&mut pool, 0x7008), Err(PageTableError::UnalignedAddress));
    assert_eq!(pool.len(), 8);
}

#[test]
fn walk_through_an_empty_table_stops_at_the_root() {
    let mut pool = frames(0x8030_0000, 8);
    let mut root = PageTable::from_physical_address(0x802f_f000);
    assert_eq!(root.get_physical_address(0x7000), Err(PageTableError::IntermediateInvalid));
    assert_eq!(root.get_mapping(0x7000), Err(PageTableError::IntermediateInvalid));
    assert_eq!(root.unmap_page(&mut pool, 0x7000), Err(PageTableError::IntermediateInvalid));
    assert_eq!(pool.len(), 8);
    assert!(root.look_up_page_entry(2, &VirtualAddress::new(0x7000)).is_err());
}

#[test]
fn unmapped_neighbour_of_a_mapped_page_is_not_mapped() {
    let mut pool = frames(0x8030_0000, 8);
    let mut root = PageTable::from_physical_address(0x802f_f000);
    root.map_page(&mut pool, 0x7000, 0x8020_1000, read_write_pages(), PageManagement::Manual)
        .unwrap();
    assert_eq!(root.get_physical_address(0x8000), Err(PageTableError::NotMapped));
    assert_eq!(root.unmap_page(&mut pool, 0x8000), Err(PageTableError::NotMapped));
    assert_eq!(
        root.get_physical_address(0x4000_0000),
        Err(PageTableError::IntermediateInvalid)
    );
    assert_eq!(root.get_physical_address(0x20_0000), Err(PageTableError::IntermediateInvalid));
}

#[test]
fn mapping_without_free_frames_runs_out_of_memory() {
    let mut pool = frames(0x8030_0000, 1);
    let mut root = PageTable::from_physical_address(0x802f_f000);
    assert_eq!(
        root.map_page(&mut pool, 0x7000, 0x8020_1000, read_write_pages(), PageManagement::Manual),
        Err(PageTableError::OutOfMemory)
    );
    assert!(pool.is_empty());
    assert!(root.get_physical_address(0x7000).is_err());
    assert!(root.get_mapping(0x7000).is_err());
    pool.insert_page(xtra::memory::mmu::free_page_list::FreeMemoryPage::new(
        0x8030_1000,
        None,
        None,
    ));
    assert_eq!(
        root.map_page(&mut pool, 0x7000, 0x8020_1000, read_write_pages(), PageManagement::Manual),
        Ok(())
    );
    assert!(pool.is_empty());
    assert_eq!(root.get_physical_address(0x7000), Ok(0x8020_1000));
    root.release(&mut pool);
    assert_eq!(pool.addresses(), vec![0x8030_0000, 0x8030_1000]);
}

#[test]
fn mapping_reads_back_permissions_and_management() {
    let mut pool = frames(0x8030_0000, 8);
    let mut root = PageTable::from_physical_address(0x802f_f000);
    let permissions =
        Permissions::builder().readable().user_accessible().globally_accessible().build();
    root.map_page(&mut pool, 0x7000, 0x8020_1000, permissions, PageManagement::CopyOnWrite)
        .unwrap();
    assert_eq!(
        root.get_mapping(0x7abc),
        Ok(Mapping {
            physical_address: 0x8020_1000,
            permissions,
            management: PageManagement::CopyOnWrite
        })
    );
    let entry = root.look_up_page_entry(2, &VirtualAddress::new(0x7000)).unwrap();
    assert!(entry.is_leaf());
    assert!(entry.is_readable() && !entry.is_writable() && !entry.is_executable());
    assert!(entry.is_user_accessible() && entry.is_global());
    assert_eq!(entry.get_physical_address(), 0x8020_1000);
}

#[test]
fn automatic_page_returns_to_the_pool_on_unmap() {
    let mut pool = frames(0x8030_0000, 8);
    let mut root = PageTable::from_physical_address(0x802f_f000);
    root.map_page(&mut pool, 0x7000, 0x8020_1000, read_write_pages(), PageManagement::Automatic)
        .unwrap();
    assert!(!pool.is_free(0x8020_1000));
    assert_eq!(root.unmap_page(&mut pool, 0x7000), Ok(None));
    assert!(pool.is_free(0x8020_1000));
    assert_eq!(pool.len(), 7);
    assert_eq!(root.get_physical_address(0x7000), Err(PageTableError::NotMapped));
}

#[test]
fn shared_page_stays_out_of_the_pool_on_unmap() {
    let mut pool = frames(0x8030_0000, 8);
    let mut root = PageTable::from_physical_address(0x802f_f000);
    root.map_page(&mut pool, 0x7000, 0x8020_1000, read_write_pages(), PageManagement::CowOwner)
        .unwrap();
    assert_eq!(root.unmap_page(&mut pool, 0x7000), Ok(None));
    assert!(!pool.is_free(0x8020_1000));
    assert_eq!(pool.len(), 6);
}

#[test]
fn release_returns_tables_and_automatic_pages() {
    let mut pool = frames(0x8030_0000, 8);
    let mut root = PageTable::from_physical_address(0x802f_f000);
    let permissions = read_write_pages();
    root.map_page(&mut pool, 0x7000, 0x8020_1000, permissions, PageManagement::Automatic).unwrap();
    root.map_page(&mut pool, 0x8000, 0x8020_2000, permissions, PageManagement::Manual).unwrap();
    root.map_page(&mut pool, 0x4000_0000, 0x8020_3000, permissions, PageManagement::Automatic)
        .unwrap();
    root.map_page(&mut pool, 0x4000_1000, 0x8020_4000, permissions, PageManagement::CopyOnWrite)
        .unwrap();
    assert_eq!(pool.addresses(), vec![0x8030_4000, 0x8030_5000, 0x8030_6000, 0x8030_7000]);
    root.release(&mut pool);
    assert_eq!(
        pool.addresses(),
        vec![
            0x8020_1000,
            0x8020_3000,
            0x8030_0000,
            0x8030_1000,
            0x8030_2000,
            0x8030_3000,
            0x8030_4000,
            0x8030_5000,
            0x8030_6000,
            0x8030_7000
        ]
    );
}

#[test]
fn pages_in_every_corner_of_the_address_space() {
    let mut pool = frames(0x8030_0000, 16);
    let mut root = PageTable::from_physical_address(0x802f_f000);
    let permissions = read_write_pages();
    let pairs = [
        (0x0000_0000_0000_0000u64, 0x8020_1000u64),
        (0x0000_007F_FFFF_F000, 0x8020_2000),
        (0x0000_0000_3FFF_F000, 0x8020_3000),
        (0x0000_0000_4000_0000, 0x00FF_FFFF_FFFF_F000),
    ];
    for (virtual_address, physical_address) in pairs {
        assert_eq!(
            root.map_page(
                &mut pool,
                virtual_address,
                physical_address,
                permissions,
                PageManagement::Manual
            ),
            Ok(())
        );
    }
    for (virtual_address, physical_address) in pairs {
        assert_eq!(root.get_physical_address(virtual_address + 0xfff), Ok(physical_address + 0xfff));
    }
    assert_eq!(root.get_physical_address(0xFFFF_FFFF_FFFF_F000), Ok(0x8020_2000));
}
