use xtra::arch::mmu::page_table_entry::{PageManagement, PageTableEntry, Reclaim};

#[test]
fn new_entry_is_valid_and_points_nowhere() {
    let entry = PageTableEntry::new();
    assert!(entry.is_valid());
    assert!(entry.is_page_table_ptr());
    assert!(!entry.is_leaf());
    assert_eq!(entry.to_bits(), 1);
}

#[test]
fn invalid_entry_is_all_zero() {
    let entry = PageTableEntry::new_invalid();
    assert_eq!(entry.to_bits(), 0);
    assert!(!entry.is_valid());
    assert!(!entry.is_leaf());
    assert!(!entry.is_page_table_ptr());
    assert_eq!(PageTableEntry::default().to_bits(), 0);
}

#[test]
fn automatic_leaf_is_reclaimed_on_invalidation() {
    let mut entry = PageTableEntry::new();
    entry.set_readable(true);
    entry.set_writable(true);
    entry.set_page_management(PageManagement::Automatic);
    entry.set_physical_address(0x8020_1000);
    assert!(entry.is_leaf());
    assert_eq!(entry.get_physical_address(), 0x8020_1000);
    assert_eq!(entry.get_page_management(), PageManagement::Automatic);
    assert_eq!(entry.set_invalid(), Reclaim::Page(0x8020_1000));
    assert_eq!(entry.to_bits(), 0);
    assert!(!entry.is_valid());
}

#[test]
fn manual_and_shared_leaves_are_not_reclaimed() {
    for management in
        [PageManagement::Manual, PageManagement::CopyOnWrite, PageManagement::CowOwner]
    {
        let mut entry = PageTableEntry::new();
        entry.set_executable(true);
        entry.set_page_management(management);
        entry.set_physical_address(0x8020_1000);
        assert_eq!(entry.get_page_management(), management);
        assert_eq!(entry.set_invalid(), Reclaim::Nothing);
        assert_eq!(entry.to_bits(), 0);
    }
}

#[test]
fn automatic_leaf_at_address_zero_is_not_reclaimed() {
    let mut entry = PageTableEntry::new();
    entry.set_readable(true);
    entry.set_page_management(PageManagement::Automatic);
    assert_eq!(entry.set_invalid(), Reclaim::Nothing);
}

#[test]
fn table_pointer_gives_its_child_back() {
    let mut entry = PageTableEntry::new_page_table_ptr(0x8030_0000);
    assert!(entry.is_valid());
    assert!(entry.is_page_table_ptr());
    assert!(!entry.is_leaf());
    assert_eq!(entry.get_table_address(), 0x8030_0000);
    assert_eq!(entry.to_bits(), 1 | (0x8030_0000u64 >> 12 << 10));
    assert_eq!(entry.set_invalid(), Reclaim::ChildTable(0x8030_0000));
    assert_eq!(entry.to_bits(), 0);
}

#[test]
fn every_flag_reads_back_and_leaves_the_others() {
    let mut entry = PageTableEntry::new();
    entry.set_physical_address(0x0012_3456_7000);
    entry.set_page_management(PageManagement::CowOwner);
    entry.set_readable(true);
    assert_eq!(entry.to_bits(), 0x01 | 0x02 | 0x300 | (0x0012_3456_7000u64 >> 2));
    entry.set_writable(true);
    entry.set_executable(true);
    entry.set_user_accessible(true);
    entry.set_global(true);
    assert!(entry.is_readable() && entry.is_writable() && entry.is_executable());
    assert!(entry.is_user_accessible() && entry.is_global());
    assert!(!entry.is_accessed() && !entry.is_dirty());
    assert_eq!(entry.to_bits(), 0x3f | 0x300 | (0x0012_3456_7000u64 >> 2));
    entry.set_writable(false);
    entry.set_global(false);
    assert!(entry.is_readable() && !entry.is_writable() && entry.is_executable());
    assert!(entry.is_user_accessible() && !entry.is_global());
    assert_eq!(entry.get_physical_address(), 0x0012_3456_7000);
    assert_eq!(entry.get_page_management(), PageManagement::CowOwner);
    entry.set_readable(false);
    entry.set_executable(false);
    entry.set_user_accessible(false);
    assert_eq!(entry.to_bits(), 0x01 | 0x300 | (0x0012_3456_7000u64 >> 2));
}

#[test]
fn accessed_and_dirty_are_cleared() {
    let mut entry = PageTableEntry::from_bits(0x01 | 0x02 | 0x40 | 0x80);
    assert!(entry.is_accessed());
    assert!(entry.is_dirty());
    entry.clear_accessed();
    assert!(!entry.is_accessed());
    assert!(entry.is_dirty());
    entry.clear_dirty();
    assert!(!entry.is_dirty());
    assert_eq!(entry.to_bits(), 0x03);
}

#[test]
fn set_valid_clears_the_reserved_bits() {
    let mut entry = PageTableEntry::from_bits(0xFFC0_0000_0000_0000 | 0x02);
    assert!(!entry.is_valid());
    assert!(!entry.is_leaf());
    assert!(!entry.is_page_table_ptr());
    entry.set_valid();
    assert_eq!(entry.to_bits(), 0x03);
    assert!(entry.is_valid());
    assert!(entry.is_leaf());
}

#[test]
fn reserved_bits_make_an_entry_invalid() {
    let entry = PageTableEntry::from_bits(0x0040_0000_0000_0001);
    assert!(!entry.is_valid());
    assert!(!entry.is_page_table_ptr());
    assert!(!entry.is_leaf());
}

#[test]
fn largest_address_fits_the_page_number() {
    let mut entry = PageTableEntry::new();
    entry.set_readable(true);
    entry.set_physical_address(0x00FF_FFFF_FFFF_F000);
    assert_eq!(entry.get_physical_address(), 0x00FF_FFFF_FFFF_F000);
    assert_eq!(entry.to_bits(), 0x003F_FFFF_FFFF_FC00 | 0x03);
    entry.set_physical_address(0);
    assert_eq!(entry.to_bits(), 0x03);
}

#[test]
fn management_codes_sit_in_the_software_bits() {
    let mut entry = PageTableEntry::new();
    entry.set_page_management(PageManagement::Automatic);
    assert_eq!(entry.to_bits(), 0x101);
    entry.set_page_management(PageManagement::CopyOnWrite);
    assert_eq!(entry.to_bits(), 0x201);
    entry.set_page_management(PageManagement::CowOwner);
    assert_eq!(entry.to_bits(), 0x301);
    entry.set_page_management(PageManagement::Manual);
    assert_eq!(entry.to_bits(), 0x001);
}
