use xtra::boot::block_device::{BlockDevice, DriveError, DriveNode, Registers};
use xtra::device_tree::{
    filter_device_name, validate_dtb, Block, DeviceTree, DeviceTreeError, Property, Span, Token,
};
use xtra::memory::memory_device::{
    trim_end, FlashDevice, InventoryError, MemoryDevice, MmioRegion, SystemMemory,
};

struct Blob {
    structure: Vec<u8>,
    strings: Vec<u8>,
}

impl Blob {
    fn new() -> Self {
        Blob { structure: Vec::new(), strings: Vec::new() }
    }

    fn word(&mut self, value: u32) -> &mut Self {
        self.structure.extend_from_slice(&value.to_be_bytes());
        self
    }

    fn pad(&mut self) {
        while self.structure.len() % 4 != 0 {
            self.structure.push(0);
        }
    }

    fn begin(&mut self, name: &str) -> &mut Self {
        self.word(1);
        self.structure.extend_from_slice(name.as_bytes());
        self.structure.push(0);
        self.pad();
        self
    }

    fn end(&mut self) -> &mut Self {
        self.word(2)
    }

    fn nop(&mut self) -> &mut Self {
        self.word(4)
    }

    fn property(&mut self, name: &str, value: &[u8]) -> &mut Self {
        let at = self.strings.len() as u32;
        self.strings.extend_from_slice(name.as_bytes());
        self.strings.push(0);
        self.word(3);
        self.word(value.len() as u32);
        self.word(at);
        self.structure.extend_from_slice(value);
        self.pad();
        self
    }

    fn registers(&mut self, base: u64, range: u64) -> &mut Self {
        let mut value = base.to_be_bytes().to_vec();
        value.extend_from_slice(&range.to_be_bytes());
        self.property("reg", &value)
    }

    fn finish(&mut self) -> Vec<u8> {
        self.word(9);
        let structure_at: u32 = 56;
        let strings_at = structure_at + self.structure.len() as u32;
        let total = strings_at + self.strings.len() as u32;
        let mut blob = Vec::new();
        for value in [
            0xd00d_feed,
            total,
            structure_at,
            strings_at,
            40,
            17,
            16,
            0,
            self.strings.len() as u32,
            self.structure.len() as u32,
        ] {
            blob.extend_from_slice(&value.to_be_bytes());
        }
        blob.extend_from_slice(&[0u8; 16]);
        blob.extend_from_slice(&self.structure);
        blob.extend_from_slice(&self.strings);
        blob
    }
}

fn board() -> Vec<u8> {
    let mut blob = Blob::new();
    blob.begin("");
    blob.property("compatible", b"riscv-virtio\0");
    blob.begin("flash@20000000");
    blob.property("bank-width", &4u32.to_be_bytes());
    blob.registers(0x2000_0000, 0x0200_0000);
    blob.end();
    blob.begin("memory@80000000");
    blob.property("device_type", b"memory\0");
    blob.registers(0x8000_0000, 0x0800_0000);
    blob.end();
    blob.begin("cpus");
    blob.property("timebase-frequency", &10_000_000u32.to_be_bytes());
    blob.end();
    blob.begin("soc");
    blob.nop();
    blob.property("ranges", b"");
    blob.begin("serial@10000000");
    blob.property("interrupts", &10u32.to_be_bytes());
    blob.registers(0x1000_0000, 0x100);
    blob.property("compatible", b"ns16550a\0");
    blob.end();
    blob.begin("virtio_mmio@10001000");
    blob.property("interrupts", &1u32.to_be_bytes());
    blob.property("interrupt-parent", &3u32.to_be_bytes());
    blob.registers(0x1000_1000, 0x1000);
    blob.property("compatible", b"virtio,mmio\0");
    blob.end();
    blob.begin("virtio_mmio@10002000");
    blob.property("interrupts", &2u32.to_be_bytes());
    blob.property("interrupt-parent", &3u32.to_be_bytes());
    blob.registers(0x1000_2000, 0x1000);
    blob.property("compatible", b"other\0virtio,mmio\0");
    blob.end();
    blob.end();
    blob.end();
    blob.finish()
}

fn tree(blob: Vec<u8>) -> DeviceTree {
    DeviceTree::new(blob).unwrap()
}

fn name_of(tree: &DeviceTree, span: Span) -> String {
    String::from_utf8(tree.bytes(span).to_vec()).unwrap()
}

fn names(tree: &DeviceTree) -> Vec<String> {
    tree.iterate_blocks().unwrap().iter().map(|block| name_of(tree, block.name)).collect()
}

fn block(tree: &DeviceTree, name: &str) -> Block {
    *tree
        .iterate_blocks()
        .unwrap()
        .iter()
        .find(|block| name_of(tree, block.name) == name)
        .unwrap()
}

fn properties(tree: &DeviceTree, node: &str) -> Vec<(String, Vec<u8>)> {
    tree.iterate_properties(block(tree, node).offset)
        .unwrap()
        .iter()
        .map(|property| (name_of(tree, property.name), tree.bytes(property.value).to_vec()))
        .collect()
}

#[test]
fn blob_is_known_by_its_magic_number() {
    assert!(validate_dtb(&board()));
    assert!(validate_dtb(&[0xd0, 0x0d, 0xfe, 0xed]));
    assert!(!validate_dtb(&[0xd0, 0x0d, 0xfe]));
    assert!(!validate_dtb(&[0xed, 0xfe, 0x0d, 0xd0, 0, 0, 0, 0]));
    assert!(!validate_dtb(&[]));
}

#[test]
fn short_blob_holds_no_tree() {
    assert_eq!(DeviceTree::new(vec![0xd0, 0x0d, 0xfe, 0xed]).err(), Some(DeviceTreeError::InvalidBlob));
    assert_eq!(DeviceTree::new(vec![0u8; 39]).err(), Some(DeviceTreeError::InvalidBlob));
    assert!(DeviceTree::new(vec![0u8; 40]).is_ok());
}

#[test]
fn header_gives_version_and_size() {
    let blob = board();
    let size = blob.len() as u32;
    let tree = tree(blob);
    assert_eq!(tree.version(), 17);
    assert_eq!(tree.total_size(), size);
}

#[test]
fn nodes_come_in_the_order_of_the_block() {
    let tree = tree(board());
    assert_eq!(
        names(&tree),
        vec![
            "",
            "flash@20000000",
            "memory@80000000",
            "cpus",
            "soc",
            "serial@10000000",
            "virtio_mmio@10001000",
            "virtio_mmio@10002000"
        ]
    );
    let blocks = tree.iterate_blocks().unwrap();
    assert_eq!(blocks[0], Block { offset: 8, name: Span { start: 56 + 4, length: 0 } });
    assert_eq!(blocks[1].name, Span { start: 56 + 36 + 4, length: 14 });
    assert_eq!(blocks[1].offset, 36 + 4 + 16);
}

#[test]
fn properties_of_a_node_end_at_its_first_child() {
    let tree = tree(board());
    assert_eq!(
        properties(&tree, ""),
        vec![("compatible".to_string(), b"riscv-virtio\0".to_vec())]
    );
    assert_eq!(properties(&tree, "soc"), vec![("ranges".to_string(), Vec::new())]);
    assert_eq!(
        properties(&tree, "memory@80000000"),
        vec![
            ("device_type".to_string(), b"memory\0".to_vec()),
            (
                "reg".to_string(),
                vec![0, 0, 0, 0, 0x80, 0, 0, 0, 0, 0, 0, 0, 0x08, 0, 0, 0]
            )
        ]
    );
    assert_eq!(properties(&tree, "virtio_mmio@10002000").len(), 4);
}

#[test]
fn properties_share_their_names_in_the_strings_block() {
    let tree = tree(board());
    let first = tree.iterate_properties(block(&tree, "flash@20000000").offset).unwrap();
    let second = tree.iterate_properties(block(&tree, "memory@80000000").offset).unwrap();
    assert_eq!(name_of(&tree, first[1].name), "reg");
    assert_eq!(name_of(&tree, second[1].name), "reg");
    assert_eq!(first[1].value.length, 16);
    assert_eq!(first[0].value.length, 4);
    assert_ne!(first[1].value.start, second[1].value.start);
}

#[test]
fn tokens_are_read_one_by_one() {
    let tree = tree(board());
    assert_eq!(tree.read_word(0), Some(1));
    assert_eq!(tree.read_word(8), Some(3));
    assert_eq!(tree.read_word(12), Some(13));
    assert_eq!(tree.read_word(1_000_000), None);
    assert_eq!(tree.read_token(0), Ok(Token::BeginNode { next: 4 }));
    assert_eq!(
        tree.read_token(8),
        Ok(Token::Property { size: 13, name_offset: 0, value: 20, next: 36 })
    );
    assert_eq!(tree.read_token(36), Ok(Token::BeginNode { next: 40 }));
    assert_eq!(tree.increment_offset(8, 13), Some(24));
    assert_eq!(tree.increment_offset(8, 0), Some(8));
    assert_eq!(tree.increment_offset(8, 1), Some(12));
    assert_eq!(tree.increment_offset(8, 1_000_000), None);
    assert_eq!(tree.extract_node_name(56 + 40), Some(Span { start: 56 + 40, length: 14 }));
    assert_eq!(tree.extract_node_name(56 + 4), Some(Span { start: 56 + 4, length: 0 }));
    assert_eq!(tree.extract_node_name(10_000_000), None);
}

#[test]
fn last_token_of_the_block_is_the_end() {
    let mut blob = Blob::new();
    blob.begin("a").end();
    let tree = tree(blob.finish());
    assert_eq!(tree.read_token(0), Ok(Token::BeginNode { next: 4 }));
    assert_eq!(tree.read_token(8), Ok(Token::EndNode { next: 12 }));
    assert_eq!(tree.read_token(12), Ok(Token::End));
    assert_eq!(tree.read_token(16), Err(DeviceTreeError::TruncatedEntry));
    assert_eq!(names(&tree), vec!["a"]);
}

#[test]
fn long_name_is_cut_off() {
    let mut blob = Blob::new();
    let long = "n".repeat(300);
    blob.begin(&long).end();
    let tree = tree(blob.finish());
    assert_eq!(tree.extract_node_name(56 + 4), Some(Span { start: 56 + 4, length: 255 }));
}

#[test]
fn block_without_end_is_truncated() {
    let mut blob = Blob::new();
    blob.begin("memory@80000000");
    blob.registers(0x8000_0000, 0x1000);
    blob.end();
    let mut bytes = blob.finish();
    let size = u32::from_be_bytes([bytes[36], bytes[37], bytes[38], bytes[39]]);
    bytes[36..40].copy_from_slice(&(size - 4).to_be_bytes());
    let tree = tree(bytes);
    assert_eq!(tree.iterate_blocks().err(), Some(DeviceTreeError::TruncatedEntry));
    assert_eq!(
        SystemMemory::new(&tree).err(),
        Some(InventoryError::Tree(DeviceTreeError::TruncatedEntry))
    );
    assert_eq!(
        BlockDevice::find_first_drive(&tree, 0).err(),
        Some(DriveError::Tree(DeviceTreeError::TruncatedEntry))
    );
}

#[test]
fn property_that_leaves_the_block_is_truncated() {
    let mut blob = Blob::new();
    blob.begin("soc");
    blob.word(3).word(400).word(0);
    blob.end();
    blob.strings.extend_from_slice(b"reg\0");
    let tree = tree(blob.finish());
    assert_eq!(tree.read_token(8), Err(DeviceTreeError::TruncatedEntry));
    assert_eq!(tree.iterate_properties(8).err(), Some(DeviceTreeError::TruncatedEntry));
    assert_eq!(tree.iterate_blocks().err(), Some(DeviceTreeError::TruncatedEntry));
}

#[test]
fn kind_of_device_is_the_name_before_the_at_sign() {
    assert_eq!(filter_device_name(b"memory@80000000"), b"memory");
    assert_eq!(filter_device_name(b"cpus"), b"cpus");
    assert_eq!(filter_device_name(b"@1"), b"");
    assert_eq!(filter_device_name(b"a@b@c"), b"a");
    assert_eq!(filter_device_name(b""), b"");
}

#[test]
fn values_are_trimmed_at_their_end() {
    assert_eq!(trim_end(b"memory\0"), 6);
    assert_eq!(trim_end(b"memory \0 "), 6);
    assert_eq!(trim_end(b"me mory"), 7);
    assert_eq!(trim_end(b"\0\0"), 0);
    assert_eq!(trim_end(b""), 0);
}

#[test]
fn inventory_lists_flash_ram_and_device_registers() {
    let tree = tree(board());
    let memory = SystemMemory::new(&tree).unwrap();
    assert_eq!(
        memory.flash_devices,
        [
            Some(FlashDevice { bank_width: 4, base_address: 0x2000_0000, range: 0x0200_0000 }),
            None,
            None,
            None
        ]
    );
    assert_eq!(
        memory.memory_devices,
        [Some(MemoryDevice { base_address: 0x8000_0000, range: 0x0800_0000 }), None, None, None]
    );
    assert_eq!(memory.mmio_regions[0], Some(MmioRegion::from_range(0x1000_0000, 0x100)));
    assert_eq!(memory.mmio_regions[1], Some(MmioRegion::from_range(0x1000_1000, 0x1000)));
    assert_eq!(memory.mmio_regions[2], Some(MmioRegion::from_range(0x1000_2000, 0x1000)));
    assert!(memory.mmio_regions[3..].iter().all(|region| region.is_none()));
}

#[test]
fn devices_are_read_from_their_nodes() {
    let tree = tree(board());
    assert_eq!(
        MemoryDevice::new(&tree, block(&tree, "memory@80000000").offset),
        Ok(MemoryDevice { base_address: 0x8000_0000, range: 0x0800_0000 })
    );
    assert_eq!(
        FlashDevice::new(&tree, block(&tree, "flash@20000000").offset),
        Ok(FlashDevice { bank_width: 4, base_address: 0x2000_0000, range: 0x0200_0000 })
    );
    assert_eq!(
        SystemMemory::get_mmio_device_range(&tree, block(&tree, "serial@10000000").offset),
        Ok(Some((0x1000_0000, 0x100)))
    );
    assert_eq!(SystemMemory::get_mmio_device_range(&tree, block(&tree, "cpus").offset), Ok(None));
    assert_eq!(
        MemoryDevice::new(&tree, block(&tree, "cpus").offset),
        Err(InventoryError::Incomplete)
    );
    assert_eq!(
        FlashDevice::new(&tree, block(&tree, "memory@80000000").offset),
        Err(InventoryError::Incomplete)
    );
}

#[test]
fn tree_without_ram_gives_no_inventory() {
    let mut blob = Blob::new();
    blob.begin("");
    blob.begin("serial@10000000").registers(0x1000_0000, 0x100).end();
    blob.end();
    let tree = tree(blob.finish());
    assert_eq!(SystemMemory::new(&tree).err(), Some(InventoryError::NoMemory));
}

#[test]
fn memory_node_of_another_type_is_refused() {
    let mut blob = Blob::new();
    blob.begin("memory@80000000");
    blob.property("device_type", b"cpu\0");
    blob.registers(0x8000_0000, 0x1000);
    blob.end();
    let tree = tree(blob.finish());
    assert_eq!(SystemMemory::new(&tree).err(), Some(InventoryError::NotMemory));
}

#[test]
fn short_register_property_is_refused() {
    let mut blob = Blob::new();
    blob.begin("memory@80000000");
    blob.property("reg", &0x8000_0000u64.to_be_bytes());
    blob.end();
    let tree = tree(blob.finish());
    assert_eq!(SystemMemory::new(&tree).err(), Some(InventoryError::InvalidProperty));
    let mut flash = Blob::new();
    flash.begin("flash@0");
    flash.property("bank-width", &[0, 4]);
    flash.end();
    let tree = DeviceTree::new(flash.finish()).unwrap();
    assert_eq!(FlashDevice::new(&tree, 12), Err(InventoryError::InvalidProperty));
}

#[test]
fn memory_node_without_registers_is_incomplete() {
    let mut blob = Blob::new();
    blob.begin("memory@80000000");
    blob.property("device_type", b"memory\0");
    blob.end();
    let tree = tree(blob.finish());
    assert_eq!(SystemMemory::new(&tree).err(), Some(InventoryError::Incomplete));
}

#[test]
fn fifth_ram_device_is_one_too_many() {
    let mut blob = Blob::new();
    blob.begin("");
    for index in 0..5u64 {
        blob.begin(&format!("memory@{index}"));
        blob.registers(0x8000_0000 + index * 0x1000_0000, 0x1000);
        blob.end();
    }
    blob.end();
    let tree = tree(blob.finish());
    assert_eq!(SystemMemory::new(&tree).err(), Some(InventoryError::TooManyDevices));
}

#[test]
fn four_ram_devices_fill_the_inventory() {
    let mut blob = Blob::new();
    blob.begin("");
    for index in 0..4u64 {
        blob.begin(&format!("memory@{index}"));
        blob.registers(0x8000_0000 + index * 0x1000_0000, 0x1000);
        blob.end();
    }
    blob.end();
    let tree = tree(blob.finish());
    let memory = SystemMemory::new(&tree).unwrap();
    for index in 0..4u64 {
        assert_eq!(
            memory.memory_devices[index as usize],
            Some(MemoryDevice { base_address: 0x8000_0000 + index * 0x1000_0000, range: 0x1000 })
        );
    }
}

#[test]
fn first_drive_is_the_first_compatible_virtio_node() {
    let tree = tree(board());
    let (place, disk) = BlockDevice::find_first_drive(&tree, 0).unwrap().unwrap();
    assert_eq!(place, 6);
    assert_eq!(disk.get_registers(), Registers { base: 0x1000_1000, size: 0x1000 });
    assert_eq!(disk.get_interrupts(), 1);
    assert_eq!(disk.get_interrupt_parent(), 3);
    let (place, disk) = BlockDevice::find_first_drive(&tree, 7).unwrap().unwrap();
    assert_eq!(place, 7);
    assert_eq!(disk.get_registers(), Registers { base: 0x1000_2000, size: 0x1000 });
    assert_eq!(disk.get_interrupts(), 2);
    assert!(BlockDevice::find_first_drive(&tree, 8).unwrap().is_none());
    assert!(BlockDevice::find_first_drive(&tree, 100).unwrap().is_none());
}

#[test]
fn virtio_node_that_is_not_compatible_is_passed_over() {
    let mut blob = Blob::new();
    blob.begin("");
    blob.begin("virtio_mmio@10001000");
    blob.registers(0x1000_1000, 0x1000);
    blob.property("compatible", b"virtio,pci\0");
    blob.end();
    blob.begin("virtio_mmio@10002000");
    blob.registers(0x1000_2000, 0x1000);
    blob.end();
    blob.begin("disk@10003000");
    blob.registers(0x1000_3000, 0x1000);
    blob.property("compatible", b"virtio,mmio\0");
    blob.end();
    blob.end();
    let tree = tree(blob.finish());
    assert!(BlockDevice::find_first_drive(&tree, 0).unwrap().is_none());
    assert_eq!(BlockDevice::candidate(&tree, block(&tree, "disk@10003000")), Ok(None));
    assert_eq!(BlockDevice::candidate(&tree, block(&tree, "virtio_mmio@10001000")), Ok(None));
}

#[test]
fn virtio_node_with_a_bad_property_is_an_error() {
    let mut blob = Blob::new();
    blob.begin("virtio_mmio@10001000");
    blob.property("interrupts", &1u64.to_be_bytes());
    blob.property("compatible", b"virtio,mmio\0");
    blob.end();
    let tree = tree(blob.finish());
    assert_eq!(BlockDevice::find_first_drive(&tree, 0).err(), Some(DriveError::InvalidProperty));
    let mut other = Blob::new();
    other.begin("virtio_mmio@10001000");
    other.property("reg", &1u64.to_be_bytes());
    other.end();
    let tree = DeviceTree::new(other.finish()).unwrap();
    assert_eq!(BlockDevice::find_first_drive(&tree, 0).err(), Some(DriveError::InvalidProperty));
}

#[test]
fn drive_node_takes_the_later_of_two_properties() {
    let mut blob = Blob::new();
    blob.begin("virtio_mmio@10001000");
    blob.property("interrupts", &1u32.to_be_bytes());
    blob.property("compatible", b"virtio,mmio\0");
    blob.property("interrupts", &5u32.to_be_bytes());
    blob.registers(0x1000_1000, 0x200);
    blob.end();
    let tree = tree(blob.finish());
    let found: Vec<Property> = tree.iterate_properties(24).unwrap();
    assert_eq!(
        BlockDevice::read_drive_node(&tree, &found),
        Ok(DriveNode {
            registers: Registers { base: 0x1000_1000, size: 0x200 },
            interrupts: 5,
            interrupt_parent: 0,
            compatible: true
        })
    );
}

#[test]
fn compatible_strings_are_compared_whole() {
    assert!(BlockDevice::is_compatible(b"virtio,mmio\0", b"virtio,mmio"));
    assert!(BlockDevice::is_compatible(b"virtio,mmio", b"virtio,mmio"));
    assert!(BlockDevice::is_compatible(b"a\0virtio,mmio\0b\0", b"virtio,mmio"));
    assert!(BlockDevice::is_compatible(b"\0\0virtio,mmio", b"virtio,mmio"));
    assert!(!BlockDevice::is_compatible(b"virtio,mmio2\0", b"virtio,mmio"));
    assert!(!BlockDevice::is_compatible(b"xvirtio,mmio\0", b"virtio,mmio"));
    assert!(!BlockDevice::is_compatible(b"virtio\0mmio\0", b"virtio,mmio"));
    assert!(!BlockDevice::is_compatible(b"", b"virtio,mmio"));
    assert!(!BlockDevice::is_compatible(b"\0", b""));
}

#[test]
fn numbers_in_properties_are_big_endian() {
    assert_eq!(BlockDevice::property_to_u32(&[0x12, 0x34, 0x56, 0x78]), 0x1234_5678);
    assert_eq!(
        BlockDevice::property_to_u64(&[0x12, 0x34, 0x56, 0x78, 0x9a, 0xbc, 0xde, 0xf0]),
        0x1234_5678_9abc_def0
    );
}

#[test]
fn tree_is_printed_with_its_header_and_nodes() {
    let mut blob = Blob::new();
    blob.begin("");
    blob.property("model", b"xtra\0");
    blob.begin("memory@80000000");
    blob.property("ranges", b"");
    blob.property("reg", &[0xab; 17]);
    blob.end();
    blob.end();
    let bytes = blob.finish();
    let size = bytes.len();
    let structure = size - 56 - 17;
    let tree = tree(bytes);
    let mut uart = xtra::boot::uart::Uart::new(0x1000_0000);
    assert_eq!(tree.print_tree(&mut uart), Ok(()));
    let text = String::from_utf8(uart.take_output()).unwrap();
    let expected = format!(
        "Device Tree Header:\r\n\
         \x20 Version                            : 17\r\n\
         \x20 Last Compatible Version            : 16\r\n\
         \x20 Total Size                         : {size}\r\n\
         \x20 Offset to Structure Block          : 0x38\r\n\
         \x20 Offset to Strings Block            : {strings:#x}\r\n\
         \x20 Offset to Memory Reservation Block : 0x28\r\n\
         \x20 Boot CPU ID (Physical)             : 0\r\n\
         \x20 Size of Strings Block              : 17\r\n\
         \x20 Size of Structure Block            : {structure}\r\n\
         \x20   Block: \r\n\
         \x20     Property: model, value: [5] = 78 74 72 61 00\r\n\
         \x20   Block: memory@80000000\r\n\
         \x20     Property: ranges, value: N/A\r\n\
         \x20     Property: reg, value: [17] = ab ab ab ab ab ab ab ab ab ab ab ab ab ab ab ab...\r\n",
        strings = 56 + structure,
    );
    assert_eq!(text, expected);
}

#[test]
fn printing_stops_where_the_tree_cannot_be_walked() {
    let mut blob = Blob::new();
    blob.begin("soc");
    blob.word(3).word(400).word(0);
    blob.end();
    blob.strings.extend_from_slice(b"reg\0");
    let tree = tree(blob.finish());
    let mut uart = xtra::boot::uart::Uart::new(0x1000_0000);
    assert_eq!(tree.print_tree(&mut uart), Err(DeviceTreeError::TruncatedEntry));
    let text = String::from_utf8(uart.take_output()).unwrap();
    assert!(text.starts_with("Device Tree Header:\r\n  Version "));
    assert!(text.ends_with("  Size of Structure Block            : 28\r\n"));
    let mut cut = Blob::new();
    cut.begin("soc");
    cut.begin("serial@10000000");
    cut.word(3).word(400).word(0);
    cut.end();
    cut.end();
    cut.strings.extend_from_slice(b"reg\0");
    let mut bytes = cut.finish();
    assert_eq!(DeviceTree::new(bytes.clone()).unwrap().iterate_blocks().err(), Some(DeviceTreeError::TruncatedEntry));
    bytes.truncate(40);
    let tree = DeviceTree::new(bytes).unwrap();
    let mut other = xtra::boot::uart::Uart::new(0x1000_0000);
    assert_eq!(tree.print_tree(&mut other), Err(DeviceTreeError::TruncatedEntry));
}

#[test]
fn header_lines_name_their_numbers() {
    let mut uart = xtra::boot::uart::Uart::new(0x1000_0000);
    DeviceTree::write_int(&mut uart, "  Version", 17);
    DeviceTree::write_hex(&mut uart, "  Offset", 0x38);
    DeviceTree::write_int(&mut uart, "", u32::MAX);
    assert_eq!(
        String::from_utf8(uart.take_output()).unwrap(),
        "  Version: 17\r\n  Offset: 0x38\r\n: 4294967295\r\n"
    );
}

#[test]
fn console_is_the_first_serial_port() {
    let tree = tree(board());
    let mut console = xtra::printing::init_printing(&tree).unwrap().unwrap();
    assert!(console.is_initialized());
    assert_eq!(
        console.take_setup(),
        vec![
            xtra::uart::RegisterWrite { address: 0x1000_0003, value: 3 },
            xtra::uart::RegisterWrite { address: 0x1000_0001, value: 0 }
        ]
    );
    console.put_str("up\n");
    assert_eq!(console.take_output(), b"up\r\n".to_vec());
    assert_eq!(
        xtra::printing::find_console(&tree, block(&tree, "serial@10000000")),
        Ok(Some(0x1000_0000))
    );
    assert_eq!(xtra::printing::find_console(&tree, block(&tree, "soc")), Ok(None));
}

#[test]
fn serial_port_without_registers_is_passed_over() {
    let mut blob = Blob::new();
    blob.begin("");
    blob.begin("serial@0").property("reg", &[0; 8]).end();
    blob.begin("serial@1").registers(0, 0x100).end();
    blob.begin("serial@2").registers(0x1000_0000, 0).end();
    blob.begin("serial@3").end();
    blob.begin("uart@4").registers(0x4000_0000, 0x100).end();
    blob.begin("serial@5").registers(0x5000_0000, 0x100).property("reg", &[1; 8]).end();
    blob.begin("serial@6").registers(0x6000_0000, 0x100).end();
    blob.end();
    let tree = tree(blob.finish());
    let mut console = xtra::printing::init_printing(&tree).unwrap().unwrap();
    assert_eq!(console.take_setup()[0].address, 0x5000_0003);
    let mut none = Blob::new();
    none.begin("").begin("serial@0").property("reg", &[0; 8]).registers(0x1000, 0x100).end().end();
    let tree = DeviceTree::new(none.finish()).unwrap();
    assert!(xtra::printing::init_printing(&tree).unwrap().is_none());
}

#[test]
fn console_search_fails_on_a_broken_tree() {
    let mut blob = Blob::new();
    blob.begin("serial@10000000");
    blob.word(3).word(400).word(0);
    blob.end();
    blob.strings.extend_from_slice(b"reg\0");
    let tree = tree(blob.finish());
    assert_eq!(
        xtra::printing::init_printing(&tree).err(),
        Some(DeviceTreeError::TruncatedEntry)
    );
}

#[test]
fn loader_greets_with_its_banner() {
    let mut uart = xtra::boot::uart::Uart::new(0x1000_0000);
    xtra::boot::startup::write_startup_banner(&mut uart, 0, 0x8700_0000);
    assert_eq!(
        String::from_utf8(uart.take_output()).unwrap(),
        "\r\n\r\nXTRA-OS Bootloader Starting...\r\nRunning on hart ID: 0\r\n\
         Device Tree Blob (DTB) address: 0x87000000\r\n"
    );
    assert_eq!(&xtra::boot::startup::KERNEL_FILE_NAME, b"KERNEL  ELF");
}

#[test]
fn loader_says_whether_the_device_tree_is_valid() {
    let mut uart = xtra::boot::uart::Uart::new(0x1000_0000);
    assert!(xtra::boot::startup::validate_device_tree(&mut uart, &board()));
    assert_eq!(
        String::from_utf8(uart.take_output()).unwrap(),
        "Device Tree Blob (DTB) is valid!\r\n"
    );
    assert!(!xtra::boot::startup::validate_device_tree(&mut uart, &[0xd0, 0x0d, 0xfe, 0xee]));
    assert_eq!(
        String::from_utf8(uart.take_output()).unwrap(),
        "Invalid Device Tree Blob (DTB) magic number!\r\nShutting down system...\r\n"
    );
}
