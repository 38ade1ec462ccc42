use xtra::boot::block_device::{BlockDevice, Registers};
use xtra::boot::elf::{
    load_kernel, load_segment, validate_elf_header, Elf64Header, Elf64ProgramHeader, ElfError,
};
use xtra::boot::fat32::{
    DirectoryEntry, DirectoryIterator, Fat, Fat32Volume, FatError, FileStream, RamDisk,
    SectorCache, SectorRead, VolumeHeader,
};
use xtra::boot::partition_table::{
    LegacyPartition, MasterBootRecord, PartitionStatus, PartitionType,
};

const PARTITION_AT: usize = 8;
const RESERVED: usize = 4;
const FAT_SECTORS: usize = 1;
const PER_CLUSTER: usize = 2;
const DATA_AT: usize = PARTITION_AT + RESERVED + 2 * FAT_SECTORS;
const V1: u64 = 0xFFFF_FFC0_8020_0000;
const V2: u64 = 0xFFFF_FFC0_8020_4000;
const ENTRY: u64 = 0xFFFF_FFC0_8020_0040;

fn put16(bytes: &mut [u8], at: usize, value: u16) {
    bytes[at..at + 2].copy_from_slice(&value.to_le_bytes());
}

fn put32(bytes: &mut [u8], at: usize, value: u32) {
    bytes[at..at + 4].copy_from_slice(&value.to_le_bytes());
}

fn put64(bytes: &mut [u8], at: usize, value: u64) {
    bytes[at..at + 8].copy_from_slice(&value.to_le_bytes());
}

fn partition_record(status: u8, kind: u8, start: u32, size: u32) -> [u8; 16] {
    let mut record = [0u8; 16];
    record[0] = status;
    record[1..4].copy_from_slice(&[1, 2, 3]);
    record[4] = kind;
    record[5..8].copy_from_slice(&[4, 5, 6]);
    put32(&mut record, 8, start);
    put32(&mut record, 12, size);
    record
}

fn boot_record(records: [[u8; 16]; 4]) -> [u8; 512] {
    let mut sector = [0u8; 512];
    sector[0] = 0xeb;
    sector[445] = 0x99;
    for (index, record) in records.iter().enumerate() {
        sector[446 + 16 * index..462 + 16 * index].copy_from_slice(record);
    }
    sector[510] = 0x55;
    sector[511] = 0xaa;
    sector
}

fn kernel_file() -> Vec<u8> {
    let mut file = vec![0u8; 0x2100];
    for (index, byte) in file.iter_mut().enumerate() {
        *byte = ((index * 7 + 3) % 251) as u8;
    }
    file[..64].fill(0);
    file[0..4].copy_from_slice(&[0x7f, b'E', b'L', b'F']);
    file[4] = 2;
    file[5] = 1;
    file[6] = 1;
    put16(&mut file, 16, 2);
    put16(&mut file, 18, 0xf3);
    put32(&mut file, 20, 1);
    put64(&mut file, 24, ENTRY);
    put64(&mut file, 32, 64);
    put16(&mut file, 52, 64);
    put16(&mut file, 54, 56);
    put16(&mut file, 56, 3);
    let headers: [(u32, u64, u64, u64, u64); 3] = [
        (1, 0x1000, V1, 0x200, 0x400),
        (4, 0x0800, 0, 0x20, 0x20),
        (1, 0x2000, V2, 0x100, 0x100),
    ];
    for (index, (kind, offset, address, in_file, in_memory)) in headers.iter().enumerate() {
        let at = 64 + 56 * index;
        file[at..at + 56].fill(0);
        put32(&mut file, at, *kind);
        put32(&mut file, at + 4, 5);
        put64(&mut file, at + 8, *offset);
        put64(&mut file, at + 16, *address);
        put64(&mut file, at + 24, *address);
        put64(&mut file, at + 32, *in_file);
        put64(&mut file, at + 40, *in_memory);
        put64(&mut file, at + 48, 0x1000);
    }
    file
}

fn directory_entry(name: &[u8; 11], attributes: u8, cluster: u32, size: u32) -> [u8; 32] {
    let mut entry = [0u8; 32];
    entry[..11].copy_from_slice(name);
    entry[11] = attributes;
    put16(&mut entry, 20, (cluster >> 16) as u16);
    put16(&mut entry, 26, cluster as u16);
    put32(&mut entry, 28, size);
    entry
}

/// A disk with one bootable FAT32 partition. The root directory holds a
/// label, a deleted entry, a directory, a small text file and the kernel,
/// whose clusters are scattered over the volume.
fn disk_image(file: &[u8]) -> Vec<u8> {
    let kernel_clusters: Vec<u32> = vec![9, 5, 6, 30, 12, 11, 4, 40, 41];
    let mut image = vec![0u8; 512 * (DATA_AT + 64 * PER_CLUSTER)];
    let record = boot_record([
        partition_record(0x00, 0x83, 1, 7),
        partition_record(0x80, 0x0c, PARTITION_AT as u32, 200),
        partition_record(0x80, 0x0c, 300, 10),
        partition_record(0x00, 0x00, 0, 0),
    ]);
    image[..512].copy_from_slice(&record);
    let boot = &mut image[512 * PARTITION_AT..512 * (PARTITION_AT + 1)];
    put16(boot, 0x0b, 512);
    boot[0x0d] = PER_CLUSTER as u8;
    put16(boot, 0x0e, RESERVED as u16);
    boot[0x10] = 2;
    put32(boot, 0x24, FAT_SECTORS as u32);
    put32(boot, 0x2c, 2);
    put16(boot, 0x1fe, 0xaa55);
    let mut table = vec![0u32; 128];
    table[0] = 0x0fff_fff8;
    table[1] = 0x0fff_ffff;
    table[2] = 0x0fff_ffff;
    table[3] = 0xffff_fff8;
    table[7] = 0x0fff_ffff;
    for pair in kernel_clusters.windows(2) {
        table[pair[0] as usize] = pair[1] | 0xf000_0000;
    }
    table[*kernel_clusters.last().unwrap() as usize] = 0x0fff_ffff;
    for (index, entry) in table.iter().enumerate() {
        let at = 512 * (PARTITION_AT + RESERVED) + 4 * index;
        put32(&mut image, at, *entry);
    }
    let cluster_at = |cluster: u32| 512 * (DATA_AT + (cluster as usize - 2) * PER_CLUSTER);
    let entries = [
        directory_entry(b"XTRA       ", 0x08, 0, 0),
        directory_entry(b"\xe5LD     TXT", 0x20, 50, 100),
        directory_entry(b"BOOT       ", 0x10, 7, 0),
        directory_entry(b"README  TXT", 0x20, 3, 13),
        directory_entry(b"KERNEL  ELF", 0x20, kernel_clusters[0], file.len() as u32),
    ];
    for (index, entry) in entries.iter().enumerate() {
        let at = cluster_at(2) + 32 * index;
        image[at..at + 32].copy_from_slice(entry);
    }
    let text = cluster_at(3);
    image[text..text + 13].copy_from_slice(b"Hello, world!");
    for (index, chunk) in file.chunks(512 * PER_CLUSTER).enumerate() {
        let at = cluster_at(kernel_clusters[index]);
        image[at..at + chunk.len()].copy_from_slice(chunk);
    }
    image
}

fn partition_of(image: &[u8]) -> LegacyPartition {
    let mut sector = [0u8; 512];
    sector.copy_from_slice(&image[..512]);
    let mut disk = BlockDevice::new(Registers::new(0x1000_1000, 0x1000), 1, 3);
    disk.find_bootable_partition(&sector).unwrap()
}

fn opened(image: Vec<u8>) -> (RamDisk, Fat32Volume) {
    let partition = partition_of(&image);
    let mut disk = RamDisk::new(image);
    let volume = Fat32Volume::new(&mut disk, &partition).unwrap();
    (disk, volume)
}

fn find(disk: &mut RamDisk, volume: &Fat32Volume, name: &[u8; 11]) -> DirectoryEntry {
    let mut directory = DirectoryIterator::new(volume, disk, volume.root_cluster).unwrap();
    let entries = directory.iterate(volume, disk).unwrap();
    *entries.iter().find(|entry| entry.has_name(name)).unwrap()
}

fn kernel_stream(disk: &mut RamDisk, volume: &Fat32Volume) -> FileStream {
    let entry = find(disk, volume, b"KERNEL  ELF");
    FileStream::new(volume, disk, entry.first_cluster(), entry.file_size as u64).unwrap()
}

/// A disk whose reads fail from some read on.
struct Worn {
    disk: RamDisk,
    reads_left: usize,
}

impl SectorRead for Worn {
    fn read_sector(&mut self, lba: u64, buffer: &mut [u8; 512]) -> Result<(), FatError> {
        if self.reads_left == 0 {
            return Err(FatError::Io);
        }
        self.reads_left -= 1;
        self.disk.read_sector(lba, buffer)
    }
}

#[test]
fn partition_record_is_read_field_by_field() {
    let partition = LegacyPartition::new(&partition_record(0x80, 0x0c, 0x0102_0304, 0x0a0b_0c0d));
    assert_eq!(partition.status, PartitionStatus::Bootable);
    assert_eq!(partition.start_chs, [1, 2, 3]);
    assert_eq!(partition.partition_type, PartitionType::Fat32);
    assert_eq!(partition.end_chs, [4, 5, 6]);
    assert_eq!(partition.start_lba, 0x0102_0304);
    assert_eq!(partition.size_in_sectors, 0x0a0b_0c0d);
    assert!(partition.is_bootable());
    assert!(partition.is_fat());
    let mut bytes = vec![0xffu8; 20];
    bytes[4..20].copy_from_slice(&partition_record(0x00, 0x05, 7, 9));
    let other = LegacyPartition::parse(&bytes, 4);
    assert_eq!(other.status, PartitionStatus::Inactive);
    assert_eq!(other.partition_type, PartitionType::Extended);
    assert_eq!((other.start_lba, other.size_in_sectors), (7, 9));
    assert!(!other.is_bootable());
    assert!(!other.is_fat());
}

#[test]
fn status_and_type_bytes_have_their_meaning() {
    assert_eq!(LegacyPartition::partition_status(0x00), PartitionStatus::Inactive);
    assert_eq!(LegacyPartition::partition_status(0x80), PartitionStatus::Bootable);
    assert_eq!(LegacyPartition::partition_status(0x81), PartitionStatus::Unknown(0x81));
    assert_eq!(LegacyPartition::partition_type(0x00), PartitionType::Empty);
    assert_eq!(LegacyPartition::partition_type(0x0c), PartitionType::Fat32);
    assert_eq!(LegacyPartition::partition_type(0x05), PartitionType::Extended);
    assert_eq!(LegacyPartition::partition_type(0x83), PartitionType::Unknown(0x83));
}

#[test]
fn boot_record_lists_four_partitions() {
    let record = MasterBootRecord::new(&boot_record([
        partition_record(0x80, 0x83, 1, 7),
        partition_record(0x00, 0x0c, 8, 200),
        partition_record(0x80, 0x0c, 300, 10),
        partition_record(0x80, 0x0c, 400, 10),
    ]));
    assert!(record.is_valid());
    let partitions = record.partitions();
    assert_eq!(partitions[0].partition_type, PartitionType::Unknown(0x83));
    assert_eq!(partitions[1].start_lba, 8);
    assert_eq!(partitions[3].start_lba, 400);
    let bootable = record.bootable_partition().unwrap();
    assert_eq!((bootable.start_lba, bootable.size_in_sectors), (300, 10));
}

#[test]
fn boot_record_without_a_bootable_fat_partition() {
    let record = MasterBootRecord::new(&boot_record([
        partition_record(0x80, 0x83, 1, 7),
        partition_record(0x00, 0x0c, 8, 200),
        partition_record(0x81, 0x0c, 300, 10),
        partition_record(0x00, 0x00, 0, 0),
    ]));
    assert!(record.is_valid());
    assert!(record.bootable_partition().is_none());
}

#[test]
fn sector_without_signature_is_no_boot_record() {
    let mut sector = boot_record([partition_record(0x80, 0x0c, 8, 200); 4]);
    sector[511] = 0xab;
    assert!(!MasterBootRecord::new(&sector).is_valid());
    let mut disk = BlockDevice::new(Registers::new(0x1000_1000, 0x1000), 1, 3);
    assert!(disk.find_bootable_partition(&sector).is_none());
    sector[511] = 0xaa;
    let partition = disk.find_bootable_partition(&sector).unwrap();
    assert_eq!(partition.start_lba, 8);
}

#[test]
fn volume_header_is_read_from_the_boot_sector() {
    let (_, volume) = opened(disk_image(&kernel_file()));
    assert_eq!(volume.bytes_per_sector, 512);
    assert_eq!(volume.sectors_per_cluster, 2);
    assert_eq!(volume.reserved_sectors, 4);
    assert_eq!(volume.num_fats, 2);
    assert_eq!(volume.fat_size_sectors, 1);
    assert_eq!(volume.root_cluster, 2);
    assert_eq!(volume.partition.start_lba, 8);
    let image = disk_image(&kernel_file());
    let mut sector = [0u8; 512];
    sector.copy_from_slice(&image[512 * PARTITION_AT..512 * (PARTITION_AT + 1)]);
    assert_eq!(
        Fat32Volume::read_header(&sector),
        Ok(VolumeHeader {
            bytes_per_sector: 512,
            sectors_per_cluster: 2,
            reserved_sectors: 4,
            num_fats: 2,
            fat_size_sectors: 1,
            root_cluster: 2
        })
    );
}

#[test]
fn volume_without_signature_is_refused() {
    let mut image = disk_image(&kernel_file());
    let partition = partition_of(&image);
    image[512 * PARTITION_AT + 0x1fe] = 0;
    let mut disk = RamDisk::new(image);
    assert_eq!(
        Fat32Volume::new(&mut disk, &partition).err(),
        Some(FatError::InvalidSignature)
    );
}

#[test]
fn volume_with_large_sectors_is_refused() {
    let mut image = disk_image(&kernel_file());
    let partition = partition_of(&image);
    put16(&mut image, 512 * PARTITION_AT + 0x0b, 4096);
    let mut disk = RamDisk::new(image);
    assert_eq!(
        Fat32Volume::new(&mut disk, &partition).err(),
        Some(FatError::InvalidSectorSize)
    );
}

#[test]
fn table_that_is_too_large_is_refused() {
    let mut image = disk_image(&kernel_file());
    let partition = partition_of(&image);
    put32(&mut image, 512 * PARTITION_AT + 0x24, 513);
    let mut short = RamDisk::new(image.clone());
    assert_eq!(Fat32Volume::new(&mut short, &partition).err(), Some(FatError::Io));
    image.resize(512 * 600, 0);
    let mut disk = RamDisk::new(image.clone());
    assert_eq!(Fat32Volume::new(&mut disk, &partition).err(), Some(FatError::FatTooLarge));
    put32(&mut image, 512 * PARTITION_AT + 0x24, 512);
    let mut full = RamDisk::new(image);
    let volume = Fat32Volume::new(&mut full, &partition).unwrap();
    assert_eq!(volume.fat_size_sectors, 512);
    assert_eq!(volume.fat.get_next_cluster(9), Some(5));
}

#[test]
fn volume_beyond_the_disk_cannot_be_read() {
    let image = disk_image(&kernel_file());
    let mut partition = partition_of(&image);
    partition.start_lba = 100_000;
    let mut disk = RamDisk::new(image);
    assert_eq!(Fat32Volume::new(&mut disk, &partition).err(), Some(FatError::Io));
    let mut sector = [0u8; 512];
    assert_eq!(disk.read_sector(100_000, &mut sector), Err(FatError::Io));
    assert_eq!(disk.read_sector(0, &mut sector), Ok(()));
    assert_eq!(sector[510..], [0x55, 0xaa]);
}

#[test]
fn table_gives_the_next_cluster_of_a_chain() {
    let (_, volume) = opened(disk_image(&kernel_file()));
    assert_eq!(volume.fat.get_next_cluster(9), Some(5));
    assert_eq!(volume.fat.get_next_cluster(5), Some(6));
    assert_eq!(volume.fat.get_next_cluster(6), Some(30));
    assert_eq!(volume.fat.get_next_cluster(40), Some(41));
    assert_eq!(volume.fat.get_next_cluster(41), None);
    assert_eq!(volume.fat.get_next_cluster(2), None);
    assert_eq!(volume.fat.get_next_cluster(3), None);
    assert_eq!(volume.fat.get_next_cluster(100), None);
    assert_eq!(volume.fat.get_next_cluster(70_000), None);
    assert_eq!(volume.fat.get_next_cluster(0x1000_0009), Some(5));
    assert!(volume.fat.is_end_of_chain(41));
    assert!(!volume.fat.is_end_of_chain(9));
    let empty = Fat::empty();
    assert_eq!(empty.get_next_cluster(2), None);
    assert!(empty.is_end_of_chain(2));
}

#[test]
fn numbers_are_read_from_a_sector() {
    let mut sector = [0u8; 512];
    sector[508..512].copy_from_slice(&[0x11, 0x22, 0x33, 0x44]);
    assert_eq!(Fat32Volume::read_u8(&sector, 511), Ok(0x44));
    assert_eq!(Fat32Volume::read_u8(&sector, 512), Err(FatError::OffsetOutOfBounds));
    assert_eq!(Fat32Volume::read_u16(&sector, 510), Ok(0x4433));
    assert_eq!(Fat32Volume::read_u16(&sector, 511), Err(FatError::OffsetOutOfBounds));
    assert_eq!(Fat32Volume::read_u32(&sector, 508), Ok(0x4433_2211));
    assert_eq!(Fat32Volume::read_u32(&sector, 509), Err(FatError::OffsetOutOfBounds));
}

#[test]
fn sectors_of_a_cluster_are_loaded() {
    let (mut disk, volume) = opened(disk_image(&kernel_file()));
    let mut sector = [0u8; 512];
    assert_eq!(volume.load_sector(&mut disk, 3, 0, &mut sector), Ok(()));
    assert_eq!(&sector[..13], b"Hello, world!");
    assert_eq!(volume.load_sector(&mut disk, 9, 1, &mut sector), Ok(()));
    assert_eq!(sector.to_vec(), kernel_file()[512..1024].to_vec());
    assert_eq!(volume.load_sector(&mut disk, 60_000, 0, &mut sector), Err(FatError::Io));
}

#[test]
fn directory_lists_its_entries_without_the_deleted() {
    let (mut disk, volume) = opened(disk_image(&kernel_file()));
    let mut directory = DirectoryIterator::new(&volume, &mut disk, volume.root_cluster).unwrap();
    let entries = directory.iterate(&volume, &mut disk).unwrap();
    let names: Vec<&[u8]> = entries.iter().map(|entry| &entry.name[..]).collect();
    assert_eq!(
        names,
        vec![&b"XTRA       "[..], &b"BOOT       "[..], &b"README  TXT"[..], &b"KERNEL  ELF"[..]]
    );
    assert!(!entries[1].is_file());
    assert!(entries[2].is_file());
    assert_eq!(entries[2].first_cluster(), 3);
    assert_eq!(entries[2].file_size, 13);
    assert_eq!(entries[3].first_cluster(), 9);
    assert_eq!(entries[3].file_size, 0x2100);
    assert!(entries.iter().all(|entry| !entry.is_deleted() && !entry.is_end_of_directory()));
    let again = directory.iterate(&volume, &mut disk).unwrap();
    assert_eq!(again.len(), 4);
}

#[test]
fn directory_size_is_that_of_its_chain() {
    let (_, volume) = opened(disk_image(&kernel_file()));
    assert_eq!(DirectoryIterator::calculate_directory_size(&volume, 2), Ok(1024));
    assert_eq!(DirectoryIterator::calculate_directory_size(&volume, 9), Ok(9 * 1024));
    assert_eq!(DirectoryIterator::calculate_directory_size(&volume, 40), Ok(2 * 1024));
}

#[test]
fn chain_that_runs_in_a_circle_does_not_end() {
    let mut image = disk_image(&kernel_file());
    let partition = partition_of(&image);
    put32(&mut image, 512 * (PARTITION_AT + RESERVED) + 4 * 50, 51);
    put32(&mut image, 512 * (PARTITION_AT + RESERVED) + 4 * 51, 50);
    let mut disk = RamDisk::new(image);
    let volume = Fat32Volume::new(&mut disk, &partition).unwrap();
    assert_eq!(
        DirectoryIterator::calculate_directory_size(&volume, 50),
        Err(FatError::EndlessChain)
    );
    assert_eq!(
        DirectoryIterator::new(&volume, &mut disk, 50).err(),
        Some(FatError::EndlessChain)
    );
}

#[test]
fn directory_entry_is_read_field_by_field() {
    let mut bytes = directory_entry(b"KERNEL  ELF", 0x21, 0x0012_0034, 0x0102_0304);
    bytes[12] = 7;
    bytes[13] = 8;
    put16(&mut bytes, 14, 0x1111);
    put16(&mut bytes, 16, 0x2222);
    put16(&mut bytes, 18, 0x3333);
    put16(&mut bytes, 22, 0x4444);
    put16(&mut bytes, 24, 0x5555);
    let entry = DirectoryEntry::parse(&bytes);
    assert_eq!(&entry.name, b"KERNEL  ELF");
    assert_eq!((entry.attributes, entry.reserved, entry.creation_time_tenth), (0x21, 7, 8));
    assert_eq!((entry.creation_time, entry.creation_date), (0x1111, 0x2222));
    assert_eq!(entry.last_access_date, 0x3333);
    assert_eq!((entry.last_write_time, entry.last_write_date), (0x4444, 0x5555));
    assert_eq!((entry.first_cluster_high, entry.first_cluster_low), (0x12, 0x34));
    assert_eq!(entry.first_cluster(), 0x0012_0034);
    assert_eq!(entry.file_size, 0x0102_0304);
    assert!(entry.is_file());
    assert!(entry.has_name(b"KERNEL  ELF"));
    assert!(!entry.has_name(b"KERNEL  ELG"));
    assert!(!entry.is_end_of_directory());
    assert!(DirectoryEntry::zeroed().is_end_of_directory());
    assert!(!DirectoryEntry::parse(&directory_entry(&[0; 11], 0, 0, 1)).is_end_of_directory());
    assert!(DirectoryEntry::parse(&directory_entry(b"\xe5BC        ", 0, 0, 0)).is_deleted());
}

#[test]
fn small_file_is_read_byte_by_byte() {
    let (mut disk, volume) = opened(disk_image(&kernel_file()));
    let entry = find(&mut disk, &volume, b"README  TXT");
    let mut stream =
        FileStream::new(&volume, &mut disk, entry.first_cluster(), entry.file_size as u64).unwrap();
    let mut text = Vec::new();
    while let Some(byte) = stream.next_byte(&volume, &mut disk).unwrap() {
        text.push(byte);
    }
    assert_eq!(text, b"Hello, world!".to_vec());
    assert!(stream.is_eof());
    assert_eq!(stream.tell(), 13);
    assert_eq!(stream.next_byte(&volume, &mut disk), Ok(None));
    assert_eq!(stream.read_u8(&volume, &mut disk), Err(FatError::EndOfFile));
    stream.reset(&volume, &mut disk).unwrap();
    assert_eq!(stream.tell(), 0);
    assert!(!stream.is_eof());
    assert_eq!(stream.read_array(&volume, &mut disk, 5), Ok(b"Hello".to_vec()));
    assert_eq!(stream.read_array(&volume, &mut disk, 9).err(), Some(FatError::EndOfFile));
}

#[test]
fn scattered_file_is_read_in_the_order_of_its_chain() {
    let file = kernel_file();
    let (mut disk, volume) = opened(disk_image(&file));
    let mut stream = kernel_stream(&mut disk, &volume);
    let mut bytes = Vec::new();
    stream.read_bytes(&volume, &mut disk, &mut bytes, 0x2100).unwrap();
    assert_eq!(bytes, file);
    assert!(stream.is_eof());
    assert_eq!(stream.next_byte(&volume, &mut disk), Ok(None));
}

#[test]
fn numbers_are_read_from_a_file() {
    let file = kernel_file();
    let (mut disk, volume) = opened(disk_image(&file));
    let mut stream = kernel_stream(&mut disk, &volume);
    stream.seek(&volume, &mut disk, 0x3fd).unwrap();
    assert_eq!(stream.tell(), 0x3fd);
    assert_eq!(stream.read_u8(&volume, &mut disk), Ok(file[0x3fd]));
    assert_eq!(
        stream.read_u16(&volume, &mut disk),
        Ok(u16::from_le_bytes([file[0x3fe], file[0x3ff]]))
    );
    assert_eq!(
        stream.read_u32(&volume, &mut disk),
        Ok(u32::from_le_bytes([file[0x400], file[0x401], file[0x402], file[0x403]]))
    );
    let mut eight = [0u8; 8];
    eight.copy_from_slice(&file[0x404..0x40c]);
    assert_eq!(stream.read_u64(&volume, &mut disk), Ok(u64::from_le_bytes(eight)));
    assert_eq!(stream.tell(), 0x40c);
    stream.seek(&volume, &mut disk, 0x20ff).unwrap();
    assert_eq!(stream.read_u8(&volume, &mut disk), Ok(file[0x20ff]));
    assert_eq!(stream.read_u16(&volume, &mut disk), Err(FatError::EndOfFile));
    stream.seek(&volume, &mut disk, 0x2100).unwrap();
    assert!(stream.is_eof());
    assert_eq!(stream.seek(&volume, &mut disk, 0x2101), Err(FatError::EndOfFile));
    stream.seek(&volume, &mut disk, 0).unwrap();
    assert_eq!(stream.read_u32(&volume, &mut disk), Ok(0x464c_457f));
}

#[test]
fn file_outside_the_table_cannot_be_opened() {
    let (mut disk, volume) = opened(disk_image(&kernel_file()));
    assert_eq!(FileStream::new(&volume, &mut disk, 1, 10).err(), Some(FatError::OutOfPartition));
    assert_eq!(
        FileStream::new(&volume, &mut disk, 70_000, 10).err(),
        Some(FatError::OutOfPartition)
    );
    assert_eq!(FileStream::new(&volume, &mut disk, 60_000, 10).err(), Some(FatError::Io));
    let empty = FileStream::new(&volume, &mut disk, 0, 0).unwrap();
    assert!(empty.is_eof());
}

#[test]
fn volume_without_sectors_in_a_cluster_holds_no_file() {
    let (mut disk, mut volume) = opened(disk_image(&kernel_file()));
    volume.sectors_per_cluster = 0;
    assert_eq!(FileStream::new(&volume, &mut disk, 9, 10).err(), Some(FatError::OutOfCluster));
}

#[test]
fn file_whose_chain_ends_early_ends_there() {
    let file = kernel_file();
    let mut image = disk_image(&file);
    let partition = partition_of(&image);
    put32(&mut image, 512 * (PARTITION_AT + RESERVED) + 4 * 5, 0x0fff_ffff);
    let mut disk = RamDisk::new(image);
    let volume = Fat32Volume::new(&mut disk, &partition).unwrap();
    let mut stream = FileStream::new(&volume, &mut disk, 9, 0x2100).unwrap();
    assert_eq!(stream.read_array(&volume, &mut disk, 2048), Ok(file[..2048].to_vec()));
    assert_eq!(stream.next_byte(&volume, &mut disk), Ok(None));
    assert_eq!(stream.read_u8(&volume, &mut disk), Err(FatError::EndOfFile));
}

#[test]
fn read_error_of_the_disk_is_passed_on() {
    let image = disk_image(&kernel_file());
    let partition = partition_of(&image);
    let mut worn = Worn { disk: RamDisk::new(image), reads_left: 4 };
    let volume = Fat32Volume::new(&mut worn, &partition).unwrap();
    let mut stream = FileStream::new(&volume, &mut worn, 9, 0x2100).unwrap();
    assert_eq!(stream.read_array(&volume, &mut worn, 1024).map(|bytes| bytes.len()), Ok(1024));
    assert_eq!(stream.next_byte(&volume, &mut worn), Err(FatError::Io));
    let mut dead = Worn { disk: RamDisk::new(disk_image(&kernel_file())), reads_left: 0 };
    assert_eq!(Fat32Volume::new(&mut dead, &partition).err(), Some(FatError::Io));
    dead.reads_left = 1;
    assert_eq!(Fat32Volume::new(&mut dead, &partition).err(), Some(FatError::Io));
    assert_eq!(DirectoryIterator::new(&volume, &mut dead, 2).err(), Some(FatError::Io));
    worn.reads_left = 1;
    let mut kernel = FileStream::new(&volume, &mut worn, 9, 0x2100).unwrap();
    assert_eq!(
        load_kernel(&mut kernel, &volume, &mut worn).err(),
        Some(ElfError::File(FatError::Io))
    );
}

#[test]
fn cache_lends_its_buffers_in_turn() {
    let mut cache = SectorCache::new();
    assert_eq!(cache.get_buffer(), Some(0));
    assert_eq!(cache.get_buffer(), Some(1));
    assert_eq!(cache.get_buffer(), Some(2));
    cache.free_buffer(0);
    assert_eq!(cache.get_buffer(), Some(3));
    assert_eq!(cache.get_buffer(), Some(0));
    assert_eq!(cache.get_buffer(), None);
    cache.free_buffer(2);
    cache.free_buffer(1);
    assert_eq!(cache.get_buffer(), Some(1));
    assert_eq!(cache.get_buffer(), Some(2));
    assert_eq!(cache.get_buffer(), None);
}

#[test]
fn kernel_is_loaded_segment_by_segment() {
    let file = kernel_file();
    let (mut disk, volume) = opened(disk_image(&file));
    let mut stream = kernel_stream(&mut disk, &volume);
    let image = load_kernel(&mut stream, &volume, &mut disk).unwrap();
    assert_eq!(image.entry, ENTRY);
    assert_eq!(image.segments.len(), 2);
    let first = &image.segments[0];
    assert_eq!(first.address, V1);
    assert_eq!(first.data, file[0x1000..0x1200].to_vec());
    assert_eq!(first.zero_fill, 0x200);
    let second = &image.segments[1];
    assert_eq!(second.address, V2);
    assert_eq!(second.data, file[0x2000..0x2100].to_vec());
    assert_eq!(second.zero_fill, 0);
    for offset in 0..0x200u64 {
        assert_eq!(first.byte_at(V1 + offset), Some(file[0x1000 + offset as usize]));
    }
    for offset in 0x200..0x400u64 {
        assert_eq!(first.byte_at(V1 + offset), Some(0));
    }
    assert_eq!(first.byte_at(V1 + 0x400), None);
    assert_eq!(first.byte_at(V1 - 1), None);
    for offset in 0..0x100u64 {
        assert_eq!(second.byte_at(V2 + offset), Some(file[0x2000 + offset as usize]));
    }
    assert_eq!(second.byte_at(V2 + 0x100), None);
}

#[test]
fn headers_of_the_kernel_are_read() {
    let file = kernel_file();
    let (mut disk, volume) = opened(disk_image(&file));
    let mut stream = kernel_stream(&mut disk, &volume);
    let header = Elf64Header::new(&mut stream, &volume, &mut disk).unwrap();
    assert_eq!(stream.tell(), 64);
    assert!(header.is_valid());
    assert!(header.version_supported());
    assert!(header.is_executable());
    assert!(header.is_riscv());
    assert!(header.is_64_bit());
    assert!(header.is_little_endian());
    assert_eq!(validate_elf_header(&header), Ok(()));
    assert_eq!((header.e_entry, header.e_phoff), (ENTRY, 64));
    assert_eq!((header.e_ehsize, header.e_phentsize, header.e_phnum), (64, 56, 3));
    let first = Elf64ProgramHeader::new(&mut stream, &volume, &mut disk).unwrap();
    assert_eq!(stream.tell(), 120);
    assert!(first.is_loadable());
    assert_eq!((first.p_type, first.p_flags), (1, 5));
    assert_eq!((first.p_offset, first.p_vaddr, first.p_paddr), (0x1000, V1, V1));
    assert_eq!((first.p_filesz, first.p_memsz, first.p_align), (0x200, 0x400, 0x1000));
    let second = Elf64ProgramHeader::new(&mut stream, &volume, &mut disk).unwrap();
    assert!(!second.is_loadable());
    let segment = load_segment(&first, &mut stream, &volume, &mut disk).unwrap();
    assert_eq!(stream.tell(), 176);
    assert_eq!(segment.data, file[0x1000..0x1200].to_vec());
    assert_eq!(Elf64Header::parse(&file).e_phnum, 3);
    assert_eq!(Elf64ProgramHeader::parse(&file[64..]).p_vaddr, V1);
    assert!(!Elf64Header::zeroed().is_valid());
    assert!(!Elf64ProgramHeader::zeroed().is_loadable());
}

fn loaded(change: impl Fn(&mut Vec<u8>)) -> Result<u64, ElfError> {
    let mut file = kernel_file();
    change(&mut file);
    let (mut disk, volume) = opened(disk_image(&file));
    let mut stream = kernel_stream(&mut disk, &volume);
    load_kernel(&mut stream, &volume, &mut disk).map(|image| image.entry)
}

#[test]
fn file_that_is_no_kernel_is_refused() {
    assert_eq!(loaded(|_| {}), Ok(ENTRY));
    assert_eq!(loaded(|file| file[1] = b'F'), Err(ElfError::BadMagic));
    assert_eq!(loaded(|file| put32(file, 20, 2)), Err(ElfError::UnsupportedVersion));
    assert_eq!(loaded(|file| put16(file, 16, 3)), Err(ElfError::NotExecutable));
    assert_eq!(loaded(|file| put16(file, 18, 0x3e)), Err(ElfError::BadMachine));
    assert_eq!(loaded(|file| file[4] = 1), Err(ElfError::Not64Bit));
    assert_eq!(loaded(|file| file[5] = 2), Err(ElfError::NotLittleEndian));
    assert_eq!(loaded(|file| put16(file, 56, 9)), Err(ElfError::TooManyProgramHeaders));
}

#[test]
fn checks_of_the_header_come_in_their_order() {
    assert_eq!(
        loaded(|file| {
            file[0] = 0;
            put32(file, 20, 2);
            put16(file, 16, 3);
        }),
        Err(ElfError::BadMagic)
    );
    assert_eq!(
        loaded(|file| {
            put32(file, 20, 0);
            put16(file, 18, 0x3e);
            file[4] = 1;
        }),
        Err(ElfError::UnsupportedVersion)
    );
    assert_eq!(
        loaded(|file| {
            put16(file, 18, 0x3e);
            file[5] = 2;
        }),
        Err(ElfError::BadMachine)
    );
}

#[test]
fn segment_that_leaves_the_file_cannot_be_loaded() {
    assert_eq!(
        loaded(|file| put64(file, 64 + 32, 0x2000)),
        Err(ElfError::File(FatError::EndOfFile))
    );
    assert_eq!(
        loaded(|file| put64(file, 64 + 8, 0x3000)),
        Err(ElfError::File(FatError::EndOfFile))
    );
    assert_eq!(
        loaded(|file| put64(file, 32, 0x20f0)),
        Err(ElfError::File(FatError::EndOfFile))
    );
}

#[test]
fn kernel_without_segments_is_only_its_entry() {
    let mut file = kernel_file();
    put16(&mut file, 56, 0);
    let (mut disk, volume) = opened(disk_image(&file));
    let mut stream = kernel_stream(&mut disk, &volume);
    let image = load_kernel(&mut stream, &volume, &mut disk).unwrap();
    assert_eq!(image.entry, ENTRY);
    assert!(image.segments.is_empty());
}

#[test]
fn segment_that_is_smaller_in_memory_gets_no_zero_bytes() {
    let mut file = kernel_file();
    put64(&mut file, 64 + 40, 0x100);
    let (mut disk, volume) = opened(disk_image(&file));
    let mut stream = kernel_stream(&mut disk, &volume);
    let image = load_kernel(&mut stream, &volume, &mut disk).unwrap();
    assert_eq!(image.segments[0].data.len(), 0x200);
    assert_eq!(image.segments[0].zero_fill, 0);
}
