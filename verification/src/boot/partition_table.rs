//! The master boot record: sector 0 of a disk, which holds boot code, four
//! partition records of 16 bytes from byte 446 on, and a signature in its
//! last two bytes.

use vstd::prelude::*;
use crate::bytes::le16;
use crate::bytes::le32;
use crate::bytes::read_le16;
use crate::bytes::read_le32;

verus! {

/// The signature of a boot record, as a little-endian number.
pub const BOOT_SIGNATURE: u16 = 0xAA55;

/// The type of an unused partition record.
pub const PARTITION_TYPE_EMPTY: u8 = 0x00;

/// The type of a FAT32 partition that is addressed by sector number.
pub const PARTITION_TYPE_FAT32: u8 = 0x0C;

/// The type of an extended partition.
pub const PARTITION_TYPE_EXTENDED: u8 = 0x05;

/// The size of the master boot record in bytes.
pub const MBR_SIZE: usize = 512;

/// The size of the boot code in bytes.
pub const MBR_CODE_SIZE: usize = 446;

/// The number of partition records.
pub const MBR_PARTITION_COUNT: usize = 4;

/// The size of a partition record in bytes.
pub const MBR_PARTITION_SIZE: usize = 16;

/// Whether a partition can be booted from.
#[derive(Clone, Copy, PartialEq, Eq, Structural, Debug)]
pub enum PartitionStatus {
    Inactive,
    Bootable,
    Unknown(u8),
}

/// What a partition holds.
#[derive(Clone, Copy, PartialEq, Eq, Structural, Debug)]
pub enum PartitionType {
    Empty,
    Fat32,
    Extended,
    Unknown(u8),
}

/// One partition record.
#[derive(Clone, Copy, Debug)]
pub struct LegacyPartition {
    /// Whether the partition can be booted from.
    pub status: PartitionStatus,
    /// Cylinder, head and sector of the first sector.
    pub start_chs: [u8; 3],
    /// What the partition holds.
    pub partition_type: PartitionType,
    /// Cylinder, head and sector of the last sector.
    pub end_chs: [u8; 3],
    /// Number of the first sector.
    pub start_lba: u32,
    /// Number of sectors.
    pub size_in_sectors: u32,
}

/// The meaning of a status byte.
pub open spec fn partition_status_spec(status: u8) -> PartitionStatus {
    if status == 0x00 {
        PartitionStatus::Inactive
    } else if status == 0x80 {
        PartitionStatus::Bootable
    } else {
        PartitionStatus::Unknown(status)
    }
}

/// The meaning of a type byte.
pub open spec fn partition_type_spec(partition_type: u8) -> PartitionType {
    if partition_type == 0x00 {
        PartitionType::Empty
    } else if partition_type == 0x0C {
        PartitionType::Fat32
    } else if partition_type == 0x05 {
        PartitionType::Extended
    } else {
        PartitionType::Unknown(partition_type)
    }
}

/// The partition record that lies at `at` in `bytes`: a status byte, three
/// bytes of start address, a type byte, three bytes of end address, and
/// the first sector and the sector count as little-endian numbers.
pub open spec fn partition_at(bytes: Seq<u8>, at: int) -> LegacyPartition {
    LegacyPartition {
        status: partition_status_spec(bytes[at]),
        start_chs: [bytes[at + 1], bytes[at + 2], bytes[at + 3]],
        partition_type: partition_type_spec(bytes[at + 4]),
        end_chs: [bytes[at + 5], bytes[at + 6], bytes[at + 7]],
        start_lba: le32(bytes, at + 8) as u32,
        size_in_sectors: le32(bytes, at + 12) as u32,
    }
}

impl LegacyPartition {
    /// The partition record in 16 bytes.
    pub fn new(bytes: &[u8; 16]) -> (partition: Self)
        ensures
            partition == partition_at(bytes@, 0),
    {
        Self::parse(bytes.as_slice(), 0)
    }

    /// The partition record that lies at `at` in `bytes`.
    pub fn parse(bytes: &[u8], at: usize) -> (partition: Self)
        requires
            at + 16 <= bytes@.len(),
        ensures
            partition == partition_at(bytes@, at as int),
    {
        let partition = LegacyPartition {
            status: Self::partition_status(bytes[at]),
            start_chs: [bytes[at + 1], bytes[at + 2], bytes[at + 3]],
            partition_type: Self::partition_type(bytes[at + 4]),
            end_chs: [bytes[at + 5], bytes[at + 6], bytes[at + 7]],
            start_lba: read_le32(bytes, at + 8),
            size_in_sectors: read_le32(bytes, at + 12),
        };
        assert(partition.start_chs@ =~= partition_at(bytes@, at as int).start_chs@);
        assert(partition.end_chs@ =~= partition_at(bytes@, at as int).end_chs@);
        partition
    }

    /// The meaning of a status byte: 0x00 is inactive, 0x80 bootable.
    pub fn partition_status(status: u8) -> (meaning: PartitionStatus)
        ensures
            meaning == partition_status_spec(status),
    {
        if status == 0x00 {
            PartitionStatus::Inactive
        } else if status == 0x80 {
            PartitionStatus::Bootable
        } else {
            PartitionStatus::Unknown(status)
        }
    }

    /// The meaning of a type byte.
    pub fn partition_type(partition_type: u8) -> (meaning: PartitionType)
        ensures
            meaning == partition_type_spec(partition_type),
    {
        if partition_type == PARTITION_TYPE_EMPTY {
            PartitionType::Empty
        } else if partition_type == PARTITION_TYPE_FAT32 {
            PartitionType::Fat32
        } else if partition_type == PARTITION_TYPE_EXTENDED {
            PartitionType::Extended
        } else {
            PartitionType::Unknown(partition_type)
        }
    }

    /// Whether the loader can boot from the partition: it is marked
    /// bootable and holds a FAT32 file system.
    pub fn is_bootable(&self) -> (bootable: bool)
        ensures
            bootable == (self.status == PartitionStatus::Bootable && self.partition_type
                == PartitionType::Fat32),
    {
        let status_ok = match self.status {
            PartitionStatus::Bootable => true,
            _ => false,
        };
        let type_ok = match self.partition_type {
            PartitionType::Fat32 => true,
            _ => false,
        };
        status_ok && type_ok
    }

    /// Whether the partition holds a FAT32 file system.
    pub fn is_fat(&self) -> (fat: bool)
        ensures
            fat == (self.partition_type == PartitionType::Fat32),
    {
        match self.partition_type {
            PartitionType::Fat32 => true,
            _ => false,
        }
    }
}

/// The master boot record.
#[derive(Clone, Debug)]
pub struct MasterBootRecord {
    boot_code: Vec<u8>,
    partitions: [LegacyPartition; 4],
    boot_signature: u16,
}

impl MasterBootRecord {
    /// The boot code: the first 446 bytes of the sector.
    pub closed spec fn boot_code_spec(&self) -> Seq<u8> {
        self.boot_code@
    }

    /// The four partition records.
    pub closed spec fn partitions_spec(&self) -> Seq<LegacyPartition> {
        self.partitions@
    }

    /// The signature.
    pub closed spec fn signature_spec(&self) -> u16 {
        self.boot_signature
    }

    /// The master boot record in the 512 bytes of sector 0.
    pub fn new(bytes: &[u8; 512]) -> (record: Self)
        ensures
            record.boot_code_spec() == bytes@.subrange(0, 446),
            record.partitions_spec() == records_of(bytes@),
            record.signature_spec() == le16(bytes@, 510),
    {
        let slice = bytes.as_slice();
        let boot_code = crate::bytes::copy_range(slice, 0, 446);
        let partitions = [
            LegacyPartition::parse(slice, 446),
            LegacyPartition::parse(slice, 462),
            LegacyPartition::parse(slice, 478),
            LegacyPartition::parse(slice, 494),
        ];
        let boot_signature = read_le16(slice, 510);
        assert(partitions@ =~= records_of(bytes@));
        MasterBootRecord { boot_code, partitions, boot_signature }
    }

    /// Whether the sector bears the signature of a boot record: the bytes
    /// 0x55 and 0xAA at its end.
    pub fn is_valid(&self) -> (valid: bool)
        ensures
            valid == (self.signature_spec() == 0xAA55),
    {
        self.boot_signature == BOOT_SIGNATURE
    }

    /// The four partition records.
    pub fn partitions(&self) -> (partitions: &[LegacyPartition; 4])
        ensures
            partitions@ == self.partitions_spec(),
    {
        &self.partitions
    }

    /// The first partition that the loader can boot from, if there is one.
    pub fn bootable_partition(&self) -> (partition: Option<LegacyPartition>)
        ensures
            partition == first_bootable(self.partitions_spec(), 0),
    {
        let mut i: usize = 0;
        while i < 4
            invariant
                i <= 4,
                self.partitions_spec().len() == 4,
                first_bootable(self.partitions_spec(), 0) == first_bootable(
                    self.partitions_spec(),
                    i as int,
                ),
            decreases 4 - i,
        {
            let partition = self.partitions[i];
            if partition.is_bootable() {
                return Some(partition);
            }
            i += 1;
        }
        None
    }
}

/// The first of the records from place `from` on that the loader can boot
/// from.
pub open spec fn first_bootable(records: Seq<LegacyPartition>, from: int) -> Option<
    LegacyPartition,
>
    decreases records.len() - from,
{
    if from < 0 || from >= records.len() {
        None
    } else if bootable_spec(records[from]) {
        Some(records[from])
    } else {
        first_bootable(records, from + 1)
    }
}

/// The four partition records of a boot sector.
pub open spec fn records_of(sector: Seq<u8>) -> Seq<LegacyPartition> {
    Seq::new(4, |i: int| partition_at(sector, 446 + 16 * i))
}

/// Whether the loader can boot from the partition.
pub open spec fn bootable_spec(partition: LegacyPartition) -> bool {
    partition.status == PartitionStatus::Bootable && partition.partition_type
        == PartitionType::Fat32
}

} // verus!
