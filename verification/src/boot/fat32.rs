//! The FAT32 file system, as far as the loader needs it: the header of the
//! volume, the file allocation table, the directory entries, and a stream
//! over the bytes of a file.

use vstd::prelude::*;
use crate::boot::partition_table::LegacyPartition;
use crate::bytes::le16;
use crate::bytes::le32;
use crate::bytes::le64;
use crate::bytes::read_le16;
use crate::bytes::read_le32;

verus! {

/// The size of a sector in bytes.
pub const SECTOR_SIZE: usize = 512;

/// The number of sector buffers in the cache.
pub const SECTOR_CACHE_SIZE: usize = 4;

/// The number of entries of the file allocation table that are kept.
pub const MAX_FAT_ENTRIES: usize = 65536;

/// Offset of the number of bytes of a sector in the header.
pub const BYTES_PER_SECTOR_OFF: usize = 0x000b;

/// Offset of the number of sectors of a cluster in the header.
pub const SECTORS_PER_CLUSTER_OFF: usize = 0x000d;

/// Offset of the number of reserved sectors in the header.
pub const RESERVED_SECTORS_OFF: usize = 0x000e;

/// Offset of the number of file allocation tables in the header.
pub const NUM_FATS_OFF: usize = 0x0010;

/// Offset of the number of sectors of a file allocation table in the
/// header.
pub const FAT_SIZE_32_OFF: usize = 0x0024;

/// Offset of the first cluster of the root directory in the header.
pub const ROOT_CLUSTER_OFF: usize = 0x002c;

/// Offset of the signature in the header.
pub const FAT_SIGNATURE_OFF: usize = 0x01fe;

/// The signature of a boot sector, as a little-endian number.
pub const BOOT_SIGNATURE: u16 = 0xAA55;

/// The size of a directory entry in bytes.
pub const DIRECTORY_ENTRY_SIZE: usize = 32;

/// The least value of an entry of the table that ends a chain.
pub const END_OF_CHAIN: u32 = 0x0FFF_FFF8;

/// The value of an entry of the table for a cluster that is set aside.
pub const RESERVED_CLUSTER: u32 = 0x0FFF_FFF7;

/// Why a read from the file system failed.
#[derive(Clone, Copy, PartialEq, Eq, Structural, Debug)]
pub enum FatError {
    /// The disk did not hand over a sector.
    Io,
    /// The boot sector lacks its signature.
    InvalidSignature,
    /// The sectors of the volume are not 512 bytes long.
    InvalidSectorSize,
    /// The file allocation table has more entries than are kept.
    FatTooLarge,
    /// A cluster number lies outside the volume.
    OutOfPartition,
    /// A sector number lies outside its cluster.
    OutOfCluster,
    /// The file ends before the bytes that were asked for.
    EndOfFile,
    /// An offset lies outside the sector.
    OffsetOutOfBounds,
    /// A chain of clusters does not end.
    EndlessChain,
}

/// A disk that hands over sectors.
pub trait SectorRead {
    /// The bytes of the sector with the given number, where the disk has
    /// it. A disk that does not say what it holds holds nothing.
    open spec fn sector(&self, lba: u64) -> Option<Seq<u8>> {
        None
    }

    /// Reads a sector into `buffer`. The disk keeps what it holds. A read
    /// that succeeds hands over the bytes of the sector.
    fn read_sector(&mut self, lba: u64, buffer: &mut [u8; 512]) -> (result: Result<(), FatError>)
        ensures
            forall|other: u64| #[trigger] final(self).sector(other) == old(self).sector(other),
            result is Ok ==> old(self).sector(lba) == Some(final(buffer)@),
            result is Err ==> result == Err::<(), FatError>(FatError::Io),
    ;
}

/// A disk in memory.
pub struct RamDisk {
    bytes: Vec<u8>,
}

impl RamDisk {
    /// What the disk holds.
    pub closed spec fn bytes(&self) -> Seq<u8> {
        self.bytes@
    }

    /// The disk that holds `bytes`, sector after sector.
    pub fn new(bytes: Vec<u8>) -> (disk: Self)
        ensures
            disk.bytes() == bytes@,
    {
        RamDisk { bytes }
    }
}

impl SectorRead for RamDisk {
    open spec fn sector(&self, lba: u64) -> Option<Seq<u8>> {
        if lba * 512 + 512 <= self.bytes().len() {
            Some(self.bytes().subrange(lba * 512, lba * 512 + 512))
        } else {
            None
        }
    }

    /// Copies the sector out of memory. Only a sector that lies within the
    /// disk with all of its bytes can be read.
    fn read_sector(&mut self, lba: u64, buffer: &mut [u8; 512]) -> (result: Result<(), FatError>)
        ensures
            result is Ok <==> lba * 512 + 512 <= old(self).bytes().len(),
            final(self).bytes() == old(self).bytes(),
    {
        let length = self.bytes.len() as u64;
        if lba >= length / 512 {
            return Err(FatError::Io);
        }
        let start = (lba * 512) as usize;
        let mut i: usize = 0;
        while i < 512
            invariant
                i <= 512,
                start == lba * 512,
                start + 512 <= self.bytes@.len(),
                self.bytes@ == old(self).bytes@,
                forall|k: int| 0 <= k < i ==> buffer@[k] == self.bytes@[start + k],
            decreases 512 - i,
        {
            buffer[i] = self.bytes[start + i];
            i += 1;
        }
        assert(buffer@ =~= self.bytes@.subrange(start as int, start + 512));
        Ok(())
    }
}

/// The buffer that stands `step` places behind buffer `first`, around the
/// cache.
pub open spec fn slot(first: int, step: int) -> int {
    (first + step) % 4
}

/// A small store of sector buffers, of which some are lent out.
pub struct SectorCache {
    sectors: Vec<[u8; 512]>,
    used: [bool; 4],
    index: usize,
}

impl SectorCache {
    /// Whether buffer `i` is lent out.
    pub closed spec fn is_used(&self, i: int) -> bool {
        self.used[i]
    }

    /// The buffer that was lent out last.
    pub closed spec fn last(&self) -> int {
        self.index as int
    }

    /// What holds of every cache.
    pub closed spec fn wf(&self) -> bool {
        self.index < 4 && self.sectors@.len() == 4
    }

    /// The cache with no buffer lent out.
    pub fn new() -> (cache: Self)
        ensures
            cache.wf(),
            forall|i: int| 0 <= i < 4 ==> !cache.is_used(i),
    {
        let mut sectors: Vec<[u8; 512]> = Vec::new();
        sectors.push([0u8; 512]);
        sectors.push([0u8; 512]);
        sectors.push([0u8; 512]);
        sectors.push([0u8; 512]);
        SectorCache { sectors, used: [false, false, false, false], index: 0 }
    }

    /// Lends a buffer out and gives its number: the first free buffer,
    /// looked for from the one that was lent out last, around the cache.
    /// There is none where all are lent out.
    pub fn get_buffer(&mut self) -> (index: Option<usize>)
        requires
            old(self).wf(),
        ensures
            final(self).wf(),
            match index {
                Some(i) => {
                    &&& i < 4
                    &&& !old(self).is_used(i as int)
                    &&& final(self).is_used(i as int)
                    &&& final(self).last() == i
                    &&& forall|k: int|
                        0 <= k < 4 && k != i ==> final(self).is_used(k) == old(self).is_used(k)
                    &&& forall|step: int|
                        0 <= step < (i + 4 - old(self).last()) % 4 ==> old(self).is_used(
                            #[trigger] slot(old(self).last(), step),
                        )
                },
                None => {
                    &&& forall|k: int| 0 <= k < 4 ==> old(self).is_used(k)
                    &&& forall|k: int| 0 <= k < 4 ==> final(self).is_used(k)
                    &&& final(self).last() == old(self).last()
                },
            },
    {
        let first = self.index;
        let mut i: usize = 0;
        while i < SECTOR_CACHE_SIZE
            invariant
                i <= 4,
                first < 4,
                old(self).wf(),
                *self == *old(self),
                first == old(self).last(),
                forall|step: int|
                    0 <= step < i ==> old(self).is_used(#[trigger] slot(first as int, step)),
            decreases 4 - i,
        {
            let index = (first + i) % SECTOR_CACHE_SIZE;
            if !self.used[index] {
                self.used[index] = true;
                self.index = index;
                assert((index + 4 - first) % 4 == i);
                return Some(index);
            }
            assert(slot(first as int, i as int) == index);
            i += 1;
        }
        proof {
            assert forall|k: int| 0 <= k < 4 implies old(self).is_used(k) by {
                let step = (k + 4 - first) % 4;
                assert(slot(first as int, step) == k);
            }
        }
        None
    }

    /// Takes a buffer back. It must be lent out.
    pub fn free_buffer(&mut self, index: usize)
        requires
            old(self).wf(),
            index < 4,
            old(self).is_used(index as int),
        ensures
            final(self).wf(),
            !final(self).is_used(index as int),
            final(self).last() == old(self).last(),
            forall|k: int|
                0 <= k < 4 && k != index ==> final(self).is_used(k) == old(self).is_used(k),
    {
        self.used[index] = false;
    }
}

/// The file allocation table: for every cluster, the cluster that follows
/// it in its chain.
pub struct Fat {
    entries: Vec<u32>,
}

/// The cluster that follows `cluster` in its chain, where the table has
/// the entries `entries`. Of a cluster number and of an entry only the low
/// 28 bits count. There is none at the end of a chain, behind a cluster
/// that is free or set aside, and behind a cluster that the table does
/// not hold.
pub open spec fn next_cluster(entries: Seq<u32>, cluster: u32) -> Option<u32> {
    let index = cluster as int % 0x1000_0000;
    if index >= entries.len() {
        None
    } else {
        let entry = entries[index] as int % 0x1000_0000;
        if entry >= 0x0FFF_FFF7 || entry == 0 {
            None
        } else {
            Some(entry as u32)
        }
    }
}

/// The entries of the table that one sector holds: 128 little-endian
/// numbers.
pub open spec fn sector_entries(sector: Seq<u8>) -> Seq<u32> {
    Seq::new(128, |i: int| le32(sector, 4 * i) as u32)
}

impl Fat {
    /// The entries of the table.
    pub closed spec fn entries(&self) -> Seq<u32> {
        self.entries@
    }

    /// What holds of every table: it keeps 65536 entries.
    pub open spec fn wf(&self) -> bool {
        self.entries().len() == 65536
    }

    /// The table with every entry free.
    pub fn empty() -> (fat: Self)
        ensures
            fat.wf(),
            forall|i: int| 0 <= i < 65536 ==> fat.entries()[i] == 0,
    {
        let mut entries: Vec<u32> = Vec::new();
        let mut i: usize = 0;
        while i < MAX_FAT_ENTRIES
            invariant
                i <= 65536,
                entries@.len() == i,
                forall|k: int| 0 <= k < i ==> entries@[k] == 0,
            decreases 65536 - i,
        {
            entries.push(0);
            i += 1;
        }
        Fat { entries }
    }

    /// The table of the volume in `partition`, read from the disk: the
    /// table starts `start_sector` sectors into the partition and takes up
    /// `size_in_sectors` sectors, each of which holds 128 entries. A table
    /// of more than 65536 entries is not taken.
    pub fn new<D: SectorRead>(
        device: &mut D,
        partition: &LegacyPartition,
        start_sector: u64,
        size_in_sectors: u64,
    ) -> (result: Result<Self, FatError>)
        requires
            start_sector <= 0xFFFF_FFFF,
            size_in_sectors <= 0xFFFF_FFFF,
        ensures
            forall|other: u64| #[trigger] final(device).sector(other) == old(device).sector(other),
            result matches Ok(fat) ==> {
                &&& fat.wf()
                &&& size_in_sectors <= 512
                &&& forall|s: int|
                    0 <= s < size_in_sectors ==> #[trigger] old(device).sector(
                        (partition.start_lba + start_sector + s) as u64,
                    ) is Some
                &&& forall|i: int|
                    0 <= i < 65536 ==> #[trigger] fat.entries()[i] == if i < size_in_sectors * 128 {
                        sector_entries(
                            old(device).sector(
                                (partition.start_lba + start_sector + i / 128) as u64,
                            ).unwrap(),
                        )[i % 128]
                    } else {
                        0u32
                    }
            },
            result matches Err(e) ==> e == FatError::Io || (e == FatError::FatTooLarge
                && size_in_sectors > 512),
    {
        let mut fat = Fat::empty();
        match fat.load_fat_table(device, partition, start_sector, size_in_sectors) {
            Ok(()) => Ok(fat),
            Err(e) => Err(e),
        }
    }

    /// Fills the table from the disk.
    pub fn load_fat_table<D: SectorRead>(
        &mut self,
        device: &mut D,
        partition: &LegacyPartition,
        start_sector: u64,
        size_in_sectors: u64,
    ) -> (result: Result<(), FatError>)
        requires
            old(self).wf(),
            start_sector <= 0xFFFF_FFFF,
            size_in_sectors <= 0xFFFF_FFFF,
            forall|i: int| 0 <= i < 65536 ==> old(self).entries()[i] == 0,
        ensures
            final(self).wf(),
            forall|other: u64| #[trigger] final(device).sector(other) == old(device).sector(other),
            result is Ok ==> {
                &&& size_in_sectors <= 512
                &&& forall|s: int|
                    0 <= s < size_in_sectors ==> #[trigger] old(device).sector(
                        (partition.start_lba + start_sector + s) as u64,
                    ) is Some
                &&& forall|i: int|
                    0 <= i < 65536 ==> #[trigger] final(self).entries()[i] == if i
                        < size_in_sectors * 128 {
                        sector_entries(
                            old(device).sector(
                                (partition.start_lba + start_sector + i / 128) as u64,
                            ).unwrap(),
                        )[i % 128]
                    } else {
                        0u32
                    }
            },
            result matches Err(e) ==> e == FatError::Io || (e == FatError::FatTooLarge
                && size_in_sectors > 512),
    {
        let fat_lba_start = partition.start_lba as u64 + start_sector;
        let mut sector_buffer = [0u8; 512];
        let mut done: u64 = 0;
        while done < size_in_sectors
            invariant
                done <= size_in_sectors <= 0xFFFF_FFFF,
                done <= 512,
                self.wf(),
                start_sector <= 0xFFFF_FFFF,
                fat_lba_start == partition.start_lba + start_sector,
                forall|other: u64| #[trigger] device.sector(other) == old(device).sector(other),
                forall|s: int|
                    0 <= s < done ==> #[trigger] old(device).sector(
                        (partition.start_lba + start_sector + s) as u64,
                    ) is Some,
                forall|i: int|
                    0 <= i < 65536 ==> #[trigger] self.entries()[i] == if i < done * 128 {
                        sector_entries(
                            old(device).sector(
                                (partition.start_lba + start_sector + i / 128) as u64,
                            ).unwrap(),
                        )[i % 128]
                    } else {
                        0u32
                    },
            decreases size_in_sectors - done,
        {
            if done >= 512 {
                return Err(FatError::FatTooLarge);
            }
            let lba = fat_lba_start + done;
            match device.read_sector(lba, &mut sector_buffer) {
                Ok(()) => {},
                Err(e) => {
                    return Err(FatError::Io);
                },
            }
            let base = (done * 128) as usize;
            let mut k: usize = 0;
            while k < 128
                invariant
                    k <= 128,
                    done < 512,
                    base == done * 128,
                    self.wf(),
                    old(device).sector(lba) == Some(sector_buffer@),
                    lba == partition.start_lba + start_sector + done,
                    forall|i: int|
                        0 <= i < 65536 ==> #[trigger] self.entries()[i] == if i < base {
                            sector_entries(
                                old(device).sector(
                                    (partition.start_lba + start_sector + i / 128) as u64,
                                ).unwrap(),
                            )[i % 128]
                        } else if i < base + k {
                            sector_entries(sector_buffer@)[i - base]
                        } else {
                            0u32
                        },
                decreases 128 - k,
            {
                let entry = read_le32(sector_buffer.as_slice(), 4 * k);
                self.entries[base + k] = entry;
                k += 1;
            }
            done += 1;
        }
        Ok(())
    }

    /// The cluster that follows `cluster` in its chain, if there is one.
    pub fn get_next_cluster(&self, cluster: u32) -> (next: Option<u32>)
        ensures
            next == next_cluster(self.entries(), cluster),
    {
        let cluster = (cluster % 0x1000_0000) as usize;
        if cluster >= self.entries.len() {
            return None;
        }
        let entry = self.entries[cluster] % 0x1000_0000;
        if entry >= RESERVED_CLUSTER || entry == 0 {
            None
        } else {
            Some(entry)
        }
    }

    /// Whether `cluster` is the last of its chain.
    pub fn is_end_of_chain(&self, cluster: u32) -> (end: bool)
        ensures
            end == (next_cluster(self.entries(), cluster) is None),
    {
        let next = self.get_next_cluster(cluster);
        next.is_none()
    }
}

/// The header of a FAT32 volume, as far as it is read.
#[derive(Clone, Copy, PartialEq, Eq, Structural, Debug)]
pub struct VolumeHeader {
    pub bytes_per_sector: u64,
    pub sectors_per_cluster: u64,
    pub reserved_sectors: u64,
    pub num_fats: u64,
    pub fat_size_sectors: u64,
    pub root_cluster: u32,
}

/// The header in a boot sector: the numbers at their offsets, all
/// little-endian. The sector must bear the signature, and the sectors of
/// the volume must be 512 bytes long.
pub open spec fn header_of(sector: Seq<u8>) -> Result<VolumeHeader, FatError> {
    if le16(sector, 0x1fe) != 0xAA55 {
        Err(FatError::InvalidSignature)
    } else if le16(sector, 0x0b) != 512 {
        Err(FatError::InvalidSectorSize)
    } else {
        Ok(
            VolumeHeader {
                bytes_per_sector: le16(sector, 0x0b) as u64,
                sectors_per_cluster: sector[0x0d] as u64,
                reserved_sectors: le16(sector, 0x0e) as u64,
                num_fats: sector[0x10] as u64,
                fat_size_sectors: le32(sector, 0x24) as u64,
                root_cluster: le32(sector, 0x2c) as u32,
            },
        )
    }
}

/// A FAT32 volume in a partition of a disk.
pub struct Fat32Volume {
    pub partition: LegacyPartition,
    pub fat: Fat,
    pub bytes_per_sector: u64,
    pub sectors_per_cluster: u64,
    pub reserved_sectors: u64,
    pub num_fats: u64,
    pub fat_size_sectors: u64,
    pub root_cluster: u32,
}

impl Fat32Volume {
    /// What holds of every volume: the numbers of its header are within
    /// the range of their fields, and its table is well formed.
    pub open spec fn wf(&self) -> bool {
        &&& self.fat.wf()
        &&& self.bytes_per_sector == 512
        &&& self.sectors_per_cluster <= 0xFF
        &&& self.reserved_sectors <= 0xFFFF
        &&& self.num_fats <= 0xFF
        &&& self.fat_size_sectors <= 0xFFFF_FFFF
    }

    /// The header of the volume.
    pub open spec fn header(&self) -> VolumeHeader {
        VolumeHeader {
            bytes_per_sector: self.bytes_per_sector,
            sectors_per_cluster: self.sectors_per_cluster,
            reserved_sectors: self.reserved_sectors,
            num_fats: self.num_fats,
            fat_size_sectors: self.fat_size_sectors,
            root_cluster: self.root_cluster,
        }
    }

    /// The number of the sector `sector` of the cluster `cluster`, counted
    /// from the start of the disk: behind the reserved sectors and the
    /// file allocation tables, the clusters follow one another from
    /// cluster 2 on.
    pub open spec fn lba_of(&self, cluster: u32, sector: u64) -> int {
        self.partition.start_lba + self.reserved_sectors + self.num_fats * self.fat_size_sectors
            + (cluster - 2) * self.sectors_per_cluster + sector
    }

    /// Reads the header of the volume from a boot sector.
    pub fn read_header(buffer: &[u8; 512]) -> (result: Result<VolumeHeader, FatError>)
        ensures
            result == header_of(buffer@),
    {
        let signature = match Self::read_u16(buffer, FAT_SIGNATURE_OFF) {
            Ok(value) => value,
            Err(e) => {
                return Err(e);
            },
        };
        if signature != BOOT_SIGNATURE as u64 {
            return Err(FatError::InvalidSignature);
        }
        let bytes_per_sector = read_le16(buffer.as_slice(), BYTES_PER_SECTOR_OFF) as u64;
        let sectors_per_cluster = buffer[SECTORS_PER_CLUSTER_OFF] as u64;
        let reserved_sectors = read_le16(buffer.as_slice(), RESERVED_SECTORS_OFF) as u64;
        let num_fats = buffer[NUM_FATS_OFF] as u64;
        let root_cluster = read_le32(buffer.as_slice(), ROOT_CLUSTER_OFF);
        let fat_size_sectors = read_le32(buffer.as_slice(), FAT_SIZE_32_OFF) as u64;
        if bytes_per_sector != SECTOR_SIZE as u64 {
            return Err(FatError::InvalidSectorSize);
        }
        Ok(
            VolumeHeader {
                bytes_per_sector,
                sectors_per_cluster,
                reserved_sectors,
                num_fats,
                fat_size_sectors,
                root_cluster,
            },
        )
    }

    /// The volume in `partition`: its header is read from the first sector
    /// of the partition, and its table from the sectors behind the
    /// reserved ones.
    pub fn new<D: SectorRead>(device: &mut D, partition: &LegacyPartition) -> (result: Result<
        Self,
        FatError,
    >)
        ensures
            forall|other: u64| #[trigger] final(device).sector(other) == old(device).sector(other),
            result matches Ok(volume) ==> {
                &&& volume.wf()
                &&& volume.partition == *partition
                &&& old(device).sector(partition.start_lba as u64) is Some
                &&& header_of(old(device).sector(partition.start_lba as u64).unwrap()) == Ok::<
                    VolumeHeader,
                    FatError,
                >(volume.header())
                &&& forall|i: int|
                    0 <= i < 65536 ==> #[trigger] volume.fat.entries()[i] == if i
                        < volume.fat_size_sectors * 128 {
                        sector_entries(
                            old(device).sector(
                                (partition.start_lba + volume.reserved_sectors + i / 128) as u64,
                            ).unwrap(),
                        )[i % 128]
                    } else {
                        0u32
                    }
            },
            result matches Err(e) ==> e == FatError::Io || e == FatError::FatTooLarge || (old(device).sector(partition.start_lba as u64) is Some && header_of(
                old(device).sector(partition.start_lba as u64).unwrap(),
            ) == Err::<VolumeHeader, FatError>(e)),
    {
        let mut buffer = [0u8; 512];
        match device.read_sector(partition.start_lba as u64, &mut buffer) {
            Ok(()) => {},
            Err(e) => {
                return Err(FatError::Io);
            },
        }
        let header = match Self::read_header(&buffer) {
            Ok(header) => header,
            Err(e) => {
                return Err(e);
            },
        };
        let fat = match Fat::new(
            device,
            partition,
            header.reserved_sectors,
            header.fat_size_sectors,
        ) {
            Ok(fat) => fat,
            Err(e) => {
                return Err(e);
            },
        };
        Ok(
            Fat32Volume {
                partition: *partition,
                fat,
                bytes_per_sector: header.bytes_per_sector,
                sectors_per_cluster: header.sectors_per_cluster,
                reserved_sectors: header.reserved_sectors,
                num_fats: header.num_fats,
                fat_size_sectors: header.fat_size_sectors,
                root_cluster: header.root_cluster,
            },
        )
    }

    /// Reads the sector `sector` of the cluster `cluster` into `buffer`.
    /// Clusters are numbered from 2 on.
    pub fn load_sector<D: SectorRead>(
        &self,
        device: &mut D,
        cluster: u32,
        sector: u64,
        buffer: &mut [u8; 512],
    ) -> (result: Result<(), FatError>)
        requires
            self.wf(),
            cluster >= 2,
            sector <= 0xFF,
        ensures
            forall|other: u64| #[trigger] final(device).sector(other) == old(device).sector(other),
            result is Ok ==> old(device).sector(self.lba_of(cluster, sector) as u64) == Some(
                final(buffer)@,
            ),
            result is Err ==> result == Err::<(), FatError>(FatError::Io),
    {
        assert(self.num_fats * self.fat_size_sectors <= 0xFF * 0xFFFF_FFFF) by (nonlinear_arith)
            requires
                0 <= self.num_fats <= 0xFF,
                0 <= self.fat_size_sectors <= 0xFFFF_FFFF,
        ;
        let first_data_sector = self.reserved_sectors + (self.num_fats * self.fat_size_sectors);
        assert((cluster - 2) * self.sectors_per_cluster <= 0xFFFF_FFFF * 0xFF) by (nonlinear_arith)
            requires
                0 <= cluster - 2 <= 0xFFFF_FFFF,
                0 <= self.sectors_per_cluster <= 0xFF,
        ;
        let cluster_lba = first_data_sector + ((cluster - 2) as u64 * self.sectors_per_cluster)
            + sector;
        let absolute_lba = self.partition.start_lba as u64 + cluster_lba;
        device.read_sector(absolute_lba, buffer)
    }

    /// The byte at `offset` of a sector.
    pub fn read_u8(buffer: &[u8; 512], offset: usize) -> (result: Result<u64, FatError>)
        ensures
            offset < 512 ==> result == Ok::<u64, FatError>(buffer@[offset as int] as u64),
            offset >= 512 ==> result == Err::<u64, FatError>(FatError::OffsetOutOfBounds),
    {
        if offset < SECTOR_SIZE {
            Ok(buffer[offset] as u64)
        } else {
            Err(FatError::OffsetOutOfBounds)
        }
    }

    /// The little-endian 16-bit number at `offset` of a sector.
    pub fn read_u16(buffer: &[u8; 512], offset: usize) -> (result: Result<u64, FatError>)
        ensures
            offset + 1 < 512 ==> result == Ok::<u64, FatError>(le16(buffer@, offset as int) as u64),
            offset + 1 >= 512 ==> result == Err::<u64, FatError>(FatError::OffsetOutOfBounds),
    {
        if offset < SECTOR_SIZE - 1 {
            Ok(read_le16(buffer.as_slice(), offset) as u64)
        } else {
            Err(FatError::OffsetOutOfBounds)
        }
    }

    /// The little-endian 32-bit number at `offset` of a sector.
    pub fn read_u32(buffer: &[u8; 512], offset: usize) -> (result: Result<u32, FatError>)
        ensures
            offset + 3 < 512 ==> result == Ok::<u32, FatError>(le32(buffer@, offset as int) as u32),
            offset + 3 >= 512 ==> result == Err::<u32, FatError>(FatError::OffsetOutOfBounds),
    {
        if offset < SECTOR_SIZE - 3 {
            Ok(read_le32(buffer.as_slice(), offset))
        } else {
            Err(FatError::OffsetOutOfBounds)
        }
    }
}

/// The cluster that stands `hops` places behind `start` in its chain.
pub open spec fn chain(entries: Seq<u32>, start: u32, hops: nat) -> Option<u32>
    decreases hops,
{
    if hops == 0 {
        Some(start)
    } else {
        match chain(entries, start, (hops - 1) as nat) {
            Some(cluster) => next_cluster(entries, cluster),
            None => None,
        }
    }
}

/// Whether a cluster number names a cluster of the volume that the table
/// holds.
pub open spec fn valid_cluster(cluster: u32) -> bool {
    2 <= cluster < 65536
}

/// The bytes of the sector with the number `index` of the file that starts
/// in the cluster `start`: the sectors of a file are those of the clusters
/// of its chain, in order.
pub open spec fn file_sector<D: SectorRead>(
    volume: &Fat32Volume,
    device: &D,
    start: u32,
    index: nat,
) -> Option<Seq<u8>> {
    if volume.sectors_per_cluster == 0 {
        None
    } else {
        match chain(
            volume.fat.entries(),
            start,
            (index / volume.sectors_per_cluster as nat) as nat,
        ) {
            Some(cluster) => if valid_cluster(cluster) {
                device.sector(
                    volume.lba_of(
                        cluster,
                        (index % volume.sectors_per_cluster as nat) as u64,
                    ) as u64,
                )
            } else {
                None
            },
            None => None,
        }
    }
}

/// The byte at `position` of the file that starts in the cluster `start`.
pub open spec fn file_byte<D: SectorRead>(
    volume: &Fat32Volume,
    device: &D,
    start: u32,
    position: nat,
) -> Option<u8> {
    match file_sector(volume, device, start, position / 512) {
        Some(sector) => if sector.len() == 512 {
            Some(sector[(position % 512) as int])
        } else {
            None
        },
        None => None,
    }
}

/// A cursor over the bytes of a file.
pub struct FileStream {
    start_cluster: u32,
    size: u64,
    current_cluster: u32,
    current_sector: u64,
    current_byte: usize,
    absolute_byte: u64,
    buffer: [u8; 512],
    hops: Ghost<nat>,
}

impl FileStream {
    /// The first cluster of the file.
    pub closed spec fn start(&self) -> u32 {
        self.start_cluster
    }

    /// The size of the file in bytes.
    pub closed spec fn size(&self) -> u64 {
        self.size
    }

    /// The number of bytes that lie before the cursor.
    pub closed spec fn position(&self) -> u64 {
        self.absolute_byte
    }

    /// Whether the sector under the cursor is in the buffer.
    pub closed spec fn loaded<D: SectorRead>(&self, volume: &Fat32Volume, device: &D) -> bool {
        &&& volume.sectors_per_cluster > 0
        &&& chain(volume.fat.entries(), self.start_cluster, self.hops@) == Some(
            self.current_cluster,
        )
        &&& valid_cluster(self.current_cluster)
        &&& self.current_sector < volume.sectors_per_cluster
        &&& device.sector(volume.lba_of(self.current_cluster, self.current_sector) as u64) == Some(
            self.buffer@,
        )
        &&& self.current_byte <= 512
        &&& self.absolute_byte == (self.hops@ * volume.sectors_per_cluster + self.current_sector)
            * 512 + self.current_byte
    }

    /// What holds of every stream: the cursor lies within the file; and
    /// unless the file is empty and nothing was read, the sector under the
    /// cursor is in the buffer.
    pub closed spec fn wf<D: SectorRead>(&self, volume: &Fat32Volume, device: &D) -> bool {
        &&& volume.wf()
        &&& self.absolute_byte <= self.size
        &&& self.loaded(volume, device) || (self.size == 0 && self.absolute_byte == 0)
    }

    /// A stream over the file of `size` bytes that starts in the cluster
    /// `start_cluster`, with the cursor at its first byte. Unless the file
    /// is empty, its first sector is read.
    pub fn new<D: SectorRead>(
        fat_volume: &Fat32Volume,
        device: &mut D,
        start_cluster: u32,
        size: u64,
    ) -> (result: Result<Self, FatError>)
        requires
            fat_volume.wf(),
        ensures
            forall|other: u64| #[trigger] final(device).sector(other) == old(device).sector(other),
            result matches Ok(stream) ==> stream.wf(fat_volume, final(device)) && stream.start()
                == start_cluster && stream.size() == size && stream.position() == 0,
            result matches Err(e) ==> size != 0 && e == if !valid_cluster(start_cluster) {
                FatError::OutOfPartition
            } else if fat_volume.sectors_per_cluster == 0 {
                FatError::OutOfCluster
            } else {
                FatError::Io
            },
    {
        let mut stream = FileStream {
            start_cluster,
            size,
            current_cluster: start_cluster,
            current_sector: 0,
            current_byte: 0,
            absolute_byte: 0,
            buffer: [0u8; 512],
            hops: Ghost(0),
        };
        if size != 0 {
            match stream.load_current_sector(fat_volume, device) {
                Ok(()) => {},
                Err(e) => {
                    return Err(e);
                },
            }
        }
        Ok(stream)
    }

    /// Reads the sector under the cursor into the buffer and puts the
    /// cursor at its first byte.
    fn load_current_sector<D: SectorRead>(&mut self, volume: &Fat32Volume, device: &mut D) -> (result:
        Result<(), FatError>)
        requires
            volume.wf(),
            chain(volume.fat.entries(), old(self).start_cluster, old(self).hops@) == Some(
                old(self).current_cluster,
            ),
            old(self).current_sector <= 0xFF,
            old(self).absolute_byte <= old(self).size,
            old(self).absolute_byte == (old(self).hops@ * volume.sectors_per_cluster + old(self).current_sector) * 512,
        ensures
            forall|other: u64| #[trigger] final(device).sector(other) == old(device).sector(other),
            final(self).start_cluster == old(self).start_cluster,
            final(self).size == old(self).size,
            final(self).absolute_byte == old(self).absolute_byte,
            final(self).current_cluster == old(self).current_cluster,
            final(self).current_sector == old(self).current_sector,
            final(self).hops@ == old(self).hops@,
            result is Ok ==> final(self).loaded(volume, final(device)) && final(self).current_byte
                == 0,
            result matches Err(e) ==> e == if !valid_cluster(old(self).current_cluster) {
                FatError::OutOfPartition
            } else if old(self).current_sector >= volume.sectors_per_cluster {
                FatError::OutOfCluster
            } else {
                FatError::Io
            },
    {
        self.current_byte = 0;
        if self.current_cluster < 2 || self.current_cluster as usize >= MAX_FAT_ENTRIES {
            return Err(FatError::OutOfPartition);
        }
        if self.current_sector >= volume.sectors_per_cluster {
            return Err(FatError::OutOfCluster);
        }
        volume.load_sector(device, self.current_cluster, self.current_sector, &mut self.buffer)
    }

    /// Puts the cursor back at the first byte of the file and reads the
    /// first sector.
    pub fn reset<D: SectorRead>(&mut self, volume: &Fat32Volume, device: &mut D) -> (result: Result<
        (),
        FatError,
    >)
        requires
            volume.wf(),
        ensures
            forall|other: u64| #[trigger] final(device).sector(other) == old(device).sector(other),
            final(self).start() == old(self).start(),
            final(self).size() == old(self).size(),
            result is Ok ==> final(self).wf(volume, final(device)) && final(self).position() == 0,
            result matches Err(e) ==> e == if !valid_cluster(old(self).start()) {
                FatError::OutOfPartition
            } else if volume.sectors_per_cluster == 0 {
                FatError::OutOfCluster
            } else {
                FatError::Io
            },
    {
        self.current_cluster = self.start_cluster;
        self.current_sector = 0;
        self.current_byte = 0;
        self.absolute_byte = 0;
        self.hops = Ghost(0);
        self.load_current_sector(volume, device)
    }

    /// Whether the cursor stands behind the last byte of the file.
    pub fn is_eof(&self) -> (eof: bool)
        ensures
            eof == (self.position() >= self.size()),
    {
        self.absolute_byte >= self.size
    }

    /// The number of bytes that lie before the cursor.
    pub fn tell(&self) -> (position: u64)
        ensures
            position == self.position(),
    {
        self.absolute_byte
    }

    /// Whether the cursor stands behind the last byte of the sector in the
    /// buffer.
    fn is_end_of_sector(&self) -> (end: bool)
        ensures
            end == (self.current_byte >= 512),
    {
        self.current_byte >= SECTOR_SIZE
    }

    /// Moves the cursor to the first byte of the next sector of the file,
    /// which is read: the next sector of the cluster, or the first sector
    /// of the next cluster of the chain. Where the chain ends the answer
    /// is `false` and the stream stays as it is.
    fn next_sector<D: SectorRead>(&mut self, volume: &Fat32Volume, device: &mut D) -> (result: Result<
        bool,
        FatError,
    >)
        requires
            old(self).wf(volume, old(device)),
            old(self).loaded(volume, old(device)),
            old(self).current_byte == 512,
        ensures
            forall|other: u64| #[trigger] final(device).sector(other) == old(device).sector(other),
            final(self).start() == old(self).start(),
            final(self).size() == old(self).size(),
            final(self).position() == old(self).position(),
            result == Ok::<bool, FatError>(true) ==> final(self).loaded(volume, final(device))
                && final(self).current_byte == 0 && final(self).wf(volume, final(device)),
            result == Ok::<bool, FatError>(false) ==> *final(self) == *old(self) && file_sector(
                volume,
                old(device),
                old(self).start(),
                (old(self).position() / 512) as nat,
            ) is None,
            result matches Err(e) ==> e == FatError::Io || e == FatError::OutOfPartition,
    {
        let ghost k = self.hops@;
        let ghost spc = volume.sectors_per_cluster as nat;
        proof {
            assert(self.absolute_byte == (k * spc + self.current_sector + 1) * 512);
        }
        if self.current_sector + 1 < volume.sectors_per_cluster {
            self.current_sector = self.current_sector + 1;
            match self.load_current_sector(volume, device) {
                Ok(()) => Ok(true),
                Err(e) => Err(e),
            }
        } else {
            match volume.fat.get_next_cluster(self.current_cluster) {
                Some(next_cluster) => {
                    self.current_cluster = next_cluster;
                    self.current_sector = 0;
                    proof {
                        self.hops@ = k + 1;
                        assert((k + 1) * spc == k * spc + spc) by (nonlinear_arith);
                    }
                    match self.load_current_sector(volume, device) {
                        Ok(()) => Ok(true),
                        Err(e) => Err(e),
                    }
                },
                None => {
                    proof {
                        let index = (old(self).position() / 512) as nat;
                        let sector = old(self).current_sector as nat;
                        assert(index == (k + 1) * spc) by (nonlinear_arith)
                            requires
                                index == k * spc + sector + 1,
                                sector + 1 == spc,
                        ;
                        lemma_multiple(k + 1, spc);
                        assert(chain(volume.fat.entries(), old(self).start(), k + 1) is None);
                    }
                    Ok(false)
                },
            }
        }
    }

    /// The byte under the cursor, behind which the cursor moves; or
    /// nothing where the cursor stands behind the last byte of the file,
    /// or where the chain of the file ends before.
    pub fn next_byte<D: SectorRead>(&mut self, volume: &Fat32Volume, device: &mut D) -> (result:
        Result<Option<u8>, FatError>)
        requires
            old(self).wf(volume, old(device)),
        ensures
            forall|other: u64| #[trigger] final(device).sector(other) == old(device).sector(other),
            final(self).start() == old(self).start(),
            final(self).size() == old(self).size(),
            result is Ok ==> final(self).wf(volume, final(device)),
            result matches Ok(Some(byte)) ==> {
                &&& old(self).position() < old(self).size()
                &&& final(self).position() == old(self).position() + 1
                &&& file_byte(volume, old(device), old(self).start(), old(self).position() as nat)
                    == Some(byte)
            },
            result matches Ok(None) ==> {
                &&& final(self).position() == old(self).position()
                &&& old(self).position() >= old(self).size() || file_byte(
                    volume,
                    old(device),
                    old(self).start(),
                    old(self).position() as nat,
                ) is None
            },
            result matches Err(e) ==> e == FatError::Io || e == FatError::OutOfPartition,
    {
        if self.is_eof() {
            return Ok(None);
        }
        if self.is_end_of_sector() {
            match self.next_sector(volume, device) {
                Ok(true) => {},
                Ok(false) => {
                    return Ok(None);
                },
                Err(e) => {
                    return Err(e);
                },
            }
        }
        let byte = self.buffer[self.current_byte];
        proof {
            let k = self.hops@;
            let spc = volume.sectors_per_cluster as nat;
            let index = k * spc + self.current_sector;
            assert(self.absolute_byte as nat / 512 == index);
            assert(self.absolute_byte as nat % 512 == self.current_byte);
            lemma_split(k, spc, self.current_sector as nat);
        }
        self.absolute_byte = self.absolute_byte + 1;
        self.current_byte = self.current_byte + 1;
        Ok(Some(byte))
    }

    /// Reads `count` bytes from the cursor on and appends them to `out`.
    /// The file must hold that many bytes behind the cursor.
    pub fn read_bytes<D: SectorRead>(
        &mut self,
        volume: &Fat32Volume,
        device: &mut D,
        out: &mut Vec<u8>,
        count: usize,
    ) -> (result: Result<(), FatError>)
        requires
            old(self).wf(volume, old(device)),
        ensures
            forall|other: u64| #[trigger] final(device).sector(other) == old(device).sector(other),
            final(self).start() == old(self).start(),
            final(self).size() == old(self).size(),
            result is Ok ==> {
                &&& final(self).wf(volume, final(device))
                &&& final(self).position() == old(self).position() + count
                &&& final(out)@.len() == old(out)@.len() + count
                &&& final(out)@.subrange(0, old(out)@.len() as int) == old(out)@
                &&& forall|i: int|
                    0 <= i < count ==> file_byte(
                        volume,
                        old(device),
                        old(self).start(),
                        (old(self).position() + i) as nat,
                    ) == Some(#[trigger] final(out)@[old(out)@.len() + i])
            },
            result matches Err(e) ==> e == FatError::Io || e == FatError::OutOfPartition || (e
                == FatError::EndOfFile && exists|i: int|
                0 <= i < count && (old(self).position() + i >= old(self).size() || #[trigger] file_byte(
                    volume,
                    old(device),
                    old(self).start(),
                    (old(self).position() + i) as nat,
                ) is None)),
    {
        let mut index: usize = 0;
        while index < count
            invariant
                index <= count,
                self.wf(volume, device),
                forall|other: u64| #[trigger] device.sector(other) == old(device).sector(other),
                self.start() == old(self).start(),
                self.size() == old(self).size(),
                self.position() == old(self).position() + index,
                out@.len() == old(out)@.len() + index,
                out@.subrange(0, old(out)@.len() as int) == old(out)@,
                forall|i: int|
                    0 <= i < index ==> file_byte(
                        volume,
                        old(device),
                        old(self).start(),
                        (old(self).position() + i) as nat,
                    ) == Some(#[trigger] out@[old(out)@.len() + i]),
            decreases count - index,
        {
            let ghost before = out@;
            let ghost reading = *device;
            match self.next_byte(volume, device) {
                Ok(Some(byte)) => {
                    out.push(byte);
                    proof {
                        lemma_same_disk(volume, &reading, old(device), old(self).start(), (old(self).position() + index) as nat);
                        assert(out@.subrange(0, old(out)@.len() as int) =~= before.subrange(
                            0,
                            old(out)@.len() as int,
                        ));
                    }
                },
                Ok(None) => {
                    proof {
                        lemma_same_disk(volume, &reading, old(device), old(self).start(), (old(self).position() + index) as nat);
                    }
                    return Err(FatError::EndOfFile);
                },
                Err(e) => {
                    return Err(e);
                },
            }
            proof {
                lemma_keeps(self, volume, &reading, device);
            }
            index += 1;
        }
        Ok(())
    }

    /// Reads `count` bytes from the cursor on.
    pub fn read_array<D: SectorRead>(&mut self, volume: &Fat32Volume, device: &mut D, count: usize)
        -> (result: Result<Vec<u8>, FatError>)
        requires
            old(self).wf(volume, old(device)),
        ensures
            forall|other: u64| #[trigger] final(device).sector(other) == old(device).sector(other),
            final(self).start() == old(self).start(),
            final(self).size() == old(self).size(),
            result matches Ok(bytes) ==> {
                &&& final(self).wf(volume, final(device))
                &&& final(self).position() == old(self).position() + count
                &&& holds_at(volume, old(device), old(self).start(), old(self).position() as nat, bytes@)
                &&& bytes@.len() == count
            },
            result matches Err(e) ==> e == FatError::Io || e == FatError::OutOfPartition || e
                == FatError::EndOfFile,
    {
        let mut bytes: Vec<u8> = Vec::new();
        match self.read_bytes(volume, device, &mut bytes, count) {
            Ok(()) => {
                assert forall|i: int| 0 <= i < bytes@.len() implies file_byte(
                    volume,
                    old(device),
                    old(self).start(),
                    (old(self).position() + i) as nat,
                ) == Some(#[trigger] bytes@[i]) by {
                    assert(bytes@[0 + i] == bytes@[i]);
                }
                Ok(bytes)
            },
            Err(e) => Err(e),
        }
    }

    /// Reads one byte.
    pub fn read_u8<D: SectorRead>(&mut self, volume: &Fat32Volume, device: &mut D) -> (result:
        Result<u8, FatError>)
        requires
            old(self).wf(volume, old(device)),
        ensures
            forall|other: u64| #[trigger] final(device).sector(other) == old(device).sector(other),
            final(self).start() == old(self).start(),
            final(self).size() == old(self).size(),
            result matches Ok(value) ==> {
                &&& final(self).wf(volume, final(device))
                &&& final(self).position() == old(self).position() + 1
                &&& file_byte(volume, old(device), old(self).start(), old(self).position() as nat)
                    == Some(value)
            },
            result matches Err(e) ==> e == FatError::Io || e == FatError::OutOfPartition || e
                == FatError::EndOfFile,
    {
        match self.read_array(volume, device, 1) {
            Ok(bytes) => {
                assert(file_byte(
                    volume,
                    old(device),
                    old(self).start(),
                    (old(self).position() + 0) as nat,
                ) == Some(bytes@[0]));
                Ok(bytes[0])
            },
            Err(e) => Err(e),
        }
    }

    /// Reads a little-endian 16-bit number.
    pub fn read_u16<D: SectorRead>(&mut self, volume: &Fat32Volume, device: &mut D) -> (result:
        Result<u16, FatError>)
        requires
            old(self).wf(volume, old(device)),
        ensures
            forall|other: u64| #[trigger] final(device).sector(other) == old(device).sector(other),
            final(self).start() == old(self).start(),
            final(self).size() == old(self).size(),
            result matches Ok(value) ==> {
                &&& final(self).wf(volume, final(device))
                &&& final(self).position() == old(self).position() + 2
                &&& exists|bytes: Seq<u8>|
                    bytes.len() == 2 && #[trigger] holds_at(
                        volume,
                        old(device),
                        old(self).start(),
                        old(self).position() as nat,
                        bytes,
                    ) && value == le16(bytes, 0)
            },
            result matches Err(e) ==> e == FatError::Io || e == FatError::OutOfPartition || e
                == FatError::EndOfFile,
    {
        match self.read_array(volume, device, 2) {
            Ok(bytes) => Ok(read_le16(bytes.as_slice(), 0)),
            Err(e) => Err(e),
        }
    }

    /// Reads a little-endian 32-bit number.
    pub fn read_u32<D: SectorRead>(&mut self, volume: &Fat32Volume, device: &mut D) -> (result:
        Result<u32, FatError>)
        requires
            old(self).wf(volume, old(device)),
        ensures
            forall|other: u64| #[trigger] final(device).sector(other) == old(device).sector(other),
            final(self).start() == old(self).start(),
            final(self).size() == old(self).size(),
            result matches Ok(value) ==> {
                &&& final(self).wf(volume, final(device))
                &&& final(self).position() == old(self).position() + 4
                &&& exists|bytes: Seq<u8>|
                    bytes.len() == 4 && #[trigger] holds_at(
                        volume,
                        old(device),
                        old(self).start(),
                        old(self).position() as nat,
                        bytes,
                    ) && value == le32(bytes, 0)
            },
            result matches Err(e) ==> e == FatError::Io || e == FatError::OutOfPartition || e
                == FatError::EndOfFile,
    {
        match self.read_array(volume, device, 4) {
            Ok(bytes) => Ok(read_le32(bytes.as_slice(), 0)),
            Err(e) => Err(e),
        }
    }

    /// Reads a little-endian 64-bit number.
    pub fn read_u64<D: SectorRead>(&mut self, volume: &Fat32Volume, device: &mut D) -> (result:
        Result<u64, FatError>)
        requires
            old(self).wf(volume, old(device)),
        ensures
            forall|other: u64| #[trigger] final(device).sector(other) == old(device).sector(other),
            final(self).start() == old(self).start(),
            final(self).size() == old(self).size(),
            result matches Ok(value) ==> {
                &&& final(self).wf(volume, final(device))
                &&& final(self).position() == old(self).position() + 8
                &&& exists|bytes: Seq<u8>|
                    bytes.len() == 8 && #[trigger] holds_at(
                        volume,
                        old(device),
                        old(self).start(),
                        old(self).position() as nat,
                        bytes,
                    ) && value == le64(bytes, 0)
            },
            result matches Err(e) ==> e == FatError::Io || e == FatError::OutOfPartition || e
                == FatError::EndOfFile,
    {
        match self.read_array(volume, device, 8) {
            Ok(bytes) => Ok(crate::bytes::read_le64(bytes.as_slice(), 0)),
            Err(e) => Err(e),
        }
    }

    /// Moves the cursor to the byte at `position`, counted from the start
    /// of the file, which must hold that many bytes.
    pub fn seek<D: SectorRead>(&mut self, volume: &Fat32Volume, device: &mut D, position: u64) -> (result:
        Result<(), FatError>)
        requires
            volume.wf(),
        ensures
            forall|other: u64| #[trigger] final(device).sector(other) == old(device).sector(other),
            final(self).start() == old(self).start(),
            final(self).size() == old(self).size(),
            result is Ok ==> final(self).wf(volume, final(device)) && final(self).position()
                == position,
            result matches Err(e) ==> e == FatError::Io || e == FatError::OutOfPartition || e
                == FatError::OutOfCluster || (e == FatError::EndOfFile && exists|i: nat|
                i < position && (i >= old(self).size() || #[trigger] file_byte(
                    volume,
                    old(device),
                    old(self).start(),
                    i,
                ) is None)),
    {
        match self.reset(volume, device) {
            Ok(()) => {},
            Err(e) => {
                return Err(e);
            },
        }
        let mut skipped: u64 = 0;
        while skipped < position
            invariant
                skipped <= position,
                self.wf(volume, device),
                forall|other: u64| #[trigger] device.sector(other) == old(device).sector(other),
                self.start() == old(self).start(),
                self.size() == old(self).size(),
                self.position() == skipped,
            decreases position - skipped,
        {
            let ghost reading = *device;
            match self.next_byte(volume, device) {
                Ok(Some(_)) => {},
                Ok(None) => {
                    proof {
                        lemma_same_disk(
                            volume,
                            &reading,
                            old(device),
                            old(self).start(),
                            skipped as nat,
                        );
                        let found = file_byte(
                            volume,
                            old(device),
                            old(self).start(),
                            skipped as nat,
                        );
                        assert(skipped >= old(self).size() || found is None);
                    }
                    return Err(FatError::EndOfFile);
                },
                Err(e) => {
                    return Err(e);
                },
            }
            skipped += 1;
        }
        Ok(())
    }
}

/// Whether the file holds the bytes `bytes` from `position` on.
pub open spec fn holds_at<D: SectorRead>(
    volume: &Fat32Volume,
    device: &D,
    start: u32,
    position: nat,
    bytes: Seq<u8>,
) -> bool {
    forall|i: int|
        0 <= i < bytes.len() ==> file_byte(volume, device, start, (position + i) as nat) == Some(
            #[trigger] bytes[i],
        )
}

/// An entry of a directory: 32 bytes on disk, with the name in eight and
/// three characters and all numbers little-endian.
#[derive(Clone, Copy, Debug)]
pub struct DirectoryEntry {
    pub name: [u8; 11],
    pub attributes: u8,
    pub reserved: u8,
    pub creation_time_tenth: u8,
    pub creation_time: u16,
    pub creation_date: u16,
    pub last_access_date: u16,
    pub first_cluster_high: u16,
    pub last_write_time: u16,
    pub last_write_date: u16,
    pub first_cluster_low: u16,
    pub file_size: u32,
}

/// The entry in 32 bytes.
pub open spec fn entry_of(bytes: Seq<u8>) -> DirectoryEntry {
    DirectoryEntry {
        name: [
            bytes[0],
            bytes[1],
            bytes[2],
            bytes[3],
            bytes[4],
            bytes[5],
            bytes[6],
            bytes[7],
            bytes[8],
            bytes[9],
            bytes[10],
        ],
        attributes: bytes[11],
        reserved: bytes[12],
        creation_time_tenth: bytes[13],
        creation_time: le16(bytes, 14) as u16,
        creation_date: le16(bytes, 16) as u16,
        last_access_date: le16(bytes, 18) as u16,
        first_cluster_high: le16(bytes, 20) as u16,
        last_write_time: le16(bytes, 22) as u16,
        last_write_date: le16(bytes, 24) as u16,
        first_cluster_low: le16(bytes, 26) as u16,
        file_size: le32(bytes, 28) as u32,
    }
}

/// Whether an entry marks the end of its directory: its name is all zero
/// and its size is zero.
pub open spec fn is_end_spec(entry: DirectoryEntry) -> bool {
    entry.file_size == 0 && forall|i: int| 0 <= i < 11 ==> entry.name[i] == 0
}

/// Whether an entry is deleted: its name starts with the byte 0xE5.
pub open spec fn is_deleted_spec(entry: DirectoryEntry) -> bool {
    entry.name[0] == 0xE5
}

impl DirectoryEntry {
    /// The entry under the cursor of a directory file, behind which the
    /// cursor moves.
    pub fn new<D: SectorRead>(file: &mut FileStream, volume: &Fat32Volume, device: &mut D) -> (result:
        Result<Self, FatError>)
        requires
            old(file).wf(volume, old(device)),
        ensures
            forall|other: u64| #[trigger] final(device).sector(other) == old(device).sector(other),
            final(file).start() == old(file).start(),
            final(file).size() == old(file).size(),
            result matches Ok(entry) ==> {
                &&& final(file).wf(volume, final(device))
                &&& final(file).position() == old(file).position() + 32
                &&& exists|bytes: Seq<u8>|
                    bytes.len() == 32 && #[trigger] holds_at(
                        volume,
                        old(device),
                        old(file).start(),
                        old(file).position() as nat,
                        bytes,
                    ) && entry == entry_of(bytes)
            },
            result matches Err(e) ==> e == FatError::Io || e == FatError::OutOfPartition || e
                == FatError::EndOfFile,
    {
        match file.read_array(volume, device, DIRECTORY_ENTRY_SIZE) {
            Ok(bytes) => Ok(Self::parse(bytes.as_slice())),
            Err(e) => Err(e),
        }
    }

    /// The entry in the first 32 bytes of `bytes`.
    pub fn parse(bytes: &[u8]) -> (entry: Self)
        requires
            bytes@.len() >= 32,
        ensures
            entry == entry_of(bytes@),
    {
        let entry = DirectoryEntry {
            name: [
                bytes[0],
                bytes[1],
                bytes[2],
                bytes[3],
                bytes[4],
                bytes[5],
                bytes[6],
                bytes[7],
                bytes[8],
                bytes[9],
                bytes[10],
            ],
            attributes: bytes[11],
            reserved: bytes[12],
            creation_time_tenth: bytes[13],
            creation_time: read_le16(bytes, 14),
            creation_date: read_le16(bytes, 16),
            last_access_date: read_le16(bytes, 18),
            first_cluster_high: read_le16(bytes, 20),
            last_write_time: read_le16(bytes, 22),
            last_write_date: read_le16(bytes, 24),
            first_cluster_low: read_le16(bytes, 26),
            file_size: read_le32(bytes, 28),
        };
        assert(entry.name@ =~= entry_of(bytes@).name@);
        entry
    }

    /// The all-zero entry.
    pub fn zeroed() -> (entry: Self)
        ensures
            is_end_spec(entry),
            entry.attributes == 0,
            entry.first_cluster_high == 0,
            entry.first_cluster_low == 0,
    {
        DirectoryEntry {
            name: [0u8; 11],
            attributes: 0,
            reserved: 0,
            creation_time_tenth: 0,
            creation_time: 0,
            creation_date: 0,
            last_access_date: 0,
            first_cluster_high: 0,
            last_write_time: 0,
            last_write_date: 0,
            first_cluster_low: 0,
            file_size: 0,
        }
    }

    /// The first cluster of the file: the high word above the low word.
    pub fn first_cluster(&self) -> (cluster: u32)
        ensures
            cluster == self.first_cluster_high * 0x1_0000 + self.first_cluster_low,
    {
        (self.first_cluster_high as u32) * 0x1_0000 + (self.first_cluster_low as u32)
    }

    /// Whether the entry stands for a file, not for a directory.
    pub fn is_file(&self) -> (file: bool)
        ensures
            file == (self.attributes & 0x10 == 0),
    {
        (self.attributes & 0x10) == 0
    }

    /// Whether the entry marks the end of its directory.
    pub fn is_end_of_directory(&self) -> (end: bool)
        ensures
            end == is_end_spec(*self),
    {
        if self.file_size != 0 {
            return false;
        }
        let mut i: usize = 0;
        while i < 11
            invariant
                i <= 11,
                forall|k: int| 0 <= k < i ==> self.name[k] == 0,
            decreases 11 - i,
        {
            if self.name[i] != 0 {
                return false;
            }
            i += 1;
        }
        true
    }

    /// Whether the entry is deleted.
    pub fn is_deleted(&self) -> (deleted: bool)
        ensures
            deleted == is_deleted_spec(*self),
    {
        self.name[0] == 0xE5
    }

    /// Whether the entry bears the given name, in eight and three
    /// characters.
    pub fn has_name(&self, name: &[u8; 11]) -> (same: bool)
        ensures
            same == (self.name@ == name@),
    {
        crate::bytes::same_bytes(self.name.as_slice(), name.as_slice())
    }
}

/// Lists the entries of a directory.
pub struct DirectoryIterator {
    file_stream: FileStream,
    base_cluster: u32,
}

/// The entries that are listed of `records`: those that are not deleted.
pub open spec fn listed(records: Seq<DirectoryEntry>) -> Seq<DirectoryEntry> {
    records.filter(|entry: DirectoryEntry| !is_deleted_spec(entry))
}

impl DirectoryIterator {
    /// The directory file.
    pub closed spec fn stream(&self) -> FileStream {
        self.file_stream
    }

    /// The first cluster of the directory.
    pub closed spec fn base(&self) -> u32 {
        self.base_cluster
    }

    /// The iterator over the directory that starts in the cluster
    /// `base_cluster`. The size of the directory is that of the clusters
    /// of its chain.
    pub fn new<D: SectorRead>(fat_volume: &Fat32Volume, device: &mut D, base_cluster: u32) -> (result:
        Result<Self, FatError>)
        requires
            fat_volume.wf(),
        ensures
            forall|other: u64| #[trigger] final(device).sector(other) == old(device).sector(other),
            result matches Ok(iterator) ==> {
                &&& iterator.base() == base_cluster
                &&& iterator.stream().start() == base_cluster
                &&& iterator.stream().wf(fat_volume, final(device))
                &&& exists|clusters: nat|
                    #[trigger] chain_ends(fat_volume.fat.entries(), base_cluster, clusters)
                        && iterator.stream().size() == clusters * fat_volume.sectors_per_cluster
                        * 512
            },
            result matches Err(e) ==> (e == FatError::EndlessChain && forall|hops: nat|
                hops <= 65537 ==> (#[trigger] chain(fat_volume.fat.entries(), base_cluster, hops))
                    is Some) || e == if !valid_cluster(base_cluster) {
                FatError::OutOfPartition
            } else if fat_volume.sectors_per_cluster == 0 {
                FatError::OutOfCluster
            } else {
                FatError::Io
            },
    {
        let directory_size = match Self::calculate_directory_size(fat_volume, base_cluster) {
            Ok(size) => size,
            Err(e) => {
                return Err(e);
            },
        };
        let file_stream = match FileStream::new(fat_volume, device, base_cluster, directory_size) {
            Ok(stream) => stream,
            Err(e) => {
                return Err(e);
            },
        };
        Ok(DirectoryIterator { file_stream, base_cluster })
    }

    /// The size in bytes of the directory that starts in the cluster
    /// `base_cluster`: that of the clusters of its chain. A chain of more
    /// clusters than the table has entries does not end.
    pub fn calculate_directory_size(fat_volume: &Fat32Volume, base_cluster: u32) -> (result: Result<
        u64,
        FatError,
    >)
        requires
            fat_volume.wf(),
        ensures
            result matches Ok(size) ==> exists|clusters: nat|
                #[trigger] chain_ends(fat_volume.fat.entries(), base_cluster, clusters) && size
                    == clusters * fat_volume.sectors_per_cluster * 512 && clusters <= 65537,
            result matches Err(e) ==> e == FatError::EndlessChain && forall|hops: nat|
                hops <= 65537 ==> (#[trigger] chain(fat_volume.fat.entries(), base_cluster, hops))
                    is Some,
    {
        let mut cluster = base_cluster;
        let mut clusters: u64 = 0;
        let cluster_size = fat_volume.sectors_per_cluster * SECTOR_SIZE as u64;
        loop
            invariant
                fat_volume.wf(),
                clusters <= 65537,
                cluster_size == fat_volume.sectors_per_cluster * 512,
                chain(fat_volume.fat.entries(), base_cluster, clusters as nat) == Some(cluster),
                forall|hops: nat|
                    hops <= clusters ==> (#[trigger] chain(
                        fat_volume.fat.entries(),
                        base_cluster,
                        hops,
                    )) is Some,
            decreases 65537 - clusters,
        {
            if clusters >= 65537 {
                return Err(FatError::EndlessChain);
            }
            clusters = clusters + 1;
            match fat_volume.fat.get_next_cluster(cluster) {
                Some(next_cluster) => {
                    cluster = next_cluster;
                },
                None => {
                    assert(chain_ends(fat_volume.fat.entries(), base_cluster, clusters as nat));
                    assert(clusters * fat_volume.sectors_per_cluster <= 65537 * 0xFF)
                        by (nonlinear_arith)
                        requires
                            clusters <= 65537,
                            fat_volume.sectors_per_cluster <= 0xFF,
                    ;
                    assert(clusters * cluster_size == clusters * fat_volume.sectors_per_cluster
                        * 512) by (nonlinear_arith)
                        requires
                            cluster_size == fat_volume.sectors_per_cluster * 512,
                    ;
                    return Ok(clusters * cluster_size);
                },
            }
        }
    }

    /// The entries of the directory, from its start up to the entry that
    /// marks its end, without those that are deleted.
    pub fn iterate<D: SectorRead>(&mut self, volume: &Fat32Volume, device: &mut D) -> (result: Result<
        Vec<DirectoryEntry>,
        FatError,
    >)
        requires
            volume.wf(),
        ensures
            forall|other: u64| #[trigger] final(device).sector(other) == old(device).sector(other),
            final(self).base() == old(self).base(),
            final(self).stream().start() == old(self).stream().start(),
            final(self).stream().size() == old(self).stream().size(),
            result matches Ok(entries) ==> exists|records: Seq<DirectoryEntry>|
                {
                    &&& #[trigger] listed(records) == entries@
                    &&& forall|i: int|
                        0 <= i < records.len() ==> !is_end_spec(#[trigger] records[i])
                            && is_record(
                            volume,
                            old(device),
                            old(self).stream().start(),
                            i as nat,
                            records[i],
                        )
                    &&& exists|last: DirectoryEntry|
                        is_end_spec(last) && #[trigger] is_record(
                            volume,
                            old(device),
                            old(self).stream().start(),
                            records.len(),
                            last,
                        )
                },
            result matches Err(e) ==> e == FatError::Io || e == FatError::OutOfPartition || e
                == FatError::OutOfCluster || e == FatError::EndOfFile,
    {
        match self.file_stream.reset(volume, device) {
            Ok(()) => {},
            Err(e) => {
                return Err(e);
            },
        }
        let mut entries: Vec<DirectoryEntry> = Vec::new();
        let ghost mut records: Seq<DirectoryEntry> = Seq::empty();
        proof {
            assert(listed(records) =~= entries@) by {
                reveal(Seq::filter);
            }
        }
        loop
            invariant
                volume.wf(),
                self.file_stream.wf(volume, device),
                forall|other: u64| #[trigger] device.sector(other) == old(device).sector(other),
                self.base() == old(self).base(),
                self.file_stream.start() == old(self).stream().start(),
                self.file_stream.size() == old(self).stream().size(),
                self.file_stream.position() == records.len() * 32,
                listed(records) == entries@,
                forall|i: int|
                    0 <= i < records.len() ==> !is_end_spec(#[trigger] records[i]) && is_record(
                        volume,
                        old(device),
                        old(self).stream().start(),
                        i as nat,
                        records[i],
                    ),
            decreases self.file_stream.size() - self.file_stream.position(),
        {
            let ghost reading = *device;
            let ghost at = self.file_stream.position();
            let entry = match DirectoryEntry::new(&mut self.file_stream, volume, device) {
                Ok(entry) => entry,
                Err(e) => {
                    return Err(e);
                },
            };
            proof {
                let bytes = choose|bytes: Seq<u8>|
                    bytes.len() == 32 && #[trigger] holds_at(
                        volume,
                        &reading,
                        old(self).stream().start(),
                        at as nat,
                        bytes,
                    ) && entry == entry_of(bytes);
                assert forall|i: int| 0 <= i < 32 implies file_byte(
                    volume,
                    old(device),
                    old(self).stream().start(),
                    (records.len() * 32 + i) as nat,
                ) == Some(#[trigger] bytes[i]) by {
                    lemma_same_disk(
                        volume,
                        &reading,
                        old(device),
                        old(self).stream().start(),
                        (at + i) as nat,
                    );
                }
                assert(holds_at(
                    volume,
                    old(device),
                    old(self).stream().start(),
                    records.len() * 32,
                    bytes,
                ));
                assert(is_record(
                    volume,
                    old(device),
                    old(self).stream().start(),
                    records.len(),
                    entry,
                ));
            }
            if entry.is_end_of_directory() {
                return Ok(entries);
            }
            proof {
                let before = records;
                records = records.push(entry);
                lemma_listed_push(before, entry);
            }
            if entry.is_deleted() {
                continue ;
            }
            entries.push(entry);
        }
    }
}

/// Whether the chain that starts in `start` has exactly `clusters`
/// clusters.
pub open spec fn chain_ends(entries: Seq<u32>, start: u32, clusters: nat) -> bool {
    &&& clusters >= 1
    &&& chain(entries, start, (clusters - 1) as nat) is Some
    &&& chain(entries, start, clusters) is None
}

/// Whether `entry` is the entry with the number `index` of the directory
/// that starts in the cluster `start`.
pub open spec fn is_record<D: SectorRead>(
    volume: &Fat32Volume,
    device: &D,
    start: u32,
    index: nat,
    entry: DirectoryEntry,
) -> bool {
    exists|bytes: Seq<u8>|
        bytes.len() == 32 && #[trigger] holds_at(volume, device, start, index * 32, bytes) && entry
            == entry_of(bytes)
}

/// One more record is listed unless it is deleted.
pub proof fn lemma_listed_push(records: Seq<DirectoryEntry>, entry: DirectoryEntry)
    ensures
        listed(records.push(entry)) == if is_deleted_spec(entry) {
            listed(records)
        } else {
            listed(records).push(entry)
        },
{
    let keep = |entry: DirectoryEntry| !is_deleted_spec(entry);
    reveal(Seq::filter);
    assert(records.push(entry).drop_last() =~= records);
}


/// A whole number of clusters holds a whole number of sectors.
pub proof fn lemma_multiple(k: nat, spc: nat)
    by (nonlinear_arith)
    requires
        spc > 0,
    ensures
        (k * spc) / spc == k,
        (k * spc) % spc == 0,
{
}

/// The sector `sector` of the cluster that stands `k` places into a chain
/// is the sector with the number `k * spc + sector` of the file.
pub proof fn lemma_split(k: nat, spc: nat, sector: nat)
    by (nonlinear_arith)
    requires
        spc > 0,
        sector < spc,
    ensures
        (k * spc + sector) / spc == k,
        (k * spc + sector) % spc == sector,
{
}

/// Disks that hold the same sectors hold the same files.
pub proof fn lemma_same_disk<D: SectorRead>(
    volume: &Fat32Volume,
    first: &D,
    second: &D,
    start: u32,
    position: nat,
)
    requires
        forall|other: u64| #[trigger] first.sector(other) == second.sector(other),
    ensures
        file_byte(volume, first, start, position) == file_byte(volume, second, start, position),
        file_sector(volume, first, start, position / 512) == file_sector(
            volume,
            second,
            start,
            position / 512,
        ),
{
}

/// A stream that is well formed on a disk is well formed on every disk
/// that holds the same sectors.
pub proof fn lemma_keeps<D: SectorRead>(
    stream: &FileStream,
    volume: &Fat32Volume,
    first: &D,
    second: &D,
)
    requires
        forall|other: u64| #[trigger] first.sector(other) == second.sector(other),
    ensures
        stream.wf(volume, first) == stream.wf(volume, second),
        stream.loaded(volume, first) == stream.loaded(volume, second),
{
}

} // verus!
