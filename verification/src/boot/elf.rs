//! The kernel image: an ELF file for 64-bit RISC-V, of which the loader
//! reads the header and the program headers, and whose loadable segments
//! it hands over to be put in memory.

use vstd::prelude::*;
use crate::boot::fat32::FatError;
use crate::boot::fat32::Fat32Volume;
use crate::boot::fat32::FileStream;
use crate::boot::fat32::SectorRead;
use crate::boot::fat32::holds_at;
use crate::bytes::le16;
use crate::bytes::le32;
use crate::bytes::le64;
use crate::bytes::read_le16;
use crate::bytes::read_le32;
use crate::bytes::read_le64;

verus! {

/// The version of the format.
pub const ELF_VERSION: u32 = 1;

/// The machine RISC-V.
pub const EM_RISCV: u16 = 0xf3;

/// The type of an executable file.
pub const ET_EXEC: u16 = 2;

/// The class of a 64-bit file.
pub const EI_CLASS_64: u8 = 2;

/// The encoding of a little-endian file.
pub const EI_DATA: u8 = 1;

/// The type of a segment that is not used.
pub const PT_NULL: u32 = 0;

/// The type of a segment that is loaded.
pub const PT_LOAD: u32 = 1;

/// The type of a segment with dynamic linking information.
pub const PT_DYNAMIC: u32 = 2;

/// The type of a segment that names an interpreter.
pub const PT_INTERP: u32 = 3;

/// The type of a segment with notes.
pub const PT_NOTE: u32 = 4;

/// Segment flag: execute.
pub const PF_X: u32 = 0x1;

/// Segment flag: write.
pub const PF_W: u32 = 0x2;

/// Segment flag: read.
pub const PF_R: u32 = 0x4;

/// The size of the file header in bytes.
pub const HEADER_SIZE: usize = 64;

/// The size of a program header in bytes.
pub const PROGRAM_HEADER_SIZE: usize = 56;

/// The greatest number of program headers that the loader takes.
pub const MAX_PROGRAM_HEADERS: usize = 8;

/// Why the kernel image was not loaded.
#[derive(Clone, Copy, PartialEq, Eq, Structural, Debug)]
pub enum ElfError {
    /// The file could not be read.
    File(FatError),
    /// The file does not start with the magic bytes.
    BadMagic,
    /// The version of the format is not 1.
    UnsupportedVersion,
    /// The file is not an executable.
    NotExecutable,
    /// The file is not for RISC-V.
    BadMachine,
    /// The file is not a 64-bit file.
    Not64Bit,
    /// The file is not little-endian.
    NotLittleEndian,
    /// The file has more program headers than the loader takes.
    TooManyProgramHeaders,
    /// A segment is larger than memory can be.
    SegmentTooLarge,
}

/// The header of the file.
#[derive(Clone, Copy, Debug)]
pub struct Elf64Header {
    pub e_ident: [u8; 16],
    pub e_type: u16,
    pub e_machine: u16,
    pub e_version: u32,
    pub e_entry: u64,
    pub e_phoff: u64,
    pub e_shoff: u64,
    pub e_flags: u32,
    pub e_ehsize: u16,
    pub e_phentsize: u16,
    pub e_phnum: u16,
    pub e_shentsize: u16,
    pub e_shnum: u16,
    pub e_shstrndx: u16,
}

/// The header in 64 bytes: sixteen bytes of identification, and the
/// fields in their order, all little-endian.
#[verifier::opaque]
pub open spec fn header_of(bytes: Seq<u8>) -> Elf64Header {
    Elf64Header {
        e_ident: [
            bytes[0],
            bytes[1],
            bytes[2],
            bytes[3],
            bytes[4],
            bytes[5],
            bytes[6],
            bytes[7],
            bytes[8],
            bytes[9],
            bytes[10],
            bytes[11],
            bytes[12],
            bytes[13],
            bytes[14],
            bytes[15],
        ],
        e_type: le16(bytes, 16) as u16,
        e_machine: le16(bytes, 18) as u16,
        e_version: le32(bytes, 20) as u32,
        e_entry: le64(bytes, 24) as u64,
        e_phoff: le64(bytes, 32) as u64,
        e_shoff: le64(bytes, 40) as u64,
        e_flags: le32(bytes, 48) as u32,
        e_ehsize: le16(bytes, 52) as u16,
        e_phentsize: le16(bytes, 54) as u16,
        e_phnum: le16(bytes, 56) as u16,
        e_shentsize: le16(bytes, 58) as u16,
        e_shnum: le16(bytes, 60) as u16,
        e_shstrndx: le16(bytes, 62) as u16,
    }
}

/// What a header is checked for, in the order of the checks: the magic
/// bytes, the version, the type, the machine, the class and the
/// encoding.
pub open spec fn validate_spec(header: Elf64Header) -> Result<(), ElfError> {
    if !(header.e_ident[0] == 0x7f && header.e_ident[1] == 0x45 && header.e_ident[2] == 0x4c
        && header.e_ident[3] == 0x46) {
        Err(ElfError::BadMagic)
    } else if header.e_version != 1 {
        Err(ElfError::UnsupportedVersion)
    } else if header.e_type != 2 {
        Err(ElfError::NotExecutable)
    } else if header.e_machine != 0xf3 {
        Err(ElfError::BadMachine)
    } else if header.e_ident[4] != 2 {
        Err(ElfError::Not64Bit)
    } else if header.e_ident[5] != 1 {
        Err(ElfError::NotLittleEndian)
    } else {
        Ok(())
    }
}

impl Elf64Header {
    /// The header at the cursor of the file, behind which the cursor
    /// moves.
    pub fn new<D: SectorRead>(file_stream: &mut FileStream, volume: &Fat32Volume, device: &mut D)
        -> (result: Result<Self, ElfError>)
        requires
            old(file_stream).wf(volume, old(device)),
        ensures
            forall|other: u64| #[trigger] final(device).sector(other) == old(device).sector(other),
            final(file_stream).start() == old(file_stream).start(),
            final(file_stream).size() == old(file_stream).size(),
            result matches Ok(header) ==> {
                &&& final(file_stream).wf(volume, final(device))
                &&& final(file_stream).position() == old(file_stream).position() + 64
                &&& exists|bytes: Seq<u8>|
                    bytes.len() == 64 && #[trigger] holds_at(
                        volume,
                        old(device),
                        old(file_stream).start(),
                        old(file_stream).position() as nat,
                        bytes,
                    ) && header == header_of(bytes)
            },
            result matches Err(e) ==> e is File,
    {
        match file_stream.read_array(volume, device, HEADER_SIZE) {
            Ok(bytes) => Ok(Self::parse(bytes.as_slice())),
            Err(e) => Err(ElfError::File(e)),
        }
    }

    /// The header in the first 64 bytes of `bytes`.
    pub fn parse(bytes: &[u8]) -> (header: Self)
        requires
            bytes@.len() >= 64,
        ensures
            header == header_of(bytes@),
    {
        let header = Elf64Header {
            e_ident: [
                bytes[0],
                bytes[1],
                bytes[2],
                bytes[3],
                bytes[4],
                bytes[5],
                bytes[6],
                bytes[7],
                bytes[8],
                bytes[9],
                bytes[10],
                bytes[11],
                bytes[12],
                bytes[13],
                bytes[14],
                bytes[15],
            ],
            e_type: read_le16(bytes, 16),
            e_machine: read_le16(bytes, 18),
            e_version: read_le32(bytes, 20),
            e_entry: read_le64(bytes, 24),
            e_phoff: read_le64(bytes, 32),
            e_shoff: read_le64(bytes, 40),
            e_flags: read_le32(bytes, 48),
            e_ehsize: read_le16(bytes, 52),
            e_phentsize: read_le16(bytes, 54),
            e_phnum: read_le16(bytes, 56),
            e_shentsize: read_le16(bytes, 58),
            e_shnum: read_le16(bytes, 60),
            e_shstrndx: read_le16(bytes, 62),
        };
        reveal(header_of);
        assert(header.e_ident@ =~= header_of(bytes@).e_ident@);
        header
    }

    /// The all-zero header.
    pub fn zeroed() -> (header: Self)
        ensures
            forall|i: int| 0 <= i < 16 ==> header.e_ident[i] == 0,
            header.e_type == 0 && header.e_machine == 0 && header.e_version == 0,
            header.e_entry == 0 && header.e_phoff == 0 && header.e_shoff == 0,
            header.e_flags == 0 && header.e_ehsize == 0 && header.e_phentsize == 0,
            header.e_phnum == 0 && header.e_shentsize == 0 && header.e_shnum == 0,
            header.e_shstrndx == 0,
    {
        Elf64Header {
            e_ident: [0u8; 16],
            e_type: 0,
            e_machine: 0,
            e_version: 0,
            e_entry: 0,
            e_phoff: 0,
            e_shoff: 0,
            e_flags: 0,
            e_ehsize: 0,
            e_phentsize: 0,
            e_phnum: 0,
            e_shentsize: 0,
            e_shnum: 0,
            e_shstrndx: 0,
        }
    }

    /// Whether the file starts with the magic bytes: 0x7F and `ELF`.
    pub fn is_valid(&self) -> (valid: bool)
        ensures
            valid == (self.e_ident[0] == 0x7f && self.e_ident[1] == 0x45 && self.e_ident[2] == 0x4c
                && self.e_ident[3] == 0x46),
    {
        self.e_ident[0] == 0x7f && self.e_ident[1] == 0x45 && self.e_ident[2] == 0x4c
            && self.e_ident[3] == 0x46
    }

    /// Whether the version of the format is the one that the loader reads.
    pub fn version_supported(&self) -> (supported: bool)
        ensures
            supported == (self.e_version == 1),
    {
        self.e_version == ELF_VERSION
    }

    /// Whether the file is an executable.
    pub fn is_executable(&self) -> (executable: bool)
        ensures
            executable == (self.e_type == 2),
    {
        self.e_type == ET_EXEC
    }

    /// Whether the file is for RISC-V.
    pub fn is_riscv(&self) -> (riscv: bool)
        ensures
            riscv == (self.e_machine == 0xf3),
    {
        self.e_machine == EM_RISCV
    }

    /// Whether the file is a 64-bit file.
    pub fn is_64_bit(&self) -> (wide: bool)
        ensures
            wide == (self.e_ident[4] == 2),
    {
        self.e_ident[4] == EI_CLASS_64
    }

    /// Whether the file is little-endian.
    pub fn is_little_endian(&self) -> (little: bool)
        ensures
            little == (self.e_ident[5] == 1),
    {
        self.e_ident[5] == EI_DATA
    }
}

/// A program header: one segment of the file.
#[derive(Clone, Copy, PartialEq, Eq, Structural, Debug)]
pub struct Elf64ProgramHeader {
    /// The type of the segment.
    pub p_type: u32,
    /// The access rights of the segment.
    pub p_flags: u32,
    /// Where the segment starts in the file.
    pub p_offset: u64,
    /// Where the segment goes in memory.
    pub p_vaddr: u64,
    /// The physical address of the segment.
    pub p_paddr: u64,
    /// The size of the segment in the file.
    pub p_filesz: u64,
    /// The size of the segment in memory.
    pub p_memsz: u64,
    /// The alignment of the segment.
    pub p_align: u64,
}

/// The program header in 56 bytes: the fields in their order, all
/// little-endian.
pub open spec fn program_header_of(bytes: Seq<u8>) -> Elf64ProgramHeader {
    Elf64ProgramHeader {
        p_type: le32(bytes, 0) as u32,
        p_flags: le32(bytes, 4) as u32,
        p_offset: le64(bytes, 8) as u64,
        p_vaddr: le64(bytes, 16) as u64,
        p_paddr: le64(bytes, 24) as u64,
        p_filesz: le64(bytes, 32) as u64,
        p_memsz: le64(bytes, 40) as u64,
        p_align: le64(bytes, 48) as u64,
    }
}

impl Elf64ProgramHeader {
    /// The program header at the cursor of the file, behind which the
    /// cursor moves.
    pub fn new<D: SectorRead>(file_stream: &mut FileStream, volume: &Fat32Volume, device: &mut D)
        -> (result: Result<Self, ElfError>)
        requires
            old(file_stream).wf(volume, old(device)),
        ensures
            forall|other: u64| #[trigger] final(device).sector(other) == old(device).sector(other),
            final(file_stream).start() == old(file_stream).start(),
            final(file_stream).size() == old(file_stream).size(),
            result matches Ok(header) ==> {
                &&& final(file_stream).wf(volume, final(device))
                &&& final(file_stream).position() == old(file_stream).position() + 56
                &&& is_program_header(
                    volume,
                    old(device),
                    old(file_stream).start(),
                    old(file_stream).position() as nat,
                    header,
                )
            },
            result matches Err(e) ==> e is File,
    {
        match file_stream.read_array(volume, device, PROGRAM_HEADER_SIZE) {
            Ok(bytes) => Ok(Self::parse(bytes.as_slice())),
            Err(e) => Err(ElfError::File(e)),
        }
    }

    /// The program header in the first 56 bytes of `bytes`.
    pub fn parse(bytes: &[u8]) -> (header: Self)
        requires
            bytes@.len() >= 56,
        ensures
            header == program_header_of(bytes@),
    {
        Elf64ProgramHeader {
            p_type: read_le32(bytes, 0),
            p_flags: read_le32(bytes, 4),
            p_offset: read_le64(bytes, 8),
            p_vaddr: read_le64(bytes, 16),
            p_paddr: read_le64(bytes, 24),
            p_filesz: read_le64(bytes, 32),
            p_memsz: read_le64(bytes, 40),
            p_align: read_le64(bytes, 48),
        }
    }

    /// The all-zero program header.
    pub fn zeroed() -> (header: Self)
        ensures
            header == (Elf64ProgramHeader {
                p_type: 0,
                p_flags: 0,
                p_offset: 0,
                p_vaddr: 0,
                p_paddr: 0,
                p_filesz: 0,
                p_memsz: 0,
                p_align: 0,
            }),
    {
        Elf64ProgramHeader {
            p_type: 0,
            p_flags: 0,
            p_offset: 0,
            p_vaddr: 0,
            p_paddr: 0,
            p_filesz: 0,
            p_memsz: 0,
            p_align: 0,
        }
    }

    /// Whether the segment is loaded.
    pub fn is_loadable(&self) -> (loadable: bool)
        ensures
            loadable == (self.p_type == 1),
    {
        self.p_type == PT_LOAD
    }
}

/// Whether `header` is the program header that the file holds at
/// `position`.
pub open spec fn is_program_header<D: SectorRead>(
    volume: &Fat32Volume,
    device: &D,
    start: u32,
    position: nat,
    header: Elf64ProgramHeader,
) -> bool {
    exists|bytes: Seq<u8>|
        bytes.len() == 56 && #[trigger] holds_at(volume, device, start, position, bytes) && header
            == program_header_of(bytes)
}

/// A segment as it goes into memory: its bytes from the file, and behind
/// them as many zero bytes as the segment is larger in memory than in the
/// file.
pub struct LoadedSegment {
    /// Where the segment goes.
    pub address: u64,
    /// The bytes from the file.
    pub data: Vec<u8>,
    /// The number of zero bytes behind them.
    pub zero_fill: u64,
}

/// The byte that a segment puts at `address`, if the segment reaches
/// there.
pub open spec fn segment_byte(segment: LoadedSegment, address: int) -> Option<u8> {
    let offset = address - segment.address;
    if 0 <= offset < segment.data@.len() {
        Some(segment.data@[offset])
    } else if segment.data@.len() <= offset < segment.data@.len() + segment.zero_fill {
        Some(0u8)
    } else {
        None
    }
}

impl LoadedSegment {
    /// The byte that the segment puts at `address`, if the segment reaches
    /// there.
    pub fn byte_at(&self, address: u64) -> (byte: Option<u8>)
        ensures
            byte == segment_byte(*self, address as int),
    {
        if address < self.address {
            return None;
        }
        let offset = address - self.address;
        let length = self.data.len() as u64;
        if offset < length {
            Some(self.data[offset as usize])
        } else if offset - length < self.zero_fill {
            Some(0)
        } else {
            None
        }
    }
}

/// Whether `segment` is what the program header `header` loads of the
/// file: the bytes of the file from `p_offset` on, as many as `p_filesz`
/// says, to go to `p_vaddr`, and behind them the zero bytes that make up
/// for `p_memsz`.
pub open spec fn loads<D: SectorRead>(
    volume: &Fat32Volume,
    device: &D,
    start: u32,
    header: Elf64ProgramHeader,
    segment: LoadedSegment,
) -> bool {
    &&& segment.address == header.p_vaddr
    &&& segment.data@.len() == header.p_filesz
    &&& holds_at(volume, device, start, header.p_offset as nat, segment.data@)
    &&& segment.zero_fill == if header.p_memsz > header.p_filesz {
        (header.p_memsz - header.p_filesz) as u64
    } else {
        0u64
    }
}

/// The kernel image, ready to be put in memory and entered.
pub struct KernelImage {
    /// The address at which the kernel is entered.
    pub entry: u64,
    /// The segments, in the order of their program headers.
    pub segments: Vec<LoadedSegment>,
}

/// Checks that the header is that of a kernel for this machine: an
/// executable for 64-bit RISC-V, little-endian, in version 1 of the
/// format.
pub fn validate_elf_header(header: &Elf64Header) -> (result: Result<(), ElfError>)
    ensures
        result == validate_spec(*header),
{
    if !header.is_valid() {
        return Err(ElfError::BadMagic);
    }
    if !header.version_supported() {
        return Err(ElfError::UnsupportedVersion);
    }
    if !header.is_executable() {
        return Err(ElfError::NotExecutable);
    }
    if !header.is_riscv() {
        return Err(ElfError::BadMachine);
    }
    if !header.is_64_bit() {
        return Err(ElfError::Not64Bit);
    }
    if !header.is_little_endian() {
        return Err(ElfError::NotLittleEndian);
    }
    Ok(())
}

/// Reads what a program header loads of the file. The cursor comes back
/// to where it stood.
pub fn load_segment<D: SectorRead>(
    program_header: &Elf64ProgramHeader,
    file_stream: &mut FileStream,
    volume: &Fat32Volume,
    device: &mut D,
) -> (result: Result<LoadedSegment, ElfError>)
    requires
        volume.wf(),
        old(file_stream).wf(volume, old(device)),
    ensures
        forall|other: u64| #[trigger] final(device).sector(other) == old(device).sector(other),
        final(file_stream).start() == old(file_stream).start(),
        final(file_stream).size() == old(file_stream).size(),
        result matches Ok(segment) ==> {
            &&& final(file_stream).wf(volume, final(device))
            &&& final(file_stream).position() == old(file_stream).position()
            &&& loads(volume, old(device), old(file_stream).start(), *program_header, segment)
        },
        program_header.p_filesz > usize::MAX ==> result matches Err(ElfError::SegmentTooLarge),
        program_header.p_filesz <= usize::MAX ==> (result matches Err(e) ==> e is File),
{
    let position = file_stream.tell();
    if program_header.p_filesz > usize::MAX as u64 {
        return Err(ElfError::SegmentTooLarge);
    }
    match file_stream.seek(volume, device, program_header.p_offset) {
        Ok(()) => {},
        Err(e) => {
            return Err(ElfError::File(e));
        },
    }
    let ghost reading = *device;
    let data = match file_stream.read_array(volume, device, program_header.p_filesz as usize) {
        Ok(data) => data,
        Err(e) => {
            return Err(ElfError::File(e));
        },
    };
    proof {
        assert forall|i: int| 0 <= i < data@.len() implies crate::boot::fat32::file_byte(
            volume,
            old(device),
            old(file_stream).start(),
            (program_header.p_offset + i) as nat,
        ) == Some(#[trigger] data@[i]) by {
            crate::boot::fat32::lemma_same_disk(
                volume,
                &reading,
                old(device),
                old(file_stream).start(),
                (program_header.p_offset + i) as nat,
            );
        }
    }
    let zero_fill = if program_header.p_memsz > program_header.p_filesz {
        program_header.p_memsz - program_header.p_filesz
    } else {
        0
    };
    match file_stream.seek(volume, device, position) {
        Ok(()) => {},
        Err(e) => {
            return Err(ElfError::File(e));
        },
    }
    Ok(LoadedSegment { address: program_header.p_vaddr, data, zero_fill })
}

/// Whether the segments are what the first `count` program headers load,
/// in their order: one segment for every header that is loadable.
pub open spec fn segments_of<D: SectorRead>(
    volume: &Fat32Volume,
    device: &D,
    start: u32,
    headers: Seq<Elf64ProgramHeader>,
    count: int,
    segments: Seq<LoadedSegment>,
) -> bool
    decreases count,
{
    if count <= 0 {
        segments.len() == 0
    } else if headers[count - 1].p_type == 1 {
        segments.len() > 0 && loads(volume, device, start, headers[count - 1], segments.last())
            && segments_of(volume, device, start, headers, count - 1, segments.drop_last())
    } else {
        segments_of(volume, device, start, headers, count - 1, segments)
    }
}

/// Reads `count` program headers from the cursor on.
pub fn read_program_headers<D: SectorRead>(
    count: usize,
    file_stream: &mut FileStream,
    volume: &Fat32Volume,
    device: &mut D,
) -> (result: Result<Vec<Elf64ProgramHeader>, ElfError>)
    requires
        volume.wf(),
        old(file_stream).wf(volume, old(device)),
        count <= 8,
    ensures
        forall|other: u64| #[trigger] final(device).sector(other) == old(device).sector(other),
        final(file_stream).start() == old(file_stream).start(),
        final(file_stream).size() == old(file_stream).size(),
        result matches Ok(headers) ==> {
            &&& final(file_stream).wf(volume, final(device))
            &&& headers@.len() == count
            &&& forall|i: int|
                0 <= i < count ==> is_program_header(
                    volume,
                    old(device),
                    old(file_stream).start(),
                    (old(file_stream).position() + 56 * i) as nat,
                    #[trigger] headers@[i],
                )
        },
        result matches Err(e) ==> e is File,
{
    let mut program_headers: Vec<Elf64ProgramHeader> = Vec::new();
    let mut index: usize = 0;
    while index < count
        invariant
            index <= count <= 8,
            volume.wf(),
            file_stream.wf(volume, device),
            forall|other: u64| #[trigger] device.sector(other) == old(device).sector(other),
            file_stream.start() == old(file_stream).start(),
            file_stream.size() == old(file_stream).size(),
            file_stream.position() == old(file_stream).position() + 56 * index,
            program_headers@.len() == index,
            forall|i: int|
                0 <= i < index ==> is_program_header(
                    volume,
                    old(device),
                    old(file_stream).start(),
                    (old(file_stream).position() + 56 * i) as nat,
                    #[trigger] program_headers@[i],
                ),
        decreases count - index,
    {
        let ghost reading = *device;
        let ghost at = file_stream.position();
        let header = match Elf64ProgramHeader::new(file_stream, volume, device) {
            Ok(header) => header,
            Err(e) => {
                return Err(e);
            },
        };
        proof {
            lemma_same_header(
                volume,
                &reading,
                old(device),
                old(file_stream).start(),
                at as nat,
                header,
            );
        }
        program_headers.push(header);
        index += 1;
    }
    Ok(program_headers)
}

/// Reads what the loadable ones of the program headers load, in their
/// order.
pub fn load_segments<D: SectorRead>(
    program_headers: &Vec<Elf64ProgramHeader>,
    file_stream: &mut FileStream,
    volume: &Fat32Volume,
    device: &mut D,
) -> (result: Result<Vec<LoadedSegment>, ElfError>)
    requires
        volume.wf(),
        old(file_stream).wf(volume, old(device)),
    ensures
        forall|other: u64| #[trigger] final(device).sector(other) == old(device).sector(other),
        final(file_stream).start() == old(file_stream).start(),
        final(file_stream).size() == old(file_stream).size(),
        result matches Ok(segments) ==> {
            &&& final(file_stream).wf(volume, final(device))
            &&& final(file_stream).position() == old(file_stream).position()
            &&& segments_of(
                volume,
                old(device),
                old(file_stream).start(),
                program_headers@,
                program_headers@.len() as int,
                segments@,
            )
        },
        result matches Err(e) ==> e is File || e == ElfError::SegmentTooLarge,
{
    let mut segments: Vec<LoadedSegment> = Vec::new();
    let mut index: usize = 0;
    while index < program_headers.len()
        invariant
            index <= program_headers@.len(),
            volume.wf(),
            file_stream.wf(volume, device),
            forall|other: u64| #[trigger] device.sector(other) == old(device).sector(other),
            file_stream.start() == old(file_stream).start(),
            file_stream.size() == old(file_stream).size(),
            file_stream.position() == old(file_stream).position(),
            segments_of(
                volume,
                old(device),
                old(file_stream).start(),
                program_headers@,
                index as int,
                segments@,
            ),
        decreases program_headers@.len() - index,
    {
        let program_header = program_headers[index];
        if program_header.is_loadable() {
            let ghost reading = *device;
            let ghost before = segments@;
            let segment = match load_segment(&program_header, file_stream, volume, device) {
                Ok(segment) => segment,
                Err(e) => {
                    return Err(e);
                },
            };
            proof {
                lemma_same_load(
                    volume,
                    &reading,
                    old(device),
                    old(file_stream).start(),
                    program_header,
                    segment,
                );
            }
            segments.push(segment);
            assert(segments@.drop_last() =~= before);
        }
        index += 1;
    }
    Ok(segments)
}

/// Reads the program headers of the file, of which there may be eight at
/// most, and then what each loadable one loads, in their order.
pub fn stream_kernel_segments<D: SectorRead>(
    elf_header: &Elf64Header,
    file_stream: &mut FileStream,
    volume: &Fat32Volume,
    device: &mut D,
) -> (result: Result<Vec<LoadedSegment>, ElfError>)
    requires
        volume.wf(),
        old(file_stream).wf(volume, old(device)),
    ensures
        forall|other: u64| #[trigger] final(device).sector(other) == old(device).sector(other),
        final(file_stream).start() == old(file_stream).start(),
        final(file_stream).size() == old(file_stream).size(),
        result matches Ok(segments) ==> {
            &&& final(file_stream).wf(volume, final(device))
            &&& elf_header.e_phnum <= 8
            &&& exists|headers: Seq<Elf64ProgramHeader>|
                #[trigger] describes(
                    volume,
                    old(device),
                    old(file_stream).start(),
                    *elf_header,
                    headers,
                    segments@,
                )
        },
        result matches Err(e) ==> e is File || e == ElfError::SegmentTooLarge || (e
            == ElfError::TooManyProgramHeaders && elf_header.e_phnum > 8),
{
    match file_stream.seek(volume, device, elf_header.e_phoff) {
        Ok(()) => {},
        Err(e) => {
            return Err(ElfError::File(e));
        },
    }
    if elf_header.e_phnum as usize > MAX_PROGRAM_HEADERS {
        return Err(ElfError::TooManyProgramHeaders);
    }
    let ghost first = *device;
    let program_headers = match read_program_headers(
        elf_header.e_phnum as usize,
        file_stream,
        volume,
        device,
    ) {
        Ok(headers) => headers,
        Err(e) => {
            return Err(e);
        },
    };
    let ghost second = *device;
    let segments = match load_segments(&program_headers, file_stream, volume, device) {
        Ok(segments) => segments,
        Err(e) => {
            return Err(e);
        },
    };
    proof {
        let headers = program_headers@;
        let start = old(file_stream).start();
        assert forall|i: int| 0 <= i < headers.len() implies is_program_header(
            volume,
            old(device),
            start,
            (elf_header.e_phoff + 56 * i) as nat,
            #[trigger] headers[i],
        ) by {
            lemma_same_header(
                volume,
                &first,
                old(device),
                start,
                (elf_header.e_phoff + 56 * i) as nat,
                headers[i],
            );
        }
        lemma_same_segments(
            volume,
            &second,
            old(device),
            start,
            headers,
            headers.len() as int,
            segments@,
        );
        reveal(describes);
        assert(describes(volume, old(device), start, *elf_header, headers, segments@));
    }
    Ok(segments)
}

/// Whether `headers` are the program headers of the file, and `segments`
/// what they load.
#[verifier::opaque]
pub open spec fn describes<D: SectorRead>(
    volume: &Fat32Volume,
    device: &D,
    start: u32,
    elf_header: Elf64Header,
    headers: Seq<Elf64ProgramHeader>,
    segments: Seq<LoadedSegment>,
) -> bool {
    &&& headers.len() == elf_header.e_phnum
    &&& forall|i: int|
        0 <= i < headers.len() ==> is_program_header(
            volume,
            device,
            start,
            (elf_header.e_phoff + 56 * i) as nat,
            #[trigger] headers[i],
        )
    &&& segments_of(volume, device, start, headers, headers.len() as int, segments)
}

/// Disks that hold the same sectors load the same segments.
pub proof fn lemma_same_segments<D: SectorRead>(
    volume: &Fat32Volume,
    first: &D,
    second: &D,
    start: u32,
    headers: Seq<Elf64ProgramHeader>,
    count: int,
    segments: Seq<LoadedSegment>,
)
    requires
        forall|other: u64| #[trigger] first.sector(other) == second.sector(other),
        segments_of(volume, first, start, headers, count, segments),
    ensures
        segments_of(volume, second, start, headers, count, segments),
    decreases count,
{
    if count > 0 {
        if headers[count - 1].p_type == 1 {
            lemma_same_load(volume, first, second, start, headers[count - 1], segments.last());
            lemma_same_segments(
                volume,
                first,
                second,
                start,
                headers,
                count - 1,
                segments.drop_last(),
            );
        } else {
            lemma_same_segments(volume, first, second, start, headers, count - 1, segments);
        }
    }
}

/// Reads the kernel image from the start of the file: its header, which
/// is checked, and its loadable segments. Putting the segments in memory
/// and entering the kernel, with the number of the hart and the address of
/// the device tree in the first two argument registers, is left to the
/// code that owns the machine.
pub fn load_kernel<D: SectorRead>(file_stream: &mut FileStream, volume: &Fat32Volume, device: &mut D)
    -> (result: Result<KernelImage, ElfError>)
    requires
        volume.wf(),
        old(file_stream).wf(volume, old(device)),
    ensures
        forall|other: u64| #[trigger] final(device).sector(other) == old(device).sector(other),
        final(file_stream).start() == old(file_stream).start(),
        final(file_stream).size() == old(file_stream).size(),
        result matches Ok(image) ==> exists|bytes: Seq<u8>, headers: Seq<Elf64ProgramHeader>|
            #[trigger] is_image(
                volume,
                old(device),
                old(file_stream).start(),
                old(file_stream).position() as nat,
                bytes,
                headers,
                image,
            ),
        result matches Err(e) ==> e is File || e == ElfError::SegmentTooLarge || e
            == ElfError::TooManyProgramHeaders || exists|bytes: Seq<u8>|
            bytes.len() == 64 && #[trigger] holds_at(
                volume,
                old(device),
                old(file_stream).start(),
                old(file_stream).position() as nat,
                bytes,
            ) && validate_spec(header_of(bytes)) == Err::<(), ElfError>(e),
{
    let header = match Elf64Header::new(file_stream, volume, device) {
        Ok(header) => header,
        Err(e) => {
            return Err(e);
        },
    };
    let ghost start = old(file_stream).start();
    let ghost bytes = choose|bytes: Seq<u8>|
        bytes.len() == 64 && #[trigger] holds_at(
            volume,
            old(device),
            start,
            old(file_stream).position() as nat,
            bytes,
        ) && header == header_of(bytes);
    match validate_elf_header(&header) {
        Ok(()) => {},
        Err(e) => {
            return Err(e);
        },
    }
    let ghost reading = *device;
    let segments = match stream_kernel_segments(&header, file_stream, volume, device) {
        Ok(segments) => segments,
        Err(e) => {
            return Err(e);
        },
    };
    let result: Result<KernelImage, ElfError> = Ok(
        KernelImage { entry: header.e_entry, segments },
    );
    proof {
        let image = result->Ok_0;
        let headers = choose|headers: Seq<Elf64ProgramHeader>|
            #[trigger] describes(volume, &reading, start, header, headers, image.segments@);
        lemma_same_description(
            volume,
            &reading,
            old(device),
            start,
            header,
            headers,
            image.segments@,
        );
        assert(is_image(
            volume,
            old(device),
            old(file_stream).start(),
            old(file_stream).position() as nat,
            bytes,
            headers,
            image,
        ));
    }
    result
}

/// Whether `image` is the kernel image in the file that starts in the
/// cluster `start`: `bytes` are the 64 bytes of its header, at `position`
/// in the file; the header is that of a kernel for this machine and gives
/// the entry address; `headers` are its program headers, eight at most;
/// and the segments are what the loadable ones of them load.
pub open spec fn is_image<D: SectorRead>(
    volume: &Fat32Volume,
    device: &D,
    start: u32,
    position: nat,
    bytes: Seq<u8>,
    headers: Seq<Elf64ProgramHeader>,
    image: KernelImage,
) -> bool {
    &&& bytes.len() == 64
    &&& holds_at(volume, device, start, position, bytes)
    &&& validate_spec(header_of(bytes)) is Ok
    &&& image.entry == header_of(bytes).e_entry
    &&& header_of(bytes).e_phnum <= 8
    &&& describes(volume, device, start, header_of(bytes), headers, image.segments@)
}

/// Disks that hold the same sectors hold the same program headers and
/// load the same segments.
pub proof fn lemma_same_description<D: SectorRead>(
    volume: &Fat32Volume,
    first: &D,
    second: &D,
    start: u32,
    elf_header: Elf64Header,
    headers: Seq<Elf64ProgramHeader>,
    segments: Seq<LoadedSegment>,
)
    requires
        forall|other: u64| #[trigger] first.sector(other) == second.sector(other),
        describes(volume, first, start, elf_header, headers, segments),
    ensures
        describes(volume, second, start, elf_header, headers, segments),
{
    reveal(describes);
    assert forall|i: int| 0 <= i < headers.len() implies is_program_header(
        volume,
        second,
        start,
        (elf_header.e_phoff + 56 * i) as nat,
        #[trigger] headers[i],
    ) by {
        lemma_same_header(
            volume,
            first,
            second,
            start,
            (elf_header.e_phoff + 56 * i) as nat,
            headers[i],
        );
    }
    lemma_same_segments(volume, first, second, start, headers, headers.len() as int, segments);
}

/// Disks that hold the same sectors hold the same program headers.
pub proof fn lemma_same_header<D: SectorRead>(
    volume: &Fat32Volume,
    first: &D,
    second: &D,
    start: u32,
    position: nat,
    header: Elf64ProgramHeader,
)
    requires
        forall|other: u64| #[trigger] first.sector(other) == second.sector(other),
        is_program_header(volume, first, start, position, header),
    ensures
        is_program_header(volume, second, start, position, header),
{
    let bytes = choose|bytes: Seq<u8>|
        bytes.len() == 56 && #[trigger] holds_at(volume, first, start, position, bytes) && header
            == program_header_of(bytes);
    assert(holds_at(volume, second, start, position, bytes));
}

/// Disks that hold the same sectors load the same segments.
pub proof fn lemma_same_load<D: SectorRead>(
    volume: &Fat32Volume,
    first: &D,
    second: &D,
    start: u32,
    header: Elf64ProgramHeader,
    segment: LoadedSegment,
)
    requires
        forall|other: u64| #[trigger] first.sector(other) == second.sector(other),
        loads(volume, first, start, header, segment),
    ensures
        loads(volume, second, start, header, segment),
{
    assert(holds_at(volume, second, start, header.p_offset as nat, segment.data@));
}

} // verus!
