//! The flattened device tree that the firmware hands over: a header of
//! big-endian words, a block of structure tokens, and a block of strings.
//!
//! The tree is walked in place. Nodes and properties are handed out as
//! ranges of the blob.

use vstd::prelude::*;
use vstd::string::StringSliceAdditionalSpecFns;
use crate::boot::uart::Uart;
use crate::boot::uart::hex_bytes_upto;
use crate::bytes::be32;
use crate::bytes::read_be32;
use crate::text::decimal;
use crate::text::hex;
use crate::uart::with_returns;

verus! {

/// The magic number at the start of a device tree.
pub const DTB_MAGIC: u32 = 0xd00dfeed;

/// The size of the header in bytes.
pub const HEADER_SIZE: usize = 40;

/// Token: a node begins; its name follows.
pub const BEGIN_NODE: u32 = 0x0000_0001;

/// Token: a node ends.
pub const END_NODE: u32 = 0x0000_0002;

/// Token: a property; its size, the offset of its name and its value
/// follow.
pub const PROPERTY: u32 = 0x0000_0003;

/// Token: nothing.
pub const NOP: u32 = 0x0000_0004;

/// Token: the structure block ends.
pub const END: u32 = 0x0000_0009;

/// The greatest length of a name that is handed out; a longer name is cut
/// off.
pub const NAME_LIMIT: usize = 255;

/// Why the device tree could not be walked.
#[derive(Clone, Copy, PartialEq, Eq, Structural, Debug)]
pub enum DeviceTreeError {
    /// The blob is too short for its header.
    InvalidBlob,
    /// An entry runs past the end of the structure block or of the blob.
    TruncatedEntry,
}

/// A range of the blob.
#[derive(Clone, Copy, PartialEq, Eq, Structural, Debug)]
pub struct Span {
    /// Offset of the first byte in the blob.
    pub start: usize,
    /// Number of bytes.
    pub length: usize,
}

/// A node of the tree.
#[derive(Clone, Copy, PartialEq, Eq, Structural, Debug)]
pub struct Block {
    /// Offset in the structure block of what follows the name of the node:
    /// its first property, if it has one.
    pub offset: usize,
    /// The name of the node.
    pub name: Span,
}

/// A property of a node.
#[derive(Clone, Copy, PartialEq, Eq, Structural, Debug)]
pub struct Property {
    /// The name of the property, in the strings block.
    pub name: Span,
    /// The value of the property.
    pub value: Span,
}

/// Whether the blob starts with the magic number of a device tree.
pub fn validate_dtb(blob: &[u8]) -> (valid: bool)
    ensures
        valid == (blob@.len() >= 4 && be32(blob@, 0) == 0xd00dfeed),
{
    if blob.len() < 4 {
        return false;
    }
    read_be32(blob, 0) == DTB_MAGIC
}

/// `size` rounded up to a multiple of four.
pub open spec fn round4(size: int) -> int {
    ((size + 3) / 4) * 4
}

/// The length of the name that starts at `start`, found from its `i`-th
/// byte on: the number of bytes before the first zero byte, and 255 at
/// most. There is none where the blob ends before the name does.
pub open spec fn name_length(blob: Seq<u8>, start: int, i: int) -> Option<int>
    decreases 255 - i,
{
    if i >= 255 {
        Some(255int)
    } else if start + i >= blob.len() {
        None
    } else if blob[start + i] == 0 {
        Some(i)
    } else {
        name_length(blob, start, i + 1)
    }
}

/// The device tree.
pub struct DeviceTree {
    blob: Vec<u8>,
    total_size: u32,
    off_dt_struct: u32,
    off_dt_strings: u32,
    off_mem_res_map: u32,
    version: u32,
    last_comp_version: u32,
    boot_cpu_id_phys: u32,
    size_dt_strings: u32,
    size_dt_struct: u32,
}

impl View for DeviceTree {
    type V = Seq<u8>;

    /// The bytes of the blob.
    closed spec fn view(&self) -> Seq<u8> {
        self.blob@
    }
}

/// The words of the header after the magic number.
pub struct Header {
    pub total_size: u32,
    pub off_dt_struct: u32,
    pub off_dt_strings: u32,
    pub off_mem_res_map: u32,
    pub version: u32,
    pub last_comp_version: u32,
    pub boot_cpu_id_phys: u32,
    pub size_dt_strings: u32,
    pub size_dt_struct: u32,
}

/// The header that a blob starts with.
pub open spec fn header_of(blob: Seq<u8>) -> Header {
    Header {
        total_size: be32(blob, 4) as u32,
        off_dt_struct: be32(blob, 8) as u32,
        off_dt_strings: be32(blob, 12) as u32,
        off_mem_res_map: be32(blob, 16) as u32,
        version: be32(blob, 20) as u32,
        last_comp_version: be32(blob, 24) as u32,
        boot_cpu_id_phys: be32(blob, 28) as u32,
        size_dt_strings: be32(blob, 32) as u32,
        size_dt_struct: be32(blob, 36) as u32,
    }
}

impl DeviceTree {
    /// The header of the tree.
    pub closed spec fn header(&self) -> Header {
        Header {
            total_size: self.total_size,
            off_dt_struct: self.off_dt_struct,
            off_dt_strings: self.off_dt_strings,
            off_mem_res_map: self.off_mem_res_map,
            version: self.version,
            last_comp_version: self.last_comp_version,
            boot_cpu_id_phys: self.boot_cpu_id_phys,
            size_dt_strings: self.size_dt_strings,
            size_dt_struct: self.size_dt_struct,
        }
    }

    /// What holds of every tree: its header is that of its blob.
    pub open spec fn wf(&self) -> bool {
        self@.len() >= 40 && self.header() == header_of(self@)
    }

    /// The tree in `blob`, which is taken to start with the magic number.
    /// A blob that is shorter than the header holds no tree.
    pub fn new(blob: Vec<u8>) -> (result: Result<DeviceTree, DeviceTreeError>)
        ensures
            blob@.len() < 40 ==> result == Err::<DeviceTree, DeviceTreeError>(
                DeviceTreeError::InvalidBlob,
            ),
            blob@.len() >= 40 ==> result is Ok && result.unwrap()@ == blob@
                && result.unwrap().wf(),
    {
        if blob.len() < HEADER_SIZE {
            return Err(DeviceTreeError::InvalidBlob);
        }
        let bytes = blob.as_slice();
        let total_size = read_be32(bytes, 4);
        let off_dt_struct = read_be32(bytes, 8);
        let off_dt_strings = read_be32(bytes, 12);
        let off_mem_res_map = read_be32(bytes, 16);
        let version = read_be32(bytes, 20);
        let last_comp_version = read_be32(bytes, 24);
        let boot_cpu_id_phys = read_be32(bytes, 28);
        let size_dt_strings = read_be32(bytes, 32);
        let size_dt_struct = read_be32(bytes, 36);
        Ok(
            DeviceTree {
                blob,
                total_size,
                off_dt_struct,
                off_dt_strings,
                off_mem_res_map,
                version,
                last_comp_version,
                boot_cpu_id_phys,
                size_dt_strings,
                size_dt_struct,
            },
        )
    }

    /// The bytes of a range of the blob.
    pub fn bytes(&self, span: Span) -> (bytes: &[u8])
        requires
            span.start + span.length <= self@.len(),
        ensures
            bytes@ == self@.subrange(span.start as int, span.start + span.length),
    {
        let length = self.blob.len();
        assert(span.start + span.length <= length);
        vstd::slice::slice_subrange(self.blob.as_slice(), span.start, span.start + span.length)
    }

    /// The version of the format.
    pub fn version(&self) -> (version: u32)
        ensures
            version == self.header().version,
    {
        self.version
    }

    /// The size of the whole blob, as the header gives it.
    pub fn total_size(&self) -> (size: u32)
        ensures
            size == self.header().total_size,
    {
        self.total_size
    }

    /// The offset in the structure block that lies `size` bytes behind
    /// `offset`, rounded up to a multiple of four; or no offset where that
    /// is not inside the block.
    pub open spec fn advance(&self, offset: int, size: int) -> Option<int> {
        let next = offset + round4(size);
        if next < self.header().size_dt_struct {
            Some(next)
        } else {
            None
        }
    }

    /// The word of the structure block at `offset`, where the block and
    /// the blob hold it.
    pub open spec fn word(&self, offset: int) -> Option<u32> {
        let at = self.header().off_dt_struct + offset;
        if 0 <= offset < self.header().size_dt_struct && at + 4 <= self@.len() {
            Some(be32(self@, at) as u32)
        } else {
            None
        }
    }

    /// The name that starts at `start` in the blob.
    pub open spec fn name_at(&self, start: int) -> Option<Span> {
        match name_length(self@, start, 0) {
            Some(length) => Some(Span { start: start as usize, length: length as usize }),
            None => None,
        }
    }

    /// The token at `offset` of the structure block, with the offset of
    /// what follows it; or the finding that the token is cut off.
    pub open spec fn token_at(&self, offset: int) -> Result<Token, DeviceTreeError> {
        match self.word(offset) {
            None => Err(DeviceTreeError::TruncatedEntry),
            Some(word) => if word == END {
                Ok(Token::End)
            } else {
                match self.advance(offset, 4) {
                    None => Err(DeviceTreeError::TruncatedEntry),
                    Some(next) => if word == BEGIN_NODE {
                        Ok(Token::BeginNode { next: next as usize })
                    } else if word == END_NODE {
                        Ok(Token::EndNode { next: next as usize })
                    } else if word == PROPERTY {
                        self.property_at(next)
                    } else {
                        Ok(Token::Skip { next: next as usize })
                    },
                }
            },
        }
    }

    /// The property token whose size stands at `offset`.
    pub open spec fn property_at(&self, offset: int) -> Result<Token, DeviceTreeError> {
        match (self.word(offset), self.advance(offset, 4)) {
            (Some(size), Some(name_word)) => match (
                self.word(name_word),
                self.advance(name_word, 4),
            ) {
                (Some(name_offset), Some(value)) => match self.advance(value, size as int) {
                    Some(next) => Ok(
                        Token::Property {
                            size: size,
                            name_offset: name_offset,
                            value: value as usize,
                            next: next as usize,
                        },
                    ),
                    None => Err(DeviceTreeError::TruncatedEntry),
                },
                _ => Err(DeviceTreeError::TruncatedEntry),
            },
            _ => Err(DeviceTreeError::TruncatedEntry),
        }
    }

    /// The nodes of the tree from `offset` of the structure block on, in
    /// their order; or why the walk fails.
    pub open spec fn blocks_from(&self, offset: int) -> Result<Seq<Block>, DeviceTreeError>
        decreases self.header().size_dt_struct - offset,
    {
        match self.token_at(offset) {
            Err(e) => Err(e),
            Ok(Token::End) => Ok(Seq::empty()),
            Ok(Token::BeginNode { next }) => match self.name_at(
                self.header().off_dt_struct + next,
            ) {
                None => Err(DeviceTreeError::TruncatedEntry),
                Some(name) => match self.advance(next as int, name.length + 1) {
                    None => Err(DeviceTreeError::TruncatedEntry),
                    Some(after_name) => if after_name > offset {
                        join_blocks(
                            seq![Block { offset: after_name as usize, name: name }],
                            self.blocks_from(after_name),
                        )
                    } else {
                        Err(DeviceTreeError::TruncatedEntry)
                    },
                },
            },
            Ok(Token::EndNode { next }) => if next > offset {
                self.blocks_from(next as int)
            } else {
                Err(DeviceTreeError::TruncatedEntry)
            },
            Ok(Token::Property { size, name_offset, value, next }) => if next > offset {
                self.blocks_from(next as int)
            } else {
                Err(DeviceTreeError::TruncatedEntry)
            },
            Ok(Token::Skip { next }) => if next > offset {
                self.blocks_from(next as int)
            } else {
                Err(DeviceTreeError::TruncatedEntry)
            },
        }
    }

    /// The properties that stand at `offset` of the structure block and
    /// behind it, up to the next node or the end of the node, in their
    /// order; or why the walk fails.
    pub open spec fn properties_from(&self, offset: int) -> Result<Seq<Property>, DeviceTreeError>
        decreases self.header().size_dt_struct - offset,
    {
        match self.token_at(offset) {
            Err(e) => Err(e),
            Ok(Token::End) => Ok(Seq::empty()),
            Ok(Token::BeginNode { next }) => Ok(Seq::empty()),
            Ok(Token::EndNode { next }) => Ok(Seq::empty()),
            Ok(Token::Property { size, name_offset, value, next }) => match self.name_at(
                self.header().off_dt_strings + name_offset,
            ) {
                None => Err(DeviceTreeError::TruncatedEntry),
                Some(name) => if self.header().off_dt_struct + value + size <= self@.len() && next
                    > offset {
                    join_properties(
                        seq![
                            Property {
                                name: name,
                                value: Span {
                                    start: (self.header().off_dt_struct + value) as usize,
                                    length: size as usize,
                                },
                            },
                        ],
                        self.properties_from(next as int),
                    )
                } else {
                    Err(DeviceTreeError::TruncatedEntry)
                },
            },
            Ok(Token::Skip { next }) => if next > offset {
                self.properties_from(next as int)
            } else {
                Err(DeviceTreeError::TruncatedEntry)
            },
        }
    }

    /// Reads the word of the structure block at `offset`.
    pub fn read_word(&self, offset: usize) -> (word: Option<u32>)
        requires
            self.wf(),
        ensures
            word == self.word(offset as int),
    {
        if offset >= self.size_dt_struct as usize {
            return None;
        }
        let start = self.off_dt_struct as u64 + offset as u64;
        if start + 4 > self.blob.len() as u64 {
            return None;
        }
        Some(read_be32(self.blob.as_slice(), start as usize))
    }

    /// Moves on in the structure block by `size` bytes, rounded up to a
    /// multiple of four. The walk fails where that leaves the block.
    pub fn increment_offset(&self, offset: usize, size: usize) -> (next: Option<usize>)
        requires
            self.wf(),
        ensures
            next == match self.advance(offset as int, size as int) {
                Some(n) => Some(n as usize),
                None => None,
            },
            next matches Some(n) ==> n == offset + round4(size as int) && n
                < self.header().size_dt_struct,
    {
        if size > 0xFFFF_FFFF || offset > 0xFFFF_FFFF {
            return None;
        }
        let rounded = ((size as u64 + 3) / 4) * 4;
        let next = offset as u64 + rounded;
        if next >= self.size_dt_struct as u64 {
            return None;
        }
        Some(next as usize)
    }

    /// The name that starts at `start` in the blob: the bytes up to the
    /// first zero byte, cut off after 255 bytes.
    pub fn extract_node_name(&self, start: u64) -> (name: Option<Span>)
        requires
            self.wf(),
        ensures
            name == self.name_at(start as int),
            name matches Some(span) ==> span.start == start && span.length <= 255 && start
                + span.length <= self@.len(),
    {
        let length = self.blob.len();
        if start > length as u64 {
            assert(name_length(self@, start as int, 0) == None::<int>);
            return None;
        }
        let first = start as usize;
        let mut i: usize = 0;
        while i < NAME_LIMIT
            invariant
                i <= 255,
                length == self@.len(),
                first == start,
                first + i <= length,
                name_length(self@, start as int, 0) == name_length(self@, start as int, i as int),
            decreases 255 - i,
        {
            if first >= length - i {
                assert(name_length(self@, start as int, i as int) == None::<int>);
                return None;
            }
            if self.blob[first + i] == 0 {
                assert(name_length(self@, start as int, i as int) == Some(i as int));
                return Some(Span { start: first, length: i });
            }
            assert(name_length(self@, start as int, i as int) == name_length(
                self@,
                start as int,
                i + 1,
            ));
            i += 1;
        }
        assert(name_length(self@, start as int, 255) == Some(255int));
        Some(Span { start: first, length: i })
    }

    /// Reads the token at `offset` of the structure block.
    pub fn read_token(&self, offset: usize) -> (token: Result<Token, DeviceTreeError>)
        requires
            self.wf(),
        ensures
            token == self.token_at(offset as int),
            token matches Ok(found) ==> offset < self.header().size_dt_struct && (found
                != Token::End ==> offset < token_next(found) < self.header().size_dt_struct),
            token matches Ok(Token::Property { size, name_offset, value, next }) ==> value
                < self.header().size_dt_struct,
    {
        let word = match self.read_word(offset) {
            Some(word) => word,
            None => {
                return Err(DeviceTreeError::TruncatedEntry);
            },
        };
        if word == END {
            return Ok(Token::End);
        }
        let next = match self.increment_offset(offset, 4) {
            Some(next) => next,
            None => {
                return Err(DeviceTreeError::TruncatedEntry);
            },
        };
        if word == BEGIN_NODE {
            Ok(Token::BeginNode { next })
        } else if word == END_NODE {
            Ok(Token::EndNode { next })
        } else if word == PROPERTY {
            let size = self.read_word(next);
            let name_word = self.increment_offset(next, 4);
            let (size, name_word) = match (size, name_word) {
                (Some(size), Some(name_word)) => (size, name_word),
                _ => {
                    return Err(DeviceTreeError::TruncatedEntry);
                },
            };
            let name_offset = self.read_word(name_word);
            let value = self.increment_offset(name_word, 4);
            let (name_offset, value) = match (name_offset, value) {
                (Some(name_offset), Some(value)) => (name_offset, value),
                _ => {
                    return Err(DeviceTreeError::TruncatedEntry);
                },
            };
            match self.increment_offset(value, size as usize) {
                Some(after) => Ok(Token::Property { size, name_offset, value, next: after }),
                None => Err(DeviceTreeError::TruncatedEntry),
            }
        } else {
            Ok(Token::Skip { next })
        }
    }

    /// The nodes of the tree, in the order in which the structure block
    /// lists them. The walk ends at the end token.
    pub fn iterate_blocks(&self) -> (result: Result<Vec<Block>, DeviceTreeError>)
        requires
            self.wf(),
        ensures
            match result {
                Ok(blocks) => self.blocks_from(0) == Ok::<Seq<Block>, DeviceTreeError>(blocks@),
                Err(e) => self.blocks_from(0) == Err::<Seq<Block>, DeviceTreeError>(e),
            },
            result matches Ok(blocks) ==> forall|i: int|
                0 <= i < blocks@.len() ==> (#[trigger] blocks@[i]).name.start
                    + blocks@[i].name.length <= self@.len() && blocks@[i].name.length <= 255,
    {
        let mut blocks: Vec<Block> = Vec::new();
        let mut current_offset: usize = 0;
        loop
            invariant
                self.wf(),
                join_blocks(blocks@, self.blocks_from(current_offset as int)) == self.blocks_from(
                    0,
                ),
                forall|i: int|
                    0 <= i < blocks@.len() ==> (#[trigger] blocks@[i]).name.start
                        + blocks@[i].name.length <= self@.len() && blocks@[i].name.length <= 255,
            decreases self.header().size_dt_struct - current_offset,
        {
            let token = match self.read_token(current_offset) {
                Ok(token) => token,
                Err(e) => {
                    return Err(e);
                },
            };
            match token {
                Token::End => {
                    assert(blocks@ + Seq::<Block>::empty() =~= blocks@);
                    return Ok(blocks);
                },
                Token::BeginNode { next } => {
                    let name = match self.extract_node_name(self.off_dt_struct as u64 + next as u64) {
                        Some(name) => name,
                        None => {
                            return Err(DeviceTreeError::TruncatedEntry);
                        },
                    };
                    let after_name = match self.increment_offset(next, name.length + 1) {
                        Some(offset) => offset,
                        None => {
                            return Err(DeviceTreeError::TruncatedEntry);
                        },
                    };
                    let ghost before = blocks@;
                    let block = Block { offset: after_name, name };
                    blocks.push(block);
                    proof {
                        let rest = self.blocks_from(after_name as int);
                        if rest is Ok {
                            assert(before + (seq![block] + rest->Ok_0) =~= before.push(block)
                                + rest->Ok_0);
                        }
                    }
                    current_offset = after_name;
                },
                Token::EndNode { next } => {
                    current_offset = next;
                },
                Token::Property { size, name_offset, value, next } => {
                    current_offset = next;
                },
                Token::Skip { next } => {
                    current_offset = next;
                },
            }
        }
    }

    /// The properties that stand at `base_offset` of the structure block
    /// and behind it, up to the next node or the end of the node: the
    /// properties of the node whose name ends before `base_offset`.
    pub fn iterate_properties(&self, base_offset: usize) -> (result: Result<
        Vec<Property>,
        DeviceTreeError,
    >)
        requires
            self.wf(),
        ensures
            match result {
                Ok(properties) => self.properties_from(base_offset as int) == Ok::<
                    Seq<Property>,
                    DeviceTreeError,
                >(properties@),
                Err(e) => self.properties_from(base_offset as int) == Err::<
                    Seq<Property>,
                    DeviceTreeError,
                >(e),
            },
            result matches Ok(properties) ==> forall|i: int|
                0 <= i < properties@.len() ==> {
                    &&& (#[trigger] properties@[i]).name.start + properties@[i].name.length
                        <= self@.len()
                    &&& properties@[i].name.length <= 255
                    &&& properties@[i].value.start + properties@[i].value.length <= self@.len()
                },
    {
        let mut properties: Vec<Property> = Vec::new();
        let mut current_offset: usize = base_offset;
        loop
            invariant
                self.wf(),
                join_properties(properties@, self.properties_from(current_offset as int))
                    == self.properties_from(base_offset as int),
                forall|i: int|
                    0 <= i < properties@.len() ==> {
                        &&& (#[trigger] properties@[i]).name.start + properties@[i].name.length
                            <= self@.len()
                        &&& properties@[i].name.length <= 255
                        &&& properties@[i].value.start + properties@[i].value.length <= self@.len()
                    },
            decreases self.header().size_dt_struct - current_offset,
        {
            let token = match self.read_token(current_offset) {
                Ok(token) => token,
                Err(e) => {
                    return Err(e);
                },
            };
            match token {
                Token::End => {
                    assert(properties@ + Seq::<Property>::empty() =~= properties@);
                    return Ok(properties);
                },
                Token::BeginNode { next } => {
                    assert(properties@ + Seq::<Property>::empty() =~= properties@);
                    return Ok(properties);
                },
                Token::EndNode { next } => {
                    assert(properties@ + Seq::<Property>::empty() =~= properties@);
                    return Ok(properties);
                },
                Token::Property { size, name_offset, value, next } => {
                    let name_start = self.off_dt_strings as u64 + name_offset as u64;
                    let name = match self.extract_node_name(name_start) {
                        Some(name) => name,
                        None => {
                            return Err(DeviceTreeError::TruncatedEntry);
                        },
                    };
                    let value_start = self.off_dt_struct as u64 + value as u64;
                    if value_start + size as u64 > self.blob.len() as u64 {
                        return Err(DeviceTreeError::TruncatedEntry);
                    }
                    let ghost before = properties@;
                    let property = Property {
                        name,
                        value: Span { start: value_start as usize, length: size as usize },
                    };
                    properties.push(property);
                    proof {
                        let rest = self.properties_from(next as int);
                        if rest is Ok {
                            assert(before + (seq![property] + rest->Ok_0) =~= before.push(property)
                                + rest->Ok_0);
                        }
                    }
                    current_offset = next;
                },
                Token::Skip { next } => {
                    current_offset = next;
                },
            }
        }
    }
}

/// The end of a line on the console.
pub open spec fn line_end() -> Seq<u8> {
    seq![13u8, 10u8]
}

/// A line that names a number: the label, a colon and a blank, the number,
/// and the end of the line.
pub open spec fn labelled(label: Seq<u8>, number: Seq<u8>) -> Seq<u8> {
    with_returns(label) + seq![58u8, 32u8] + number + line_end()
}

/// A number in hexadecimal, behind `0x`.
pub open spec fn prefixed_hex(n: nat) -> Seq<u8> {
    seq![48u8, 120u8] + hex(n)
}

/// What is printed of the header.
pub open spec fn header_text(header: Header) -> Seq<u8> {
    with_returns("Device Tree Header:\n".spec_bytes()) + labelled(
        "  Version                            ".spec_bytes(),
        decimal(header.version as nat),
    ) + labelled(
        "  Last Compatible Version            ".spec_bytes(),
        decimal(header.last_comp_version as nat),
    ) + labelled(
        "  Total Size                         ".spec_bytes(),
        decimal(header.total_size as nat),
    ) + labelled(
        "  Offset to Structure Block          ".spec_bytes(),
        prefixed_hex(header.off_dt_struct as nat),
    ) + labelled(
        "  Offset to Strings Block            ".spec_bytes(),
        prefixed_hex(header.off_dt_strings as nat),
    ) + labelled(
        "  Offset to Memory Reservation Block ".spec_bytes(),
        prefixed_hex(header.off_mem_res_map as nat),
    ) + labelled(
        "  Boot CPU ID (Physical)             ".spec_bytes(),
        decimal(header.boot_cpu_id_phys as nat),
    ) + labelled(
        "  Size of Strings Block              ".spec_bytes(),
        decimal(header.size_dt_strings as nat),
    ) + labelled(
        "  Size of Structure Block            ".spec_bytes(),
        decimal(header.size_dt_struct as nat),
    )
}

/// The bytes of a range of a blob.
pub open spec fn span_of(blob: Seq<u8>, span: Span) -> Seq<u8> {
    blob.subrange(span.start as int, span.start + span.length)
}

/// What is printed of the value of a property: its length in brackets and
/// its first sixteen bytes in hexadecimal, or `N/A` where it is empty.
pub open spec fn value_text(value: Seq<u8>) -> Seq<u8> {
    if value.len() == 0 {
        with_returns("N/A".spec_bytes())
    } else {
        seq![91u8] + decimal(value.len()) + with_returns("] = ".spec_bytes()) + hex_bytes_upto(
            value,
            Some(16usize),
            value.len() as int,
        )
    }
}

/// The line that is printed of a property.
pub open spec fn property_text(blob: Seq<u8>, property: Property) -> Seq<u8> {
    with_returns("      Property: ".spec_bytes()) + with_returns(span_of(blob, property.name))
        + with_returns(", value: ".spec_bytes()) + value_text(span_of(blob, property.value))
        + line_end()
}

/// The lines that are printed of the first `count` properties.
pub open spec fn properties_text(blob: Seq<u8>, properties: Seq<Property>, count: int) -> Seq<u8>
    decreases count,
{
    if count <= 0 {
        Seq::empty()
    } else {
        properties_text(blob, properties, count - 1) + property_text(blob, properties[count - 1])
    }
}

/// The line that is printed of a node.
pub open spec fn block_text(blob: Seq<u8>, block: Block) -> Seq<u8> {
    with_returns("    Block: ".spec_bytes()) + with_returns(span_of(blob, block.name)) + line_end()
}

/// What is printed of a node: the line of the node and the lines of its
/// properties, or the line of the node alone where its properties cannot
/// be walked.
pub open spec fn node_text(tree: DeviceTree, block: Block) -> Seq<u8> {
    match tree.properties_from(block.offset as int) {
        Ok(properties) => block_text(tree@, block) + properties_text(
            tree@,
            properties,
            properties.len() as int,
        ),
        Err(_) => block_text(tree@, block),
    }
}

/// How the printing of a node ends: with the error of the walk through
/// its properties, if there is one.
pub open spec fn node_result(tree: DeviceTree, block: Block) -> Result<(), DeviceTreeError> {
    match tree.properties_from(block.offset as int) {
        Ok(_) => Ok(()),
        Err(e) => Err(e),
    }
}

/// How the printing of the first `count` nodes ends: with the error of the
/// first node whose printing fails.
pub open spec fn listing_result(tree: DeviceTree, blocks: Seq<Block>, count: int) -> Result<
    (),
    DeviceTreeError,
>
    decreases count,
{
    if count <= 0 {
        Ok(())
    } else if listing_result(tree, blocks, count - 1) is Err {
        listing_result(tree, blocks, count - 1)
    } else {
        node_result(tree, blocks[count - 1])
    }
}

/// What is printed of the first `count` nodes: node after node, up to the
/// first whose printing fails.
pub open spec fn listing_text(tree: DeviceTree, blocks: Seq<Block>, count: int) -> Seq<u8>
    decreases count,
{
    if count <= 0 {
        Seq::empty()
    } else if listing_result(tree, blocks, count - 1) is Err {
        listing_text(tree, blocks, count - 1)
    } else {
        listing_text(tree, blocks, count - 1) + node_text(tree, blocks[count - 1])
    }
}

/// What is printed of the tree: the header, and the nodes if they can be
/// walked.
pub open spec fn tree_text(tree: DeviceTree) -> Seq<u8> {
    match tree.blocks_from(0) {
        Err(_) => header_text(tree.header()),
        Ok(blocks) => header_text(tree.header()) + listing_text(tree, blocks, blocks.len() as int),
    }
}

/// How the printing of the tree ends.
pub open spec fn tree_result(tree: DeviceTree) -> Result<(), DeviceTreeError> {
    match tree.blocks_from(0) {
        Err(e) => Err(e),
        Ok(blocks) => listing_result(tree, blocks, blocks.len() as int),
    }
}

/// Text is joined to text in any grouping.
pub proof fn lemma_join(a: Seq<u8>, b: Seq<u8>, c: Seq<u8>)
    ensures
        (a + b) + c == a + (b + c),
{
    assert((a + b) + c =~= a + (b + c));
}

/// Once the printing has failed nothing more is printed.
pub proof fn lemma_listing_error(tree: DeviceTree, blocks: Seq<Block>, count: int)
    requires
        0 < count <= blocks.len(),
        listing_result(tree, blocks, count) is Err,
    ensures
        listing_result(tree, blocks, blocks.len() as int) == listing_result(tree, blocks, count),
        listing_text(tree, blocks, blocks.len() as int) == listing_text(tree, blocks, count),
    decreases blocks.len() - count,
{
    if count < blocks.len() {
        lemma_listing_error(tree, blocks, count + 1);
    }
}

impl DeviceTree {
    /// Prints the header of the tree, and then every node with its
    /// properties. The printing ends where the tree cannot be walked.
    pub fn print_tree(&self, uart: &mut Uart) -> (result: Result<(), DeviceTreeError>)
        requires
            self.wf(),
        ensures
            final(uart)@ == old(uart)@ + tree_text(*self),
            result == tree_result(*self),
            final(uart).setup() == old(uart).setup(),
            final(uart).base() == old(uart).base(),
    {
        self.print_header(uart);
        let blocks = match self.iterate_blocks() {
            Ok(blocks) => blocks,
            Err(e) => {
                return Err(e);
            },
        };
        let ghost start = uart@;
        let printed = self.print_blocks(uart, &blocks);
        proof {
            lemma_join(
                old(uart)@,
                header_text(self.header()),
                listing_text(*self, blocks@, blocks@.len() as int),
            );
        }
        printed
    }

    /// Prints the nodes, one after the other, up to the first whose
    /// printing fails.
    fn print_blocks(&self, uart: &mut Uart, blocks: &Vec<Block>) -> (result: Result<
        (),
        DeviceTreeError,
    >)
        requires
            self.wf(),
            forall|k: int|
                0 <= k < blocks@.len() ==> (#[trigger] blocks@[k]).name.start
                    + blocks@[k].name.length <= self@.len(),
        ensures
            final(uart)@ == old(uart)@ + listing_text(*self, blocks@, blocks@.len() as int),
            result == listing_result(*self, blocks@, blocks@.len() as int),
            final(uart).setup() == old(uart).setup(),
            final(uart).base() == old(uart).base(),
    {
        let mut i: usize = 0;
        assert(uart@ + Seq::<u8>::empty() =~= uart@);
        while i < blocks.len()
            invariant
                i <= blocks@.len(),
                self.wf(),
                forall|k: int|
                    0 <= k < blocks@.len() ==> (#[trigger] blocks@[k]).name.start
                        + blocks@[k].name.length <= self@.len(),
                uart@ == old(uart)@ + listing_text(*self, blocks@, i as int),
                listing_result(*self, blocks@, i as int) is Ok,
                uart.setup() == old(uart).setup(),
                uart.base() == old(uart).base(),
            decreases blocks@.len() - i,
        {
            let ghost before = listing_text(*self, blocks@, i as int);
            let printed = self.print_block(uart, blocks[i]);
            proof {
                lemma_join(old(uart)@, before, node_text(*self, blocks@[i as int]));
            }
            match printed {
                Ok(()) => {},
                Err(e) => {
                    proof {
                        lemma_listing_error(*self, blocks@, i + 1);
                    }
                    return Err(e);
                },
            }
            i += 1;
        }
        Ok(())
    }

    /// Prints the line of a node and the lines of its properties.
    fn print_block(&self, uart: &mut Uart, block: Block) -> (result: Result<(), DeviceTreeError>)
        requires
            self.wf(),
            block.name.start + block.name.length <= self@.len(),
        ensures
            final(uart)@ == old(uart)@ + node_text(*self, block),
            result == node_result(*self, block),
            final(uart).setup() == old(uart).setup(),
            final(uart).base() == old(uart).base(),
    {
        uart.put_str("    Block: ");
        uart.put_bytes(self.bytes(block.name));
        uart.put_char(13);
        uart.put_char(10);
        assert(uart@ =~= old(uart)@ + block_text(self@, block));
        let properties = match self.iterate_properties(block.offset) {
            Ok(properties) => properties,
            Err(e) => {
                return Err(e);
            },
        };
        let ghost line = uart@;
        let mut j: usize = 0;
        assert(line + Seq::<u8>::empty() =~= line);
        while j < properties.len()
            invariant
                j <= properties@.len(),
                forall|k: int|
                    0 <= k < properties@.len() ==> {
                        &&& (#[trigger] properties@[k]).name.start + properties@[k].name.length
                            <= self@.len()
                        &&& properties@[k].value.start + properties@[k].value.length <= self@.len()
                    },
                uart@ == line + properties_text(self@, properties@, j as int),
                uart.setup() == old(uart).setup(),
                uart.base() == old(uart).base(),
            decreases properties@.len() - j,
        {
            let ghost printed = properties_text(self@, properties@, j as int);
            self.print_property(uart, properties[j]);
            proof {
                lemma_join(line, printed, property_text(self@, properties@[j as int]));
            }
            j += 1;
        }
        proof {
            lemma_join(
                old(uart)@,
                block_text(self@, block),
                properties_text(self@, properties@, properties@.len() as int),
            );
        }
        Ok(())
    }

    /// Prints the numbers of the header, one to a line.
    fn print_header(&self, uart: &mut Uart)
        ensures
            final(uart)@ == old(uart)@ + header_text(self.header()),
            final(uart).setup() == old(uart).setup(),
            final(uart).base() == old(uart).base(),
    {
        uart.put_str("Device Tree Header:\n");
        Self::write_int(uart, "  Version                            ", self.version);
        Self::write_int(uart, "  Last Compatible Version            ", self.last_comp_version);
        Self::write_int(uart, "  Total Size                         ", self.total_size);
        Self::write_hex(uart, "  Offset to Structure Block          ", self.off_dt_struct);
        Self::write_hex(uart, "  Offset to Strings Block            ", self.off_dt_strings);
        Self::write_hex(uart, "  Offset to Memory Reservation Block ", self.off_mem_res_map);
        Self::write_int(uart, "  Boot CPU ID (Physical)             ", self.boot_cpu_id_phys);
        Self::write_int(uart, "  Size of Strings Block              ", self.size_dt_strings);
        Self::write_int(uart, "  Size of Structure Block            ", self.size_dt_struct);
        assert(uart@ =~= old(uart)@ + header_text(self.header()));
    }

    /// Prints the line of a property.
    fn print_property(&self, uart: &mut Uart, property: Property)
        requires
            property.name.start + property.name.length <= self@.len(),
            property.value.start + property.value.length <= self@.len(),
        ensures
            final(uart)@ == old(uart)@ + property_text(self@, property),
            final(uart).setup() == old(uart).setup(),
            final(uart).base() == old(uart).base(),
    {
        uart.put_str("      Property: ");
        uart.put_bytes(self.bytes(property.name));
        uart.put_str(", value: ");
        let value = self.bytes(property.value);
        if value.len() == 0 {
            uart.put_str("N/A");
        } else {
            uart.put_char(91);
            uart.put_int(value.len() as u64);
            uart.put_str("] = ");
            uart.put_hex_bytes(value, Some(16));
        }
        uart.put_char(13);
        uart.put_char(10);
        assert(uart@ =~= old(uart)@ + property_text(self@, property));
    }

    /// Prints a line that names a number in decimal.
    pub fn write_int(uart: &mut Uart, name: &str, value: u32)
        ensures
            final(uart)@ == old(uart)@ + labelled(name.spec_bytes(), decimal(value as nat)),
            final(uart).setup() == old(uart).setup(),
            final(uart).base() == old(uart).base(),
    {
        uart.put_str(name);
        uart.put_char(58);
        uart.put_char(32);
        uart.put_int(value as u64);
        uart.put_char(13);
        uart.put_char(10);
        assert(uart@ =~= old(uart)@ + labelled(name.spec_bytes(), decimal(value as nat)));
    }

    /// Prints a line that names a number in hexadecimal.
    pub fn write_hex(uart: &mut Uart, name: &str, value: u32)
        ensures
            final(uart)@ == old(uart)@ + labelled(name.spec_bytes(), prefixed_hex(value as nat)),
            final(uart).setup() == old(uart).setup(),
            final(uart).base() == old(uart).base(),
    {
        uart.put_str(name);
        uart.put_char(58);
        uart.put_char(32);
        uart.put_hex(value as u64, true);
        uart.put_char(13);
        uart.put_char(10);
        assert(uart@ =~= old(uart)@ + labelled(name.spec_bytes(), prefixed_hex(value as nat)));
    }
}

/// A token of the structure block, with the offset of what follows it.
#[derive(Clone, Copy, PartialEq, Eq, Structural, Debug)]
pub enum Token {
    /// The block ends.
    End,
    /// A node begins; its name stands at `next`.
    BeginNode { next: usize },
    /// A node ends.
    EndNode { next: usize },
    /// A property of `size` bytes, whose name stands at `name_offset` in
    /// the strings block and whose value stands at `value` in the
    /// structure block.
    Property { size: u32, name_offset: u32, value: usize, next: usize },
    /// A token that says nothing.
    Skip { next: usize },
}

/// The offset of what follows a token; 0 for the end token.
pub open spec fn token_next(token: Token) -> usize {
    match token {
        Token::End => 0,
        Token::BeginNode { next } => next,
        Token::EndNode { next } => next,
        Token::Property { size, name_offset, value, next } => next,
        Token::Skip { next } => next,
    }
}

/// The nodes found so far, followed by what the rest of the walk gives.
pub open spec fn join_blocks(found: Seq<Block>, rest: Result<Seq<Block>, DeviceTreeError>)
    -> Result<Seq<Block>, DeviceTreeError> {
    match rest {
        Ok(more) => Ok(found + more),
        Err(e) => Err(e),
    }
}

/// The properties found so far, followed by what the rest of the walk
/// gives.
pub open spec fn join_properties(
    found: Seq<Property>,
    rest: Result<Seq<Property>, DeviceTreeError>,
) -> Result<Seq<Property>, DeviceTreeError> {
    match rest {
        Ok(more) => Ok(found + more),
        Err(e) => Err(e),
    }
}

/// The part of a node's name before the `@`, which is the kind of the
/// device: the whole name where it holds no `@`.
pub open spec fn device_name_length(name: Seq<u8>, i: int) -> int
    decreases name.len() - i,
{
    if i >= name.len() {
        name.len() as int
    } else if name[i] == 64 {
        i
    } else {
        device_name_length(name, i + 1)
    }
}

/// The part of a node's name before the `@`.
pub fn filter_device_name(name: &[u8]) -> (device_name: &[u8])
    ensures
        device_name@ == name@.subrange(0, device_name_length(name@, 0)),
        device_name@.len() <= name@.len(),
{
    let mut i: usize = 0;
    while i < name.len()
        invariant
            i <= name.len(),
            device_name_length(name@, 0) == device_name_length(name@, i as int),
        decreases name.len() - i,
    {
        if name[i] == 64 {
            return vstd::slice::slice_subrange(name, 0, i);
        }
        i += 1;
    }
    vstd::slice::slice_subrange(name, 0, i)
}

} // verus!
