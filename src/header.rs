//! The common block header: checksum, type tag, flags, declared size and,
//! where present, the extra-size field.

use vstd::prelude::*;
use crate::bytes::{
    le16_bytes, le32_bytes, lemma_le16, lemma_le32, parsed, u16_le, u32_le, Cursor, ErrorKind,
};

verus! {

/// Flag bit: the header carries the 32-bit extra-size field.
pub const LONG_BLOCK: u16 = 0x8000;

/// The kind of a block, from its one-byte type tag.
#[derive(Debug, Clone, Copy, PartialEq, Eq, Structural)]
pub enum BlockType {
    /// A tag outside the known set; the raw tag is kept.
    Unknown(u8),
    RarVolumeHeader,
    RarPackedFile,
    RarOldRecovery,
    RarNewSub,
    /// The RAR marker block.
    RarMin,
    /// The archive end block.
    RarMax,
    OldComment,
    OldAuthenticity1,
    OldSubblock,
    OldAuthenticity2,
    SrrHeader,
    SrrStoredFile,
    SrrRarFile,
    SrrOsoHash,
    SrrRarPadding,
}

/// The kind that a type tag names.
pub open spec fn kind_of_tag(tag: u8) -> BlockType {
    match tag {
        0x73u8 => BlockType::RarVolumeHeader,
        0x74u8 => BlockType::RarPackedFile,
        0x78u8 => BlockType::RarOldRecovery,
        0x7Au8 => BlockType::RarNewSub,
        0x72u8 => BlockType::RarMin,
        0x7Bu8 => BlockType::RarMax,
        0x75u8 => BlockType::OldComment,
        0x76u8 => BlockType::OldAuthenticity1,
        0x77u8 => BlockType::OldSubblock,
        0x79u8 => BlockType::OldAuthenticity2,
        0x69u8 => BlockType::SrrHeader,
        0x6Au8 => BlockType::SrrStoredFile,
        0x71u8 => BlockType::SrrRarFile,
        0x6Bu8 => BlockType::SrrOsoHash,
        0x6Cu8 => BlockType::SrrRarPadding,
        _ => BlockType::Unknown(tag),
    }
}

/// The type tag of a kind.
pub open spec fn tag_of(kind: BlockType) -> u8 {
    match kind {
        BlockType::Unknown(t) => t,
        BlockType::RarVolumeHeader => 0x73,
        BlockType::RarPackedFile => 0x74,
        BlockType::RarOldRecovery => 0x78,
        BlockType::RarNewSub => 0x7A,
        BlockType::RarMin => 0x72,
        BlockType::RarMax => 0x7B,
        BlockType::OldComment => 0x75,
        BlockType::OldAuthenticity1 => 0x76,
        BlockType::OldSubblock => 0x77,
        BlockType::OldAuthenticity2 => 0x79,
        BlockType::SrrHeader => 0x69,
        BlockType::SrrStoredFile => 0x6A,
        BlockType::SrrRarFile => 0x71,
        BlockType::SrrOsoHash => 0x6B,
        BlockType::SrrRarPadding => 0x6C,
    }
}

impl BlockType {
    /// Classifies a type tag; a tag outside the known set is `Unknown`.
    pub fn from_tag(tag: u8) -> (r: BlockType)
        ensures
            r == kind_of_tag(tag),
    {
        match tag {
            0x73 => BlockType::RarVolumeHeader,
            0x74 => BlockType::RarPackedFile,
            0x78 => BlockType::RarOldRecovery,
            0x7A => BlockType::RarNewSub,
            0x72 => BlockType::RarMin,
            0x7B => BlockType::RarMax,
            0x75 => BlockType::OldComment,
            0x76 => BlockType::OldAuthenticity1,
            0x77 => BlockType::OldSubblock,
            0x79 => BlockType::OldAuthenticity2,
            0x69 => BlockType::SrrHeader,
            0x6A => BlockType::SrrStoredFile,
            0x71 => BlockType::SrrRarFile,
            0x6B => BlockType::SrrOsoHash,
            0x6C => BlockType::SrrRarPadding,
            _ => BlockType::Unknown(tag),
        }
    }
}

/// Whether a header of this kind and these flags carries the extra-size
/// field: where `LONG_BLOCK` is set, and always for packed-file entries and
/// new-format sub-blocks, which carry trailing payload.
pub open spec fn has_extra(kind: BlockType, flags: u16) -> bool {
    flags & LONG_BLOCK != 0 || kind is RarPackedFile || kind is RarNewSub
}

/// The number of bytes a header of this kind and these flags takes.
pub open spec fn header_len(kind: BlockType, flags: u16) -> int {
    if has_extra(kind, flags) {
        11
    } else {
        7
    }
}

/// The header common to every block.
#[derive(Debug, Clone, Copy, PartialEq, Eq, Structural)]
pub struct BlockHeader {
    /// The checksum field; it is carried, not checked.
    pub crc: u16,
    pub ty: BlockType,
    pub flags: u16,
    /// The declared size: header and body together for most kinds.
    pub size: u16,
    /// The extra-size field, or 0 where the header has none.
    pub add_size: u32,
}

impl View for BlockHeader {
    type V = BlockHeader;

    open spec fn view(&self) -> BlockHeader {
        *self
    }
}

/// The header at the start of `s` and the bytes it takes: seven, or eleven
/// where the extra-size field is present.
pub open spec fn spec_header(s: Seq<u8>) -> Result<(BlockHeader, int), ErrorKind> {
    if s.len() < 7 {
        Err(ErrorKind::InsufficientInput)
    } else {
        let ty = kind_of_tag(s[2]);
        let flags = u16_le(s, 3);
        if has_extra(ty, flags) && s.len() < 11 {
            Err(ErrorKind::InsufficientInput)
        } else {
            Ok(
                (
                    BlockHeader {
                        crc: u16_le(s, 0),
                        ty,
                        flags,
                        size: u16_le(s, 5),
                        add_size: if has_extra(ty, flags) {
                            u32_le(s, 7)
                        } else {
                            0
                        },
                    },
                    header_len(ty, flags),
                ),
            )
        }
    }
}

impl BlockHeader {
    /// Whether the header carries the extra-size field.
    pub open spec fn has_extra(&self) -> bool {
        has_extra(self.ty, self.flags)
    }

    /// The number of bytes the header takes.
    pub open spec fn len(&self) -> int {
        header_len(self.ty, self.flags)
    }

    /// Decodes the header at the start of `input`, with the bytes it took.
    pub fn parse(input: &[u8]) -> (r: Result<(BlockHeader, usize), ErrorKind>)
        ensures
            parsed(r) == spec_header(input@),
    {
        let mut cur = Cursor::new(input);
        if input.len() < 7 {
            return Err(ErrorKind::InsufficientInput);
        }
        let crc = cur.read_u16()?;
        let ty = BlockType::from_tag(cur.read_u8()?);
        let flags = cur.read_u16()?;
        let size = cur.read_u16()?;
        let long = flags & LONG_BLOCK != 0 || matches!(ty, BlockType::RarPackedFile)
            || matches!(ty, BlockType::RarNewSub);
        let add_size = if long {
            cur.read_u32()?
        } else {
            0
        };
        Ok((BlockHeader { crc, ty, flags, size, add_size }, cur.pos))
    }

    /// The declared size plus the extra size.
    pub fn full_size(&self) -> (r: u64)
        ensures
            r == self.size + self.add_size,
    {
        self.size as u64 + self.add_size as u64
    }
}

/// The encoding of a header.
pub open spec fn encode_header(h: BlockHeader) -> Seq<u8> {
    le16_bytes(h.crc) + seq![tag_of(h.ty)] + le16_bytes(h.flags) + le16_bytes(h.size) + if h.has_extra() {
        le32_bytes(h.add_size)
    } else {
        Seq::empty()
    }
}

/// A header that its encoding describes exactly: an unknown kind keeps a
/// tag outside the known set, and the extra size is 0 where the field is
/// absent.
pub open spec fn is_canonical(h: BlockHeader) -> bool {
    &&& kind_of_tag(tag_of(h.ty)) == h.ty
    &&& !h.has_extra() ==> h.add_size == 0
}

/// Decoding an encoded header, whatever follows it, gives back every field
/// of the header and consumes exactly its encoding.
pub proof fn lemma_header_round_trip(h: BlockHeader, rest: Seq<u8>)
    requires
        is_canonical(h),
    ensures
        spec_header(encode_header(h) + rest) == Ok::<(BlockHeader, int), ErrorKind>(
            (h, encode_header(h).len() as int),
        ),
{
    let e = encode_header(h);
    let s = e + rest;
    assert(s.subrange(0, 2) =~= le16_bytes(h.crc));
    lemma_le16(h.crc, s, 0);
    assert(s[2] == tag_of(h.ty));
    assert(s.subrange(3, 5) =~= le16_bytes(h.flags));
    lemma_le16(h.flags, s, 3);
    assert(s.subrange(5, 7) =~= le16_bytes(h.size));
    lemma_le16(h.size, s, 5);
    if h.has_extra() {
        assert(s.subrange(7, 11) =~= le32_bytes(h.add_size));
        lemma_le32(h.add_size, s, 7);
    }
}

/// A volume header without `LONG_BLOCK` takes seven bytes: the extra-size
/// field is not read.
pub proof fn lemma_volume_header_len(s: Seq<u8>)
    requires
        s.len() >= 7,
        s[2] == 0x73,
        u16_le(s, 3) & LONG_BLOCK == 0,
    ensures
        spec_header(s) matches Ok((h, n)) && n == 7 && h.ty == BlockType::RarVolumeHeader
            && h.add_size == 0,
{
}

/// A packed-file entry's header always takes eleven bytes, whatever its
/// flags.
pub proof fn lemma_packed_file_header_len(s: Seq<u8>)
    requires
        s.len() >= 11,
        s[2] == 0x74,
    ensures
        spec_header(s) matches Ok((h, n)) && n == 11 && h.ty == BlockType::RarPackedFile
            && h.add_size == u32_le(s, 7),
{
}

} // verus!
