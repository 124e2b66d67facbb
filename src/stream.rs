//! The block-stream walker: decodes a whole container, block after block,
//! until the cursor lands exactly on the end of the buffer.

use vstd::prelude::*;
use crate::blocks::{
    spec_name_field, spec_old_recovery, spec_packed_file, RarOldRecovery,
    RarPackedFile, RarPackedFileView, SrrRarFile, SrrStoredFile,
};
use crate::bytes::{parsed, u16_le, ErrorKind};
use crate::header::{spec_header, BlockHeader, BlockType, LONG_BLOCK};

verus! {

/// A decoded body, for the kinds whose body is interpreted.
#[derive(Debug)]
pub enum BlockImpl {
    /// A RAR volume header; none of its body is kept.
    RarVolumeHeader,
    RarPackedFile(RarPackedFile),
    RarOldRecovery(RarOldRecovery),
    SrrStoredFile(SrrStoredFile),
    SrrRarFile(SrrRarFile),
}

/// A decoded body, with names seen as characters.
pub enum BlockImplView {
    RarVolumeHeader,
    RarPackedFile(RarPackedFileView),
    RarOldRecovery(RarOldRecovery),
    SrrStoredFile(Seq<char>),
    SrrRarFile(Seq<char>),
}

impl View for BlockImpl {
    type V = BlockImplView;

    open spec fn view(&self) -> BlockImplView {
        match self {
            BlockImpl::RarVolumeHeader => BlockImplView::RarVolumeHeader,
            BlockImpl::RarPackedFile(f) => BlockImplView::RarPackedFile(f@),
            BlockImpl::RarOldRecovery(r) => BlockImplView::RarOldRecovery(r@),
            BlockImpl::SrrStoredFile(f) => BlockImplView::SrrStoredFile(f@),
            BlockImpl::SrrRarFile(f) => BlockImplView::SrrRarFile(f@),
        }
    }
}

/// One block: its header and, for the kinds that have one, its decoded
/// body. Marker-only and unknown kinds have none.
#[derive(Debug)]
pub struct Block {
    pub header: BlockHeader,
    pub inner: Option<BlockImpl>,
}

/// A block with its names seen as characters.
pub struct BlockView {
    pub header: BlockHeader,
    pub inner: Option<BlockImplView>,
}

impl View for Block {
    type V = BlockView;

    open spec fn view(&self) -> BlockView {
        BlockView {
            header: self.header,
            inner: match self.inner {
                Some(b) => Some(b@),
                None => None,
            },
        }
    }
}

/// The views of a sequence of blocks.
pub open spec fn block_views(bs: Seq<Block>) -> Seq<BlockView> {
    bs.map_values(|b: Block| b@)
}

/// A failed decode: the offset of the block that could not be decoded and
/// why.
#[derive(Debug, Clone, Copy, PartialEq, Eq, Structural)]
pub struct DecodeError {
    pub offset: usize,
    pub kind: ErrorKind,
}

/// A block of `s` that is skipped from its header on: it takes `next - p`
/// bytes from its start `p`, which must cover its header and stay inside
/// `s`.
pub open spec fn skipped(
    s: Seq<u8>,
    p: int,
    h: BlockHeader,
    hl: int,
    next: int,
    inner: Option<BlockImplView>,
) -> Result<(BlockView, int), ErrorKind> {
    if (h.size as int) < hl {
        Err(ErrorKind::InvalidSize)
    } else if next > s.len() {
        Err(ErrorKind::TrailingBytes)
    } else {
        Ok((BlockView { header: h, inner }, next))
    }
}

/// The block that starts at `p` in `s`, and where the next one starts. A
/// block whose declared size is smaller than its header fails, whatever its
/// kind.
///
/// - A volume header takes its declared size.
/// - A packed-file entry's body is the rest of its declared size; it is
///   decoded within those bytes, and whatever it leaves is skipped.
/// - An old-style recovery record's body is the 11 bytes after its header.
/// - A stored file's name is decoded within the rest of its declared size,
///   and its embedded payload of extra-size bytes is skipped.
/// - A RAR volume's name is decoded right after its header, and the block
///   ends with it.
/// - A container header and a padding block take their declared size and
///   extra size.
/// - Every other kind, unknown ones included, takes its declared size.
pub open spec fn spec_block(s: Seq<u8>, p: int) -> Result<(BlockView, int), ErrorKind> {
    match spec_header(s.subrange(p, s.len() as int)) {
        Err(e) => Err(e),
        Ok((h, hl)) => {
            let d = h.size as int;
            let x = h.add_size as int;
            match h.ty {
                BlockType::RarVolumeHeader => skipped(
                    s,
                    p,
                    h,
                    hl,
                    p + d,
                    Some(BlockImplView::RarVolumeHeader),
                ),
                BlockType::RarPackedFile => if d < hl {
                    Err(ErrorKind::InvalidSize)
                } else if p + d > s.len() {
                    Err(ErrorKind::InsufficientInput)
                } else {
                    match spec_packed_file(s.subrange(p + hl, p + d), h.flags) {
                        Err(e) => Err(e),
                        Ok((f, _)) => Ok(
                            (
                                BlockView {
                                    header: h,
                                    inner: Some(BlockImplView::RarPackedFile(f)),
                                },
                                p + d,
                            ),
                        ),
                    }
                },
                BlockType::RarOldRecovery => if d < hl {
                    Err(ErrorKind::InvalidSize)
                } else {
                    match spec_old_recovery(s.subrange(p + hl, s.len() as int)) {
                        Err(e) => Err(e),
                        Ok((r, n)) => Ok(
                            (
                                BlockView {
                                    header: h,
                                    inner: Some(BlockImplView::RarOldRecovery(r)),
                                },
                                p + hl + n,
                            ),
                        ),
                    }
                },
                BlockType::SrrStoredFile => if d < hl {
                    Err(ErrorKind::InvalidSize)
                } else if p + d > s.len() {
                    Err(ErrorKind::InsufficientInput)
                } else {
                    match spec_name_field(s.subrange(p + hl, p + d)) {
                        Err(e) => Err(e),
                        Ok((name, _)) => skipped(
                            s,
                            p,
                            h,
                            hl,
                            p + d + x,
                            Some(BlockImplView::SrrStoredFile(name)),
                        ),
                    }
                },
                BlockType::SrrRarFile => if d < hl {
                    Err(ErrorKind::InvalidSize)
                } else {
                    match spec_name_field(s.subrange(p + hl, s.len() as int)) {
                        Err(e) => Err(e),
                        Ok((name, n)) => Ok(
                            (
                                BlockView {
                                    header: h,
                                    inner: Some(BlockImplView::SrrRarFile(name)),
                                },
                                p + hl + n,
                            ),
                        ),
                    }
                },
                BlockType::SrrHeader | BlockType::SrrRarPadding => skipped(
                    s,
                    p,
                    h,
                    hl,
                    p + d + x,
                    None,
                ),
                _ => skipped(s, p, h, hl, p + d, None),
            }
        },
    }
}

/// The blocks of `s` from offset `p` on, or the first failure.
pub open spec fn spec_walk(s: Seq<u8>, p: int) -> Result<Seq<BlockView>, DecodeError>
    decreases s.len() - p,
{
    if p < 0 || p >= s.len() {
        Ok(Seq::empty())
    } else {
        match spec_block(s, p) {
            Err(kind) => Err(DecodeError { offset: p as usize, kind }),
            Ok((b, next)) => match spec_walk(s, next) {
                Err(e) => Err(e),
                Ok(bs) => Ok(seq![b] + bs),
            },
        }
    }
}

/// The blocks of a whole container, in the order they appear, or the first
/// failure.
pub open spec fn spec_decode(s: Seq<u8>) -> Result<Seq<BlockView>, DecodeError> {
    spec_walk(s, 0)
}

/// Decodes the block that starts at `pos`, and returns it with the offset
/// where the next one starts.
fn decode_block(input: &[u8], pos: usize) -> (r: Result<(Block, usize), ErrorKind>)
    requires
        pos < input@.len(),
    ensures
        parsed(r) == spec_block(input@, pos as int),
{
    let len = input.len();
    let rest = vstd::slice::slice_subrange(input, pos, len);
    let (header, hl) = BlockHeader::parse(rest)?;
    let d = header.size as usize;
    let x = header.add_size as usize;
    match header.ty {
        BlockType::RarVolumeHeader => {
            if d < hl {
                return Err(ErrorKind::InvalidSize);
            }
            if d > len - pos {
                return Err(ErrorKind::TrailingBytes);
            }
            Ok((Block { header, inner: Some(BlockImpl::RarVolumeHeader) }, pos + d))
        },
        BlockType::RarPackedFile => {
            if d < hl {
                return Err(ErrorKind::InvalidSize);
            }
            if d > len - pos {
                return Err(ErrorKind::InsufficientInput);
            }
            let body = vstd::slice::slice_subrange(input, pos + hl, pos + d);
            let (f, _) = RarPackedFile::parse(body, header.flags)?;
            Ok((Block { header, inner: Some(BlockImpl::RarPackedFile(f)) }, pos + d))
        },
        BlockType::RarOldRecovery => {
            if d < hl {
                return Err(ErrorKind::InvalidSize);
            }
            let body = vstd::slice::slice_subrange(input, pos + hl, len);
            let (rec, n) = RarOldRecovery::parse(body)?;
            Ok((Block { header, inner: Some(BlockImpl::RarOldRecovery(rec)) }, pos + hl + n))
        },
        BlockType::SrrStoredFile => {
            if d < hl {
                return Err(ErrorKind::InvalidSize);
            }
            if d > len - pos {
                return Err(ErrorKind::InsufficientInput);
            }
            let body = vstd::slice::slice_subrange(input, pos + hl, pos + d);
            let (f, _) = SrrStoredFile::new(body)?;
            if x > len - pos - d {
                return Err(ErrorKind::TrailingBytes);
            }
            Ok((Block { header, inner: Some(BlockImpl::SrrStoredFile(f)) }, pos + d + x))
        },
        BlockType::SrrRarFile => {
            if d < hl {
                return Err(ErrorKind::InvalidSize);
            }
            let body = vstd::slice::slice_subrange(input, pos + hl, len);
            let (f, n) = SrrRarFile::new(body)?;
            Ok((Block { header, inner: Some(BlockImpl::SrrRarFile(f)) }, pos + hl + n))
        },
        BlockType::SrrHeader | BlockType::SrrRarPadding => {
            if d < hl {
                return Err(ErrorKind::InvalidSize);
            }
            if d > len - pos || x > len - pos - d {
                return Err(ErrorKind::TrailingBytes);
            }
            Ok((Block { header, inner: None }, pos + d + x))
        },
        _ => {
            if d < hl {
                return Err(ErrorKind::InvalidSize);
            }
            if d > len - pos {
                return Err(ErrorKind::TrailingBytes);
            }
            Ok((Block { header, inner: None }, pos + d))
        },
    }
}

/// Decodes a whole container: every block, in the order they appear, or
/// the first failure with the offset of the block where it came.
pub fn decode(input: &[u8]) -> (r: Result<Vec<Block>, DecodeError>)
    ensures
        r matches Ok(bs) ==> spec_decode(input@) == Ok::<Seq<BlockView>, DecodeError>(
            block_views(bs@),
        ),
        r matches Err(e) ==> spec_decode(input@) == Err::<Seq<BlockView>, DecodeError>(e),
{
    let mut blocks: Vec<Block> = Vec::new();
    let mut cursor: usize = 0;
    while cursor < input.len()
        invariant
            cursor <= input@.len(),
            spec_walk(input@, cursor as int) matches Ok(rest) ==> spec_decode(input@) == Ok::<
                Seq<BlockView>,
                DecodeError,
            >(block_views(blocks@) + rest),
            spec_walk(input@, cursor as int) matches Err(e) ==> spec_decode(input@) == Err::<
                Seq<BlockView>,
                DecodeError,
            >(e),
        decreases input@.len() - cursor,
    {
        match decode_block(input, cursor) {
            Err(kind) => {
                return Err(DecodeError { offset: cursor, kind });
            },
            Ok((block, next)) => {
                proof {
                    lemma_block_within(input@, cursor as int);
                    let ghost old_views = block_views(blocks@);
                    let ghost b = block@;
                    assert(block_views(blocks@.push(block)) =~= old_views.push(b));
                    if let Ok(rest) = spec_walk(input@, next as int) {
                        assert(old_views + (seq![b] + rest) =~= old_views.push(b) + rest);
                    }
                }
                blocks.push(block);
                cursor = next;
            },
        }
    }
    proof {
        assert(block_views(blocks@) + Seq::<BlockView>::empty() =~= block_views(blocks@));
    }
    Ok(blocks)
}

/// A block that decodes starts where asked, takes at least its seven-byte
/// header and ends inside the buffer.
pub proof fn lemma_block_within(s: Seq<u8>, p: int)
    requires
        0 <= p < s.len(),
    ensures
        spec_block(s, p) matches Ok((_, next)) ==> p + 7 <= next <= s.len(),
{
}

/// A decoded container: its blocks in the order they appear.
#[derive(Debug)]
pub struct Srr {
    pub blocks: Vec<Block>,
}

impl Srr {
    /// Decodes a whole container (see `decode`).
    pub fn new(input: &[u8]) -> (r: Result<Srr, DecodeError>)
        ensures
            r matches Ok(srr) ==> spec_decode(input@) == Ok::<Seq<BlockView>, DecodeError>(
                block_views(srr.blocks@),
            ),
            r matches Err(e) ==> spec_decode(input@) == Err::<Seq<BlockView>, DecodeError>(e),
    {
        let blocks = decode(input)?;
        Ok(Srr { blocks })
    }
}

/// Where the walk that starts at `p` stops: past the last block, or at the
/// start of the block that fails.
pub open spec fn walk_end(s: Seq<u8>, p: int) -> int
    decreases s.len() - p,
{
    if p < 0 || p >= s.len() {
        p
    } else {
        match spec_block(s, p) {
            Err(_) => p,
            Ok((_, next)) => walk_end(s, next),
        }
    }
}

proof fn lemma_walk_ends_at_buffer_end(s: Seq<u8>, p: int)
    requires
        0 <= p <= s.len(),
        spec_walk(s, p) is Ok,
    ensures
        walk_end(s, p) == s.len(),
    decreases s.len() - p,
{
    if p < s.len() {
        lemma_block_within(s, p);
        if let Ok((_, next)) = spec_block(s, p) {
            lemma_walk_ends_at_buffer_end(s, next);
        }
    }
}

/// A container that decodes is walked to exactly its last byte: the
/// cursor neither stops short of the buffer's end nor goes past it.
pub proof fn lemma_decode_ends_at_buffer_end(s: Seq<u8>)
    requires
        spec_decode(s) is Ok,
    ensures
        walk_end(s, 0) == s.len(),
{
    lemma_walk_ends_at_buffer_end(s, 0);
}

/// A buffer that ends inside the first header fails with
/// `InsufficientInput` at offset 0, and no block comes out.
pub proof fn lemma_truncated_header(s: Seq<u8>)
    requires
        0 < s.len() < 7,
    ensures
        spec_decode(s) == Err::<Seq<BlockView>, DecodeError>(
            DecodeError { offset: 0, kind: ErrorKind::InsufficientInput },
        ),
{
    assert(s.subrange(0, s.len() as int).len() < 7);
}

/// A buffer that holds only a container header, declared as long as its
/// seven-byte header, decodes to that one block with no body.
pub proof fn lemma_lone_container_header(s: Seq<u8>)
    requires
        s.len() == 7,
        s[2] == 0x69,
        u16_le(s, 3) & LONG_BLOCK == 0,
        u16_le(s, 5) == 7,
    ensures
        spec_decode(s) matches Ok(bs) && bs.len() == 1 && bs[0].header.ty == BlockType::SrrHeader
            && bs[0].inner is None,
{
    assert(s.subrange(0, 7) =~= s);
    assert(spec_block(s, 0) matches Ok((b, next)) && next == 7 && b.inner is None);
    assert(spec_walk(s, 7) == Ok::<Seq<BlockView>, DecodeError>(Seq::empty()));
}

proof fn lemma_header_prefix(a: Seq<u8>, b: Seq<u8>)
    requires
        a.len() <= b.len(),
        a == b.subrange(0, a.len() as int),
        spec_header(a) is Ok,
    ensures
        spec_header(b) == spec_header(a),
{
    assert(forall|i: int| 0 <= i < a.len() ==> a[i] == b[i]);
}

proof fn lemma_old_recovery_prefix(a: Seq<u8>, b: Seq<u8>)
    requires
        a.len() <= b.len(),
        a == b.subrange(0, a.len() as int),
        spec_old_recovery(a) is Ok,
    ensures
        spec_old_recovery(b) == spec_old_recovery(a),
{
    assert(forall|i: int| 0 <= i < a.len() ==> a[i] == b[i]);
}

proof fn lemma_name_field_prefix(a: Seq<u8>, b: Seq<u8>)
    requires
        a.len() <= b.len(),
        a == b.subrange(0, a.len() as int),
        spec_name_field(a) is Ok,
    ensures
        spec_name_field(b) == spec_name_field(a),
{
    assert(forall|i: int| 0 <= i < a.len() ==> a[i] == b[i]);
    let n = u16_le(a, 0) as int;
    assert(b.subrange(2, 2 + n) =~= a.subrange(2, 2 + n));
}

/// A block that decodes decodes alike, to the same end, with bytes appended
/// to the buffer.
proof fn lemma_block_prefix(s: Seq<u8>, t: Seq<u8>, p: int)
    requires
        0 <= p < s.len(),
        spec_block(s, p) is Ok,
    ensures
        spec_block(s + t, p) == spec_block(s, p),
{
    let st = s + t;
    let rest = s.subrange(p, s.len() as int);
    let rest2 = st.subrange(p, st.len() as int);
    assert(rest =~= rest2.subrange(0, rest.len() as int));
    lemma_header_prefix(rest, rest2);
    if let Ok((h, hl)) = spec_header(rest) {
        let d = h.size as int;
        let b1 = s.subrange(p + hl, s.len() as int);
        let b2 = st.subrange(p + hl, st.len() as int);
        assert(b1 =~= b2.subrange(0, b1.len() as int));
        if d >= hl && p + d <= s.len() {
            assert(st.subrange(p + hl, p + d) =~= s.subrange(p + hl, p + d));
        }
        match h.ty {
            BlockType::RarOldRecovery => {
                if d >= hl {
                    lemma_old_recovery_prefix(b1, b2);
                }
            },
            BlockType::SrrRarFile => {
                if d >= hl {
                    lemma_name_field_prefix(b1, b2);
                }
            },
            _ => {},
        }
    }
}

/// The walk of a buffer with bytes appended goes through the blocks of the
/// buffer and then goes on from its end.
proof fn lemma_walk_prefix(s: Seq<u8>, t: Seq<u8>, p: int)
    requires
        0 <= p <= s.len(),
        spec_walk(s, p) is Ok,
    ensures
        spec_walk(s + t, p) == match spec_walk(s + t, s.len() as int) {
            Ok(r) => Ok(spec_walk(s, p)->Ok_0 + r),
            Err(e) => Err::<Seq<BlockView>, DecodeError>(e),
        },
    decreases s.len() - p,
{
    if p == s.len() {
        if let Ok(r) = spec_walk(s + t, p) {
            assert(Seq::<BlockView>::empty() + r =~= r);
        }
    } else {
        lemma_block_within(s, p);
        lemma_block_prefix(s, t, p);
        if let Ok((b, next)) = spec_block(s, p) {
            lemma_walk_prefix(s, t, next);
            let bs = spec_walk(s, next)->Ok_0;
            if let Ok(r) = spec_walk(s + t, s.len() as int) {
                assert(seq![b] + (bs + r) =~= (seq![b] + bs) + r);
            }
        }
    }
}

/// A buffer that decodes, followed by a header cut short (one to six
/// bytes), fails with `InsufficientInput` at the offset where the cut
/// header starts, and none of the earlier blocks comes out.
pub proof fn lemma_truncated_header_after_blocks(s: Seq<u8>, t: Seq<u8>)
    requires
        spec_decode(s) is Ok,
        1 <= t.len() < 7,
    ensures
        spec_decode(s + t) == Err::<Seq<BlockView>, DecodeError>(
            DecodeError { offset: s.len() as usize, kind: ErrorKind::InsufficientInput },
        ),
{
    let st = s + t;
    lemma_walk_prefix(s, t, 0);
    assert(st.subrange(s.len() as int, st.len() as int) =~= t);
}

} // verus!
