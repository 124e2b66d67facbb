//! Body decoders, one for each block kind whose body is interpreted.

use vstd::prelude::*;
use crate::bytes::{
    le16_bytes, le32_bytes, lemma_le16, lemma_le32, lossy_string, parsed, u16_le, u32_le, u64_le,
    utf8_lossy, Cursor, ErrorKind,
};
use crate::datetime::{lemma_unpack_pack, parse_xtime, xtime, DateTime};
use vstd::utf8::{encode_utf8, encode_utf8_decode_utf8, encode_utf8_valid_utf8};

verus! {

/// Header flag of a packed-file entry: two high-order size words follow the
/// attributes.
pub const LARGE_FILE: u16 = 0x100;

/// Header flag of a packed-file entry: an 8-byte encryption salt follows the
/// name.
pub const SALTED: u16 = 0x400;

/// Header flag of a packed-file entry: an extended time block ends the
/// body.
pub const EXT_TIME: u16 = 0x1000;

/// The operating system that produced a packed-file entry.
#[derive(Debug, Clone, Copy, PartialEq, Eq, Structural)]
pub enum HostOS {
    MsDOS,
    OS2,
    Windows,
    Unix,
    MacOS,
    BeOS,
}

/// The operating system that a host-OS tag names, if any.
pub open spec fn host_os_of(tag: u8) -> Option<HostOS> {
    match tag {
        0u8 => Some(HostOS::MsDOS),
        1u8 => Some(HostOS::OS2),
        2u8 => Some(HostOS::Windows),
        3u8 => Some(HostOS::Unix),
        4u8 => Some(HostOS::MacOS),
        5u8 => Some(HostOS::BeOS),
        _ => None,
    }
}

/// The tag of an operating system.
pub open spec fn host_os_tag(os: HostOS) -> u8 {
    match os {
        HostOS::MsDOS => 0,
        HostOS::OS2 => 1,
        HostOS::Windows => 2,
        HostOS::Unix => 3,
        HostOS::MacOS => 4,
        HostOS::BeOS => 5,
    }
}

impl HostOS {
    /// Classifies a host-OS tag; there is no fallback for an unknown one.
    pub fn from_tag(tag: u8) -> (r: Option<HostOS>)
        ensures
            r == host_os_of(tag),
    {
        match tag {
            0 => Some(HostOS::MsDOS),
            1 => Some(HostOS::OS2),
            2 => Some(HostOS::Windows),
            3 => Some(HostOS::Unix),
            4 => Some(HostOS::MacOS),
            5 => Some(HostOS::BeOS),
            _ => None,
        }
    }
}

/// The bytes before the first zero byte, or all of them where there is
/// none: a name field may hold a narrow name, a zero byte and a wide name.
pub open spec fn before_nul(b: Seq<u8>) -> Seq<u8> {
    match b.index_of_first(0u8) {
        Some(i) => b.subrange(0, i),
        None => b,
    }
}

fn narrow_name(b: &[u8]) -> (r: &[u8])
    ensures
        r@ == before_nul(b@),
{
    let mut k: usize = 0;
    while k < b.len()
        invariant
            k <= b@.len(),
            forall|j: int| 0 <= j < k ==> b@[j] != 0u8,
        decreases b.len() - k,
    {
        if b[k] == 0 {
            proof {
                b@.index_of_first_ensures(0u8);
                assert(b@.contains(0u8));
            }
            return vstd::slice::slice_subrange(b, 0, k);
        }
        k = k + 1;
    }
    proof {
        b@.index_of_first_ensures(0u8);
    }
    b
}

/// A packed-file entry: the description of one file stored in a RAR volume.
#[derive(Debug)]
pub struct RarPackedFile {
    pub unpacked_size: u32,
    pub os: HostOS,
    pub file_crc: u32,
    /// The last-modified time.
    pub datetime: DateTime,
    pub unpack_version: u8,
    pub compression_method: u8,
    pub file_attributes: u32,
    /// The high 32 bits of the packed size, 0 unless `LARGE_FILE` is set.
    pub high_packed_size: u32,
    /// The high 32 bits of the unpacked size, 0 unless `LARGE_FILE` is set.
    pub high_unpacked_size: u32,
    /// The narrow name: the name field up to its first zero byte.
    pub file_name: String,
    /// The encryption salt, 0 unless `SALTED` is set.
    pub salt: u64,
    /// The extended times, all absent unless `EXT_TIME` is set.
    pub modification_time: Option<DateTime>,
    pub creation_time: Option<DateTime>,
    pub access_time: Option<DateTime>,
    pub archival_time: Option<DateTime>,
}

/// A packed-file entry with its name seen as characters.
pub struct RarPackedFileView {
    pub unpacked_size: u32,
    pub os: HostOS,
    pub file_crc: u32,
    pub datetime: DateTime,
    pub unpack_version: u8,
    pub compression_method: u8,
    pub file_attributes: u32,
    pub high_packed_size: u32,
    pub high_unpacked_size: u32,
    pub file_name: Seq<char>,
    pub salt: u64,
    pub modification_time: Option<DateTime>,
    pub creation_time: Option<DateTime>,
    pub access_time: Option<DateTime>,
    pub archival_time: Option<DateTime>,
}

impl View for RarPackedFile {
    type V = RarPackedFileView;

    open spec fn view(&self) -> RarPackedFileView {
        RarPackedFileView {
            unpacked_size: self.unpacked_size,
            os: self.os,
            file_crc: self.file_crc,
            datetime: self.datetime,
            unpack_version: self.unpack_version,
            compression_method: self.compression_method,
            file_attributes: self.file_attributes,
            high_packed_size: self.high_packed_size,
            high_unpacked_size: self.high_unpacked_size,
            file_name: self.file_name@,
            salt: self.salt,
            modification_time: self.modification_time,
            creation_time: self.creation_time,
            access_time: self.access_time,
            archival_time: self.archival_time,
        }
    }
}

/// Modification, creation, access and archival times.
pub type ExtTimes = (Option<DateTime>, Option<DateTime>, Option<DateTime>, Option<DateTime>);

/// The four extended times (modification, creation, access, archival) of an
/// extended time block at the start of `s`, with the bytes they take. A
/// 16-bit sub-flag word comes first where two bytes are left, else the
/// sub-flags are 0; its nibbles, most significant first, gate the four
/// fields in turn. The modification time is seeded with `base`, the others
/// read their own seed.
pub open spec fn ext_times(s: Seq<u8>, base: DateTime) -> Result<
    (ExtTimes, int),
    ErrorKind,
> {
    let sub: u16 = if s.len() >= 2 {
        u16_le(s, 0)
    } else {
        0
    };
    let p0: int = if s.len() >= 2 {
        2
    } else {
        0
    };
    match xtime((sub >> 12u16) & 0xF, s.subrange(p0, s.len() as int), Some(base)) {
        Err(e) => Err(e),
        Ok((m, n1)) => {
            let p1 = p0 + n1;
            match xtime((sub >> 8u16) & 0xF, s.subrange(p1, s.len() as int), None) {
                Err(e) => Err(e),
                Ok((c, n2)) => {
                    let p2 = p1 + n2;
                    match xtime((sub >> 4u16) & 0xF, s.subrange(p2, s.len() as int), None) {
                        Err(e) => Err(e),
                        Ok((a, n3)) => {
                            let p3 = p2 + n3;
                            match xtime(sub & 0xF, s.subrange(p3, s.len() as int), None) {
                                Err(e) => Err(e),
                                Ok((r, n4)) => Ok(((m, c, a, r), p3 + n4)),
                            }
                        },
                    }
                },
            }
        },
    }
}

/// The packed-file entry at the start of the body `s`, under the header
/// flags `flags`, with the bytes it takes. Fields in order: unpacked size
/// (4 bytes), host OS (1), CRC (4), packed time (4), unpack version (1),
/// method (1), name length (2), attributes (4); with `LARGE_FILE`, the high
/// packed and unpacked sizes (4 each); the name; with `SALTED`, the salt
/// (8); with `EXT_TIME`, the extended times.
pub open spec fn spec_packed_file(s: Seq<u8>, flags: u16) -> Result<(RarPackedFileView, int), ErrorKind> {
    if s.len() < 5 {
        Err(ErrorKind::InsufficientInput)
    } else if host_os_of(s[4]) is None {
        Err(ErrorKind::InvalidTag(s[4]))
    } else if s.len() < 21 {
        Err(ErrorKind::InsufficientInput)
    } else {
        let large = flags & LARGE_FILE != 0;
        let name_at: int = if large {
            29
        } else {
            21
        };
        let name_end = name_at + u16_le(s, 15) as int;
        let salted = flags & SALTED != 0;
        let times_at = if salted {
            name_end + 8
        } else {
            name_end
        };
        if s.len() < name_at {
            Err(ErrorKind::InsufficientInput)
        } else if s.len() < name_end {
            Err(ErrorKind::UnexpectedEof)
        } else if s.len() < times_at {
            Err(ErrorKind::InsufficientInput)
        } else {
            let datetime = DateTime::unpack(u32_le(s, 9));
            let times = if flags & EXT_TIME != 0 {
                ext_times(s.subrange(times_at, s.len() as int), datetime)
            } else {
                Ok(((None, None, None, None), 0))
            };
            match times {
                Err(e) => Err(e),
                Ok(((m, c, a, r), n)) => Ok(
                    (
                        RarPackedFileView {
                            unpacked_size: u32_le(s, 0),
                            os: host_os_of(s[4]).unwrap(),
                            file_crc: u32_le(s, 5),
                            datetime,
                            unpack_version: s[13],
                            compression_method: s[14],
                            file_attributes: u32_le(s, 17),
                            high_packed_size: if large {
                                u32_le(s, 21)
                            } else {
                                0
                            },
                            high_unpacked_size: if large {
                                u32_le(s, 25)
                            } else {
                                0
                            },
                            file_name: utf8_lossy(before_nul(s.subrange(name_at, name_end))),
                            salt: if salted {
                                u64_le(s, name_end)
                            } else {
                                0
                            },
                            modification_time: m,
                            creation_time: c,
                            access_time: a,
                            archival_time: r,
                        },
                        times_at + n,
                    ),
                ),
            }
        }
    }
}

/// The four extended times of an extended time block at the start of `data`
/// (see `ext_times`), with the bytes they take.
fn parse_ext_times(data: &[u8], base: DateTime) -> (r: Result<
    (ExtTimes, usize),
    ErrorKind,
>)
    requires
        base.second <= 62,
    ensures
        r matches Ok((t, n)) ==> ext_times(data@, base) == Ok::<(ExtTimes, int), ErrorKind>((t, n as int)),
        r matches Err(e) ==> ext_times(data@, base) == Err::<(ExtTimes, int), ErrorKind>(e),
{
    let mut cur = Cursor::new(data);
    let sub = if cur.remaining() >= 2 {
        cur.read_u16()?
    } else {
        0
    };
    let (m, n) = parse_xtime((sub >> 12) & 0xF, cur.peek_rest(), Some(base))?;
    cur.advance(n);
    let (c, n) = parse_xtime((sub >> 8) & 0xF, cur.peek_rest(), None)?;
    cur.advance(n);
    let (a, n) = parse_xtime((sub >> 4) & 0xF, cur.peek_rest(), None)?;
    cur.advance(n);
    let (r, n) = parse_xtime(sub & 0xF, cur.peek_rest(), None)?;
    cur.advance(n);
    Ok(((m, c, a, r), cur.pos))
}

impl RarPackedFile {
    /// Decodes a packed-file entry's body, given its header's flags, and
    /// returns it with the bytes it took.
    pub fn parse(input: &[u8], flags: u16) -> (r: Result<(RarPackedFile, usize), ErrorKind>)
        ensures
            parsed(r) == spec_packed_file(input@, flags),
    {
        let mut cur = Cursor::new(input);
        let unpacked_size = cur.read_u32()?;
        let os_tag = cur.read_u8()?;
        let os = match HostOS::from_tag(os_tag) {
            Some(os) => os,
            None => return Err(ErrorKind::InvalidTag(os_tag)),
        };
        let file_crc = cur.read_u32()?;
        let datetime = DateTime::parse(cur.read_u32()?);
        let unpack_version = cur.read_u8()?;
        let compression_method = cur.read_u8()?;
        let name_length = cur.read_u16()?;
        let file_attributes = cur.read_u32()?;
        let (high_packed_size, high_unpacked_size) = if flags & LARGE_FILE != 0 {
            let hp = cur.read_u32()?;
            let hu = cur.read_u32()?;
            (hp, hu)
        } else {
            (0, 0)
        };
        let raw_name = cur.take(name_length as usize)?;
        let file_name = lossy_string(narrow_name(raw_name));
        let salt = if flags & SALTED != 0 {
            cur.read_u64()?
        } else {
            0
        };
        let times = if flags & EXT_TIME != 0 {
            let (times, n) = parse_ext_times(cur.peek_rest(), datetime)?;
            cur.advance(n);
            times
        } else {
            (None, None, None, None)
        };
        let (modification_time, creation_time, access_time, archival_time) = times;
        Ok(
            (
                RarPackedFile {
                    unpacked_size,
                    os,
                    file_crc,
                    datetime,
                    unpack_version,
                    compression_method,
                    file_attributes,
                    high_packed_size,
                    high_unpacked_size,
                    file_name,
                    salt,
                    modification_time,
                    creation_time,
                    access_time,
                    archival_time,
                },
                cur.pos,
            ),
        )
    }

    /// The unpacked size with its high 32 bits.
    pub fn unpacked_size_64(&self) -> (r: u64)
        ensures
            r == self.high_unpacked_size * 0x1_0000_0000 + self.unpacked_size,
    {
        self.high_unpacked_size as u64 * 0x1_0000_0000 + self.unpacked_size as u64
    }
}

/// The body of a packed-file entry with none of the optional fields (its
/// header's flags 0) and the name field `name`.
pub open spec fn encode_packed_file(f: RarPackedFileView, name: Seq<u8>) -> Seq<u8> {
    le32_bytes(f.unpacked_size) + seq![host_os_tag(f.os)] + le32_bytes(f.file_crc) + le32_bytes(
        f.datetime.pack(),
    ) + seq![f.unpack_version, f.compression_method] + le16_bytes(name.len() as u16) + le32_bytes(
        f.file_attributes,
    ) + name
}

/// Encoding a packed-file entry's body and decoding it gives back its sizes,
/// host OS, CRC, time, versions, attributes and name, and consumes all of
/// it; the name comes back where its UTF-8 encoding holds no zero byte.
pub proof fn lemma_packed_file_round_trip(f: RarPackedFileView)
    requires
        f.datetime.is_representable(),
        encode_utf8(f.file_name).len() <= 0xFFFF,
        !encode_utf8(f.file_name).contains(0u8),
    ensures
        ({
            let e = encode_packed_file(f, encode_utf8(f.file_name));
            spec_packed_file(e, 0) matches Ok((g, n)) && n == e.len() && g.unpacked_size
                == f.unpacked_size && g.os == f.os && g.file_crc == f.file_crc && g.datetime
                == f.datetime && g.unpack_version == f.unpack_version && g.compression_method
                == f.compression_method && g.file_attributes == f.file_attributes && g.file_name
                == f.file_name
        }),
{
    let name = encode_utf8(f.file_name);
    let e = encode_packed_file(f, name);
    assert(e.subrange(0, 4) =~= le32_bytes(f.unpacked_size));
    lemma_le32(f.unpacked_size, e, 0);
    assert(e[4] == host_os_tag(f.os));
    assert(e.subrange(5, 9) =~= le32_bytes(f.file_crc));
    lemma_le32(f.file_crc, e, 5);
    assert(e.subrange(9, 13) =~= le32_bytes(f.datetime.pack()));
    lemma_le32(f.datetime.pack(), e, 9);
    lemma_unpack_pack(f.datetime);
    assert(e[13] == f.unpack_version && e[14] == f.compression_method);
    assert(e.subrange(15, 17) =~= le16_bytes(name.len() as u16));
    lemma_le16(name.len() as u16, e, 15);
    assert(e.subrange(17, 21) =~= le32_bytes(f.file_attributes));
    lemma_le32(f.file_attributes, e, 17);
    assert(e.subrange(21, 21 + name.len() as int) =~= name);
    name.index_of_first_ensures(0u8);
    encode_utf8_valid_utf8(f.file_name);
    encode_utf8_decode_utf8(f.file_name);
    assert(0u16 & LARGE_FILE == 0 && 0u16 & SALTED == 0 && 0u16 & EXT_TIME == 0) by (bit_vector);
}

/// The body of an old-style recovery record: a fixed 11 bytes.
#[derive(Debug, Clone, Copy, PartialEq, Eq, Structural)]
pub struct RarOldRecovery {
    pub packed_size: u32,
    pub rar_version: u8,
    pub recovery_sector: u16,
    pub data_sectors: u32,
}

impl View for RarOldRecovery {
    type V = RarOldRecovery;

    open spec fn view(&self) -> RarOldRecovery {
        *self
    }
}

/// The old-style recovery record at the start of `s`: packed size (4
/// bytes), format version (1), recovery sectors (2), data sectors (4).
pub open spec fn spec_old_recovery(s: Seq<u8>) -> Result<(RarOldRecovery, int), ErrorKind> {
    if s.len() < 11 {
        Err(ErrorKind::InsufficientInput)
    } else {
        Ok(
            (
                RarOldRecovery {
                    packed_size: u32_le(s, 0),
                    rar_version: s[4],
                    recovery_sector: u16_le(s, 5),
                    data_sectors: u32_le(s, 7),
                },
                11,
            ),
        )
    }
}

impl RarOldRecovery {
    /// Decodes an old-style recovery record's body.
    pub fn parse(input: &[u8]) -> (r: Result<(RarOldRecovery, usize), ErrorKind>)
        ensures
            parsed(r) == spec_old_recovery(input@),
    {
        let mut cur = Cursor::new(input);
        if input.len() < 11 {
            return Err(ErrorKind::InsufficientInput);
        }
        let packed_size = cur.read_u32()?;
        let rar_version = cur.read_u8()?;
        let recovery_sector = cur.read_u16()?;
        let data_sectors = cur.read_u32()?;
        Ok((RarOldRecovery { packed_size, rar_version, recovery_sector, data_sectors }, 11))
    }
}

/// A name field at the start of `s`: a 16-bit length and that many bytes,
/// read as UTF-8 with invalid sequences replaced.
pub open spec fn spec_name_field(s: Seq<u8>) -> Result<(Seq<char>, int), ErrorKind> {
    if s.len() < 2 {
        Err(ErrorKind::InsufficientInput)
    } else if s.len() < 2 + u16_le(s, 0) {
        Err(ErrorKind::UnexpectedEof)
    } else {
        Ok((utf8_lossy(s.subrange(2, 2 + u16_le(s, 0))), 2 + u16_le(s, 0)))
    }
}

fn read_name_field(input: &[u8]) -> (r: Result<(String, usize), ErrorKind>)
    ensures
        parsed(r) == spec_name_field(input@),
{
    let mut cur = Cursor::new(input);
    let n = cur.read_u16()?;
    let raw = cur.take(n as usize)?;
    Ok((lossy_string(raw), cur.pos))
}

/// The metadata of a small file stored in the container right after this
/// block.
#[derive(Debug)]
pub struct SrrStoredFile {
    pub file_name: String,
}

impl View for SrrStoredFile {
    type V = Seq<char>;

    open spec fn view(&self) -> Seq<char> {
        self.file_name@
    }
}

impl SrrStoredFile {
    /// Decodes a stored file's name field, with the bytes it took.
    pub fn new(input: &[u8]) -> (r: Result<(SrrStoredFile, usize), ErrorKind>)
        ensures
            parsed(r) == spec_name_field(input@),
    {
        let (file_name, n) = read_name_field(input)?;
        Ok((SrrStoredFile { file_name }, n))
    }
}

/// The metadata of another RAR volume that the container describes; no
/// payload follows.
#[derive(Debug)]
pub struct SrrRarFile {
    pub file_name: String,
}

impl View for SrrRarFile {
    type V = Seq<char>;

    open spec fn view(&self) -> Seq<char> {
        self.file_name@
    }
}

impl SrrRarFile {
    /// Decodes a RAR volume's name field, with the bytes it took.
    pub fn new(input: &[u8]) -> (r: Result<(SrrRarFile, usize), ErrorKind>)
        ensures
            parsed(r) == spec_name_field(input@),
    {
        let (file_name, n) = read_name_field(input)?;
        Ok((SrrRarFile { file_name }, n))
    }
}

} // verus!
