//! DOS timestamps and the sub-second corrections of RAR's extended time
//! fields.

use vstd::prelude::*;
use crate::bytes::{parsed, u32_le, Cursor, ErrorKind};

verus! {

/// A calendar timestamp as packed into 32 bits by DOS: 5 bits of seconds
/// halved, 6 of minutes, 5 of hours, 5 of days, 4 of months and 7 of years
/// since 1980, least significant first.
#[derive(Debug, Clone, Copy, PartialEq, Eq, Structural)]
pub struct DateTime {
    pub year: u16,
    pub month: u16,
    pub day: u16,
    pub hour: u16,
    pub minute: u16,
    pub second: u16,
}

impl View for DateTime {
    type V = DateTime;

    open spec fn view(&self) -> DateTime {
        *self
    }
}

impl DateTime {
    /// The timestamp that the packed value `stamp` stands for.
    pub open spec fn unpack(stamp: u32) -> DateTime {
        DateTime {
            year: ((stamp >> 25) + 1980) as u16,
            month: ((stamp >> 21) & 0x0F) as u16,
            day: ((stamp >> 16) & 0x1F) as u16,
            hour: ((stamp >> 11) & 0x1F) as u16,
            minute: ((stamp >> 5) & 0x3F) as u16,
            second: ((stamp & 0x1F) * 2) as u16,
        }
    }

    /// The packed value of a timestamp; the inverse of `unpack` on the
    /// timestamps that 32 bits can hold.
    pub open spec fn pack(self) -> u32 {
        ((((self.year - 1980) as u32) << 25u32) | ((self.month as u32) << 21u32) | ((
        self.day as u32) << 16u32) | ((self.hour as u32) << 11u32) | ((self.minute as u32)
            << 5u32) | ((self.second / 2) as u32)) as u32
    }

    /// A timestamp that the packed form holds exactly.
    pub open spec fn is_representable(self) -> bool {
        &&& 1980 <= self.year <= 2107
        &&& 1 <= self.month <= 12
        &&& 1 <= self.day <= 31
        &&& self.hour <= 23
        &&& self.minute <= 59
        &&& self.second <= 58
        &&& self.second % 2 == 0
    }

    /// Unpacks a DOS timestamp.
    pub fn parse(stamp: u32) -> (r: DateTime)
        ensures
            r == DateTime::unpack(stamp),
            r.second <= 62,
    {
        assert(stamp & 0x1F <= 0x1F && stamp >> 25 < 0x80) by (bit_vector);
        let second = (stamp & 0x1F) * 2;
        let minute = (stamp >> 5) & 0x3F;
        let hour = (stamp >> 11) & 0x1F;
        let day = (stamp >> 16) & 0x1F;
        let month = (stamp >> 21) & 0x0F;
        let year = (stamp >> 25) + 1980;
        DateTime {
            year: year as u16,
            month: month as u16,
            day: day as u16,
            hour: hour as u16,
            minute: minute as u16,
            second: second as u16,
        }
    }
}

/// Unpacking a packed timestamp gives back the timestamp, for every
/// timestamp that the packed form can hold.
pub proof fn lemma_unpack_pack(ts: DateTime)
    requires
        ts.is_representable(),
    ensures
        DateTime::unpack(ts.pack()) == ts,
{
    let y = (ts.year - 1980) as u32;
    let mo = ts.month as u32;
    let d = ts.day as u32;
    let h = ts.hour as u32;
    let mi = ts.minute as u32;
    let s2 = (ts.second / 2) as u32;
    let st = ts.pack();
    assert(st == ((y << 25u32) | (mo << 21u32) | (d << 16u32) | (h << 11u32) | (mi << 5u32) | s2));
    assert(y < 128 && mo < 16 && d < 32 && h < 32 && mi < 64 && s2 < 32 && st == ((y << 25u32) | (mo
        << 21u32) | (d << 16u32) | (h << 11u32) | (mi << 5u32) | s2) ==> (st >> 25u32 == y && (st
        >> 21u32) & 0x0F == mo && (st >> 16u32) & 0x1F == d && (st >> 11u32) & 0x1F == h && (st
        >> 5u32) & 0x3F == mi && st & 0x1F == s2)) by (bit_vector);
}

/// The sub-second part of an extended time field, in units of 100 ns.
/// The bytes come least significant first and the last one always lands in
/// bits 16 to 23: each byte enters at the top while the earlier ones move
/// down by one byte.
pub open spec fn sub_second(b: Seq<u8>) -> int
    decreases b.len(),
{
    if b.len() == 0 {
        0
    } else {
        sub_second(b.drop_last()) / 0x100 + b.last() as int * 0x1_0000
    }
}

proof fn lemma_sub_second_bound(b: Seq<u8>)
    ensures
        0 <= sub_second(b) < 0x100_0000,
    decreases b.len(),
{
    if b.len() > 0 {
        lemma_sub_second_bound(b.drop_last());
    }
}

/// One extended time field, gated by the four bits of `flag`: with bit
/// `0x8` clear no correction is present, nothing is read and the seed comes
/// back as it was. Otherwise its seed
/// is `seed`, or, where there is none, a packed timestamp read first; then
/// `flag & 0x3` bytes of sub-second precision follow. Whole seconds of that
/// precision, plus one where bit `0x4` is set, are added to the seed's
/// seconds. The result is the corrected time and the bytes read.
pub open spec fn xtime(flag: u16, s: Seq<u8>, seed: Option<DateTime>) -> Result<
    (Option<DateTime>, int),
    ErrorKind,
> {
    if flag & 8 == 0 {
        Ok((seed, 0))
    } else {
        let base_len: int = if seed is Some { 0 } else { 4 };
        let cnt = (flag & 3) as int;
        if s.len() < base_len + cnt {
            Err(ErrorKind::InsufficientInput)
        } else {
            let base = match seed {
                Some(d) => d,
                None => DateTime::unpack(u32_le(s, 0)),
            };
            let extra = sub_second(s.subrange(base_len, base_len + cnt)) / 10_000_000 + if flag
                & 4 != 0 {
                1int
            } else {
                0int
            };
            Ok((Some(DateTime { second: (base.second + extra) as u16, ..base }), base_len + cnt))
        }
    }
}

/// Reads one extended time field from the start of `data` (see `xtime`),
/// and returns the corrected time with the number of bytes read.
pub fn parse_xtime(flag: u16, data: &[u8], dostime: Option<DateTime>) -> (r: Result<
    (Option<DateTime>, usize),
    ErrorKind,
>)
    requires
        dostime matches Some(d) ==> d.second <= 0xFFFD,
    ensures
        parsed(r) == xtime(flag, data@, dostime),
{
    if flag & 8 == 0 {
        return Ok((dostime, 0));
    }
    let mut cur = Cursor::new(data);
    let cnt = (flag & 3) as usize;
    let base_len: usize = if dostime.is_some() { 0 } else { 4 };
    if data.len() < base_len + cnt {
        return Err(ErrorKind::InsufficientInput);
    }
    let base = match dostime {
        Some(d) => d,
        None => DateTime::parse(cur.read_u32()?),
    };
    assert(base.second <= 0xFFFD);
    let mut rem: u32 = 0;
    let mut k: usize = 0;
    while k < cnt
        invariant
            cur.data@ == data@,
            cur.pos == base_len + k,
            k <= cnt,
            base_len + cnt <= data@.len(),
            rem == sub_second(data@.subrange(base_len as int, base_len + k)),
        decreases cnt - k,
    {
        let b = data[cur.pos];
        proof {
            lemma_sub_second_bound(data@.subrange(base_len as int, base_len + k));
            assert(data@.subrange(base_len as int, base_len + k + 1).drop_last() =~= data@.subrange(
                base_len as int,
                base_len + k,
            ));
        }
        rem = rem / 0x100 + b as u32 * 0x1_0000;
        cur.pos = cur.pos + 1;
        k = k + 1;
    }
    proof {
        lemma_sub_second_bound(data@.subrange(base_len as int, base_len + cnt));
    }
    let mut sec = (rem / 10_000_000) as u16;
    if flag & 4 != 0 {
        sec = sec + 1;
    }
    let second = base.second + sec;
    Ok((Some(DateTime { second, ..base }), base_len + cnt))
}

/// A correction with no sub-second bytes and the round-up bit set adds one
/// second to its seed and reads nothing; one whose presence bit is clear
/// leaves the seed as it is and reads nothing.
pub proof fn lemma_xtime_round_up(s: Seq<u8>, seed: DateTime)
    requires
        seed.second < 0xFFFF,
    ensures
        xtime(0xC, s, Some(seed)) == Ok::<(Option<DateTime>, int), ErrorKind>(
            (Some(DateTime { second: (seed.second + 1) as u16, ..seed }), 0),
        ),
        xtime(0, s, Some(seed)) == Ok::<(Option<DateTime>, int), ErrorKind>((Some(seed), 0)),
{
    assert(0xCu16 & 8 != 0 && 0xCu16 & 3 == 0 && 0xCu16 & 4 != 0 && 0u16 & 8 == 0) by (bit_vector);
    assert(s.subrange(0, 0).len() == 0);
}

} // verus!
