use srr::{parse_xtime, DateTime, ErrorKind, HostOS, RarOldRecovery, RarPackedFile, SrrRarFile, SrrStoredFile};

fn stamp(year: u32, month: u32, day: u32, hour: u32, minute: u32, second: u32) -> u32 {
    ((year - 1980) << 25) | (month << 21) | (day << 16) | (hour << 11) | (minute << 5) | (second / 2)
}

fn packed_body(os: u8, name: &[u8]) -> Vec<u8> {
    let mut b = Vec::new();
    b.extend_from_slice(&0x0000_1000u32.to_le_bytes());
    b.push(os);
    b.extend_from_slice(&0xDEAD_BEEFu32.to_le_bytes());
    b.extend_from_slice(&stamp(2009, 7, 15, 13, 45, 30).to_le_bytes());
    b.push(29);
    b.push(0x33);
    b.extend_from_slice(&(name.len() as u16).to_le_bytes());
    b.extend_from_slice(&0x20u32.to_le_bytes());
    b.extend_from_slice(name);
    b
}

fn july_15() -> DateTime {
    DateTime { year: 2009, month: 7, day: 15, hour: 13, minute: 45, second: 30 }
}

#[test]
fn dos_timestamp_unpacks_each_field() {
    assert_eq!(stamp(2009, 7, 15, 13, 45, 30), 988769711);
    assert_eq!(DateTime::parse(988769711), july_15());
}

#[test]
fn dos_timestamp_round_trip_at_the_edges() {
    let first = DateTime { year: 1980, month: 1, day: 1, hour: 0, minute: 0, second: 0 };
    assert_eq!(DateTime::parse(stamp(1980, 1, 1, 0, 0, 0)), first);
    let last = DateTime { year: 2107, month: 12, day: 31, hour: 23, minute: 59, second: 58 };
    assert_eq!(DateTime::parse(stamp(2107, 12, 31, 23, 59, 58)), last);
}

#[test]
fn dos_timestamp_of_all_ones() {
    let t = DateTime::parse(0xFFFF_FFFF);
    assert_eq!(t, DateTime { year: 2107, month: 15, day: 31, hour: 31, minute: 63, second: 62 });
}

#[test]
fn correction_round_up_adds_one_second() {
    let (t, n) = parse_xtime(0xC, &[], Some(july_15())).unwrap();
    assert_eq!(n, 0);
    assert_eq!(t, Some(DateTime { second: 31, ..july_15() }));
}

#[test]
fn correction_absent_keeps_seed() {
    let (t, n) = parse_xtime(0x0, &[1, 2, 3], Some(july_15())).unwrap();
    assert_eq!(n, 0);
    assert_eq!(t, Some(july_15()));
    let (t, n) = parse_xtime(0x7, &[1, 2, 3], None).unwrap();
    assert_eq!(n, 0);
    assert_eq!(t, None);
}

#[test]
fn correction_bytes_come_least_significant_first() {
    // 0x989680 is ten million units of 100 ns: one second
    let (t, n) = parse_xtime(0xB, &[0x80, 0x96, 0x98, 0xEE], Some(july_15())).unwrap();
    assert_eq!(n, 3);
    assert_eq!(t, Some(DateTime { second: 31, ..july_15() }));
    // a single byte lands in bits 16 to 23: 0x980000 is under a second
    let (t, n) = parse_xtime(0x9, &[0x98], Some(july_15())).unwrap();
    assert_eq!(n, 1);
    assert_eq!(t, Some(july_15()));
    // two bytes land in bits 8 to 23: 0x9896_00 is still under a second
    let (t, n) = parse_xtime(0xE, &[0x96, 0x98], Some(july_15())).unwrap();
    assert_eq!(n, 2);
    assert_eq!(t, Some(DateTime { second: 31, ..july_15() }));
}

#[test]
fn correction_without_seed_reads_a_timestamp() {
    let mut data = stamp(2001, 2, 3, 4, 5, 6).to_le_bytes().to_vec();
    data.push(0xFF);
    let (t, n) = parse_xtime(0x8, &data, None).unwrap();
    assert_eq!(n, 4);
    assert_eq!(t, Some(DateTime { year: 2001, month: 2, day: 3, hour: 4, minute: 5, second: 6 }));
    // 0xFF0000 units make one whole second, and the round-up bit adds one more
    let (t, n) = parse_xtime(0xD, &data, None).unwrap();
    assert_eq!(n, 5);
    assert_eq!(t, Some(DateTime { year: 2001, month: 2, day: 3, hour: 4, minute: 5, second: 8 }));
}

#[test]
fn correction_short_input() {
    assert_eq!(parse_xtime(0x8, &[1, 2, 3], None), Err(ErrorKind::InsufficientInput));
    assert_eq!(parse_xtime(0xA, &[1], Some(july_15())), Err(ErrorKind::InsufficientInput));
}

#[test]
fn packed_file_fields() {
    let body = packed_body(2, b"movie.avi");
    let (f, n) = RarPackedFile::parse(&body, 0).unwrap();
    assert_eq!(n, body.len());
    assert_eq!(f.unpacked_size, 0x1000);
    assert_eq!(f.os, HostOS::Windows);
    assert_eq!(f.file_crc, 0xDEAD_BEEF);
    assert_eq!(f.datetime, july_15());
    assert_eq!(f.unpack_version, 29);
    assert_eq!(f.compression_method, 0x33);
    assert_eq!(f.file_attributes, 0x20);
    assert_eq!(f.file_name, "movie.avi");
    assert_eq!(f.salt, 0);
    assert_eq!(f.high_packed_size, 0);
    assert_eq!(f.high_unpacked_size, 0);
    assert_eq!(f.modification_time, None);
    assert_eq!(f.archival_time, None);
    assert_eq!(f.unpacked_size_64(), 0x1000);
}

#[test]
fn packed_file_name_stops_at_zero_byte() {
    let body = packed_body(3, b"abc\0x\0y\0z");
    let (f, n) = RarPackedFile::parse(&body, 0).unwrap();
    assert_eq!(n, body.len());
    assert_eq!(f.os, HostOS::Unix);
    assert_eq!(f.file_name, "abc");
}

#[test]
fn packed_file_name_replaces_invalid_utf8() {
    let body = packed_body(0, b"a\xFFb");
    let (f, _) = RarPackedFile::parse(&body, 0).unwrap();
    assert_eq!(f.os, HostOS::MsDOS);
    assert_eq!(f.file_name, "a\u{FFFD}b");
}

#[test]
fn packed_file_large_and_salted() {
    let mut body = packed_body(5, b"");
    // the name is empty, so the high sizes go right before the (empty) name
    body.extend_from_slice(&7u32.to_le_bytes());
    body.extend_from_slice(&9u32.to_le_bytes());
    body.extend_from_slice(&0x0102_0304_0506_0708u64.to_le_bytes());
    body.push(0xEE);
    let (f, n) = RarPackedFile::parse(&body, 0x100 | 0x400).unwrap();
    assert_eq!(n, body.len() - 1);
    assert_eq!(f.os, HostOS::BeOS);
    assert_eq!(f.high_packed_size, 7);
    assert_eq!(f.high_unpacked_size, 9);
    assert_eq!(f.unpacked_size_64(), 9 * 0x1_0000_0000 + 0x1000);
    assert_eq!(f.salt, 0x0102_0304_0506_0708);
    assert_eq!(f.file_name, "");
}

#[test]
fn packed_file_extended_times() {
    let mut body = packed_body(1, b"f");
    // modification 0xB: three bytes; creation 0x8: own stamp; access 0xC: own stamp, round up
    body.extend_from_slice(&0xB8C0u16.to_le_bytes());
    body.extend_from_slice(&[0x80, 0x96, 0x98]);
    body.extend_from_slice(&stamp(2001, 2, 3, 4, 5, 6).to_le_bytes());
    body.extend_from_slice(&stamp(2002, 3, 4, 5, 6, 8).to_le_bytes());
    let (f, n) = RarPackedFile::parse(&body, 0x1000).unwrap();
    assert_eq!(n, body.len());
    assert_eq!(f.os, HostOS::OS2);
    assert_eq!(f.modification_time, Some(DateTime { second: 31, ..july_15() }));
    assert_eq!(
        f.creation_time,
        Some(DateTime { year: 2001, month: 2, day: 3, hour: 4, minute: 5, second: 6 })
    );
    assert_eq!(
        f.access_time,
        Some(DateTime { year: 2002, month: 3, day: 4, hour: 5, minute: 6, second: 9 })
    );
    assert_eq!(f.archival_time, None);
}

#[test]
fn packed_file_extended_times_without_sub_flags() {
    let mut body = packed_body(1, b"f");
    body.push(0xFF);
    let (f, n) = RarPackedFile::parse(&body, 0x1000).unwrap();
    assert_eq!(n, body.len() - 1);
    assert_eq!(f.modification_time, Some(july_15()));
    assert_eq!(f.creation_time, None);
}

#[test]
fn packed_file_unknown_os_is_invalid_tag() {
    let body = packed_body(9, b"x");
    assert_eq!(RarPackedFile::parse(&body, 0).err(), Some(ErrorKind::InvalidTag(9)));
}

#[test]
fn packed_file_short_body() {
    let body = packed_body(2, b"x");
    assert_eq!(RarPackedFile::parse(&body[..3], 0).err(), Some(ErrorKind::InsufficientInput));
    assert_eq!(RarPackedFile::parse(&body[..20], 0).err(), Some(ErrorKind::InsufficientInput));
    assert_eq!(RarPackedFile::parse(&body, 0x400).err(), Some(ErrorKind::InsufficientInput));
}

#[test]
fn packed_file_name_past_end_is_unexpected_eof() {
    let body = packed_body(2, b"name");
    assert_eq!(
        RarPackedFile::parse(&body[..body.len() - 1], 0).err(),
        Some(ErrorKind::UnexpectedEof)
    );
}

#[test]
fn old_recovery_fields() {
    let input = [0x01, 0x02, 0x03, 0x04, 0x14, 0x05, 0x00, 0x10, 0x00, 0x00, 0x00, 0x99];
    let (r, n) = RarOldRecovery::parse(&input).unwrap();
    assert_eq!(n, 11);
    assert_eq!(
        r,
        RarOldRecovery { packed_size: 0x04030201, rar_version: 0x14, recovery_sector: 5, data_sectors: 16 }
    );
    assert_eq!(RarOldRecovery::parse(&input[..10]).err(), Some(ErrorKind::InsufficientInput));
}

#[test]
fn stored_file_name() {
    let input = [0x05, 0x00, b'a', b'.', b'n', b'f', b'o', 0x42];
    let (f, n) = SrrStoredFile::new(&input).unwrap();
    assert_eq!(n, 7);
    assert_eq!(f.file_name, "a.nfo");
    assert_eq!(SrrStoredFile::new(&input[..6]).err(), Some(ErrorKind::UnexpectedEof));
    assert_eq!(SrrStoredFile::new(&input[..1]).err(), Some(ErrorKind::InsufficientInput));
}

#[test]
fn rar_file_name() {
    let input = [0x06, 0x00, b'x', b'.', b'r', b'a', b'r', 0xC3];
    let (f, n) = SrrRarFile::new(&input).unwrap();
    assert_eq!(n, 8);
    assert_eq!(f.file_name, "x.rar\u{FFFD}");
}

#[test]
fn host_os_table() {
    assert_eq!(HostOS::from_tag(0), Some(HostOS::MsDOS));
    assert_eq!(HostOS::from_tag(1), Some(HostOS::OS2));
    assert_eq!(HostOS::from_tag(2), Some(HostOS::Windows));
    assert_eq!(HostOS::from_tag(3), Some(HostOS::Unix));
    assert_eq!(HostOS::from_tag(4), Some(HostOS::MacOS));
    assert_eq!(HostOS::from_tag(5), Some(HostOS::BeOS));
    assert_eq!(HostOS::from_tag(6), None);
}
