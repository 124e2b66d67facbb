use srr::{DetailsRequest, DetailsResponse, FileDetails};

fn details(name: &str, size: u32, crc: &str) -> FileDetails {
    FileDetails { name: name.to_string(), size, crc: crc.to_string() }
}

fn response() -> DetailsResponse {
    DetailsResponse {
        name: "Some.Release-GRP".to_string(),
        files: vec![
            details("grp.nfo", 100, "0A0B0C0D"),
            details("grp.sfv", 50, "11223344"),
            details("grp.nfo", 999, "FFFFFFFF"),
        ],
        archived_files: vec![details("grp.r00", 15000000, "DEADBEEF")],
    }
}

#[test]
fn file_request_finds_first_match() {
    let r = response();
    let req = r.file_request("grp.nfo").unwrap();
    assert_eq!(req.details().size, 100);
    assert_eq!(req.details().crc, "0A0B0C0D");
    assert_eq!(req.path(), "Some.Release-GRP/grp.nfo");
}

#[test]
fn file_request_misses() {
    let r = response();
    assert!(r.file_request("grp.r00").is_none());
    assert!(r.file_request("GRP.NFO").is_none());
    assert!(r.file_request("").is_none());
}

#[test]
fn details_request_from_name() {
    let req = DetailsRequest::from("Some.Release-GRP");
    assert_eq!(req.release_name, "Some.Release-GRP");
}
