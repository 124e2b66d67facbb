//! The records that a release catalogue service answers with, and the
//! lookups made on them before a file is fetched.

use vstd::prelude::*;
use vstd::string::StringExecFns;

verus! {

/// A request for the details of one release.
pub struct DetailsRequest<'a> {
    pub release_name: &'a str,
}

impl<'a> From<&'a str> for DetailsRequest<'a> {
    fn from(release_name: &'a str) -> Self {
        DetailsRequest { release_name }
    }
}

impl<'a> vstd::std_specs::convert::FromSpecImpl<&'a str> for DetailsRequest<'a> {
    open spec fn obeys_from_spec() -> bool {
        true
    }

    open spec fn from_spec(v: &'a str) -> Self {
        DetailsRequest { release_name: v }
    }
}

/// One file of a release: its name, size and CRC as a hex string.
#[derive(Debug)]
pub struct FileDetails {
    pub name: String,
    pub size: u32,
    pub crc: String,
}

/// The details of a release: its name, the files stored for it and the
/// files of its archives.
#[derive(Debug)]
pub struct DetailsResponse {
    pub name: String,
    pub files: Vec<FileDetails>,
    pub archived_files: Vec<FileDetails>,
}

/// A request for one stored file of a release.
pub struct FileRequest<'a> {
    base: &'a str,
    details: &'a FileDetails,
}

impl<'a> FileRequest<'a> {
    /// The release the file belongs to.
    pub closed spec fn spec_base(&self) -> Seq<char> {
        self.base@
    }

    /// The file asked for.
    pub closed spec fn spec_details(&self) -> FileDetails {
        *self.details
    }

    /// The file asked for.
    pub fn details(&self) -> (r: &'a FileDetails)
        ensures
            *r == self.spec_details(),
    {
        self.details
    }

    /// The path of the file under a download location: the release name, a
    /// slash and the file name.
    pub fn path(&self) -> (r: String)
        ensures
            r@ == self.spec_base() + seq!['/'] + self.spec_details().name@,
    {
        let mut p = self.base.to_owned();
        let slash = "/";
        proof {
            reveal_strlit("/");
        }
        p.append(slash);
        p.append(self.details.name.as_str());
        p
    }
}

impl DetailsResponse {
    /// A request for the first stored file named `name`, or `None` where no
    /// stored file has that name.
    pub fn file_request<'a>(&'a self, name: &str) -> (r: Option<FileRequest<'a>>)
        ensures
            r is None <==> forall|i: int|
                0 <= i < self.files@.len() ==> #[trigger] self.files@[i].name@ != name@,
            r matches Some(req) ==> req.spec_base() == self.name@ && exists|i: int|
                0 <= i < self.files@.len() && req.spec_details() == self.files@[i]
                    && self.files@[i].name@ == name@ && forall|j: int|
                    0 <= j < i ==> #[trigger] self.files@[j].name@ != name@,
    {
        let key = name.to_owned();
        let mut i: usize = 0;
        while i < self.files.len()
            invariant
                i <= self.files@.len(),
                key@ == name@,
                forall|j: int| 0 <= j < i ==> #[trigger] self.files@[j].name@ != name@,
            decreases self.files@.len() - i,
        {
            let details = &self.files[i];
            if details.name == key {
                return Some(FileRequest { base: self.name.as_str(), details });
            }
            i = i + 1;
        }
        None
    }
}

} // verus!
