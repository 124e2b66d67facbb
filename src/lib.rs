//! Decoder for scene-release recovery records ("SRR" containers): a flat
//! stream of tagged binary blocks describing a RAR archive's structure and
//! the auxiliary files stored next to it.

pub mod bytes;
pub mod datetime;
pub mod header;
pub mod blocks;
pub mod stream;
pub mod catalogue;

pub use blocks::{HostOS, RarOldRecovery, RarPackedFile, SrrRarFile, SrrStoredFile};
pub use bytes::ErrorKind;
pub use catalogue::{DetailsRequest, DetailsResponse, FileDetails, FileRequest};
pub use datetime::{parse_xtime, DateTime};
pub use header::{BlockHeader, BlockType};
pub use stream::{decode, Block, BlockImpl, DecodeError, Srr};
