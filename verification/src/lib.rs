//! A sandboxed view of one directory tree: traversal-proof relative paths,
//! metadata snapshots with optional content digests, a bounded
//! least-recently-used metadata cache, and the batching rules of a chunked
//! tree walk. Every function is verified against a stated contract.
use vstd::prelude::*;

pub mod cache;
pub mod digest;
pub mod errors;
pub mod file_size;
pub mod native_fs;
pub mod portable_directory;
pub mod portable_file;
pub mod portable_path;
pub mod relative_fs;
pub mod text_order;
pub mod timestamp;

pub use cache::Cache;
pub use cache::CacheStats;
pub use digest::sha256_string;
pub use errors::Error;
pub use file_size::format_file_size;
pub use native_fs::DirWalker;
pub use native_fs::Visit;
pub use portable_directory::DeltaExchange;
pub use portable_directory::Directory;
pub use portable_directory::DirectoryEntry;
pub use portable_directory::SyncItem;
pub use portable_file::FileReader;
pub use portable_file::FileStat;
pub use portable_file::Snapshot;
pub use portable_path::PortablePath;
pub use relative_fs::RelativeFs;
pub use relative_fs::Target;
pub use relative_fs::WritePlan;
pub use timestamp::format_system_time;
pub use timestamp::parse_system_time;
pub use timestamp::Timestamp;

verus! {

/// `std::path::PathBuf`, taken as it is.
#[verifier::external_type_specification]
#[verifier::external_body]
pub struct ExPathBuf(std::path::PathBuf);

/// A file that was uploaded: where it goes, and what it holds.
pub struct UploadedFile {
    /// The path of the uploaded file.
    pub path: std::path::PathBuf,
    /// The contents of the uploaded file.
    pub contents: Vec<u8>,
}

/// The uploaded files that are kept in memory: none.
pub fn load_files() -> (files: Vec<UploadedFile>)
    ensures
        files@.len() == 0,
{
    Vec::new()
}

} // verus!
