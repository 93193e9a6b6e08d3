//! Metadata snapshots of files and directories.
use vstd::prelude::*;
use crate::digest::Hasher;
use crate::digest::sha256_taken;
use crate::digest::sha256_hex;
use crate::digest::sha256_new;
use crate::digest::sha256_update;
use crate::digest::sha256_finalize;
use crate::timestamp::Timestamp;
use crate::timestamp::epoch;
use crate::timestamp::format_system_time;
use crate::timestamp::rfc3339_utc_millis;

verus! {

/// A point-in-time record of one entry of the tree.
#[derive(Debug, Clone, PartialEq, Eq)]
pub struct FileStat {
    /// Size in bytes.
    pub size: u64,
    /// Last modification time, RFC 3339 with milliseconds and a literal `Z`,
    /// such as `2018-01-26T18:30:09.453Z`.
    pub mtime: String,
    /// Whether the entry is a directory.
    pub is_directory: bool,
    /// Hexadecimal SHA-256 of the contents; never present for a directory.
    pub sha256: Option<String>,
}

/// The mathematical content of a [`FileStat`].
pub struct FileStatView {
    pub size: u64,
    pub mtime: Seq<char>,
    pub is_directory: bool,
    pub sha256: Option<Seq<char>>,
}

impl View for FileStat {
    type V = FileStatView;

    open spec fn view(&self) -> FileStatView {
        FileStatView {
            size: self.size,
            mtime: self.mtime@,
            is_directory: self.is_directory,
            sha256: match self.sha256 {
                Some(d) => Some(d@),
                None => None,
            },
        }
    }
}

impl FileStat {
    /// An independent copy with the same content.
    pub fn duplicate(&self) -> (copy: FileStat)
        ensures
            copy@ == self@,
    {
        let sha256 = match &self.sha256 {
            Some(d) => Some(d.clone()),
            None => None,
        };
        FileStat {
            size: self.size,
            mtime: self.mtime.clone(),
            is_directory: self.is_directory,
            sha256,
        }
    }
}

/// The number of bytes to ask for with each read of a file that is being
/// hashed.
pub const READ_BUFFER_SIZE: usize = 4096;

/// The instant to record for an entry: its modification time, or the Unix
/// epoch where the platform reports none.
pub open spec fn recorded_time(modified: Option<Timestamp>) -> Timestamp {
    match modified {
        Some(t) => t,
        None => epoch(),
    }
}

/// The snapshot of `base` after `taken` was read as its content: the
/// digest is attached only to a file of which exactly the reported number
/// of bytes was read.
pub open spec fn with_digest(base: FileStatView, taken: Seq<u8>) -> FileStatView {
    FileStatView {
        size: base.size,
        mtime: base.mtime,
        is_directory: base.is_directory,
        sha256: if !base.is_directory && taken.len() == base.size {
            Some(sha256_hex(taken))
        } else {
            None
        },
    }
}

/// The snapshot of an entry, or the reading that will yield it.
pub enum Snapshot {
    /// A directory: its snapshot needs no reading.
    Ready(FileStat),
    /// A file: its content has to be read through first.
    Reading(FileReader),
}

/// The reading of one file in progress: the metadata reported before the
/// first read, and a digest over the bytes read since.
pub struct FileReader {
    stat: FileStat,
    hasher: Hasher,
    read: u64,
    exact: bool,
}

impl FileReader {
    /// The metadata reported before the first read.
    pub closed spec fn base(&self) -> FileStatView {
        self.stat@
    }

    /// The bytes read so far, in order.
    pub closed spec fn taken(&self) -> Seq<u8> {
        sha256_taken(&self.hasher)
    }

    /// Whether the count of bytes read agrees with the bytes read.
    pub closed spec fn wf(&self) -> bool {
        if self.exact {
            self.read == self.taken().len()
        } else {
            self.taken().len() > u64::MAX
        }
    }

    /// Takes in the bytes of one read, after those of the reads before.
    pub fn update(&mut self, chunk: &[u8])
        requires
            old(self).wf(),
        ensures
            final(self).wf(),
            final(self).base() == old(self).base(),
            final(self).taken() == old(self).taken() + chunk@,
    {
        sha256_update(&mut self.hasher, chunk);
        let n = chunk.len() as u64;
        if self.exact && n <= u64::MAX - self.read {
            self.read = self.read + n;
        } else {
            self.exact = false;
        }
    }

    /// Ends the reading. The snapshot carries the digest of the bytes read
    /// only if they are exactly as many as the metadata reported; a file
    /// that changed while it was read gets no digest.
    pub fn finish(self) -> (stat: FileStat)
        requires
            self.wf(),
        ensures
            stat@ == with_digest(self.base(), self.taken()),
    {
        let matched = self.exact && self.read == self.stat.size && !self.stat.is_directory;
        let hex = sha256_finalize(self.hasher);
        FileStat {
            size: self.stat.size,
            mtime: self.stat.mtime,
            is_directory: self.stat.is_directory,
            sha256: if matched {
                Some(hex)
            } else {
                None
            },
        }
    }
}

impl FileStat {
    /// The snapshot that plain metadata gives: size, kind and modification
    /// time, without a digest. There is none for a modification time beyond
    /// the calendar.
    pub fn from_metadata(size: u64, modified: Option<Timestamp>, is_directory: bool) -> (r: Option<
        FileStat,
    >)
        ensures
            match r {
                Some(stat) => {
                    &&& rfc3339_utc_millis(
                        recorded_time(modified).secs as int,
                        recorded_time(modified).nanos as int,
                    ) == Some(stat@.mtime)
                    &&& stat@.size == size
                    &&& stat@.is_directory == is_directory
                    &&& stat@.sha256 is None
                },
                None => rfc3339_utc_millis(
                    recorded_time(modified).secs as int,
                    recorded_time(modified).nanos as int,
                ) is None,
            },
    {
        let time = match modified {
            Some(t) => t,
            None => Timestamp { secs: 0, nanos: 0 },
        };
        match format_system_time(time) {
            Some(mtime) => Some(FileStat { size, mtime, is_directory, sha256: None }),
            None => None,
        }
    }

    /// Begins the snapshot of the entry whose metadata is `meta`. A
    /// directory is never hashed, so its snapshot is ready; a file is to be
    /// read through, from no bytes taken.
    pub fn from_path(meta: FileStat) -> (r: Snapshot)
        ensures
            match r {
                Snapshot::Ready(stat) => meta.is_directory && stat@ == with_digest(
                    meta@,
                    Seq::<u8>::empty(),
                ),
                Snapshot::Reading(reader) => {
                    &&& !meta.is_directory
                    &&& reader.wf()
                    &&& reader.base() == meta@
                    &&& reader.taken() == Seq::<u8>::empty()
                },
            },
    {
        if meta.is_directory {
            Snapshot::Ready(
                FileStat {
                    size: meta.size,
                    mtime: meta.mtime,
                    is_directory: true,
                    sha256: None,
                },
            )
        } else {
            Snapshot::Reading(FileReader { stat: meta, hasher: sha256_new(), read: 0, exact: true })
        }
    }
}

} // verus!
