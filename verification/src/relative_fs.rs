//! The store itself: one tree under a fixed root, and a cache of snapshots
//! that follows the store's own writes and deletions.
use vstd::prelude::*;
use vstd::string::StringExecFns;
use crate::cache::Cache;
use crate::cache::bumped;
use crate::cache::holds;
use crate::cache::lookup;
use crate::cache::promoted;
use crate::cache::stored;
use crate::cache::stored_is_found;
use crate::cache::removed_is_missing;
use crate::errors::Error;
use crate::errors::ErrorView;
use crate::native_fs::DirWalker;
use crate::portable_directory::DeltaExchange;
use crate::portable_directory::Directory;
use crate::portable_directory::DirectoryEntry;
use crate::portable_directory::DirectoryEntryView;
use crate::portable_directory::SyncItem;
use crate::portable_directory::SyncItemView;
use crate::portable_directory::as_entry;
use crate::portable_directory::entry_views;
use crate::portable_directory::item_views;
use crate::portable_directory::listed;
use crate::portable_directory::sort_entries;
use crate::portable_file::FileStat;
use crate::portable_path::PortablePath;
use crate::text_order::chars_of;
use crate::portable_path::joined;
use crate::timestamp::Timestamp;
use crate::timestamp::parse_outcome;
use crate::timestamp::parse_system_time;
use crate::timestamp::rfc3339_instant;

verus! {

/// The number of snapshots that the cache of a store holds.
pub const CACHE_CAPACITY: usize = 1000;

/// The chunk size of the walks whose records are gathered in one place.
pub const GATHER_CHUNK_SIZE: usize = 20;

/// What stands at a path of the tree.
#[derive(Debug, Clone, Copy, PartialEq, Eq)]
pub enum Target {
    /// Nothing.
    Missing,
    /// A file.
    File,
    /// A directory.
    Directory,
}

/// The text of the path `relative` below the directory `base`.
pub open spec fn abs_text(base: Seq<char>, relative: Seq<Seq<char>>) -> Seq<char> {
    if relative.len() == 0 {
        base
    } else if base.len() == 0 || base.last() == '/' {
        base + joined(relative)
    } else {
        base + seq!['/'] + joined(relative)
    }
}

/// Looks a path up in the cache on behalf of a walk. A hit yields a copy of
/// the snapshot; a miss means that the snapshot is to be computed and
/// handed to [`loaded`].
pub fn lookup_or_load(cache: &mut Cache, portable_path: &PortablePath) -> (hit: Option<FileStat>)
    ensures
        final(cache).capacity() == old(cache).capacity(),
        final(cache).entries() == promoted(old(cache).entries(), portable_path@),
        old(cache).wf() ==> final(cache).wf(),
        match hit {
            Some(stat) => {
                &&& lookup(old(cache).entries(), portable_path@) == Some(stat@)
                &&& final(cache).counters().hits == bumped(old(cache).counters().hits)
                &&& final(cache).counters().misses == old(cache).counters().misses
            },
            None => {
                &&& !holds(old(cache).entries(), portable_path@)
                &&& final(cache).entries() == old(cache).entries()
                &&& final(cache).counters().hits == old(cache).counters().hits
                &&& final(cache).counters().misses == bumped(old(cache).counters().misses)
            },
        },
{
    match cache.get(portable_path) {
        Some(stat) => Some(stat.duplicate()),
        None => None,
    }
}

/// Stores the snapshot that was computed after a miss, so that the next
/// walk finds it.
pub fn loaded(cache: &mut Cache, portable_path: &PortablePath, stats: &FileStat)
    ensures
        final(cache).capacity() == old(cache).capacity(),
        final(cache).entries() == stored(
            old(cache).entries(),
            old(cache).capacity(),
            portable_path@,
            stats@,
        ),
        final(cache).counters() == old(cache).counters(),
        old(cache).wf() ==> final(cache).wf(),
        old(cache).wf() ==> lookup(final(cache).entries(), portable_path@) == Some(stats@),
{
    proof {
        if cache.wf() {
            stored_is_found(cache.entries(), cache.capacity(), portable_path@, stats@);
        }
    }
    cache.put(portable_path.clone(), stats.duplicate());
}

/// What is to be done to write a file.
pub struct WritePlan {
    /// The text of the file's path below the root.
    pub full_path: String,
    /// The text of the directory to create first, with all that lead to
    /// it; absent for the root itself.
    pub parent_dir: Option<String>,
}

/// A store over the tree below `base_dir`.
pub struct RelativeFs {
    /// The root of the tree.
    pub base_dir: String,
    cache: Cache,
}

/// The lines that walked entries give, as far as each gives one.
pub open spec fn as_entries(items: Seq<SyncItemView>) -> Seq<DirectoryEntryView> {
    Seq::new(items.len(), |i: int| as_entry(items[i])->Ok_0)
}

/// Whether `k` is the first of `items` that gives no line.
pub open spec fn first_failure(items: Seq<SyncItemView>, k: int) -> bool {
    &&& 0 <= k < items.len()
    &&& as_entry(items[k]) is Err
    &&& forall|j: int| 0 <= j < k ==> as_entry(#[trigger] items[j]) is Ok
}

/// What browsing answers for what stands at the path and the entries
/// walked there.
pub open spec fn browse_outcome(
    path: Seq<Seq<char>>,
    target: Target,
    items: Seq<SyncItemView>,
    r: Result<Directory, Error>,
) -> bool {
    match target {
        Target::Missing => r matches Err(e) && e@ == ErrorView::InvalidArgument(
            "Path does not exist"@,
        ),
        Target::File => r matches Err(e) && e@ == ErrorView::InvalidArgument(
            "Path is not a directory"@,
        ),
        Target::Directory => match r {
            Ok(dir) => {
                &&& forall|i: int| 0 <= i < items.len() ==> as_entry(#[trigger] items[i]) is Ok
                &&& dir.current_path@ == path
                &&& entry_views(dir.items@) == listed(as_entries(items))
            },
            Err(e) => exists|k: int|
                first_failure(items, k) && as_entry(#[trigger] items[k])
                    == Err::<DirectoryEntryView, ErrorView>(e@),
        },
    }
}

/// What a look for a file answers: the text of its path, or why there is
/// no file to work on.
pub open spec fn file_outcome(
    full_path: Seq<char>,
    target: Target,
    r: Result<String, Error>,
) -> bool {
    match target {
        Target::Missing => r matches Err(e) && e@ == ErrorView::InvalidArgument(
            "File does not exist"@,
        ),
        Target::Directory => r matches Err(e) && e@ == ErrorView::InvalidArgument(
            "Path is a directory"@,
        ),
        Target::File => r matches Ok(text) && text@ == full_path,
    }
}

impl RelativeFs {
    /// The text of the root of the tree.
    pub closed spec fn root(&self) -> Seq<char> {
        self.base_dir@
    }

    /// The cache of the store.
    pub closed spec fn cache_view(&self) -> Cache {
        self.cache
    }

    /// Whether the store's cache is within its bound.
    pub open spec fn wf(&self) -> bool {
        self.cache_view().wf()
    }

    /// A store over the tree below `path`, with an empty cache.
    pub fn from(path: String) -> (fs: RelativeFs)
        ensures
            fs.wf(),
            fs.root() == path@,
            fs.cache_view().entries().len() == 0,
            fs.cache_view().capacity() == CACHE_CAPACITY,
            fs.cache_view().counters().hits == 0,
            fs.cache_view().counters().misses == 0,
    {
        RelativeFs { base_dir: path, cache: Cache::new(CACHE_CAPACITY) }
    }

    /// The text of `relative` below the root: the root, a `/` where the
    /// root does not end in one, and the components joined by `/`.
    pub fn as_abs_path(&self, relative: &PortablePath) -> (full: String)
        ensures
            full@ == abs_text(self.root(), relative@),
    {
        let rel = relative.to_string();
        let mut full = self.base_dir.clone();
        if relative.components().len() == 0 {
            return full;
        }
        let base = chars_of(self.base_dir.as_str());
        let n = base.len();
        if n > 0 && base[n - 1] != '/' {
            proof {
                reveal_strlit("/");
                assert("/"@ =~= seq!['/']);
            }
            full.append("/");
        }
        full.append(rel.as_str());
        full
    }

    /// The cache of the store.
    pub fn get_cache(&mut self) -> (cache: &mut Cache)
        ensures
            *cache == old(self).cache_view(),
            final(self).cache_view() == *final(cache),
            final(self).root() == old(self).root(),
    {
        &mut self.cache
    }

    /// The walker for a listing of one directory: paths lose the root, and
    /// the walk stays with the entries of the directory itself.
    pub fn browse_walker(&self) -> (walker: DirWalker)
        ensures
            walker.wf(),
            walker.prefix() == self.root(),
            walker.chunk() == GATHER_CHUNK_SIZE,
            walker.depth_limit() == Some(0usize),
            walker.seen().len() == 0,
            walker.sent().len() == 0,
            walker.pending().len() == 0,
    {
        DirWalker::create(self.base_dir.clone(), GATHER_CHUNK_SIZE, Some(0))
    }

    /// Sets up the walk of the whole tree under `path` whose records are
    /// gathered in one place: the text of the directory to walk, and the
    /// walker. Paths lose the root, and no depth is too deep.
    pub fn recurse_path(&self, path: &PortablePath) -> (plan: (String, DirWalker))
        ensures
            plan.0@ == abs_text(self.root(), path@),
            plan.1.wf(),
            plan.1.prefix() == self.root(),
            plan.1.chunk() == GATHER_CHUNK_SIZE,
            plan.1.depth_limit() is None,
            plan.1.seen().len() == 0,
            plan.1.sent().len() == 0,
            plan.1.pending().len() == 0,
    {
        (self.as_abs_path(path), DirWalker::create(self.base_dir.clone(), GATHER_CHUNK_SIZE, None))
    }

    /// The listing of the directory at `path` from the entries walked
    /// there: one line for each, directories first, then files, each group
    /// by name. There is none for a path that does not exist or is no
    /// directory, and none where an entry has no name or no snapshot.
    pub fn browse_path(&self, path: &PortablePath, target: Target, items: &Vec<SyncItem>) -> (r:
        Result<Directory, Error>)
        ensures
            browse_outcome(path@, target, item_views(items@), r),
    {
        match target {
            Target::Missing => {
                return Err(Error::InvalidArgument(String::from_str("Path does not exist")));
            },
            Target::File => {
                return Err(Error::InvalidArgument(String::from_str("Path is not a directory")));
            },
            Target::Directory => {},
        }
        let ghost views = item_views(items@);
        let mut entries: Vec<DirectoryEntry> = Vec::new();
        let mut i: usize = 0;
        while i < items.len()
            invariant
                target is Directory,
                0 <= i <= items@.len(),
                views == item_views(items@),
                entries@.len() == i,
                forall|j: int| 0 <= j < i ==> as_entry(#[trigger] views[j]) is Ok,
                forall|j: int|
                    0 <= j < i ==> (#[trigger] entries@[j])@ == as_entry(views[j])->Ok_0,
            decreases items@.len() - i,
        {
            match DirectoryEntry::try_from(&items[i]) {
                Ok(entry) => {
                    entries.push(entry);
                },
                Err(e) => {
                    assert(first_failure(views, i as int));
                    return Err(e);
                },
            }
            i = i + 1;
        }
        assert(entry_views(entries@) =~= as_entries(views));
        Ok(Directory { current_path: path.clone(), items: sort_entries(entries) })
    }

    /// Sets up the walk that answers a request for the tree under
    /// `delta.dest`: the text of the directory to walk, and the walker.
    /// Paths lose the parent of `dest`, so each begins with the last
    /// component of `dest`; a walk of the root loses the root.
    pub fn exchange_deltas(&self, delta: &DeltaExchange, chunk_size: usize) -> (plan: (
        String,
        DirWalker,
    ))
        ensures
            plan.0@ == abs_text(self.root(), delta.dest@),
            plan.1.wf(),
            plan.1.prefix() == if delta.dest@.len() > 0 {
                abs_text(self.root(), delta.dest@.drop_last())
            } else {
                abs_text(self.root(), delta.dest@)
            },
            plan.1.chunk() == chunk_size,
            plan.1.depth_limit() is None,
            plan.1.seen().len() == 0,
            plan.1.sent().len() == 0,
            plan.1.pending().len() == 0,
    {
        let full_path = self.as_abs_path(&delta.dest);
        let strip_prefix = match delta.dest.parent() {
            Some(parent) => self.as_abs_path(&parent),
            None => full_path.clone(),
        };
        (full_path, DirWalker::create(strip_prefix, chunk_size, None))
    }

    /// Begins a write. A target that exists is only written over where
    /// `overwrite` says so. Otherwise the plan names the file, and the
    /// directory to create before it.
    pub fn write(&self, path: &PortablePath, target: Target, overwrite: bool) -> (r: Result<
        WritePlan,
        Error,
    >)
        ensures
            match r {
                Ok(plan) => {
                    &&& target is Missing || overwrite
                    &&& plan.full_path@ == abs_text(self.root(), path@)
                    &&& match plan.parent_dir {
                        Some(dir) => path@.len() > 0 && dir@ == abs_text(
                            self.root(),
                            path@.drop_last(),
                        ),
                        None => path@.len() == 0,
                    }
                },
                Err(e) => {
                    &&& !(target is Missing)
                    &&& !overwrite
                    &&& e@ == ErrorView::FileExists(abs_text(self.root(), path@))
                },
            },
    {
        let full_path = self.as_abs_path(path);
        let exists = match target {
            Target::Missing => false,
            _ => true,
        };
        if exists && !overwrite {
            return Err(Error::FileExists(full_path));
        }
        let parent_dir = match path.parent() {
            Some(parent) => Some(self.as_abs_path(&parent)),
            None => None,
        };
        Ok(WritePlan { full_path, parent_dir })
    }

    /// Takes the outcome of creating the directories above `path`: a
    /// failure, given by its cause, ends the write.
    pub fn after_create(&self, path: &PortablePath, created: Result<(), String>) -> (r: Result<
        (),
        Error,
    >)
        ensures
            match created {
                Ok(()) => r is Ok,
                Err(cause) => r matches Err(e) && e@ == (ErrorView::CreateFailed {
                    what: joined(
                        if path@.len() > 0 {
                            path@.drop_last()
                        } else {
                            path@
                        },
                    ),
                    how: "Failed to create directories: "@ + cause@,
                }),
            },
    {
        match created {
            Ok(()) => Ok(()),
            Err(cause) => {
                let what = match path.parent() {
                    Some(parent) => parent.to_string(),
                    None => path.to_string(),
                };
                let mut how = String::from_str("Failed to create directories: ");
                how.append(cause.as_str());
                Err(Error::CreateFailed { what, how })
            },
        }
    }

    /// Takes the outcome of writing the bytes. A failure ends the write.
    /// Otherwise the modification time to set is read from the declared
    /// snapshot; where that is no RFC 3339 text the write ends here, with
    /// the bytes written and the time not set.
    pub fn after_write(&self, path: &PortablePath, stats: &FileStat, written: Result<(), String>)
        -> (r: Result<Timestamp, Error>)
        ensures
            match written {
                Ok(()) => parse_outcome(rfc3339_instant(stats@.mtime), r),
                Err(cause) => r matches Err(e) && e@ == (ErrorView::WriteFailed {
                    what: abs_text(self.root(), path@),
                    how: cause@,
                }),
            },
    {
        match written {
            Ok(()) => parse_system_time(stats.mtime.as_str()),
            Err(cause) => Err(Error::WriteFailed { what: self.as_abs_path(path), how: cause }),
        }
    }

    /// Takes the outcome of setting the modification time. A failure ends
    /// the write and leaves the cache as it was. On success the declared
    /// snapshot is what the cache holds for the path from now on.
    pub fn after_set_modified(
        &mut self,
        path: &PortablePath,
        stats: &FileStat,
        set: Result<(), String>,
    ) -> (r: Result<(), Error>)
        ensures
            final(self).root() == old(self).root(),
            final(self).cache_view().capacity() == old(self).cache_view().capacity(),
            final(self).cache_view().counters() == old(self).cache_view().counters(),
            old(self).wf() ==> final(self).wf(),
            match set {
                Ok(()) => {
                    &&& r is Ok
                    &&& final(self).cache_view().entries() == stored(
                        old(self).cache_view().entries(),
                        old(self).cache_view().capacity(),
                        path@,
                        stats@,
                    )
                    &&& old(self).wf() ==> lookup(final(self).cache_view().entries(), path@)
                        == Some(stats@)
                },
                Err(cause) => {
                    &&& r matches Err(e) && e@ == (ErrorView::WriteFailed {
                        what: abs_text(old(self).root(), path@),
                        how: cause@,
                    })
                    &&& final(self).cache_view().entries() == old(self).cache_view().entries()
                },
            },
    {
        match set {
            Ok(()) => {
                loaded(&mut self.cache, path, stats);
                Ok(())
            },
            Err(cause) => Err(Error::WriteFailed { what: self.as_abs_path(path), how: cause }),
        }
    }

    /// Begins a deletion: the text of the file to remove. There is none
    /// for a path that does not exist or is a directory.
    pub fn delete_file(&self, path: &PortablePath, target: Target) -> (r: Result<String, Error>)
        ensures
            file_outcome(abs_text(self.root(), path@), target, r),
    {
        match target {
            Target::Missing => Err(Error::InvalidArgument(String::from_str("File does not exist"))),
            Target::Directory => Err(
                Error::InvalidArgument(String::from_str("Path is a directory")),
            ),
            Target::File => Ok(self.as_abs_path(path)),
        }
    }

    /// Takes the outcome of removing the file. A failure leaves the cache
    /// as it was. On success the cache no longer holds the path.
    pub fn after_delete(&mut self, path: &PortablePath, removed: Result<(), String>) -> (r: Result<
        (),
        Error,
    >)
        ensures
            final(self).root() == old(self).root(),
            final(self).cache_view().capacity() == old(self).cache_view().capacity(),
            final(self).cache_view().counters() == old(self).cache_view().counters(),
            old(self).wf() ==> final(self).wf(),
            match removed {
                Ok(()) => {
                    &&& r is Ok
                    &&& final(self).cache_view().entries() == crate::cache::removed(
                        old(self).cache_view().entries(),
                        path@,
                    )
                    &&& old(self).wf() ==> !holds(final(self).cache_view().entries(), path@)
                },
                Err(cause) => {
                    &&& r matches Err(e) && e@ == (ErrorView::DeleteFailed {
                        what: abs_text(old(self).root(), path@),
                        how: cause@,
                    })
                    &&& final(self).cache_view().entries() == old(self).cache_view().entries()
                },
            },
    {
        match removed {
            Ok(()) => {
                proof {
                    if self.wf() {
                        removed_is_missing(
                            self.cache.entries(),
                            self.cache.capacity(),
                            path@,
                        );
                    }
                }
                let _ = self.cache.pop(path);
                Ok(())
            },
            Err(cause) => Err(Error::DeleteFailed { what: self.as_abs_path(path), how: cause }),
        }
    }

    /// Begins a read: the text of the file to read. There is none for a
    /// path that does not exist or is a directory.
    pub fn read_file(&self, path: &PortablePath, target: Target) -> (r: Result<String, Error>)
        ensures
            file_outcome(abs_text(self.root(), path@), target, r),
    {
        match target {
            Target::Missing => Err(Error::InvalidArgument(String::from_str("File does not exist"))),
            Target::Directory => Err(
                Error::InvalidArgument(String::from_str("Path is a directory")),
            ),
            Target::File => Ok(self.as_abs_path(path)),
        }
    }

    /// Takes the outcome of reading the file: its bytes, or the failure
    /// with its cause.
    pub fn after_read(&self, path: &PortablePath, read: Result<Vec<u8>, String>) -> (r: Result<
        Vec<u8>,
        Error,
    >)
        ensures
            match read {
                Ok(bytes) => r matches Ok(data) && data@ == bytes@,
                Err(cause) => r matches Err(e) && e@ == (ErrorView::ReadError {
                    what: abs_text(self.root(), path@),
                    how: cause@,
                }),
            },
    {
        match read {
            Ok(bytes) => Ok(bytes),
            Err(cause) => Err(Error::ReadError { what: self.as_abs_path(path), how: cause }),
        }
    }
}

} // verus!
