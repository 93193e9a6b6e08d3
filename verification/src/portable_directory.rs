//! Directory listings and the records of a tree walk.
use vstd::prelude::*;
use vstd::string::StringExecFns;
use crate::errors::Error;
use crate::errors::ErrorView;
use crate::portable_file::FileStat;
use crate::portable_file::FileStatView;
use crate::portable_path::PortablePath;
use crate::portable_path::joined;
use crate::text_order::name_before;
use crate::text_order::text_before;
use crate::text_order::text_before_splits;
use crate::text_order::text_before_is_one_way;

verus! {

/// One walked entry: its path, and its snapshot unless it does not exist.
#[derive(Debug, Clone, PartialEq, Eq)]
pub struct SyncItem {
    /// The path of the entry.
    pub path: PortablePath,
    /// The snapshot of the entry; absent for a path that does not exist.
    pub stats: Option<FileStat>,
}

/// The mathematical content of a [`SyncItem`].
pub struct SyncItemView {
    pub path: Seq<Seq<char>>,
    pub stats: Option<FileStatView>,
}

impl View for SyncItem {
    type V = SyncItemView;

    open spec fn view(&self) -> SyncItemView {
        SyncItemView {
            path: self.path@,
            stats: match self.stats {
                Some(s) => Some(s@),
                None => None,
            },
        }
    }
}

/// The contents of a sequence of walked entries.
pub open spec fn item_views(items: Seq<SyncItem>) -> Seq<SyncItemView> {
    Seq::new(items.len(), |i: int| items[i]@)
}

/// One line of a directory listing.
#[derive(Debug, Clone, PartialEq, Eq)]
pub struct DirectoryEntry {
    /// Name of the file or directory.
    pub name: String,
    /// Snapshot of the file or directory.
    pub stats: FileStat,
}

/// The mathematical content of a [`DirectoryEntry`].
pub struct DirectoryEntryView {
    pub name: Seq<char>,
    pub stats: FileStatView,
}

impl View for DirectoryEntry {
    type V = DirectoryEntryView;

    open spec fn view(&self) -> DirectoryEntryView {
        DirectoryEntryView { name: self.name@, stats: self.stats@ }
    }
}

/// The contents of a sequence of listing lines.
pub open spec fn entry_views(entries: Seq<DirectoryEntry>) -> Seq<DirectoryEntryView> {
    Seq::new(entries.len(), |i: int| entries[i]@)
}

/// The listing of one directory: directories first, then files, each group
/// by name.
#[derive(Debug, Clone)]
pub struct Directory {
    /// The directory that was listed.
    pub current_path: PortablePath,
    /// Its entries.
    pub items: Vec<DirectoryEntry>,
}

/// A request to walk the tree under `dest`. The state that the requester
/// already knows is carried along and not looked at.
#[derive(Debug, Clone)]
pub struct DeltaExchange {
    /// The directory to walk.
    pub dest: PortablePath,
    /// What the requester knows of it.
    pub deltas: Vec<SyncItem>,
}

/// What a walked entry gives as a line of a listing.
pub open spec fn as_entry(item: SyncItemView) -> Result<DirectoryEntryView, ErrorView> {
    if item.path.len() == 0 {
        Err(ErrorView::InvalidPath { what: joined(item.path) })
    } else {
        match item.stats {
            Some(stats) => Ok(DirectoryEntryView { name: item.path.last(), stats }),
            None => Err(
                ErrorView::ReadError { what: "failed to lookup stats"@, how: "none found"@ },
            ),
        }
    }
}

impl DirectoryEntry {
    /// The line of a listing for a walked entry: its last component as the
    /// name, with its snapshot. The empty path has no name, and an entry
    /// that does not exist has no snapshot.
    pub fn try_from(item: &SyncItem) -> (r: Result<DirectoryEntry, Error>)
        ensures
            match r {
                Ok(entry) => as_entry(item@) == Ok::<DirectoryEntryView, ErrorView>(entry@),
                Err(e) => as_entry(item@) == Err::<DirectoryEntryView, ErrorView>(e@),
            },
    {
        let name = match item.path.basename() {
            Some(s) => String::from_str(s),
            None => {
                return Err(Error::InvalidPath { what: item.path.to_string() });
            },
        };
        match &item.stats {
            Some(stats) => Ok(DirectoryEntry { name, stats: stats.duplicate() }),
            None => Err(
                Error::ReadError {
                    what: String::from_str("failed to lookup stats"),
                    how: String::from_str("none found"),
                },
            ),
        }
    }
}

/// Whether the line `a` stands before the line `b` in a listing:
/// directories before files, and by name within each.
pub open spec fn entry_before(a: DirectoryEntryView, b: DirectoryEntryView) -> bool {
    if a.stats.is_directory != b.stats.is_directory {
        a.stats.is_directory
    } else {
        text_before(a.name, b.name)
    }
}

/// Whether no line of `entries` stands after a line that should follow it.
pub open spec fn in_listing_order(entries: Seq<DirectoryEntryView>) -> bool {
    forall|i: int, j: int|
        0 <= i < j < entries.len() ==> !entry_before(#[trigger] entries[j], #[trigger] entries[i])
}

/// Decides whether the line `a` stands before the line `b` in a listing.
pub fn listed_before(a: &DirectoryEntry, b: &DirectoryEntry) -> (r: bool)
    ensures
        r == entry_before(a@, b@),
{
    if a.stats.is_directory != b.stats.is_directory {
        a.stats.is_directory
    } else {
        name_before(a.name.as_str(), b.name.as_str())
    }
}

/// Where a new line goes into lines that are in order: behind every line
/// that does not have to follow it.
pub open spec fn slot(entries: Seq<DirectoryEntryView>, e: DirectoryEntryView) -> int
    decreases entries.len(),
{
    if entries.len() == 0 {
        0
    } else if entry_before(e, entries.last()) {
        slot(entries.drop_last(), e)
    } else {
        entries.len() as int
    }
}

/// The lines with one more put in its place.
pub open spec fn placed(
    entries: Seq<DirectoryEntryView>,
    e: DirectoryEntryView,
) -> Seq<DirectoryEntryView> {
    entries.insert(slot(entries, e), e)
}

/// The listing of `entries`: directories first, then files, each group by
/// name; lines that neither kind nor name tells apart keep the order in
/// which they came.
pub open spec fn listed(entries: Seq<DirectoryEntryView>) -> Seq<DirectoryEntryView>
    decreases entries.len(),
{
    if entries.len() == 0 {
        Seq::empty()
    } else {
        placed(listed(entries.drop_last()), entries.last())
    }
}

/// A line that stands before another stands before every line between:
/// any third line is behind the first or before the second.
pub proof fn entry_before_splits(a: DirectoryEntryView, b: DirectoryEntryView, c: DirectoryEntryView)
    requires
        entry_before(a, c),
    ensures
        entry_before(a, b) || entry_before(b, c),
{
    if a.stats.is_directory == c.stats.is_directory && b.stats.is_directory
        == a.stats.is_directory {
        text_before_splits(a.name, b.name, c.name);
    }
}

/// Of two lines of which one stands before the other, only one does.
pub proof fn entry_before_is_one_way(a: DirectoryEntryView, b: DirectoryEntryView)
    requires
        entry_before(a, b),
    ensures
        !entry_before(b, a),
{
    if a.stats.is_directory == b.stats.is_directory {
        text_before_is_one_way(a.name, b.name);
    }
}

/// The slot of a line lies within the lines, every line from it on has to
/// follow the new one, and the line just before it does not.
proof fn slot_divides(entries: Seq<DirectoryEntryView>, e: DirectoryEntryView)
    ensures
        0 <= slot(entries, e) <= entries.len(),
        forall|j: int|
            slot(entries, e) <= j < entries.len() ==> entry_before(e, #[trigger] entries[j]),
        slot(entries, e) > 0 ==> !entry_before(e, entries[slot(entries, e) - 1]),
    decreases entries.len(),
{
    if entries.len() > 0 && entry_before(e, entries.last()) {
        slot_divides(entries.drop_last(), e);
        let k = slot(entries, e);
        assert forall|j: int| k <= j < entries.len() implies entry_before(
            e,
            #[trigger] entries[j],
        ) by {
            if j < entries.len() - 1 {
                assert(entries.drop_last()[j] == entries[j]);
            }
        }
        if k > 0 {
            assert(entries.drop_last()[k - 1] == entries[k - 1]);
        }
    }
}

/// Putting a line in its place keeps lines in order, and adds that line
/// and no other.
pub proof fn placed_keeps_order(entries: Seq<DirectoryEntryView>, e: DirectoryEntryView)
    requires
        in_listing_order(entries),
    ensures
        in_listing_order(placed(entries, e)),
        placed(entries, e).to_multiset() == entries.to_multiset().insert(e),
        placed(entries, e).len() == entries.len() + 1,
{
    let k = slot(entries, e);
    let after = placed(entries, e);
    slot_divides(entries, e);
    vstd::seq_lib::to_multiset_insert(entries, k, e);
    assert forall|i: int, j: int| 0 <= i < j < after.len() implies !entry_before(
        #[trigger] after[j],
        #[trigger] after[i],
    ) by {
        if j < k {
            assert(after[i] == entries[i] && after[j] == entries[j]);
        } else if j == k {
            assert(after[i] == entries[i] && after[j] == e);
            if entry_before(e, entries[i]) {
                entry_before_splits(e, entries[k - 1], entries[i]);
            }
        } else if i == k {
            assert(after[j] == entries[j - 1]);
            entry_before_is_one_way(e, entries[j - 1]);
        } else if i < k {
            assert(after[i] == entries[i] && after[j] == entries[j - 1]);
        } else {
            assert(after[i] == entries[i - 1] && after[j] == entries[j - 1]);
        }
    }
}

/// A listing is in order, and holds the lines it was made of, each as
/// often as it was given.
pub proof fn listed_is_ordered(entries: Seq<DirectoryEntryView>)
    ensures
        in_listing_order(listed(entries)),
        listed(entries).to_multiset() == entries.to_multiset(),
        listed(entries).len() == entries.len(),
    decreases entries.len(),
{
    if entries.len() == 0 {
        assert(listed(entries) =~= entries);
    } else {
        listed_is_ordered(entries.drop_last());
        placed_keeps_order(listed(entries.drop_last()), entries.last());
        vstd::seq_lib::to_multiset_build(entries.drop_last(), entries.last());
        assert(entries.drop_last().push(entries.last()) =~= entries);
    }
}

/// Puts the lines of a listing in order: directories first, then files,
/// each group by name.
pub fn sort_entries(items: Vec<DirectoryEntry>) -> (sorted: Vec<DirectoryEntry>)
    ensures
        entry_views(sorted@) == listed(entry_views(items@)),
{
    let ghost all = entry_views(items@);
    let n = items.len();
    let mut rest = items;
    let mut sorted: Vec<DirectoryEntry> = Vec::new();
    let mut i: usize = 0;
    assert(all.take(0) =~= Seq::<DirectoryEntryView>::empty());
    assert(entry_views(sorted@) =~= listed(all.take(0)));
    while i < n
        invariant
            0 <= i <= n,
            n == all.len(),
            rest@.len() == n - i,
            entry_views(rest@) == all.skip(i as int),
            entry_views(sorted@) == listed(all.take(i as int)),
        decreases n - i,
    {
        let ghost before = entry_views(sorted@);
        let ghost remaining = entry_views(rest@);
        let item = rest.remove(0);
        assert(item@ == remaining[0]);
        assert(item@ == all[i as int]);
        assert(entry_views(rest@) =~= all.skip(i + 1)) by {
            assert forall|j: int| 0 <= j < rest@.len() implies entry_views(rest@)[j] == all.skip(
                i + 1,
            )[j] by {
                assert(rest@[j]@ == remaining[j + 1]);
            }
        }
        proof {
            listed_is_ordered(all.take(i as int));
        }
        let mut k: usize = sorted.len();
        assert(before.take(k as int) =~= before);
        while k > 0 && listed_before(&item, &sorted[k - 1])
            invariant
                0 <= k <= sorted@.len(),
                before == entry_views(sorted@),
                slot(before, item@) == slot(before.take(k as int), item@),
            decreases k,
        {
            assert(before.take(k as int).drop_last() =~= before.take(k - 1));
            assert(before.take(k as int).last() == sorted@[k - 1]@);
            k = k - 1;
        }
        proof {
            if k > 0 {
                assert(before.take(k as int).last() == sorted@[k - 1]@);
            }
            assert(slot(before, item@) == k);
        }
        sorted.insert(k, item);
        assert(entry_views(sorted@) =~= before.insert(k as int, all[i as int]));
        proof {
            assert(all.take(i + 1).drop_last() =~= all.take(i as int));
            assert(all.take(i + 1).last() == all[i as int]);
        }
        i = i + 1;
    }
    assert(all.take(n as int) =~= all);
    sorted
}

} // verus!
