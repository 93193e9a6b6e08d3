//! The bookkeeping of a tree walk: which path each walked entry gets, and
//! how the records of a deep walk are handed on in bounded batches.
use vstd::prelude::*;
use vstd::string::StrSliceExecFns;
use vstd::string::StringExecFns;
use crate::cache::Cache;
use crate::cache::bumped;
use crate::cache::holds;
use crate::cache::lookup;
use crate::cache::promoted;
use crate::cache::stored;
use crate::errors::Error;
use crate::errors::ErrorView;
use crate::portable_directory::SyncItem;
use crate::portable_directory::SyncItemView;
use crate::portable_directory::item_views;
use crate::portable_file::FileStat;
use crate::portable_file::FileStatView;
use crate::relative_fs::lookup_or_load;
use crate::portable_path::PortablePath;
use crate::text_order::chars_of;
use crate::portable_path::accepted;
use crate::portable_path::rejects_text;
use crate::portable_path::native_parts;

verus! {

/// What is left of the text `absolute` once the text `prefix` is taken off
/// its front; nothing where `absolute` does not begin with `prefix`, or
/// where `prefix` ends in the middle of a component.
pub open spec fn remainder(prefix: Seq<char>, absolute: Seq<char>) -> Option<Seq<char>> {
    if prefix.len() <= absolute.len() && absolute.take(prefix.len() as int) == prefix && (
    prefix.len() == 0 || prefix.last() == '/' || absolute.len() == prefix.len()
        || absolute[prefix.len() as int] == '/') {
        Some(absolute.skip(prefix.len() as int))
    } else {
        None
    }
}

/// Takes `prefix` off the front of `absolute`.
pub fn strip_prefix<'a>(prefix: &str, absolute: &'a str) -> (rest: Option<&'a str>)
    ensures
        match rest {
            Some(t) => remainder(prefix@, absolute@) == Some(t@),
            None => remainder(prefix@, absolute@) is None,
        },
{
    let p = chars_of(prefix);
    let a = chars_of(absolute);
    let n = p.len();
    if n > a.len() {
        return None;
    }
    let mut i: usize = 0;
    while i < n
        invariant
            p@ == prefix@,
            a@ == absolute@,
            n == p@.len(),
            n <= a@.len(),
            0 <= i <= n,
            forall|j: int| 0 <= j < i ==> a@[j] == p@[j],
        decreases n - i,
    {
        if p[i] != a[i] {
            assert(absolute@.take(n as int)[i as int] != prefix@[i as int]);
            return None;
        }
        i = i + 1;
    }
    assert(absolute@.take(n as int) =~= prefix@);
    if n == 0 || p[n - 1] == '/' || a.len() == n || a[n] == '/' {
        Some(absolute.substring_char(n, a.len()))
    } else {
        None
    }
}

/// What the text `absolute` of a walked entry gives as its path below the
/// text `prefix`.
pub open spec fn relative_outcome(
    prefix: Seq<char>,
    absolute: Seq<char>,
    r: Result<PortablePath, Error>,
) -> bool {
    match remainder(prefix, absolute) {
        None => r matches Err(e) && e@ == (ErrorView::InvalidPath { what: absolute }),
        Some(rest) => match r {
            Ok(path) => accepted(native_parts(rest)) == Some(path@),
            Err(e) => rejects_text(rest, e@),
        },
    }
}

/// The path of a walked entry below `prefix`: the prefix is taken off its
/// text, and what is left is held to the rules for a path once more.
pub fn relative_to(prefix: &str, absolute: &str) -> (r: Result<PortablePath, Error>)
    ensures
        relative_outcome(prefix@, absolute@, r),
{
    match strip_prefix(prefix, absolute) {
        None => Err(Error::InvalidPath { what: String::from_str(absolute) }),
        Some(rest) => PortablePath::from_native(rest),
    }
}

/// The number of records in a full batch: the chunk size, and one where
/// that was given as zero.
pub open spec fn batch_size(chunk: nat) -> nat {
    if chunk == 0 {
        1
    } else {
        chunk
    }
}

/// The batches in which `items` are delivered: full ones in walk order,
/// and last a smaller one for what is left over, if anything. No batch is
/// empty.
pub open spec fn batches(items: Seq<SyncItemView>, chunk: nat) -> Seq<Seq<SyncItemView>>
    decreases items.len(),
{
    if items.len() == 0 {
        Seq::empty()
    } else if items.len() <= batch_size(chunk) {
        seq![items]
    } else {
        seq![items.take(batch_size(chunk) as int)] + batches(
            items.skip(batch_size(chunk) as int),
            chunk,
        )
    }
}

/// The records of `parts`, one batch after the other.
pub open spec fn flattened(parts: Seq<Seq<SyncItemView>>) -> Seq<SyncItemView>
    decreases parts.len(),
{
    if parts.len() == 0 {
        Seq::empty()
    } else {
        flattened(parts.drop_last()) + parts.last()
    }
}

/// Behind records that fill whole batches, up to one batch more is
/// delivered as a batch of its own.
proof fn batches_grow(done: Seq<SyncItemView>, full: nat, more: Seq<SyncItemView>, chunk: nat)
    requires
        done.len() == full * batch_size(chunk),
        0 < more.len() <= batch_size(chunk),
    ensures
        batches(done + more, chunk) == batches(done, chunk).push(more),
        batches(done, chunk).len() == full,
    decreases full,
{
    let size = batch_size(chunk);
    if full == 0 {
        assert(done.len() == 0) by (nonlinear_arith)
            requires
                done.len() == full * size,
                full == 0,
        ;
        assert(done + more =~= more);
        assert(batches(done, chunk).push(more) =~= seq![more]);
    } else {
        assert(done.len() == (full - 1) * size + size && (full - 1) * size >= 0)
            by (nonlinear_arith)
            requires
                done.len() == full * size,
                full >= 1,
                size >= 1,
        ;
        let head = done.take(size as int);
        let tail = done.skip(size as int);
        assert((done + more).take(size as int) =~= head);
        assert((done + more).skip(size as int) =~= tail + more);
        batches_grow(tail, (full - 1) as nat, more, chunk);
        if full == 1 {
            assert(tail.len() == 0);
            assert(done =~= head);
            assert(batches(done, chunk) =~= seq![head]);
            assert(batches(tail, chunk) =~= Seq::<Seq<SyncItemView>>::empty());
            assert(seq![head] + batches(tail, chunk).push(more) =~= seq![head].push(more));
        } else {
            assert(tail.len() >= size) by (nonlinear_arith)
                requires
                    tail.len() == (full - 1) * size,
                    full >= 2,
                    size >= 1,
            ;
            assert(seq![head] + batches(tail, chunk).push(more) =~= (seq![head] + batches(
                tail,
                chunk,
            )).push(more));
        }
    }
}

/// Delivery in batches loses nothing, repeats nothing and keeps the walk
/// order; no batch is empty, none is larger than a full one, and all but
/// the last are full.
pub proof fn batches_are_lossless(items: Seq<SyncItemView>, chunk: nat)
    ensures
        flattened(batches(items, chunk)) == items,
        forall|i: int|
            0 <= i < batches(items, chunk).len() ==> 0 < (#[trigger] batches(items, chunk)[i]).len()
                <= batch_size(chunk),
        forall|i: int|
            0 <= i < batches(items, chunk).len() - 1 ==> (#[trigger] batches(
                items,
                chunk,
            )[i]).len() == batch_size(chunk),
        items.len() == 0 ==> batches(items, chunk).len() == 0,
    decreases items.len(),
{
    let size = batch_size(chunk);
    let all = batches(items, chunk);
    if items.len() == 0 {
    } else if items.len() <= size {
        assert(all.drop_last() =~= Seq::<Seq<SyncItemView>>::empty());
        assert(flattened(all.drop_last()) =~= Seq::<SyncItemView>::empty());
        assert(all.last() == items);
        assert(flattened(all) =~= items);
    } else {
        let head = items.take(size as int);
        let tail = items.skip(size as int);
        batches_are_lossless(tail, chunk);
        let rest = batches(tail, chunk);
        assert(rest.len() > 0);
        flattened_behind(head, rest);
        assert(head + tail =~= items);
        assert forall|i: int| 0 <= i < all.len() implies 0 < (#[trigger] all[i]).len()
            <= size by {
            if i > 0 {
                assert(all[i] == rest[i - 1]);
            }
        }
        assert forall|i: int| 0 <= i < all.len() - 1 implies (#[trigger] all[i]).len()
            == size by {
            if i > 0 {
                assert(all[i] == rest[i - 1]);
            }
        }
    }
}

/// One batch in front of others comes first in what they hold together.
proof fn flattened_behind(head: Seq<SyncItemView>, rest: Seq<Seq<SyncItemView>>)
    ensures
        flattened(seq![head] + rest) == head + flattened(rest),
    decreases rest.len(),
{
    let all = seq![head] + rest;
    if rest.len() == 0 {
        assert(all.drop_last() =~= Seq::<Seq<SyncItemView>>::empty());
        assert(flattened(all.drop_last()) =~= Seq::<SyncItemView>::empty());
        assert(all.last() == head);
        assert(flattened(rest) =~= Seq::<SyncItemView>::empty());
        assert(flattened(all) =~= head + flattened(rest));
    } else {
        flattened_behind(head, rest.drop_last());
        assert(all.drop_last() =~= seq![head] + rest.drop_last());
        assert(all.last() == rest.last());
        assert(flattened(all) =~= head + flattened(rest));
    }
}

/// The path that the text `absolute` of a walked entry gets below the
/// text `prefix`; nothing where it is not below it, or where what is left
/// is no valid path.
pub open spec fn walked_path(prefix: Seq<char>, absolute: Seq<char>) -> Option<Seq<Seq<char>>> {
    match remainder(prefix, absolute) {
        Some(rest) => accepted(native_parts(rest)),
        None => None,
    }
}

/// The record of an entry that exists.
pub open spec fn found_item(path: Seq<Seq<char>>, stats: FileStatView) -> SyncItemView {
    SyncItemView { path, stats: Some(stats) }
}

/// Whether a walk with the depth limit `limit` goes into a directory found
/// `depth` levels below the directory it started in.
pub fn within_depth(limit: Option<usize>, depth: usize) -> (go: bool)
    ensures
        go == match limit {
            Some(most) => depth < most,
            None => true,
        },
{
    match limit {
        Some(most) => depth < most,
        None => true,
    }
}

/// What the walker answers for one walked entry.
pub enum Visit {
    /// The cache held the entry's snapshot and the entry is recorded. A
    /// batch that became full with it is to be sent on.
    Resolved(Option<Vec<SyncItem>>),
    /// The cache does not hold the entry: its snapshot is to be computed
    /// and handed to `loaded` with this path.
    Load(PortablePath),
}

/// The state of one walk: the prefix that walked paths lose, the chunk
/// size, and the records gathered for the next batch.
pub struct DirWalker {
    strip_prefix: String,
    chunk_size: usize,
    max_depth: Option<usize>,
    batch: Vec<SyncItem>,
    seen: Ghost<Seq<SyncItemView>>,
    sent: Ghost<Seq<Seq<SyncItemView>>>,
}

impl DirWalker {
    /// The prefix that walked paths lose.
    pub closed spec fn prefix(&self) -> Seq<char> {
        self.strip_prefix@
    }

    /// The chunk size the walk was set up with.
    pub closed spec fn chunk(&self) -> nat {
        self.chunk_size as nat
    }

    /// How deep the walk goes below the directory it starts in; no limit
    /// where absent.
    pub closed spec fn depth_limit(&self) -> Option<usize> {
        self.max_depth
    }

    /// The records gathered for the next batch.
    pub closed spec fn pending(&self) -> Seq<SyncItemView> {
        item_views(self.batch@)
    }

    /// Every record of the walk so far, in walk order.
    pub closed spec fn seen(&self) -> Seq<SyncItemView> {
        self.seen@
    }

    /// The batches handed out so far, in order.
    pub closed spec fn sent(&self) -> Seq<Seq<SyncItemView>> {
        self.sent@
    }

    /// Whether the walker's books agree: fewer records are pending than
    /// fill a batch, and what was handed out and what is pending together
    /// are the records seen, delivered in full batches.
    pub closed spec fn wf(&self) -> bool {
        &&& self.pending().len() < batch_size(self.chunk())
        &&& self.seen().len() == self.sent().len() * batch_size(self.chunk())
            + self.pending().len()
        &&& self.sent() == batches(
            self.seen().take(self.seen().len() - self.pending().len()),
            self.chunk(),
        )
        &&& self.pending() == self.seen().skip(self.seen().len() - self.pending().len())
    }

    /// A walker that has seen nothing yet.
    pub fn create(strip_prefix: String, chunk_size: usize, max_depth: Option<usize>) -> (walker:
        DirWalker)
        ensures
            walker.wf(),
            walker.prefix() == strip_prefix@,
            walker.chunk() == chunk_size,
            walker.depth_limit() == max_depth,
            walker.pending().len() == 0,
            walker.seen().len() == 0,
            walker.sent().len() == 0,
    {
        let walker = DirWalker {
            strip_prefix,
            chunk_size,
            max_depth,
            batch: Vec::new(),
            seen: Ghost(Seq::empty()),
            sent: Ghost(Seq::empty()),
        };
        proof {
            assert(walker.seen().len() == walker.sent().len() * batch_size(walker.chunk())
                + walker.pending().len()) by (nonlinear_arith)
                requires
                    walker.seen().len() == 0,
                    walker.sent().len() == 0,
                    walker.pending().len() == 0,
            ;
            assert(walker.seen().take(0) =~= Seq::<SyncItemView>::empty());
            assert(walker.pending() =~= walker.seen().skip(0));
        }
        walker
    }

    /// Whether the walk goes into a directory found `depth` levels below
    /// the directory it started in; the entries of that directory itself
    /// are at level 0.
    pub fn descends(&self, depth: usize) -> (go: bool)
        ensures
            go == match self.depth_limit() {
                Some(limit) => depth < limit,
                None => true,
            },
    {
        within_depth(self.max_depth, depth)
    }

    /// How deep the walk goes below the directory it starts in; no limit
    /// where absent.
    pub fn max_depth(&self) -> (limit: Option<usize>)
        ensures
            limit == self.depth_limit(),
    {
        self.max_depth
    }

    /// Adds one record to the walk. The batch that becomes full with it is
    /// handed out, and a new one begins.
    pub fn record(&mut self, item: SyncItem) -> (full: Option<Vec<SyncItem>>)
        requires
            old(self).wf(),
        ensures
            final(self).wf(),
            final(self).prefix() == old(self).prefix(),
            final(self).chunk() == old(self).chunk(),
            final(self).depth_limit() == old(self).depth_limit(),
            final(self).seen() == old(self).seen().push(item@),
            full is Some <==> old(self).pending().len() + 1 == batch_size(old(self).chunk()),
            match full {
                Some(batch) => {
                    &&& item_views(batch@) == old(self).pending().push(item@)
                    &&& batch@.len() == batch_size(old(self).chunk())
                    &&& final(self).pending().len() == 0
                    &&& final(self).sent() == old(self).sent().push(item_views(batch@))
                },
                None => {
                    &&& final(self).pending() == old(self).pending().push(item@)
                    &&& final(self).sent() == old(self).sent()
                },
            },
    {
        let ghost before = self.pending();
        let ghost seen = self.seen@;
        let ghost sent = self.sent@;
        let ghost done = seen.take(seen.len() - before.len());
        let ghost size = batch_size(self.chunk());
        self.batch.push(item);
        assert(item_views(self.batch@) =~= before.push(item@));
        proof {
            self.seen = Ghost(seen.push(item@));
            assert(seen.push(item@).take(seen.len() - before.len()) =~= done);
            assert(seen.push(item@).skip(seen.len() - before.len()) =~= before.push(item@));
        }
        if self.batch.len() >= self.chunk_size {
            let mut batch: Vec<SyncItem> = Vec::new();
            core::mem::swap(&mut self.batch, &mut batch);
            proof {
                let more = before.push(item@);
                assert(done + more =~= seen.push(item@));
                batches_grow(done, sent.len(), more, self.chunk());
                self.sent = Ghost(sent.push(more));
                assert(seen.push(item@).take(seen.len() as int + 1) =~= seen.push(item@));
                assert(self.pending() =~= seen.push(item@).skip(seen.len() as int + 1));
                assert(self.seen().len() == self.sent().len() * size + self.pending().len())
                    by (nonlinear_arith)
                    requires
                        self.seen().len() == seen.len() + 1,
                        seen.len() == sent.len() * size + before.len(),
                        before.len() + 1 == size,
                        self.sent().len() == sent.len() + 1,
                        self.pending().len() == 0,
                ;
            }
            Some(batch)
        } else {
            None
        }
    }

    /// Whether `after` is `self` with `item` recorded, and `full` the batch
    /// that was handed out for it.
    pub open spec fn recorded(
        &self,
        after: &DirWalker,
        item: SyncItemView,
        full: Option<Vec<SyncItem>>,
    ) -> bool {
        &&& after.wf()
        &&& after.prefix() == self.prefix()
        &&& after.chunk() == self.chunk()
        &&& after.depth_limit() == self.depth_limit()
        &&& after.seen() == self.seen().push(item)
        &&& full is Some <==> self.pending().len() + 1 == batch_size(self.chunk())
        &&& match full {
            Some(batch) => {
                &&& item_views(batch@) == self.pending().push(item)
                &&& batch@.len() == batch_size(self.chunk())
                &&& after.pending().len() == 0
                &&& after.sent() == self.sent().push(item_views(batch@))
            },
            None => {
                &&& after.pending() == self.pending().push(item)
                &&& after.sent() == self.sent()
            },
        }
    }

    /// Whether `after` is `self` unchanged.
    pub open spec fn untouched(&self, after: &DirWalker) -> bool {
        &&& after.wf() == self.wf()
        &&& after.prefix() == self.prefix()
        &&& after.chunk() == self.chunk()
        &&& after.depth_limit() == self.depth_limit()
        &&& after.seen() == self.seen()
        &&& after.pending() == self.pending()
        &&& after.sent() == self.sent()
    }

    /// Takes one walked entry by the text of its path. An entry that is
    /// not below the prefix, or whose path is not valid, ends the walk with
    /// an error and changes nothing. Otherwise the cache is asked: a hit
    /// records the entry with the cached snapshot, a miss asks for the
    /// snapshot to be computed.
    pub fn visit(&mut self, cache: &mut Cache, absolute: &str) -> (r: Result<Visit, Error>)
        requires
            old(self).wf(),
        ensures
            final(cache).capacity() == old(cache).capacity(),
            old(cache).wf() ==> final(cache).wf(),
            match r {
                Err(e) => {
                    &&& walked_path(old(self).prefix(), absolute@) is None
                    &&& relative_outcome(old(self).prefix(), absolute@, Err(e))
                    &&& old(self).untouched(final(self))
                    &&& final(cache).entries() == old(cache).entries()
                    &&& final(cache).counters() == old(cache).counters()
                },
                Ok(Visit::Load(path)) => {
                    &&& walked_path(old(self).prefix(), absolute@) == Some(path@)
                    &&& !holds(old(cache).entries(), path@)
                    &&& old(self).untouched(final(self))
                    &&& final(cache).entries() == old(cache).entries()
                    &&& final(cache).counters().hits == old(cache).counters().hits
                    &&& final(cache).counters().misses == bumped(old(cache).counters().misses)
                },
                Ok(Visit::Resolved(full)) => {
                    &&& walked_path(old(self).prefix(), absolute@) is Some
                    &&& lookup(
                        old(cache).entries(),
                        walked_path(old(self).prefix(), absolute@).unwrap(),
                    ) is Some
                    &&& old(self).recorded(
                        final(self),
                        found_item(
                            walked_path(old(self).prefix(), absolute@).unwrap(),
                            lookup(
                                old(cache).entries(),
                                walked_path(old(self).prefix(), absolute@).unwrap(),
                            ).unwrap(),
                        ),
                        full,
                    )
                    &&& final(cache).entries() == promoted(
                        old(cache).entries(),
                        walked_path(old(self).prefix(), absolute@).unwrap(),
                    )
                    &&& final(cache).counters().hits == bumped(old(cache).counters().hits)
                    &&& final(cache).counters().misses == old(cache).counters().misses
                },
            },
    {
        let path = match relative_to(self.strip_prefix.as_str(), absolute) {
            Ok(path) => path,
            Err(e) => {
                return Err(e);
            },
        };
        match lookup_or_load(cache, &path) {
            Some(stats) => {
                let full = self.record(SyncItem { path, stats: Some(stats) });
                Ok(Visit::Resolved(full))
            },
            None => Ok(Visit::Load(path)),
        }
    }

    /// Takes the snapshot that was computed for `path` after a miss: it is
    /// stored in the cache, and the entry is recorded with it.
    pub fn loaded(&mut self, cache: &mut Cache, path: PortablePath, stats: FileStat) -> (full:
        Option<Vec<SyncItem>>)
        requires
            old(self).wf(),
        ensures
            old(self).recorded(final(self), found_item(path@, stats@), full),
            final(cache).capacity() == old(cache).capacity(),
            final(cache).entries() == stored(
                old(cache).entries(),
                old(cache).capacity(),
                path@,
                stats@,
            ),
            final(cache).counters() == old(cache).counters(),
            old(cache).wf() ==> final(cache).wf(),
    {
        crate::relative_fs::loaded(cache, &path, &stats);
        self.record(SyncItem { path, stats: Some(stats) })
    }

    /// Adds the records of one batch to those gathered before, in order.
    pub fn gather(all: &mut Vec<SyncItem>, batch: Vec<SyncItem>)
        ensures
            item_views(final(all)@) == item_views(old(all)@) + item_views(batch@),
    {
        let mut batch = batch;
        let ghost added = batch@;
        all.append(&mut batch);
        assert(item_views(all@) =~= item_views(old(all)@) + item_views(added));
    }

    /// Ends the walk and hands out what is left over as a last, smaller
    /// batch; nothing where nothing is left. With it the batches handed
    /// out are the records of the whole walk, in full batches and walk
    /// order.
    pub fn finish(self) -> (last: Option<Vec<SyncItem>>)
        requires
            self.wf(),
        ensures
            match last {
                Some(batch) => {
                    &&& item_views(batch@) == self.pending()
                    &&& batch@.len() > 0
                    &&& self.sent().push(item_views(batch@)) == batches(self.seen(), self.chunk())
                },
                None => self.pending().len() == 0 && self.sent() == batches(
                    self.seen(),
                    self.chunk(),
                ),
            },
    {
        let ghost seen = self.seen@;
        let ghost pending = self.pending();
        let ghost done = seen.take(seen.len() - pending.len());
        if self.batch.len() > 0 {
            proof {
                assert(done + pending =~= seen);
                batches_grow(done, self.sent().len(), pending, self.chunk());
            }
            Some(self.batch)
        } else {
            assert(done =~= seen);
            None
        }
    }
}

} // verus!
