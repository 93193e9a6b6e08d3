//! Relative paths that cannot leave the directory they are joined to.
use vstd::prelude::*;
use vstd::string::StringExecFns;
use vstd::string::StrSliceExecFns;
use vstd::std_specs::cmp::PartialEqSpecImpl;
use vstd::std_specs::cmp::PartialOrdSpecImpl;
use core::cmp::Ordering;
use crate::text_order::name_before;
use crate::text_order::text_before;
use crate::text_order::text_before_is_one_way;
use crate::text_order::texts_are_ordered;
use crate::errors::Error;
use crate::errors::ErrorView;
use crate::portable_directory::SyncItem;
use crate::portable_file::FileStat;

verus! {

/// Whether `c` may stand as one component of a path: it is not empty, holds
/// no separator, and is neither `.` nor `..`.
pub open spec fn valid_component(c: Seq<char>) -> bool {
    &&& c.len() > 0
    &&& !c.contains('/')
    &&& !c.contains('\\')
    &&& c != seq!['.']
    &&& c != seq!['.', '.']
}

/// Whether every component of `cs` is valid.
pub open spec fn valid_path(cs: Seq<Seq<char>>) -> bool {
    forall|i: int| 0 <= i < cs.len() ==> valid_component(#[trigger] cs[i])
}

/// The path that the components `cs` are accepted as: themselves where
/// all are valid, and none otherwise.
pub open spec fn accepted(cs: Seq<Seq<char>>) -> Option<Seq<Seq<char>>> {
    if valid_path(cs) {
        Some(cs)
    } else {
        None
    }
}

/// The message that rejects the component `c`.
pub open spec fn invalid_component_message(c: Seq<char>) -> Seq<char> {
    "Invalid path component: "@ + c
}

/// Decides whether `s` may stand as one component of a path.
pub fn is_valid_component(s: &str) -> (ok: bool)
    ensures
        ok == valid_component(s@),
{
    let mut seen: u8 = 0;
    let mut separator = false;
    let mut all_dots = true;
    for c in it: s.chars()
        invariant
            it.seq() == s@,
            seen == if it.index() < 3 { it.index() } else { 3 },
            separator == exists|j: int|
                0 <= j < it.index() && (#[trigger] s@[j] == '/' || s@[j] == '\\'),
            all_dots == forall|j: int| 0 <= j < it.index() ==> #[trigger] s@[j] == '.',
    {
        if seen < 3 {
            seen = seen + 1;
        }
        if c == '/' || c == '\\' {
            separator = true;
        }
        if c != '.' {
            all_dots = false;
        }
    }
    proof {
        if all_dots && seen == 1 {
            assert(s@ =~= seq!['.']);
        }
        if all_dots && seen == 2 {
            assert(s@ =~= seq!['.', '.']);
        }
        if !all_dots {
            let j = choose|j: int| 0 <= j < s@.len() && #[trigger] s@[j] != '.';
            assert(seq!['.'][0] == '.');
            assert(seq!['.', '.'][0] == '.' && seq!['.', '.'][1] == '.');
        }
    }
    seen > 0 && !separator && !(all_dots && seen <= 2)
}

/// The character sequences of a slice of string slices.
pub open spec fn str_views(parts: Seq<&str>) -> Seq<Seq<char>> {
    Seq::new(parts.len(), |i: int| parts[i]@)
}

/// The character sequences of a sequence of strings.
pub open spec fn string_views(parts: Seq<String>) -> Seq<Seq<char>> {
    Seq::new(parts.len(), |i: int| parts[i]@)
}

/// Whether `i` is the position of the first invalid component of `cs`.
pub open spec fn first_invalid(cs: Seq<Seq<char>>, i: int) -> bool {
    &&& 0 <= i < cs.len()
    &&& !valid_component(cs[i])
    &&& forall|j: int| 0 <= j < i ==> valid_component(#[trigger] cs[j])
}

/// The components joined by `/`, the text of the path on its own system.
pub open spec fn joined(cs: Seq<Seq<char>>) -> Seq<char>
    decreases cs.len(),
{
    if cs.len() == 0 {
        Seq::empty()
    } else if cs.len() == 1 {
        cs[0]
    } else {
        joined(cs.drop_last()) + seq!['/'] + cs.last()
    }
}

/// The parts closed so far, with `current` added if it holds anything.
pub open spec fn closed_parts(parts: Seq<Seq<char>>, current: Seq<char>) -> Seq<Seq<char>> {
    if current.len() > 0 {
        parts.push(current)
    } else {
        parts
    }
}

/// Reading `text` from the left: the parts closed by a `/`, and the part
/// that is still open. Empty parts are dropped.
pub open spec fn scanned(text: Seq<char>) -> (Seq<Seq<char>>, Seq<char>)
    decreases text.len(),
{
    if text.len() == 0 {
        (Seq::empty(), Seq::empty())
    } else {
        let before = scanned(text.drop_last());
        if text.last() == '/' {
            (closed_parts(before.0, before.1), Seq::empty())
        } else {
            (before.0, before.1.push(text.last()))
        }
    }
}

/// The parts of a path text: what stands between its `/` characters,
/// without the empty parts that a leading, trailing or doubled `/` leaves.
pub open spec fn native_parts(text: Seq<char>) -> Seq<Seq<char>> {
    closed_parts(scanned(text).0, scanned(text).1)
}

/// The message that rejects a text that is `.` or `..` as a whole.
pub open spec fn dot_path_message() -> Seq<char> {
    "Path cannot contain '.' or '..' components"@
}

/// What a probe of the file system says of a path: its snapshot, that
/// nothing is there, or why the metadata could not be read.
pub open spec fn probe_outcome(
    probe: Result<Option<FileStat>, String>,
    r: Result<Option<FileStat>, Error>,
) -> bool {
    match probe {
        Ok(Some(stat)) => r matches Ok(Some(found)) && found@ == stat@,
        Ok(None) => r matches Ok(None),
        Err(cause) => r matches Err(e) && e@ == (ErrorView::ReadError {
            what: "metadata"@,
            how: cause@,
        }),
    }
}

/// Whether `e` is the error that rejects the text `text` as a path: the
/// text is `.` or `..` as a whole, or `e` names its first invalid part.
pub open spec fn rejects_text(text: Seq<char>, e: ErrorView) -> bool {
    &&& accepted(native_parts(text)) is None
    &&& if text == seq!['.'] || text == seq!['.', '.'] {
        e == ErrorView::InvalidArgument(dot_path_message())
    } else {
        exists|i: int|
            #![trigger native_parts(text)[i]]
            first_invalid(native_parts(text), i) && e == ErrorView::InvalidArgument(
                invalid_component_message(native_parts(text)[i]),
            )
    }
}

/// A path relative to some root, held as its components. No component is
/// empty, holds a separator, or is `.` or `..`, so the path joined to a
/// root never leaves that root.
#[derive(Debug, Eq, Hash)]
pub struct PortablePath {
    components: Vec<String>,
}

impl View for PortablePath {
    type V = Seq<Seq<char>>;

    closed spec fn view(&self) -> Seq<Seq<char>> {
        string_views(self.components@)
    }
}

impl PartialEq for PortablePath {
    /// Two paths are equal where they have the same components in the same
    /// order.
    fn eq(&self, other: &PortablePath) -> (r: bool) {
        let n = self.components.len();
        if n != other.components.len() {
            assert(self@.len() != other@.len());
            return false;
        }
        let mut i: usize = 0;
        while i < n
            invariant
                n == self.components@.len(),
                n == other.components@.len(),
                0 <= i <= n,
                forall|j: int| 0 <= j < i ==> self@[j] == other@[j],
            decreases n - i,
        {
            if self.components[i] != other.components[i] {
                assert(self@[i as int] != other@[i as int]);
                return false;
            }
            i = i + 1;
        }
        assert(self@ =~= other@);
        true
    }
}

impl PartialEqSpecImpl for PortablePath {
    open spec fn obeys_eq_spec() -> bool {
        true
    }

    open spec fn eq_spec(&self, other: &PortablePath) -> bool {
        self@ == other@
    }
}

/// Whether the path `a` stands before the path `b`: at the first place
/// where their components differ `a` has the component that stands before
/// the other as text, or `a` ends there and `b` goes on.
pub open spec fn path_before(a: Seq<Seq<char>>, b: Seq<Seq<char>>) -> bool
    decreases a.len(),
{
    if b.len() == 0 {
        false
    } else if a.len() == 0 {
        true
    } else if text_before(a[0], b[0]) {
        true
    } else if text_before(b[0], a[0]) {
        false
    } else {
        path_before(a.drop_first(), b.drop_first())
    }
}

/// Of two paths, one stands before the other, or they are the same path:
/// the order agrees with equality.
pub proof fn paths_are_ordered(a: Seq<Seq<char>>, b: Seq<Seq<char>>)
    ensures
        (!path_before(a, b) && !path_before(b, a)) <==> a == b,
        !(path_before(a, b) && path_before(b, a)),
    decreases a.len(),
{
    if a.len() > 0 && b.len() > 0 {
        paths_are_ordered(a.drop_first(), b.drop_first());
        texts_are_ordered(a[0], b[0]);
        if text_before(a[0], b[0]) {
            text_before_is_one_way(a[0], b[0]);
        }
        if a[0] == b[0] && a.drop_first() == b.drop_first() {
            assert(a =~= seq![a[0]] + a.drop_first());
            assert(b =~= seq![b[0]] + b.drop_first());
        }
        if a == b {
            assert(a.drop_first() == b.drop_first());
        }
    } else if a.len() == 0 && b.len() == 0 {
        assert(a =~= b);
    }
}

/// Decides whether the path `a` stands before the path `b`.
pub fn is_path_before(a: &PortablePath, b: &PortablePath) -> (r: bool)
    ensures
        r == path_before(a@, b@),
{
    let n = a.components.len();
    let m = b.components.len();
    let mut i: usize = 0;
    assert(a@.skip(0) =~= a@ && b@.skip(0) =~= b@);
    loop
        invariant
            n == a.components@.len(),
            m == b.components@.len(),
            0 <= i <= n,
            i <= m,
            path_before(a@, b@) == path_before(a@.skip(i as int), b@.skip(i as int)),
        decreases n - i,
    {
        proof {
            if i < n && i < m {
                assert(a@.skip(i as int).drop_first() =~= a@.skip(i + 1));
                assert(b@.skip(i as int).drop_first() =~= b@.skip(i + 1));
                assert(a@.skip(i as int)[0] == a.components@[i as int]@);
                assert(b@.skip(i as int)[0] == b.components@[i as int]@);
            }
        }
        if i >= m {
            return false;
        }
        if i >= n {
            return true;
        }
        if name_before(a.components[i].as_str(), b.components[i].as_str()) {
            return true;
        }
        if name_before(b.components[i].as_str(), a.components[i].as_str()) {
            return false;
        }
        i = i + 1;
    }
}

impl PartialOrd for PortablePath {
    /// Paths are ordered component by component, each component as text.
    fn partial_cmp(&self, other: &PortablePath) -> (r: Option<Ordering>) {
        if is_path_before(self, other) {
            Some(Ordering::Less)
        } else if is_path_before(other, self) {
            Some(Ordering::Greater)
        } else {
            Some(Ordering::Equal)
        }
    }
}

impl PartialOrdSpecImpl for PortablePath {
    open spec fn obeys_partial_cmp_spec() -> bool {
        true
    }

    open spec fn partial_cmp_spec(&self, other: &PortablePath) -> Option<Ordering> {
        if path_before(self@, other@) {
            Some(Ordering::Less)
        } else if path_before(other@, self@) {
            Some(Ordering::Greater)
        } else {
            Some(Ordering::Equal)
        }
    }
}

impl Clone for PortablePath {
    /// An independent copy with the same components.
    fn clone(&self) -> (copy: PortablePath)
        ensures
            copy@ == self@,
    {
        proof {
            use_type_invariant(self);
        }
        let n = self.components.len();
        let mut kept: Vec<String> = Vec::new();
        let mut i: usize = 0;
        while i < n
            invariant
                n == self.components@.len(),
                0 <= i <= n,
                kept@.len() == i,
                forall|j: int| 0 <= j < i ==> (#[trigger] kept@[j])@ == self@[j],
            decreases n - i,
        {
            kept.push(self.components[i].clone());
            i = i + 1;
        }
        proof {
            assert(string_views(kept@) =~= self@);
        }
        PortablePath { components: kept }
    }
}

/// Joins `parts` by `/`.
pub(crate) fn join_parts(parts: &Vec<String>) -> (text: String)
    ensures
        text@ == joined(string_views(parts@)),
{
    let ghost cs = string_views(parts@);
    let n = parts.len();
    let mut text = String::new();
    let mut i: usize = 0;
    while i < n
        invariant
            n == parts@.len(),
            cs == string_views(parts@),
            0 <= i <= n,
            text@ == joined(cs.take(i as int)),
        decreases n - i,
    {
        proof {
            reveal_strlit("/");
            assert(cs.take(i + 1).drop_last() =~= cs.take(i as int));
            assert(cs.take(i + 1).last() == cs[i as int]);
            assert("/"@ =~= seq!['/']);
        }
        if i > 0 {
            text.append("/");
        }
        text.append(parts[i].as_str());
        proof {
            if i == 0 {
                assert(cs.take(0).len() == 0);
                assert(Seq::<char>::empty() + cs[0] =~= cs[0]);
            }
        }
        i = i + 1;
    }
    assert(cs.take(n as int) =~= cs);
    text
}

/// The error that rejects the component `s`.
fn invalid_component(s: &str) -> (e: Error)
    ensures
        e@ == ErrorView::InvalidArgument(invalid_component_message(s@)),
{
    let mut text = String::from_str("Invalid path component: ");
    text.append(s);
    Error::InvalidArgument(text)
}

impl PortablePath {
    #[verifier::type_invariant]
    spec fn well_formed(&self) -> bool {
        valid_path(self@)
    }

    /// The empty path, which denotes the root itself.
    pub fn root() -> (path: PortablePath)
        ensures
            path@ == Seq::<Seq<char>>::empty(),
    {
        let path = PortablePath { components: Vec::new() };
        assert(path@ =~= Seq::<Seq<char>>::empty());
        path
    }

    /// Builds a path from raw components, or rejects the first one that is
    /// empty, holds a separator, or is `.` or `..`.
    pub fn try_from(components: &[&str]) -> (r: Result<PortablePath, Error>)
        ensures
            match r {
                Ok(path) => accepted(str_views(components@)) == Some(path@),
                Err(e) => accepted(str_views(components@)) is None && exists|i: int|
                    #![trigger str_views(components@)[i]]
                    first_invalid(str_views(components@), i) && e@ == ErrorView::InvalidArgument(
                        invalid_component_message(str_views(components@)[i]),
                    ),
            },
    {
        let ghost cs = str_views(components@);
        let mut kept: Vec<String> = Vec::new();
        let mut i: usize = 0;
        while i < components.len()
            invariant
                0 <= i <= components.len(),
                cs == str_views(components@),
                kept@.len() == i,
                forall|j: int| 0 <= j < i ==> (#[trigger] kept@[j])@ == cs[j],
                forall|j: int| 0 <= j < i ==> valid_component(#[trigger] cs[j]),
            decreases components.len() - i,
        {
            let s: &str = components[i];
            assert(s@ == cs[i as int]);
            if !is_valid_component(s) {
                let e = invalid_component(s);
                assert(first_invalid(cs, i as int));
                return Err(e);
            }
            kept.push(String::from_str(s));
            i = i + 1;
        }
        let path = PortablePath { components: kept };
        assert(path@ =~= cs);
        Ok(path)
    }

    /// Reads a path from its text: the parts between `/` characters, empty
    /// parts dropped, each held to the rules for a component. A text that
    /// is `.` or `..` as a whole is rejected as such.
    pub fn from_native(s: &str) -> (r: Result<PortablePath, Error>)
        ensures
            match r {
                Ok(path) => accepted(native_parts(s@)) == Some(path@),
                Err(e) => rejects_text(s@, e@),
            },
    {
        let n = s.unicode_len();
        if (n == 1 && s.get_char(0) == '.') || (n == 2 && s.get_char(0) == '.' && s.get_char(1)
            == '.') {
            proof {
                if n == 1 {
                    assert(s@ =~= seq!['.']);
                } else {
                    assert(s@ =~= seq!['.', '.']);
                }
                dot_text_is_invalid(s@);
            }
            return Err(
                Error::InvalidArgument(
                    String::from_str("Path cannot contain '.' or '..' components"),
                ),
            );
        }
        assert(!(s@ == seq!['.'] || s@ == seq!['.', '.'])) by {
            assert(seq!['.'].len() == 1 && seq!['.'][0] == '.');
            assert(seq!['.', '.'].len() == 2 && seq!['.', '.'][0] == '.' && seq!['.', '.'][1]
                == '.');
        }
        let mut parts: Vec<&str> = Vec::new();
        let mut start: usize = 0;
        let mut i: usize = 0;
        for c in it: s.chars()
            invariant
                it.seq() == s@,
                n == s@.len(),
                i == it.index(),
                0 <= start <= i,
                str_views(parts@) == scanned(s@.take(i as int)).0,
                s@.subrange(start as int, i as int) == scanned(s@.take(i as int)).1,
        {
            proof {
                assert(s@.take(i + 1).drop_last() =~= s@.take(i as int));
                assert(s@.take(i + 1).last() == c);
            }
            if c == '/' {
                if i > start {
                    let part = s.substring_char(start, i);
                    parts.push(part);
                    assert(str_views(parts@) =~= scanned(s@.take(i as int)).0.push(part@));
                }
                start = i + 1;
                assert(s@.subrange(start as int, start as int) =~= Seq::<char>::empty());
            } else {
                assert(s@.subrange(start as int, i + 1) =~= s@.subrange(start as int, i as int).push(
                    c,
                ));
            }
            i = i + 1;
        }
        assert(s@.take(n as int) =~= s@);
        if n > start {
            let part = s.substring_char(start, n);
            parts.push(part);
            assert(str_views(parts@) =~= scanned(s@).0.push(part@));
        }
        assert(str_views(parts@) == native_parts(s@));
        PortablePath::try_from(parts.as_slice())
    }

    /// The text of the path: its components joined by `/`.
    pub fn to_string(&self) -> (text: String)
        ensures
            text@ == joined(self@),
    {
        join_parts(&self.components)
    }

    /// The components of the path, first to last.
    pub fn components(&self) -> (parts: &Vec<String>)
        ensures
            string_views(parts@) == self@,
            valid_path(self@),
    {
        proof {
            use_type_invariant(self);
        }
        &self.components
    }

    /// Gives up the path for its components, first to last.
    pub fn into_components(self) -> (parts: Vec<String>)
        ensures
            string_views(parts@) == self@,
            valid_path(self@),
    {
        proof {
            use_type_invariant(&self);
        }
        self.components
    }

    /// The snapshot of what stands at the path, from a probe of the file
    /// system: absent where nothing is there, and a read error where the
    /// metadata could not be had.
    pub fn get_file_stat(&self, probe: Result<Option<FileStat>, String>) -> (r: Result<
        Option<FileStat>,
        Error,
    >)
        ensures
            probe_outcome(probe, r),
    {
        match probe {
            Ok(found) => Ok(found),
            Err(cause) => Err(
                Error::ReadError { what: String::from_str("metadata"), how: cause },
            ),
        }
    }

    /// The record of the path alone, from a probe of the file system. A
    /// path at which nothing stands gets a record without a snapshot.
    pub fn lookup(&self, probe: Result<Option<FileStat>, String>) -> (r: Result<SyncItem, Error>)
        ensures
            match r {
                Ok(item) => item.path@ == self@ && probe_outcome(
                    probe,
                    Ok::<Option<FileStat>, Error>(item.stats),
                ),
                Err(e) => probe_outcome(probe, Err::<Option<FileStat>, Error>(e)),
            },
    {
        match self.get_file_stat(probe) {
            Ok(stats) => Ok(SyncItem { path: self.clone(), stats }),
            Err(e) => Err(e),
        }
    }

    /// The last component, which names the file or directory itself.
    pub fn basename(&self) -> (name: Option<&str>)
        ensures
            match name {
                Some(s) => self@.len() > 0 && s@ == self@.last(),
                None => self@.len() == 0,
            },
    {
        let n = self.components.len();
        if n == 0 {
            None
        } else {
            Some(self.components[n - 1].as_str())
        }
    }

    /// The path without its last component; the empty path has no parent.
    pub fn parent(&self) -> (up: Option<PortablePath>)
        ensures
            match up {
                Some(p) => self@.len() > 0 && p@ == self@.drop_last(),
                None => self@.len() == 0,
            },
    {
        proof {
            use_type_invariant(self);
        }
        let n = self.components.len();
        if n == 0 {
            return None;
        }
        let mut kept: Vec<String> = Vec::new();
        let mut i: usize = 0;
        while i < n - 1
            invariant
                n == self.components@.len(),
                n > 0,
                0 <= i <= n - 1,
                kept@.len() == i,
                forall|j: int| 0 <= j < i ==> (#[trigger] kept@[j])@ == self@[j],
            decreases n - 1 - i,
        {
            kept.push(self.components[i].clone());
            i = i + 1;
        }
        let up = PortablePath { components: kept };
        assert(up@ =~= self@.drop_last());
        Some(up)
    }

    /// Appends `component` if it is valid, and otherwise rejects it and
    /// leaves the path as it was.
    pub fn push(&mut self, component: &str) -> (r: Result<(), Error>)
        ensures
            match r {
                Ok(()) => valid_component(component@) && final(self)@ == old(self)@.push(
                    component@,
                ),
                Err(e) => !valid_component(component@) && final(self)@ == old(self)@ && e@
                    == ErrorView::InvalidArgument(invalid_component_message(component@)),
            },
    {
        proof {
            use_type_invariant(&*self);
        }
        if !is_valid_component(component) {
            return Err(invalid_component(component));
        }
        let mut parts: Vec<String> = Vec::new();
        core::mem::swap(&mut self.components, &mut parts);
        parts.push(String::from_str(component));
        proof {
            let extended = old(self)@.push(component@);
            assert(string_views(parts@) =~= extended);
            assert forall|j: int| 0 <= j < extended.len() implies valid_component(
                #[trigger] extended[j],
            ) by {
                if j < old(self)@.len() {
                    assert(extended[j] == old(self)@[j]);
                }
            }
        }
        self.components = parts;
        Ok(())
    }
}

/// Reading on through a text without `/` only lengthens the open part.
proof fn scanned_through_part(text: Seq<char>, part: Seq<char>)
    requires
        !part.contains('/'),
    ensures
        scanned(text + part) == (scanned(text).0, scanned(text).1 + part),
    decreases part.len(),
{
    if part.len() == 0 {
        assert(text + part =~= text);
        assert(scanned(text).1 + part =~= scanned(text).1);
    } else {
        let shorter = part.drop_last();
        assert(part[part.len() - 1] == part.last());
        assert(part.contains(part.last()));
        assert(!shorter.contains('/')) by {
            if shorter.contains('/') {
                let j = choose|j: int| 0 <= j < shorter.len() && shorter[j] == '/';
                assert(part[j] == '/');
            }
        }
        scanned_through_part(text, shorter);
        assert((text + part).drop_last() =~= text + shorter);
        assert((text + part).last() == part.last());
        assert((scanned(text).1 + shorter).push(part.last()) =~= scanned(text).1 + part);
    }
}

/// The text of a valid path, read from the left, closes all components but
/// the last, which is still open at the end.
proof fn scanned_joined(cs: Seq<Seq<char>>)
    requires
        valid_path(cs),
        cs.len() > 0,
    ensures
        scanned(joined(cs)) == (cs.drop_last(), cs.last()),
    decreases cs.len(),
{
    let none = Seq::<char>::empty();
    if cs.len() == 1 {
        assert(valid_component(cs[0]));
        scanned_through_part(none, cs[0]);
        assert(none + cs[0] =~= cs[0]);
        assert(cs.drop_last() =~= Seq::<Seq<char>>::empty());
    } else {
        let init = cs.drop_last();
        assert forall|i: int| 0 <= i < init.len() implies valid_component(#[trigger] init[i]) by {
            assert(init[i] == cs[i]);
        }
        scanned_joined(init);
        let text = joined(init) + seq!['/'];
        assert(text.drop_last() =~= joined(init));
        assert(text.last() == '/');
        assert(valid_component(init[init.len() - 1]));
        assert(init.drop_last().push(init.last()) =~= init);
        assert(scanned(text) == (init, none));
        assert(valid_component(cs[cs.len() - 1]));
        scanned_through_part(text, cs.last());
        assert(none + cs.last() =~= cs.last());
    }
}

/// A valid path survives being handed on as its components and accepted
/// again: what comes back is the path.
pub proof fn components_round_trip(cs: Seq<Seq<char>>)
    requires
        valid_path(cs),
    ensures
        accepted(cs) == Some(cs),
{
}

/// A valid path survives being written as text and read back: the parts
/// of the joined components are the components, and they are accepted as
/// the path.
pub proof fn text_round_trip(cs: Seq<Seq<char>>)
    requires
        valid_path(cs),
    ensures
        native_parts(joined(cs)) == cs,
        accepted(native_parts(joined(cs))) == Some(cs),
{
    if cs.len() == 0 {
        assert(native_parts(joined(cs)) =~= cs);
    } else {
        scanned_joined(cs);
        assert(valid_component(cs[cs.len() - 1]));
        assert(cs.drop_last().push(cs.last()) =~= cs);
    }
}

/// The text `.` or `..` has one part, itself, which is no valid component.
pub proof fn dot_text_is_invalid(text: Seq<char>)
    requires
        text == seq!['.'] || text == seq!['.', '.'],
    ensures
        native_parts(text) == seq![text],
        !valid_path(native_parts(text)),
{
    let none = Seq::<char>::empty();
    assert(text.len() > 0);
    assert(!text.contains('/')) by {
        if text.contains('/') {
            let j = choose|j: int| 0 <= j < text.len() && text[j] == '/';
            assert(text[j] == '.');
        }
    }
    scanned_through_part(none, text);
    assert(none + text =~= text);
    assert(scanned(none) == (Seq::<Seq<char>>::empty(), none));
    assert(native_parts(text) =~= seq![text]);
    assert(!valid_component(native_parts(text)[0]));
}

/// A component that is `.` or `..` makes a sequence invalid wherever it
/// stands.
pub proof fn dots_are_rejected(cs: Seq<Seq<char>>, i: int)
    requires
        0 <= i < cs.len(),
        cs[i] == seq!['.'] || cs[i] == seq!['.', '.'],
    ensures
        accepted(cs) is None,
        exists|j: int| first_invalid(cs, j),
{
    assert(!valid_component(cs[i]));
    first_invalid_exists(cs, i);
}

/// A sequence with an invalid component has a first one.
proof fn first_invalid_exists(cs: Seq<Seq<char>>, i: int)
    requires
        0 <= i < cs.len(),
        !valid_component(cs[i]),
    ensures
        exists|j: int| first_invalid(cs, j),
    decreases i,
{
    if exists|k: int| 0 <= k < i && !valid_component(cs[k]) {
        let k = choose|k: int| 0 <= k < i && !valid_component(cs[k]);
        first_invalid_exists(cs, k);
    } else {
        assert(first_invalid(cs, i));
    }
}

} // verus!
