//! The order of texts: character by character, each by its number.
use vstd::prelude::*;

verus! {

/// Whether the text `a` stands before the text `b`: at the first place
/// where they differ `a` has the character with the smaller number, or `a`
/// ends there and `b` goes on.
pub open spec fn text_before(a: Seq<char>, b: Seq<char>) -> bool
    decreases a.len(),
{
    if b.len() == 0 {
        false
    } else if a.len() == 0 {
        true
    } else if (a[0] as u32) != (b[0] as u32) {
        (a[0] as u32) < (b[0] as u32)
    } else {
        text_before(a.drop_first(), b.drop_first())
    }
}

/// The characters of `s`.
pub(crate) fn chars_of(s: &str) -> (v: Vec<char>)
    ensures
        v@ == s@,
{
    let mut v: Vec<char> = Vec::new();
    for c in it: s.chars()
        invariant
            it.seq() == s@,
            v@ == s@.take(it.index() as int),
    {
        v.push(c);
        assert(s@.take(it.index() + 1) =~= s@.take(it.index() as int).push(c));
    }
    assert(s@.take(s@.len() as int) =~= s@);
    v
}

/// Decides whether the text `a` stands before the text `b`.
pub fn name_before(a: &str, b: &str) -> (r: bool)
    ensures
        r == text_before(a@, b@),
{
    let x = chars_of(a);
    let y = chars_of(b);
    let mut i: usize = 0;
    assert(a@.skip(0) =~= a@ && b@.skip(0) =~= b@);
    loop
        invariant
            x@ == a@,
            y@ == b@,
            0 <= i <= x@.len(),
            i <= y@.len(),
            text_before(a@, b@) == text_before(a@.skip(i as int), b@.skip(i as int)),
        decreases x@.len() - i,
    {
        proof {
            if i < x@.len() && i < y@.len() {
                assert(a@.skip(i as int).drop_first() =~= a@.skip(i + 1));
                assert(b@.skip(i as int).drop_first() =~= b@.skip(i + 1));
            }
        }
        if i >= y.len() {
            return false;
        }
        if i >= x.len() {
            return true;
        }
        let p = x[i] as u32;
        let q = y[i] as u32;
        if p != q {
            return p < q;
        }
        i = i + 1;
    }
}

/// Of two texts of which one stands before the other, only one does.
pub proof fn text_before_is_one_way(a: Seq<char>, b: Seq<char>)
    requires
        text_before(a, b),
    ensures
        !text_before(b, a),
    decreases a.len(),
{
    if a.len() > 0 && b.len() > 0 && (a[0] as u32) == (b[0] as u32) {
        text_before_is_one_way(a.drop_first(), b.drop_first());
    }
}

/// A text that stands before another stands before every text between:
/// any third text is behind the first or before the second.
pub proof fn text_before_splits(a: Seq<char>, b: Seq<char>, c: Seq<char>)
    requires
        text_before(a, c),
    ensures
        text_before(a, b) || text_before(b, c),
    decreases a.len(),
{
    if b.len() > 0 && a.len() > 0 && (a[0] as u32) == (c[0] as u32) && (b[0] as u32) == (
    a[0] as u32) {
        text_before_splits(a.drop_first(), b.drop_first(), c.drop_first());
    }
}

/// Characters with the same number are the same character.
proof fn same_number_same_char(a: char, b: char)
    requires
        a as u32 == b as u32,
    ensures
        a == b,
{
}

/// Of two texts, one stands before the other, or they are the same text.
pub proof fn texts_are_ordered(a: Seq<char>, b: Seq<char>)
    ensures
        (!text_before(a, b) && !text_before(b, a)) <==> a == b,
    decreases a.len(),
{
    if a.len() > 0 && b.len() > 0 {
        texts_are_ordered(a.drop_first(), b.drop_first());
        if (a[0] as u32) == (b[0] as u32) {
            same_number_same_char(a[0], b[0]);
            if a.drop_first() == b.drop_first() {
                assert(a =~= seq![a[0]] + a.drop_first());
                assert(b =~= seq![b[0]] + b.drop_first());
                assert(a == b);
            } else {
                assert(a != b);
            }
        } else {
            assert(a[0] != b[0]);
            assert(a != b);
            assert(text_before(a, b) || text_before(b, a));
        }
    } else if a.len() == 0 && b.len() == 0 {
        assert(a =~= b);
    } else {
        assert(a.len() != b.len());
        assert(text_before(a, b) || text_before(b, a));
    }
}

} // verus!
