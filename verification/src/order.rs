//! The order of workspaces by their coordinates.

use vstd::prelude::*;

verus! {

/// Whether one list of numbers comes before another: by the first number that differs, and
/// otherwise the shorter list first.
pub open spec fn before(a: Seq<u32>, b: Seq<u32>) -> bool
    decreases a.len(),
{
    if b.len() == 0 {
        false
    } else if a.len() == 0 {
        true
    } else if a[0] != b[0] {
        a[0] < b[0]
    } else {
        before(a.skip(1), b.skip(1))
    }
}

/// Of two lists at most one comes before the other, and none only if they are equal.
pub proof fn lemma_before_total(a: Seq<u32>, b: Seq<u32>)
    ensures
        !(before(a, b) && before(b, a)),
        !before(a, b) && !before(b, a) <==> a == b,
    decreases a.len(),
{
    if a.len() == 0 || b.len() == 0 {
        if a.len() == b.len() {
            assert(a =~= b);
        }
    } else if a[0] == b[0] {
        lemma_before_total(a.skip(1), b.skip(1));
        if a.skip(1) == b.skip(1) {
            assert(a =~= seq![a[0]] + a.skip(1));
            assert(b =~= seq![b[0]] + b.skip(1));
        }
    }
}

/// Not to come before is transitive.
pub proof fn lemma_not_before_transitive(a: Seq<u32>, b: Seq<u32>, c: Seq<u32>)
    requires
        !before(a, b),
        !before(b, c),
    ensures
        !before(a, c),
    decreases a.len(),
{
    if a.len() > 0 && b.len() > 0 && c.len() > 0 && a[0] == b[0] && b[0] == c[0] {
        lemma_not_before_transitive(a.skip(1), b.skip(1), c.skip(1));
    }
}

/// Whether one list of numbers comes before another.
pub fn comes_before(a: &Vec<u32>, b: &Vec<u32>) -> (r: bool)
    ensures
        r == before(a@, b@),
{
    let mut i: usize = 0;
    assert(a@.skip(0) =~= a@);
    assert(b@.skip(0) =~= b@);
    while i < a.len() && i < b.len()
        invariant
            i <= a@.len(),
            i <= b@.len(),
            before(a@, b@) == before(a@.skip(i as int), b@.skip(i as int)),
        decreases a@.len() - i,
    {
        assert(a@.skip(i as int).skip(1) =~= a@.skip(i + 1));
        assert(b@.skip(i as int).skip(1) =~= b@.skip(i + 1));
        if a[i] != b[i] {
            return a[i] < b[i];
        }
        i += 1;
    }
    i < b.len()
}

/// Lists are ordered by the first place at which they differ: a common beginning decides
/// nothing, behind it the smaller number comes first, and a list comes before any longer one
/// that it begins.
pub proof fn law_first_difference_decides(
    common: Seq<u32>,
    x: u32,
    a: Seq<u32>,
    y: u32,
    b: Seq<u32>,
)
    ensures
        x < y ==> before(common + seq![x] + a, common + seq![y] + b),
        x > y ==> !before(common + seq![x] + a, common + seq![y] + b),
        before(common, common + seq![y] + b),
        !before(common + seq![x] + a, common),
        !before(common, common),
        before(common + a, common + b) == before(a, b),
    decreases common.len(),
{
    if common.len() == 0 {
        assert(common + seq![x] + a =~= seq![x] + a);
        assert(common + seq![y] + b =~= seq![y] + b);
        assert(common + a =~= a);
        assert(common + b =~= b);
    } else {
        let rest = common.skip(1);
        law_first_difference_decides(rest, x, a, y, b);
        assert((common + seq![x] + a).skip(1) =~= rest + seq![x] + a);
        assert((common + seq![y] + b).skip(1) =~= rest + seq![y] + b);
        assert((common + a).skip(1) =~= rest + a);
        assert((common + b).skip(1) =~= rest + b);
    }
}

} // verus!
