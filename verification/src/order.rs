//! The order of texts: character by character, a prefix before what it starts.
use vstd::prelude::*;

use crate::text::chars_of;

verus! {

/// Whether `a` comes strictly before `b`.
pub open spec fn before(a: Seq<char>, b: Seq<char>) -> bool
    decreases a.len(),
{
    if b.len() == 0 {
        false
    } else if a.len() == 0 {
        true
    } else if a[0] != b[0] {
        a[0] < b[0]
    } else {
        before(a.drop_first(), b.drop_first())
    }
}

/// Two texts are ordered one way, the other way, or equal.
pub proof fn lemma_before_total(a: Seq<char>, b: Seq<char>)
    ensures
        before(a, b) || before(b, a) || a == b,
        !(before(a, b) && before(b, a)),
        a == b ==> !before(a, b),
    decreases a.len(),
{
    if a.len() > 0 && b.len() > 0 {
        lemma_before_total(a.drop_first(), b.drop_first());
        if a[0] == b[0] && a.drop_first() == b.drop_first() {
            assert(a =~= seq![a[0]] + a.drop_first());
            assert(b =~= seq![b[0]] + b.drop_first());
        }
    } else {
        if a.len() == 0 && b.len() == 0 {
            assert(a =~= b);
        }
    }
}

/// The order is transitive.
pub proof fn lemma_before_transitive(a: Seq<char>, b: Seq<char>, c: Seq<char>)
    requires
        before(a, b),
        before(b, c),
    ensures
        before(a, c),
    decreases a.len(),
{
    if a.len() > 0 && a[0] == b[0] && b[0] == c[0] {
        lemma_before_transitive(a.drop_first(), b.drop_first(), c.drop_first());
    }
}

/// Skipping a common prefix does not change the order.
proof fn lemma_before_skip(a: Seq<char>, b: Seq<char>, k: int)
    requires
        0 <= k <= a.len(),
        k <= b.len(),
        forall|j: int| 0 <= j < k ==> a[j] == b[j],
    ensures
        before(a, b) == before(a.skip(k), b.skip(k)),
    decreases k,
{
    if k > 0 {
        lemma_before_skip(a, b, k - 1);
        let x = a.skip(k - 1);
        let y = b.skip(k - 1);
        assert(x[0] == y[0]);
        assert(x.drop_first() =~= a.skip(k));
        assert(y.drop_first() =~= b.skip(k));
    } else {
        assert(a.skip(0) =~= a);
        assert(b.skip(0) =~= b);
    }
}

/// Whether `a` comes strictly before `b`.
pub fn is_before(a: &str, b: &str) -> (r: bool)
    ensures
        r == before(a@, b@),
{
    let xs = chars_of(a);
    let ys = chars_of(b);
    let mut i: usize = 0;
    while i < xs.len() && i < ys.len() && xs[i] == ys[i]
        invariant
            i <= xs.len(),
            i <= ys.len(),
            forall|j: int| 0 <= j < i ==> xs@[j] == ys@[j],
        decreases xs.len() - i,
    {
        i = i + 1;
    }
    proof {
        lemma_before_skip(a@, b@, i as int);
    }
    if i >= ys.len() {
        false
    } else if i >= xs.len() {
        true
    } else {
        xs[i] < ys[i]
    }
}

/// The first place where two texts differ decides which comes first, by the lower
/// character; and where one text starts the other, the shorter comes first.
pub proof fn the_first_difference_decides(a: &str, b: &str, at: int, r: bool)
    requires
        call_ensures(is_before, (a, b), r),
        0 <= at <= a@.len(),
        at <= b@.len(),
        forall|j: int| 0 <= j < at ==> a@[j] == b@[j],
    ensures
        at < a@.len() && at < b@.len() && a@[at] < b@[at] ==> r,
        at < a@.len() && at < b@.len() && a@[at] > b@[at] ==> !r,
        at == a@.len() && at < b@.len() ==> r,
        at == b@.len() ==> !r,
{
    lemma_first_difference(a@, b@, at);
}

proof fn lemma_first_difference(a: Seq<char>, b: Seq<char>, at: int)
    requires
        0 <= at <= a.len(),
        at <= b.len(),
        forall|j: int| 0 <= j < at ==> a[j] == b[j],
    ensures
        at < a.len() && at < b.len() && a[at] < b[at] ==> before(a, b),
        at < a.len() && at < b.len() && a[at] > b[at] ==> !before(a, b),
        at == a.len() && at < b.len() ==> before(a, b),
        at == b.len() ==> !before(a, b),
{
    lemma_before_skip(a, b, at);
    if at < a.len() && at < b.len() {
        assert(a.skip(at)[0] == a[at]);
        assert(b.skip(at)[0] == b[at]);
    }
}

/// Of two texts in order, one starts the other, or the first character in which they
/// differ is the lower one.
pub proof fn lemma_why_before(a: Seq<char>, b: Seq<char>) -> (at: int)
    requires
        before(a, b),
    ensures
        0 <= at <= a.len(),
        at < b.len(),
        forall|j: int| 0 <= j < at ==> a[j] == b[j],
        at == a.len() || a[at] < b[at],
    decreases a.len(),
{
    if a.len() == 0 || a[0] != b[0] {
        0
    } else {
        let rest = lemma_why_before(a.drop_first(), b.drop_first());
        assert forall|j: int| 0 <= j < rest + 1 implies a[j] == b[j] by {
            if j > 0 {
                assert(a.drop_first()[j - 1] == a[j]);
                assert(b.drop_first()[j - 1] == b[j]);
            }
        }
        rest + 1
    }
}

} // verus!
