//! Set union of two collections, the step by which replicas converge.

pub mod await_event;

use vstd::prelude::*;
use vstd::laws_eq::obeys_view_eq;
use std::hash::Hash;

verus! {

/// The views of the elements of `s`, in their order.
pub open spec fn views<T: View>(s: Seq<T>) -> Seq<T::V> {
    s.map_values(|x: T| x@)
}

/// Where the views of `after` are those of `before` followed by `added`,
/// what `after` holds behind the length of `before` has the views `added`.
pub proof fn lemma_views_of_tail<T: View>(before: Seq<T>, after: Seq<T>, added: Seq<T::V>)
    requires
        views(after) == views(before) + added,
    ensures
        after.len() == before.len() + added.len(),
        views(after.skip(before.len() as int)) == added,
{
    assert(views(after).len() == after.len());
    let tail = after.skip(before.len() as int);
    assert forall|i: int| 0 <= i < added.len() implies views(tail)[i] == added[i] by {
        assert(views(after)[before.len() + i] == added[i]);
    }
}

/// The elements of `s` in their order, each kept where it occurs first and
/// dropped where it occurs again.
pub open spec fn distinct<V>(s: Seq<V>) -> Seq<V>
    decreases s.len(),
{
    if s.len() == 0 {
        Seq::empty()
    } else {
        let front = distinct(s.drop_last());
        if front.contains(s.last()) {
            front
        } else {
            front.push(s.last())
        }
    }
}

/// The union of `a` and `b` as a sequence: what `a` holds, then what only
/// `b` holds, nothing twice.
pub open spec fn union_of<V>(a: Seq<V>, b: Seq<V>) -> Seq<V> {
    distinct(a + b)
}

/// The elements of `list` that `set` lacks, in their order.
pub open spec fn absent<V>(list: Seq<V>, set: Seq<V>) -> Seq<V>
    decreases list.len(),
{
    if list.len() == 0 {
        Seq::empty()
    } else {
        let front = absent(list.drop_last(), set);
        if set.contains(list.last()) {
            front
        } else {
            front.push(list.last())
        }
    }
}

/// `distinct(s)` holds a value exactly where `s` does.
pub proof fn lemma_distinct_contains<V>(s: Seq<V>, x: V)
    ensures
        distinct(s).contains(x) <==> s.contains(x),
    decreases s.len(),
{
    if s.len() > 0 {
        let front = s.drop_last();
        let d = distinct(front);
        lemma_distinct_contains(front, x);
        lemma_distinct_contains(front, s.last());
        if s.contains(x) {
            let k = choose|k: int| 0 <= k < s.len() && s[k] == x;
            if k < front.len() {
                assert(front[k] == x);
                let i = choose|i: int| 0 <= i < d.len() && d[i] == x;
                assert(distinct(s)[i] == x);
            } else if !d.contains(s.last()) {
                assert(distinct(s)[d.len() as int] == x);
            }
        }
    }
}

/// `distinct(s)` stands for the same set as `s` and holds nothing twice.
pub proof fn lemma_distinct<V>(s: Seq<V>)
    ensures
        distinct(s).no_duplicates(),
        distinct(s).to_set() == s.to_set(),
        distinct(s).len() <= s.len(),
    decreases s.len(),
{
    if s.len() > 0 {
        lemma_distinct(s.drop_last());
    }
    assert forall|x: V| distinct(s).to_set().contains(x) <==> s.to_set().contains(x) by {
        lemma_distinct_contains(s, x);
    }
}

/// A sequence that holds nothing twice is its own `distinct`.
pub proof fn lemma_distinct_fixed<V>(s: Seq<V>)
    requires
        s.no_duplicates(),
    ensures
        distinct(s) == s,
    decreases s.len(),
{
    if s.len() > 0 {
        lemma_distinct_fixed(s.drop_last());
    }
}

/// What `s` holds already adds nothing to it.
pub proof fn lemma_distinct_absorbs<V>(s: Seq<V>, t: Seq<V>)
    requires
        forall|k: int| 0 <= k < t.len() ==> s.contains(#[trigger] t[k]),
    ensures
        distinct(s + t) == distinct(s),
    decreases t.len(),
{
    if t.len() > 0 {
        let front = t.drop_last();
        lemma_distinct_absorbs(s, front);
        assert((s + t).drop_last() == s + front);
        lemma_distinct_contains(s, t.last());
    }
}

/// `distinct(s + t)` begins with `distinct(s)`: merging never removes or
/// reorders what was there.
pub proof fn lemma_distinct_extends<V>(s: Seq<V>, t: Seq<V>)
    ensures
        distinct(s).is_prefix_of(distinct(s + t)),
    decreases t.len(),
{
    if t.len() > 0 {
        lemma_distinct_extends(s, t.drop_last());
        assert((s + t).drop_last() == s + t.drop_last());
    }
}

/// The union stands for the union of the two sets and holds nothing twice.
pub proof fn lemma_union_is_set_union<V>(a: Seq<V>, b: Seq<V>)
    ensures
        union_of(a, b).no_duplicates(),
        union_of(a, b).to_set() == a.to_set().union(b.to_set()),
{
    lemma_distinct(a + b);
    assert forall|v: V| (a + b).to_set().contains(v) <==> a.to_set().union(b.to_set()).contains(
        v,
    ) by {
        if a.contains(v) {
            let i = choose|i: int| 0 <= i < a.len() && a[i] == v;
            assert((a + b)[i] == v);
        }
        if b.contains(v) {
            let i = choose|i: int| 0 <= i < b.len() && b[i] == v;
            assert((a + b)[i + a.len()] == v);
        }
    }
}

/// Merging is commutative: both orders stand for the same set.
pub proof fn lemma_union_commutative<V>(a: Seq<V>, b: Seq<V>)
    ensures
        union_of(a, b).to_set() == union_of(b, a).to_set(),
{
    lemma_union_is_set_union(a, b);
    lemma_union_is_set_union(b, a);
}

/// Merging is associative: both groupings stand for the same set.
pub proof fn lemma_union_associative<V>(a: Seq<V>, b: Seq<V>, c: Seq<V>)
    ensures
        union_of(union_of(a, b), c).to_set() == union_of(a, union_of(b, c)).to_set(),
{
    lemma_union_is_set_union(a, b);
    lemma_union_is_set_union(union_of(a, b), c);
    lemma_union_is_set_union(b, c);
    lemma_union_is_set_union(a, union_of(b, c));
}

/// Merging is idempotent: a collection merged with itself stands for the
/// same set, and is the same sequence where it holds nothing twice.
pub proof fn lemma_union_idempotent<V>(a: Seq<V>)
    ensures
        union_of(a, a).to_set() == a.to_set(),
        a.no_duplicates() ==> union_of(a, a) == a,
{
    lemma_union_is_set_union(a, a);
    lemma_distinct_absorbs(a, a);
    if a.no_duplicates() {
        lemma_distinct_fixed(a);
    }
}

/// Merging in what is already there changes nothing, order included.
pub proof fn lemma_union_absorbs<V>(a: Seq<V>, b: Seq<V>)
    requires
        a.no_duplicates(),
        b.to_set().subset_of(a.to_set()),
    ensures
        union_of(a, b) == a,
{
    assert forall|k: int| 0 <= k < b.len() implies a.contains(#[trigger] b[k]) by {
        assert(b.to_set().contains(b[k]));
    }
    lemma_distinct_absorbs(a, b);
    lemma_distinct_fixed(a);
}

/// Merging the same collection in a second time changes nothing.
pub proof fn lemma_union_repeated<V>(a: Seq<V>, b: Seq<V>)
    ensures
        union_of(union_of(a, b), b) == union_of(a, b),
{
    lemma_union_is_set_union(a, b);
    lemma_union_absorbs(union_of(a, b), b);
}

/// Adds `x` to `acc` unless `acc` holds an element with its view already.
fn absorb<T: Eq + View>(acc: &mut Vec<T>, x: T)
    requires
        obeys_view_eq::<T>(),
    ensures
        views(final(acc)@) == if views(old(acc)@).contains(x@) {
            views(old(acc)@)
        } else {
            views(old(acc)@).push(x@)
        },
{
    let mut i: usize = 0;
    while i < acc.len()
        invariant
            i <= acc.len(),
            acc@ == old(acc)@,
            obeys_view_eq::<T>(),
            forall|j: int| 0 <= j < i ==> (#[trigger] acc@[j])@ != x@,
        decreases acc.len() - i,
    {
        proof {
            reveal(obeys_view_eq);
        }
        if acc[i] == x {
            assert(views(acc@)[i as int] == x@);
            return ;
        }
        i = i + 1;
    }
    acc.push(x);
}

/// The set union of `a` and `b` as a collection without repetition: the
/// elements of `a` in their order, then those of `b` that `a` lacks. Two
/// elements count as the same where `==` says so, which is where their views
/// are equal.
pub fn merge_messages<T: Hash + Eq + Clone + View>(a: Vec<T>, b: Vec<T>) -> (merged: Vec<T>)
    requires
        obeys_view_eq::<T>(),
    ensures
        views(merged@) == union_of(views(a@), views(b@)),
{
    let mut merged: Vec<T> = Vec::new();
    for x in iter: a
        invariant
            obeys_view_eq::<T>(),
            iter.seq() == a@,
            views(merged@) == distinct(views(a@).take(iter.index() as int)),
    {
        proof {
            let n = iter.index() as int;
            assert(views(a@).take(n + 1).drop_last() == views(a@).take(n));
        }
        absorb(&mut merged, x);
    }
    assert(views(a@).take(a@.len() as int) == views(a@));
    for y in iter: b
        invariant
            obeys_view_eq::<T>(),
            iter.seq() == b@,
            views(merged@) == distinct(views(a@) + views(b@).take(iter.index() as int)),
    {
        proof {
            let n = iter.index() as int;
            assert((views(a@) + views(b@).take(n + 1)).drop_last() == views(a@) + views(b@).take(
                n,
            ));
        }
        absorb(&mut merged, y);
    }
    assert(views(b@).take(b@.len() as int) == views(b@));
    merged
}

} // verus!
