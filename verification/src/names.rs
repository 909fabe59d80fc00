//! Lists of node ids used as sets. Two ids are the same where they read the
//! same.

use vstd::prelude::*;
use crate::utils::{absent, distinct, union_of, views};

verus! {

/// Whether `set` holds `name`.
pub fn holds_name(set: &Vec<String>, name: &String) -> (found: bool)
    ensures
        found == views(set@).contains(name@),
{
    let mut i: usize = 0;
    while i < set.len()
        invariant
            i <= set.len(),
            forall|j: int| 0 <= j < i ==> (#[trigger] set@[j])@ != name@,
        decreases set.len() - i,
    {
        if set[i] == *name {
            assert(views(set@)[i as int] == name@);
            return true;
        }
        i = i + 1;
    }
    false
}

/// Copies of the ids of `a` in their order, then of those of `b` that `a`
/// lacks, none twice.
pub fn merge_names(a: &Vec<String>, b: &Vec<String>) -> (merged: Vec<String>)
    ensures
        views(merged@) == union_of(views(a@), views(b@)),
{
    let mut merged: Vec<String> = Vec::new();
    let mut i: usize = 0;
    while i < a.len()
        invariant
            i <= a.len(),
            views(merged@) == distinct(views(a@).take(i as int)),
        decreases a.len() - i,
    {
        proof {
            assert(views(a@).take(i + 1).drop_last() == views(a@).take(i as int));
        }
        if !holds_name(&merged, &a[i]) {
            merged.push(a[i].clone());
        }
        i = i + 1;
    }
    assert(views(a@).take(a@.len() as int) == views(a@));
    let mut k: usize = 0;
    while k < b.len()
        invariant
            k <= b.len(),
            views(merged@) == distinct(views(a@) + views(b@).take(k as int)),
        decreases b.len() - k,
    {
        proof {
            assert((views(a@) + views(b@).take(k + 1)).drop_last() == views(a@) + views(b@).take(
                k as int,
            ));
        }
        if !holds_name(&merged, &b[k]) {
            merged.push(b[k].clone());
        }
        k = k + 1;
    }
    assert(views(b@).take(b@.len() as int) == views(b@));
    merged
}

/// Copies of the ids of `list` that `set` lacks, in their order.
pub fn names_absent(list: &Vec<String>, set: &Vec<String>) -> (rest: Vec<String>)
    ensures
        views(rest@) == absent(views(list@), views(set@)),
{
    let mut rest: Vec<String> = Vec::new();
    let mut i: usize = 0;
    while i < list.len()
        invariant
            i <= list.len(),
            views(rest@) == absent(views(list@).take(i as int), views(set@)),
        decreases list.len() - i,
    {
        proof {
            assert(views(list@).take(i + 1).drop_last() == views(list@).take(i as int));
        }
        if !holds_name(set, &list[i]) {
            rest.push(list[i].clone());
        }
        i = i + 1;
    }
    assert(views(list@).take(list@.len() as int) == views(list@));
    rest
}

} // verus!
