//! Facts about sequences whose records carry identities in growing order.

use vstd::prelude::*;

verus! {

/// Whether the keys that `key` reads from the records of `s` grow from each
/// record to the next.
pub open spec fn ascending<A>(s: Seq<A>, key: spec_fn(A) -> nat) -> bool {
    forall|i: int, j: int| 0 <= i < j < s.len() ==> key(#[trigger] s[i]) < key(#[trigger] s[j])
}

/// Filtering keeps records of the sequence that pass, and keeps them in
/// growing order of their keys.
pub proof fn lemma_filter_ascending<A>(s: Seq<A>, pass: spec_fn(A) -> bool, key: spec_fn(A) -> nat)
    requires
        ascending(s, key),
    ensures
        ascending(s.filter(pass), key),
        forall|i: int|
            0 <= i < s.filter(pass).len() ==> pass(#[trigger] s.filter(pass)[i]) && s.contains(
                s.filter(pass)[i],
            ),
        forall|i: int| 0 <= i < s.len() && pass(s[i]) ==> s.filter(pass).contains(#[trigger] s[i]),
    decreases s.len(),
{
    reveal(Seq::filter);
    if s.len() > 0 {
        let rest = s.drop_last();
        lemma_filter_ascending(rest, pass, key);
        let kept = rest.filter(pass);
        assert forall|i: int| 0 <= i < kept.len() implies key(#[trigger] kept[i]) < key(
            s.last(),
        ) && s.contains(kept[i]) by {
            assert(rest.contains(kept[i]));
            let k = choose|k: int| 0 <= k < rest.len() && rest[k] == kept[i];
            assert(s[k] == kept[i]);
        }
        let out = s.filter(pass);
        assert forall|i: int| 0 <= i < s.len() && pass(s[i]) implies out.contains(
            #[trigger] s[i],
        ) by {
            if i < rest.len() {
                assert(rest[i] == s[i]);
                assert(kept.contains(rest[i]));
                let k = choose|k: int| 0 <= k < kept.len() && kept[k] == rest[i];
                assert(out[k] == s[i]);
            } else {
                assert(out[out.len() - 1] == s[i]);
            }
        }
        assert forall|i: int| 0 <= i < out.len() implies pass(#[trigger] out[i]) && s.contains(
            out[i],
        ) by {
            if i < kept.len() {
                assert(out[i] == kept[i]);
            } else {
                assert(out[i] == s[s.len() - 1]);
            }
        }
        assert forall|i: int, j: int| 0 <= i < j < out.len() implies key(#[trigger] out[i]) < key(
            #[trigger] out[j],
        ) by {
            if j < kept.len() {
                assert(out[i] == kept[i] && out[j] == kept[j]);
            } else {
                assert(out[i] == kept[i]);
            }
        }
    }
}

/// Filtering by a test that every record passes changes nothing.
pub proof fn lemma_filter_all<A>(s: Seq<A>, pass: spec_fn(A) -> bool)
    requires
        forall|i: int| 0 <= i < s.len() ==> pass(#[trigger] s[i]),
    ensures
        s.filter(pass) == s,
    decreases s.len(),
{
    reveal(Seq::filter);
    if s.len() > 0 {
        lemma_filter_all(s.drop_last(), pass);
        assert(s.drop_last().push(s.last()) =~= s);
    }
}

/// Filtering a filtered sequence by the same test changes nothing.
pub proof fn lemma_filter_twice<A>(s: Seq<A>, pass: spec_fn(A) -> bool)
    ensures
        s.filter(pass).filter(pass) == s.filter(pass),
{
    assert forall|i: int| 0 <= i < s.filter(pass).len() implies pass(
        #[trigger] s.filter(pass)[i],
    ) by {
        s.lemma_filter_pred(pass, i);
    }
    lemma_filter_all(s.filter(pass), pass);
}

/// What filtering makes of one more record: the record is appended where it
/// passes and left out where it does not.
pub proof fn lemma_filter_next<A>(s: Seq<A>, i: int, pass: spec_fn(A) -> bool)
    requires
        0 <= i < s.len(),
    ensures
        s.take(i + 1).filter(pass) == if pass(s[i]) {
            s.take(i).filter(pass).push(s[i])
        } else {
            s.take(i).filter(pass)
        },
{
    reveal(Seq::filter);
    assert(s.take(i + 1).drop_last() =~= s.take(i));
}

/// Filtering no record leaves none.
pub proof fn lemma_filter_none<A>(s: Seq<A>, pass: spec_fn(A) -> bool)
    ensures
        s.take(0).filter(pass) == Seq::<A>::empty(),
{
    reveal(Seq::filter);
    assert(s.take(0) =~= Seq::<A>::empty());
}

/// A record that carries an identity.
pub trait Identified {
    /// The identity of the record.
    spec fn identity(&self) -> u64;

    /// The identity of the record.
    fn id(&self) -> (id: u64)
        ensures
            id == self.identity(),
    ;
}

/// Whether the identities of `records` grow from each record to the next.
pub open spec fn in_order<T: Identified>(records: Seq<T>) -> bool {
    forall|i: int, j: int|
        0 <= i < j < records.len() ==> (#[trigger] records[i]).identity() < (
        #[trigger] records[j]).identity()
}

/// Where the record `id` stands among records in the order of their
/// identities, found by halving; `None` where no record has the identity.
pub fn find<T: Identified>(records: &Vec<T>, id: u64) -> (place: Option<usize>)
    requires
        in_order(records@),
    ensures
        match place {
            Some(i) => i < records.len() && records[i as int].identity() == id,
            None => forall|j: int|
                0 <= j < records.len() ==> (#[trigger] records[j]).identity() != id,
        },
{
    let mut low: usize = 0;
    let mut high: usize = records.len();
    while low < high
        invariant
            low <= high <= records.len(),
            in_order(records@),
            forall|j: int| 0 <= j < low ==> (#[trigger] records[j]).identity() < id,
            forall|j: int| high <= j < records.len() ==> (#[trigger] records[j]).identity() > id,
        decreases high - low,
    {
        let middle: usize = low + (high - low) / 2;
        let found: u64 = records[middle].id();
        if found == id {
            return Some(middle);
        } else if found < id {
            assert forall|j: int| 0 <= j < middle + 1 implies (#[trigger] records[j]).identity()
                < id by {
                if j < middle {
                    assert(records[j].identity() < records[middle as int].identity());
                }
            }
            low = middle + 1;
        } else {
            assert forall|j: int| middle <= j < records.len() implies (
            #[trigger] records[j]).identity() > id by {
                if middle < j {
                    assert(records[middle as int].identity() < records[j].identity());
                }
            }
            high = middle;
        }
    }
    None
}

} // verus!
