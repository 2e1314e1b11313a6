//! Ordering named items by their names, stably, in the order of `str`.

use vstd::prelude::*;

use crate::text::{lemma_text_lt_asymmetric, lemma_text_lt_total, lemma_text_lt_transitive, text_less, text_lt};

verus! {

/// Ordered by key: no key sorts before the one ahead of it.
pub open spec fn sorted_by_key<T>(items: Seq<(String, T)>) -> bool {
    forall|i: int, j: int| 0 <= i < j < items.len() ==> !text_lt(#[trigger] items[j].0@, #[trigger] items[i].0@)
}

/// `items` stably ordered by key: each item goes after every earlier one
/// whose key does not sort after its own.
pub open spec fn by_key<T>(items: Seq<(String, T)>) -> Seq<(String, T)>
    decreases items.len(),
{
    if items.len() == 0 {
        Seq::empty()
    } else {
        insert_by_key(by_key(items.drop_last()), items.last())
    }
}

/// The position in `sorted` after the last item whose key does not sort
/// after `x`'s.
pub open spec fn key_slot<T>(sorted: Seq<(String, T)>, x: (String, T)) -> nat
    decreases sorted.len(),
{
    if sorted.len() == 0 {
        0
    } else if !text_lt(x.0@, sorted.last().0@) {
        sorted.len()
    } else {
        key_slot(sorted.drop_last(), x)
    }
}

pub open spec fn insert_by_key<T>(sorted: Seq<(String, T)>, x: (String, T)) -> Seq<(String, T)> {
    let p = key_slot(sorted, x) as int;
    sorted.take(p).push(x) + sorted.skip(p)
}

proof fn lemma_key_slot<T>(sorted: Seq<(String, T)>, x: (String, T))
    requires
        sorted_by_key(sorted),
    ensures
        key_slot(sorted, x) <= sorted.len(),
        forall|k: int| 0 <= k < key_slot(sorted, x) ==> !text_lt(x.0@, #[trigger] sorted[k].0@),
        forall|k: int| key_slot(sorted, x) <= k < sorted.len() ==> text_lt(x.0@, #[trigger] sorted[k].0@),
    decreases sorted.len(),
{
    if sorted.len() == 0 {
    } else if !text_lt(x.0@, sorted.last().0@) {
        assert forall|k: int| 0 <= k < sorted.len() implies !text_lt(x.0@, #[trigger] sorted[k].0@) by {
            if k < sorted.len() - 1 && text_lt(x.0@, sorted[k].0@) {
                let last = sorted[sorted.len() - 1].0@;
                assert(!text_lt(last, sorted[k].0@));
                lemma_text_lt_total(last, sorted[k].0@);
                if last != sorted[k].0@ {
                    lemma_text_lt_transitive(x.0@, sorted[k].0@, last);
                }
            }
        }
    } else {
        let rest = sorted.drop_last();
        assert(sorted_by_key(rest)) by {
            assert forall|i: int, j: int| 0 <= i < j < rest.len() implies !text_lt(#[trigger] rest[j].0@, #[trigger] rest[i].0@) by {
                assert(rest[i] == sorted[i] && rest[j] == sorted[j]);
            }
        }
        lemma_key_slot(rest, x);
        assert forall|k: int| key_slot(sorted, x) <= k < sorted.len() implies text_lt(x.0@, #[trigger] sorted[k].0@) by {
            if k < sorted.len() - 1 {
                assert(rest[k] == sorted[k]);
            }
        }
        assert forall|k: int| 0 <= k < key_slot(sorted, x) implies !text_lt(x.0@, #[trigger] sorted[k].0@) by {
            assert(rest[k] == sorted[k]);
        }
    }
}

proof fn lemma_insert_keeps_order<T>(sorted: Seq<(String, T)>, x: (String, T))
    requires
        sorted_by_key(sorted),
    ensures
        sorted_by_key(insert_by_key(sorted, x)),
{
    lemma_key_slot(sorted, x);
    let p = key_slot(sorted, x) as int;
    let r = insert_by_key(sorted, x);
    assert forall|k: int| 0 <= k < r.len() implies r[k] == (if k < p {
        sorted[k]
    } else if k == p {
        x
    } else {
        sorted[k - 1]
    }) by {}
    assert forall|i: int, j: int| 0 <= i < j < r.len() implies !text_lt(#[trigger] r[j].0@, #[trigger] r[i].0@) by {
        if j < p {
        } else if j == p {
            assert(!text_lt(x.0@, sorted[i].0@));
        } else if i == p {
            assert(text_lt(x.0@, sorted[j - 1].0@));
            lemma_text_lt_asymmetric(x.0@, sorted[j - 1].0@);
        } else if i < p {
            assert(!text_lt(sorted[j - 1].0@, sorted[i].0@));
        } else {
            assert(!text_lt(sorted[j - 1].0@, sorted[i - 1].0@));
        }
    }
}

/// Items ordered by their keys, items with equal keys in their given order;
/// the order every listing by name uses.
pub fn sort_by_key<T>(items: Vec<(String, T)>) -> (res: Vec<(String, T)>)
    ensures
        res@ == by_key(items@),
        sorted_by_key(res@),
{
    let ghost all = items@;
    let n = items.len();
    let mut source = items;
    let mut sorted: Vec<(String, T)> = Vec::new();
    let mut i: usize = 0;
    assert(all.take(0) =~= Seq::<(String, T)>::empty());
    assert(source@ =~= all.skip(0));
    while i < n
        invariant
            0 <= i <= n,
            n == all.len(),
            source@ == all.skip(i as int),
            sorted@ == by_key(all.take(i as int)),
            sorted_by_key(sorted@),
        decreases n - i,
    {
        let x = source.remove(0);
        assert(x == all[i as int]);
        assert(source@ =~= all.skip(i + 1));
        let ghost before = sorted@;
        let mut p: usize = sorted.len();
        assert(before.take(p as int) =~= before);
        while p > 0 && text_less(&x.0, &sorted[p - 1].0)
            invariant
                0 <= p <= sorted@.len(),
                sorted@ == before,
                key_slot(before, x) == key_slot(before.take(p as int), x),
            decreases p,
        {
            assert(before.take(p as int).drop_last() =~= before.take(p - 1));
            assert(before.take(p as int).last() == before[p - 1]);
            p = p - 1;
        }
        proof {
            if p > 0 {
                assert(before.take(p as int).last() == before[p - 1]);
            } else {
                assert(before.take(0) =~= Seq::<(String, T)>::empty());
            }
            lemma_insert_keeps_order(before, x);
        }
        sorted.insert(p, x);
        assert(sorted@ =~= insert_by_key(before, x));
        assert(all.take(i + 1).drop_last() =~= all.take(i as int));
        assert(all.take(i + 1).last() == all[i as int]);
        i = i + 1;
    }
    assert(all.take(n as int) =~= all);
    sorted
}

} // verus!
