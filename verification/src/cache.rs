//! A cache with a budget: what was not used for the longest time leaves first.
use crate::keys::Key;
use vstd::prelude::*;

verus! {

/// How much the tiles on the graphics card may take, in bytes.
pub const GPU_TILE_BUDGET_BYTES: usize = 201_326_592;

/// How much the thumbnails may take, in bytes.
pub const THUMBNAIL_BUDGET_BYTES: usize = 33_554_432;

/// What entries weigh together.
pub open spec fn total_weight<K>(items: Seq<(K, usize)>) -> int
    decreases items.len(),
{
    if items.len() == 0 {
        0
    } else {
        total_weight(items.drop_last()) + items.last().1
    }
}

/// The entries without that of a key.
pub open spec fn without<K>(items: Seq<(K, usize)>, key: K) -> Seq<(K, usize)>
    decreases items.len(),
{
    if items.len() == 0 {
        seq![]
    } else {
        let rest = without(items.drop_last(), key);
        if items.last().0 == key {
            rest
        } else {
            rest.push(items.last())
        }
    }
}

/// How many of the oldest entries have to leave for the rest to fit.
pub open spec fn surplus<K>(items: Seq<(K, usize)>, budget: int) -> int
    decreases items.len(),
{
    if items.len() == 0 || total_weight(items) <= budget {
        0
    } else {
        surplus(items.drop_first(), budget) + 1
    }
}

/// A key is among the entries.
pub open spec fn has_key<K>(items: Seq<(K, usize)>, key: K) -> bool {
    exists|i: int| 0 <= i < items.len() && (#[trigger] items[i]).0 == key
}

/// No key occurs twice.
pub open spec fn keys_are_unique<K>(items: Seq<(K, usize)>) -> bool {
    forall|i: int, j: int|
        0 <= i < j < items.len() ==> (#[trigger] items[i]).0 != (#[trigger] items[j]).0
}

/// The keys of entries.
pub open spec fn entry_keys<K>(items: Seq<(K, usize)>) -> Seq<K> {
    Seq::new(items.len(), |i: int| items[i].0)
}

proof fn weight_is_not_negative<K>(items: Seq<(K, usize)>)
    ensures
        total_weight(items) >= 0,
    decreases items.len(),
{
    if items.len() > 0 {
        weight_is_not_negative(items.drop_last());
    }
}

proof fn weight_of_first<K>(items: Seq<(K, usize)>)
    requires
        items.len() > 0,
    ensures
        total_weight(items) == items[0].1 + total_weight(items.drop_first()),
    decreases items.len(),
{
    if items.len() == 1 {
        assert(items.drop_first() =~= seq![]);
        assert(items.drop_last() =~= seq![]);
    } else {
        weight_of_first(items.drop_last());
        assert(items.drop_last().drop_first() =~= items.drop_first().drop_last());
    }
}

proof fn without_is_part<K>(items: Seq<(K, usize)>, key: K)
    ensures
        without(items, key).len() <= items.len(),
        total_weight(without(items, key)) <= total_weight(items),
        !has_key(without(items, key), key),
        forall|other: K|
            other != key ==> (has_key(without(items, key), other) <==> has_key(items, other)),
        keys_are_unique(items) ==> keys_are_unique(without(items, key)),
    decreases items.len(),
{
    if items.len() > 0 {
        let shorter = items.drop_last();
        let rest = without(shorter, key);
        let last = items.last();
        without_is_part(shorter, key);
        assert forall|other: K| has_key(items, other) == (has_key(shorter, other) || other
            == last.0) by {
            if has_key(shorter, other) {
                let i = choose|i: int| 0 <= i < shorter.len() && (#[trigger] shorter[i]).0 == other;
                assert(items[i].0 == other);
            }
            if other == last.0 {
                assert(items[items.len() - 1].0 == other);
            }
            if has_key(items, other) && other != last.0 {
                let i = choose|i: int| 0 <= i < items.len() && (#[trigger] items[i]).0 == other;
                assert(shorter[i].0 == other);
            }
        }
        if last.0 != key {
            let longer = rest.push(last);
            assert(longer.drop_last() =~= rest);
            assert forall|other: K| has_key(longer, other) == (has_key(rest, other) || other
                == last.0) by {
                if has_key(rest, other) {
                    let i = choose|i: int| 0 <= i < rest.len() && (#[trigger] rest[i]).0 == other;
                    assert(longer[i].0 == other);
                }
                if other == last.0 {
                    assert(longer[rest.len() as int].0 == other);
                }
                if has_key(longer, other) && other != last.0 {
                    let i = choose|i: int|
                        0 <= i < longer.len() && (#[trigger] longer[i]).0 == other;
                    assert(rest[i].0 == other);
                }
            }
            if keys_are_unique(items) {
                assert(keys_are_unique(shorter));
                assert(!has_key(shorter, last.0)) by {
                    if has_key(shorter, last.0) {
                        let i = choose|i: int|
                            0 <= i < shorter.len() && (#[trigger] shorter[i]).0 == last.0;
                        assert(items[i].0 != items[items.len() - 1].0);
                    }
                }
                assert forall|i: int, j: int| 0 <= i < j < longer.len() implies (
                #[trigger] longer[i]).0 != (#[trigger] longer[j]).0 by {
                    if j == rest.len() {
                        assert(has_key(rest, longer[i].0)) by {
                            assert(rest[i].0 == longer[i].0);
                        }
                        if longer[i].0 == last.0 {
                            assert(has_key(shorter, last.0));
                        }
                    } else {
                        assert(rest[i].0 != rest[j].0);
                    }
                }
            }
        } else if keys_are_unique(items) {
            assert(keys_are_unique(shorter));
        }
    }
}

proof fn surplus_leaves_what_fits<K>(items: Seq<(K, usize)>, budget: int)
    requires
        budget >= 0,
    ensures
        0 <= surplus(items, budget) <= items.len(),
        total_weight(items.skip(surplus(items, budget))) <= budget,
        items.len() > 0 && items.last().1 <= budget ==> surplus(items, budget) < items.len(),
    decreases items.len(),
{
    if items.len() > 0 && total_weight(items) > budget {
        let rest = items.drop_first();
        surplus_leaves_what_fits(rest, budget);
        assert(rest.skip(surplus(rest, budget)) =~= items.skip(surplus(items, budget)));
        if items.len() == 1 {
            weight_of_first(items);
            assert(rest =~= seq![]);
        }
    } else {
        assert(items.skip(0) =~= items);
    }
}

/// The entries of a cache, the one that was used last at the end.
pub struct WeightedLru<K: Key> {
    items: Vec<(K, usize)>,
    total: usize,
    budget: usize,
}

/// What an insertion leads to.
pub struct Insertion<K: Key> {
    /// The entry is kept.
    pub inserted: bool,
    /// The keys of the entries that left.
    pub evicted: Vec<K>,
}

impl<K: Key> WeightedLru<K> {
    #[verifier::type_invariant]
    spec fn is_within_budget(self) -> bool {
        &&& self.total == total_weight(self.items@)
        &&& self.total <= self.budget
        &&& keys_are_unique(self.items@)
    }

    /// The entries with what they weigh, the oldest first.
    pub closed spec fn entries(self) -> Seq<(K, usize)> {
        self.items@
    }

    /// What the entries may weigh together.
    pub closed spec fn limit(self) -> int {
        self.budget as int
    }

    /// An empty cache.
    pub fn new(budget: usize) -> (res: Self)
        ensures
            res.entries() == Seq::<(K, usize)>::empty(),
            res.limit() == budget,
    {
        WeightedLru { items: Vec::new(), total: 0, budget }
    }

    /// How many entries there are.
    pub fn len(&self) -> (res: usize)
        ensures
            res == self.entries().len(),
    {
        self.items.len()
    }

    /// Whether there is no entry.
    pub fn is_empty(&self) -> (res: bool)
        ensures
            res == (self.entries().len() == 0),
    {
        self.items.len() == 0
    }

    /// What the entries weigh together, which is never more than the budget.
    pub fn current_bytes(&self) -> (res: usize)
        ensures
            res == total_weight(self.entries()),
            res <= self.limit(),
    {
        proof {
            use_type_invariant(self);
        }
        self.total
    }

    /// What the entries may weigh together.
    pub fn budget(&self) -> (res: usize)
        ensures
            res == self.limit(),
    {
        self.budget
    }

    fn split_off(&self, key: K) -> (res: (Vec<(K, usize)>, usize, Option<usize>))
        ensures
            res.0@ == without(self.entries(), key),
            res.1 == total_weight(res.0@),
            res.1 <= self.limit(),
            keys_are_unique(res.0@),
            res.2 is Some <==> has_key(self.entries(), key),
            res.2 is Some ==> res.1 + res.2->0 == total_weight(self.entries()),
            res.2 is Some ==> self.entries().contains((key, res.2->0)),
    {
        proof {
            use_type_invariant(self);
            without_is_part(self.items@, key);
        }
        let ghost all = self.items@;
        let mut rest: Vec<(K, usize)> = Vec::new();
        let mut total: usize = 0;
        let mut found: Option<usize> = None;
        let mut i: usize = 0;
        assert(rest@ =~= without(all.take(0), key));
        while i < self.items.len()
            invariant
                i <= self.items.len(),
                all == self.items@,
                keys_are_unique(all),
                total_weight(all) <= self.budget,
                rest@ == without(all.take(i as int), key),
                total == total_weight(rest@),
                total <= self.budget,
                found is Some <==> has_key(all.take(i as int), key),
                found is Some ==> total + found->0 == total_weight(all.take(i as int)),
                found is None ==> total == total_weight(all.take(i as int)),
                found is Some ==> all.contains((key, found->0)),
            decreases self.items.len() - i,
        {
            let (item_key, weight) = self.items[i];
            let ghost shorter = all.take(i as int);
            let ghost longer = all.take(i + 1);
            proof {
                assert(longer.drop_last() =~= shorter);
                assert(longer.last() == all[i as int]);
                weights_add_up(all, i + 1);
                if has_key(shorter, key) {
                    let k = choose|k: int|
                        0 <= k < shorter.len() && (#[trigger] shorter[k]).0 == key;
                    assert(longer[k].0 == key);
                    assert(all[k].0 != all[i as int].0);
                }
                if has_key(longer, key) && all[i as int].0 != key {
                    let k = choose|k: int| 0 <= k < longer.len() && (#[trigger] longer[k]).0 == key;
                    assert(shorter[k].0 == key);
                }
                weight_is_not_negative(shorter);
            }
            if item_key.same(&key) {
                found = Some(weight);
                proof {
                    assert(longer[i as int].0 == key);
                    assert(all[i as int] == (key, weight));
                }
            } else {
                let ghost before = rest@;
                rest.push((item_key, weight));
                assert(rest@.drop_last() =~= before);
                total = total + weight;
            }
            i += 1;
        }
        assert(all.take(i as int) =~= all);
        (rest, total, found)
    }

    /// Uses an entry, if there is one for the key: it is then the one that was used last.
    pub fn touch(&mut self, key: K) -> (res: bool)
        ensures
            res == has_key(old(self).entries(), key),
            final(self).limit() == old(self).limit(),
            res ==> exists|weight: usize| #[trigger]
                old(self).entries().contains((key, weight)) && final(self).entries() == without(
                    old(self).entries(),
                    key,
                ).push((key, weight)),
            !res ==> final(self).entries() == old(self).entries(),
    {
        proof {
            use_type_invariant(&*self);
            without_is_part(self.items@, key);
        }
        let (rest, total, found) = self.split_off(key);
        match found {
            None => false,
            Some(weight) => {
                let ghost before = rest@;
                let mut items = rest;
                items.push((key, weight));
                let budget: usize = self.budget;
                proof {
                    assert(items@.drop_last() =~= before);
                    newest_is_unique(before, key, weight);
                    assert(old(self).entries().contains((key, weight)));
                }
                *self = WeightedLru { items, total: total + weight, budget };
                true
            },
        }
    }

    /// Takes an entry out, if there is one for the key.
    pub fn remove(&mut self, key: K)
        ensures
            final(self).entries() == without(old(self).entries(), key),
            final(self).limit() == old(self).limit(),
    {
        let (rest, total, _found) = self.split_off(key);
        let budget: usize = self.budget;
        *self = WeightedLru { items: rest, total, budget };
    }

    /// Puts an entry in, in the place of an earlier one for the key, and pushes out as many of the
    /// oldest as it takes. What is heavier than the whole budget is not kept.
    pub fn insert(&mut self, key: K, weight: usize) -> (res: Insertion<K>)
        ensures
            final(self).limit() == old(self).limit(),
            res.inserted == (weight <= old(self).limit()),
            ({
                let rest = without(old(self).entries(), key);
                let grown = rest.push((key, weight));
                let gone = surplus(grown, old(self).limit());
                if res.inserted {
                    &&& final(self).entries() == grown.skip(gone)
                    &&& res.evicted@ == entry_keys(grown.take(gone))
                } else {
                    &&& final(self).entries() == rest
                    &&& res.evicted@ == Seq::<K>::empty()
                }
            }),
    {
        let (rest, rest_total, _found) = self.split_off(key);
        let budget: usize = self.budget;
        proof {
            use_type_invariant(&*self);
            without_is_part(self.items@, key);
        }
        let mut evicted: Vec<K> = Vec::new();
        if weight > budget {
            *self = WeightedLru { items: rest, total: rest_total, budget };
            return Insertion { inserted: false, evicted };
        }
        let ghost before = rest@;
        let mut grown = rest;
        grown.push((key, weight));
        let ghost gone = surplus(grown@, budget as int);
        let mut total: usize = rest_total;
        let count: usize = grown.len();
        let mut d: usize = 0;
        proof {
            newest_is_unique(before, key, weight);
            assert(grown@.drop_last() =~= before);
            assert(grown@.skip(0) =~= grown@);
            assert(evicted@ =~= entry_keys(grown@.take(0)));
            surplus_leaves_what_fits(grown@, budget as int);
        }
        while total > budget - weight
            invariant
                weight <= budget,
                count == grown@.len(),
                d < count,
                grown@.last().1 == weight,
                gone == surplus(grown@, budget as int),
                gone == d + surplus(grown@.skip(d as int), budget as int),
                total + weight == total_weight(grown@.skip(d as int)),
                evicted@ == entry_keys(grown@.take(d as int)),
            decreases grown@.len() - d,
        {
            let ghost part = grown@.skip(d as int);
            proof {
                weight_of_first(part);
                weight_is_not_negative(part.drop_first());
                assert(part.drop_first() =~= grown@.skip(d + 1));
                if d == grown@.len() - 1 {
                    assert(part.drop_first() =~= seq![]);
                    assert(part[0] == grown@.last());
                    assert(false);
                }
                last_weighs(part.drop_first());
            }
            let (gone_key, gone_weight) = grown[d];
            evicted.push(gone_key);
            total = total - gone_weight;
            d += 1;
            assert(evicted@ =~= entry_keys(grown@.take(d as int)));
        }
        let items = grown.split_off(d);
        proof {
            let all = before.push((key, weight));
            assert(items@ =~= all.skip(d as int));
            unique_part(all, d as int);
        }
        *self = WeightedLru { items, total: total + weight, budget };
        Insertion { inserted: true, evicted }
    }
}

proof fn unique_part<K>(items: Seq<(K, usize)>, count: int)
    requires
        0 <= count <= items.len(),
        keys_are_unique(items),
    ensures
        keys_are_unique(items.skip(count)),
{
    let part = items.skip(count);
    assert forall|i: int, j: int| 0 <= i < j < part.len() implies (#[trigger] part[i]).0 != (
    #[trigger] part[j]).0 by {
        assert(part[i] == items[i + count]);
        assert(part[j] == items[j + count]);
    }
}

proof fn last_weighs<K>(items: Seq<(K, usize)>)
    ensures
        items.len() > 0 ==> total_weight(items) >= items.last().1,
{
    if items.len() > 0 {
        weight_is_not_negative(items.drop_last());
    }
}

proof fn weights_add_up<K>(items: Seq<(K, usize)>, count: int)
    requires
        0 <= count <= items.len(),
    ensures
        total_weight(items.take(count)) <= total_weight(items),
    decreases items.len() - count,
{
    if count < items.len() {
        assert(items.take(count + 1).drop_last() =~= items.take(count));
        weights_add_up(items, count + 1);
    } else {
        assert(items.take(count) =~= items);
    }
}

proof fn newest_is_unique<K>(items: Seq<(K, usize)>, key: K, weight: usize)
    requires
        keys_are_unique(items),
        !has_key(items, key),
    ensures
        keys_are_unique(items.push((key, weight))),
{
    let longer = items.push((key, weight));
    assert forall|i: int, j: int| 0 <= i < j < longer.len() implies (#[trigger] longer[i]).0 != (
    #[trigger] longer[j]).0 by {
        assert(items[i] == longer[i]);
        if j < items.len() {
            assert(items[j] == longer[j]);
        }
    }
}

/// What was put in last stays, whatever has to leave for it.
pub proof fn the_newest_entry_stays<K>(items: Seq<(K, usize)>, key: K, weight: usize, budget: int)
    requires
        weight <= budget,
    ensures
        ({
            let grown = without(items, key).push((key, weight));
            let kept = grown.skip(surplus(grown, budget));
            &&& kept.len() > 0
            &&& kept.last() == (key, weight)
            &&& total_weight(kept) <= budget
        }),
{
    let grown = without(items, key).push((key, weight));
    surplus_leaves_what_fits(grown, budget);
}

/// Nothing leaves while everything fits.
pub proof fn nothing_leaves_without_need<K>(items: Seq<(K, usize)>, budget: int)
    requires
        total_weight(items) <= budget,
    ensures
        surplus(items, budget) == 0,
{
}

/// Only the entry of the key leaves, and the others keep their order.
pub proof fn only_the_key_leaves<K>(items: Seq<(K, usize)>, key: K, i: int)
    requires
        keys_are_unique(items),
    ensures
        !has_key(items, key) ==> without(items, key) == items,
        0 <= i < items.len() && items[i].0 == key ==> without(items, key) == items.remove(i),
    decreases items.len(),
{
    if items.len() > 0 {
        let front = items.drop_last();
        assert(keys_are_unique(front)) by {
            assert forall|a: int, b: int| 0 <= a < b < front.len() implies (#[trigger] front[a]).0
                != (#[trigger] front[b]).0 by {
                assert(items[a].0 != items[b].0);
            }
        }
        only_the_key_leaves(front, key, i);
        if !has_key(items, key) {
            assert(items[items.len() - 1].0 != key);
            assert(!has_key(front, key)) by {
                if has_key(front, key) {
                    let k = choose|k: int| 0 <= k < front.len() && (#[trigger] front[k]).0 == key;
                    assert(items[k].0 == key);
                }
            }
            assert(front.push(items.last()) =~= items);
        }
        if 0 <= i < items.len() && items[i].0 == key {
            if i < items.len() - 1 {
                assert(front[i] == items[i]);
                assert(items[items.len() - 1].0 != key);
                assert(front.remove(i).push(items.last()) =~= items.remove(i));
            } else {
                assert(!has_key(front, key)) by {
                    if has_key(front, key) {
                        let k = choose|k: int|
                            0 <= k < front.len() && (#[trigger] front[k]).0 == key;
                        assert(items[k].0 != items[i].0);
                    }
                }
                assert(front =~= items.remove(i));
            }
        }
    }
}

/// Weights add up, one entry at a time.
pub proof fn weights_of_parts_add_up<K>(a: Seq<(K, usize)>, b: Seq<(K, usize)>)
    ensures
        total_weight(a + b) == total_weight(a) + total_weight(b),
        b.len() == 1 ==> total_weight(b) == b[0].1,
    decreases b.len(),
{
    if b.len() == 0 {
        assert(a + b =~= a);
    } else {
        weights_of_parts_add_up(a, b.drop_last());
        assert((a + b).drop_last() =~= a + b.drop_last());
    }
    if b.len() == 1 {
        reveal_with_fuel(total_weight, 2);
    }
}

/// The oldest entries leave, as few as will do: what stays fits, and with any one more it would
/// not.
pub proof fn no_more_leave_than_must<K>(items: Seq<(K, usize)>, budget: int, fewer: int)
    requires
        0 <= budget,
        0 <= fewer < surplus(items, budget),
    ensures
        0 <= surplus(items, budget) <= items.len(),
        total_weight(items.skip(surplus(items, budget))) <= budget,
        total_weight(items.skip(fewer)) > budget,
    decreases items.len(),
{
    surplus_leaves_what_fits(items, budget);
    assert(items.skip(0) =~= items);
    if items.len() > 0 && total_weight(items) > budget && fewer > 0 {
        let rest = items.drop_first();
        no_more_leave_than_must(rest, budget, fewer - 1);
        assert(items.skip(fewer) =~= rest.skip(fewer - 1));
    }
}

} // verus!
