//! Sets and maps over small copyable keys.
//!
//! Both list their keys without repetition; that is their invariant.
use vstd::prelude::*;

verus! {

/// A key: equal as a value exactly when `same` says so.
pub trait Key: Copy {
    fn same(&self, other: &Self) -> (res: bool)
        ensures
            res == (*self == *other),
    ;
}

impl Key for usize {
    fn same(&self, other: &usize) -> (res: bool) {
        *self == *other
    }
}

/// A set of keys.
#[derive(Debug)]
pub struct KeySet<K: Key> {
    items: Vec<K>,
}

impl<K: Key> View for KeySet<K> {
    type V = Set<K>;

    closed spec fn view(&self) -> Set<K> {
        self.items@.to_set()
    }
}

impl<K: Key> KeySet<K> {
    #[verifier::type_invariant]
    spec fn lists_once(self) -> bool {
        self.items@.no_duplicates()
    }

    /// The empty set.
    pub fn new() -> (res: Self)
        ensures
            res@ == Set::<K>::empty(),
    {
        let res = KeySet { items: Vec::new() };
        assert(res@ =~= Set::<K>::empty());
        res
    }

    fn position(&self, key: K) -> (res: Option<usize>)
        ensures
            match res {
                None => !self@.contains(key),
                Some(index) => index < self.items@.len() && self.items@[index as int] == key
                    && self@.contains(key),
            },
    {
        let mut i: usize = 0;
        while i < self.items.len()
            invariant
                i <= self.items.len(),
                forall|k: int| 0 <= k < i ==> self.items@[k] != key,
            decreases self.items.len() - i,
        {
            if self.items[i].same(&key) {
                assert(self.items@[i as int] == key);
                return Some(i);
            }
            i += 1;
        }
        None
    }

    pub fn contains(&self, key: K) -> (res: bool)
        ensures
            res == self@.contains(key),
    {
        self.position(key).is_some()
    }

    /// Adds a key; nothing changes when it is already there.
    pub fn insert(&mut self, key: K)
        ensures
            final(self)@ == old(self)@.insert(key),
    {
        proof {
            use_type_invariant(&*self);
        }
        if self.contains(key) {
            assert(self@ =~= old(self)@.insert(key));
            return;
        }
        let ghost before = self.items@;
        let mut items: Vec<K> = Vec::new();
        std::mem::swap(&mut items, &mut self.items);
        items.push(key);
        assert(items@.to_set() =~= before.to_set().insert(key)) by {
            assert forall|k: K| items@.contains(k) == (before.contains(k) || k == key) by {
                if before.contains(k) {
                    let i = choose|i: int| 0 <= i < before.len() && before[i] == k;
                    assert(items@[i] == k);
                }
                assert(items@[before.len() as int] == key);
            }
        }
        self.items = items;
    }

    /// Takes a key away; nothing changes when it is not there.
    pub fn remove(&mut self, key: K)
        ensures
            final(self)@ == old(self)@.remove(key),
    {
        proof {
            use_type_invariant(&*self);
        }
        match self.position(key) {
            None => {
                assert(self@ =~= old(self)@.remove(key));
            },
            Some(index) => {
                let ghost before = self.items@;
                let mut items: Vec<K> = Vec::new();
                std::mem::swap(&mut items, &mut self.items);
                let _removed = items.remove(index);
                proof {
                    assert forall|k: K| items@.contains(k) == (before.contains(k) && k != key) by {
                        if items@.contains(k) {
                            let i = choose|i: int| 0 <= i < items@.len() && items@[i] == k;
                            let o = if i < index { i } else { i + 1 };
                            assert(before[o] == k);
                        }
                        if before.contains(k) && k != key {
                            let o = choose|o: int| 0 <= o < before.len() && before[o] == k;
                            let i = if o < index { o } else { o - 1 };
                            assert(items@[i] == k);
                        }
                    }
                    assert(items@.to_set() =~= before.to_set().remove(key));
                }
                self.items = items;
            },
        }
    }

    /// Takes every key away.
    pub fn clear(&mut self)
        ensures
            final(self)@ == Set::<K>::empty(),
    {
        self.items = Vec::new();
        assert(self@ =~= Set::<K>::empty());
    }

    /// Keeps only the keys that `wanted` holds too.
    pub fn retain(&mut self, wanted: &KeySet<K>)
        ensures
            final(self)@ == old(self)@.intersect(wanted@),
    {
        proof {
            use_type_invariant(&*self);
        }
        let mut items: Vec<K> = Vec::new();
        let mut i: usize = 0;
        while i < self.items.len()
            invariant
                i <= self.items.len(),
                self.items@ == old(self).items@,
                self.items@.no_duplicates(),
                items@.no_duplicates(),
                forall|k: K|
                    #![trigger items@.contains(k)]
                    items@.contains(k) <==> wanted@.contains(k) && self.items@.take(
                        i as int,
                    ).contains(k),
            decreases self.items.len() - i,
        {
            let key = self.items[i];
            let ghost before = items@;
            let ghost prefix = self.items@.take(i as int);
            let ghost longer = self.items@.take(i + 1);
            proof {
                assert(longer =~= prefix.push(key));
                assert(!prefix.contains(key)) by {
                    if prefix.contains(key) {
                        let j = choose|j: int| 0 <= j < prefix.len() && prefix[j] == key;
                        assert(self.items@[j] == self.items@[i as int]);
                    }
                }
            }
            if wanted.contains(key) {
                assert(!before.contains(key));
                items.push(key);
            }
            proof {
                assert forall|k: K|
                    #![trigger items@.contains(k)]
                    items@.contains(k) <==> wanted@.contains(k) && longer.contains(k) by {
                    if longer.contains(k) {
                        let j = choose|j: int| 0 <= j < longer.len() && longer[j] == k;
                        if j < i {
                            assert(prefix[j] == k);
                            assert(prefix.contains(k));
                        }
                    }
                    if prefix.contains(k) {
                        let j = choose|j: int| 0 <= j < prefix.len() && prefix[j] == k;
                        assert(longer[j] == k);
                    }
                    assert(longer[i as int] == key);
                    assert(before.contains(k) <==> wanted@.contains(k) && prefix.contains(k));
                    if items@.contains(k) {
                        let j = choose|j: int| 0 <= j < items@.len() && items@[j] == k;
                        if j < before.len() {
                            assert(before[j] == k);
                        }
                    }
                    if before.contains(k) {
                        let j = choose|j: int| 0 <= j < before.len() && before[j] == k;
                        assert(items@[j] == k);
                    }
                    if wanted@.contains(key) {
                        assert(items@[before.len() as int] == key);
                    }
                }
            }
            i += 1;
        }
        proof {
            assert(self.items@.take(i as int) =~= self.items@);
            assert(items@.to_set() =~= self.items@.to_set().intersect(wanted@));
        }
        self.items = items;
    }

    pub fn is_empty(&self) -> (res: bool)
        ensures
            res == (self@ == Set::<K>::empty()),
    {
        if self.items.len() == 0 {
            assert(self@ =~= Set::<K>::empty());
            true
        } else {
            assert(self.items@.contains(self.items@[0]));
            assert(self@.contains(self.items@[0]));
            false
        }
    }

    pub fn len(&self) -> (res: usize)
        ensures
            res == self@.len(),
            self@.finite(),
    {
        proof {
            use_type_invariant(self);
            self.items@.unique_seq_to_set();
            vstd::seq_lib::seq_to_set_is_finite(self.items@);
        }
        self.items.len()
    }

    /// The keys, each once, in no particular order.
    pub fn keys(&self) -> (res: Vec<K>)
        ensures
            res@.no_duplicates(),
            res@.to_set() == self@,
    {
        proof {
            use_type_invariant(self);
        }
        let mut res: Vec<K> = Vec::new();
        let mut i: usize = 0;
        while i < self.items.len()
            invariant
                i <= self.items.len(),
                res@ == self.items@.take(i as int),
            decreases self.items.len() - i,
        {
            res.push(self.items[i]);
            assert(res@ =~= self.items@.take(i + 1));
            i += 1;
        }
        assert(res@ =~= self.items@);
        res
    }

    /// The keys that `other` does not hold, each once.
    pub fn keys_not_in(&self, other: &KeySet<K>) -> (res: Vec<K>)
        ensures
            res@.no_duplicates(),
            res@.to_set() == self@.difference(other@),
    {
        let all = self.keys();
        let mut res: Vec<K> = Vec::new();
        let mut i: usize = 0;
        while i < all.len()
            invariant
                i <= all.len(),
                all@.no_duplicates(),
                res@.no_duplicates(),
                forall|k: K|
                    #![trigger res@.contains(k)]
                    res@.contains(k) <==> !other@.contains(k) && all@.take(i as int).contains(k),
            decreases all.len() - i,
        {
            let key = all[i];
            let ghost before = res@;
            let ghost prefix = all@.take(i as int);
            let ghost longer = all@.take(i + 1);
            proof {
                assert(longer =~= prefix.push(key));
                assert(!prefix.contains(key)) by {
                    if prefix.contains(key) {
                        let j = choose|j: int| 0 <= j < prefix.len() && prefix[j] == key;
                        assert(all@[j] == all@[i as int]);
                    }
                }
            }
            if !other.contains(key) {
                assert(!before.contains(key));
                res.push(key);
            }
            proof {
                assert forall|k: K|
                    #![trigger res@.contains(k)]
                    res@.contains(k) <==> !other@.contains(k) && longer.contains(k) by {
                    if longer.contains(k) {
                        let j = choose|j: int| 0 <= j < longer.len() && longer[j] == k;
                        if j < i {
                            assert(prefix[j] == k);
                            assert(prefix.contains(k));
                        }
                    }
                    if prefix.contains(k) {
                        let j = choose|j: int| 0 <= j < prefix.len() && prefix[j] == k;
                        assert(longer[j] == k);
                    }
                    assert(longer[i as int] == key);
                    assert(before.contains(k) <==> !other@.contains(k) && prefix.contains(k));
                    if res@.contains(k) {
                        let j = choose|j: int| 0 <= j < res@.len() && res@[j] == k;
                        if j < before.len() {
                            assert(before[j] == k);
                        }
                    }
                    if before.contains(k) {
                        let j = choose|j: int| 0 <= j < before.len() && before[j] == k;
                        assert(res@[j] == k);
                    }
                    if !other@.contains(key) {
                        assert(res@[before.len() as int] == key);
                    }
                }
            }
            i += 1;
        }
        proof {
            assert(all@.take(i as int) =~= all@);
            assert forall|k: K| res@.to_set().contains(k) == self@.difference(other@).contains(
                k,
            ) by {
                assert(all@.to_set().contains(k) == all@.contains(k));
            }
            assert(res@.to_set() =~= self@.difference(other@));
        }
        res
    }
}

/// A map from keys to copyable values.
#[derive(Debug)]
pub struct KeyMap<K: Key, T: Copy> {
    items: Vec<(K, T)>,
}

/// Whether some pair has the key.
spec fn has_key<K, T>(items: Seq<(K, T)>, key: K) -> bool {
    exists|i: int| 0 <= i < items.len() && (#[trigger] items[i]).0 == key
}

/// The position of the pair with the key.
spec fn pair_of<K, T>(items: Seq<(K, T)>, key: K) -> int {
    choose|i: int| 0 <= i < items.len() && (#[trigger] items[i]).0 == key
}

/// No two pairs share a key.
spec fn keys_once<K, T>(items: Seq<(K, T)>) -> bool {
    forall|i: int, j: int|
        #![trigger items[i], items[j]]
        0 <= i < j < items.len() ==> items[i].0 != items[j].0
}

proof fn pair_of_is<K, T>(items: Seq<(K, T)>, index: int)
    requires
        keys_once(items),
        0 <= index < items.len(),
    ensures
        has_key(items, items[index].0),
        pair_of(items, items[index].0) == index,
{
    let key = items[index].0;
    assert(items[index].0 == key);
    let chosen = pair_of(items, key);
    assert(items[chosen].0 == key);
}

impl<K: Key, T: Copy> View for KeyMap<K, T> {
    type V = Map<K, T>;

    closed spec fn view(&self) -> Map<K, T> {
        Map::new(|key: K| has_key(self.items@, key), |key: K| self.items@[pair_of(
            self.items@,
            key,
        )].1)
    }
}

impl<K: Key, T: Copy> KeyMap<K, T> {
    #[verifier::type_invariant]
    spec fn lists_once(self) -> bool {
        keys_once(self.items@)
    }

    /// The empty map.
    pub fn new() -> (res: Self)
        ensures
            res@ == Map::<K, T>::empty(),
    {
        let res = KeyMap { items: Vec::new() };
        assert(res@ =~= Map::<K, T>::empty());
        res
    }

    fn position(&self, key: K) -> (res: Option<usize>)
        ensures
            match res {
                None => !has_key(self.items@, key),
                Some(index) => index < self.items@.len() && self.items@[index as int].0 == key,
            },
    {
        let mut i: usize = 0;
        while i < self.items.len()
            invariant
                i <= self.items.len(),
                forall|k: int| 0 <= k < i ==> (#[trigger] self.items@[k]).0 != key,
            decreases self.items.len() - i,
        {
            if self.items[i].0.same(&key) {
                return Some(i);
            }
            i += 1;
        }
        None
    }

    pub fn contains_key(&self, key: K) -> (res: bool)
        ensures
            res == self@.dom().contains(key),
    {
        match self.position(key) {
            None => false,
            Some(index) => {
                assert(self.items@[index as int].0 == key);
                true
            },
        }
    }

    pub fn get(&self, key: K) -> (res: Option<T>)
        ensures
            match res {
                None => !self@.dom().contains(key),
                Some(value) => self@.dom().contains(key) && self@[key] == value,
            },
    {
        proof {
            use_type_invariant(self);
        }
        match self.position(key) {
            None => None,
            Some(index) => {
                proof {
                    pair_of_is(self.items@, index as int);
                }
                Some(self.items[index].1)
            },
        }
    }

    /// Gives the key a value, in place of the one it had.
    pub fn insert(&mut self, key: K, value: T)
        ensures
            final(self)@ == old(self)@.insert(key, value),
    {
        proof {
            use_type_invariant(&*self);
        }
        let ghost before = self.items@;
        let found = self.position(key);
        let mut items: Vec<(K, T)> = Vec::new();
        std::mem::swap(&mut items, &mut self.items);
        match found {
            None => {
                items.push((key, value));
            },
            Some(index) => {
                items.set(index, (key, value));
            },
        }
        proof {
            let after = items@;
            assert forall|i: int, j: int|
                #![trigger after[i], after[j]]
                0 <= i < j < after.len() implies after[i].0 != after[j].0 by {
                if i < before.len() && j < before.len() {
                    assert(before[i].0 != before[j].0);
                } else {
                    assert(before[i].0 != key);
                }
            }
            assert forall|k: K| has_key(after, k) == (k == key || has_key(before, k)) by {
                if has_key(after, k) {
                    let i = pair_of(after, k);
                    if i < before.len() {
                        assert(before[i].0 == after[i].0);
                    }
                }
                if has_key(before, k) {
                    let i = pair_of(before, k);
                    assert(after[i].0 == k);
                }
                if k == key {
                    let i = match found {
                        None => before.len() as int,
                        Some(index) => index as int,
                    };
                    assert(after[i].0 == k);
                }
            }
            assert forall|k: K| has_key(after, k) implies after[pair_of(after, k)].1 == (if k
                == key {
                value
            } else {
                before[pair_of(before, k)].1
            }) by {
                if k == key {
                    let i = match found {
                        None => before.len() as int,
                        Some(index) => index as int,
                    };
                    pair_of_is(after, i);
                } else {
                    let i = pair_of(before, k);
                    assert(before[i].0 == k);
                    assert(after[i] == before[i]);
                    pair_of_is(after, i);
                }
            }
        }
        self.items = items;
        assert(self@ =~= old(self)@.insert(key, value));
    }

    /// Takes a key away.
    pub fn remove(&mut self, key: K) -> (res: Option<T>)
        ensures
            final(self)@ == old(self)@.remove(key),
            match res {
                None => !old(self)@.dom().contains(key),
                Some(value) => old(self)@.dom().contains(key) && old(self)@[key] == value,
            },
    {
        proof {
            use_type_invariant(&*self);
        }
        match self.position(key) {
            None => {
                assert(self@ =~= old(self)@.remove(key));
                None
            },
            Some(index) => {
                let ghost before = self.items@;
                let mut items: Vec<(K, T)> = Vec::new();
                std::mem::swap(&mut items, &mut self.items);
                let removed = items.remove(index);
                proof {
                    let after = items@;
                    pair_of_is(before, index as int);
                    assert forall|i: int, j: int|
                        #![trigger after[i], after[j]]
                        0 <= i < j < after.len() implies after[i].0 != after[j].0 by {
                        let a = if i < index { i } else { i + 1 };
                        let b = if j < index { j } else { j + 1 };
                        assert(before[a].0 != before[b].0);
                    }
                    assert forall|k: K| has_key(after, k) == (k != key && has_key(before, k)) by {
                        if has_key(after, k) {
                            let i = pair_of(after, k);
                            let o = if i < index { i } else { i + 1 };
                            assert(before[o].0 == k);
                            assert(before[index as int].0 == key);
                        }
                        if k != key && has_key(before, k) {
                            let o = pair_of(before, k);
                            let i = if o < index { o } else { o - 1 };
                            assert(after[i].0 == k);
                        }
                    }
                    assert forall|k: K| has_key(after, k) implies after[pair_of(after, k)].1
                        == before[pair_of(before, k)].1 by {
                        let o = pair_of(before, k);
                        assert(before[o].0 == k);
                        let i = if o < index { o } else { o - 1 };
                        assert(after[i] == before[o]);
                        pair_of_is(after, i);
                    }
                }
                self.items = items;
                assert(self@ =~= old(self)@.remove(key));
                Some(removed.1)
            },
        }
    }

    /// Takes every key away.
    pub fn clear(&mut self)
        ensures
            final(self)@ == Map::<K, T>::empty(),
    {
        self.items = Vec::new();
        assert(self@ =~= Map::<K, T>::empty());
    }

    pub fn len(&self) -> (res: usize)
        ensures
            res == self@.dom().len(),
    {
        let keys = self.keys();
        proof {
            keys@.unique_seq_to_set();
        }
        keys.len()
    }

    /// The keys, each once, in no particular order.
    pub fn keys(&self) -> (res: Vec<K>)
        ensures
            res@.no_duplicates(),
            res@.to_set() == self@.dom(),
    {
        proof {
            use_type_invariant(self);
        }
        let mut res: Vec<K> = Vec::new();
        let mut i: usize = 0;
        while i < self.items.len()
            invariant
                i <= self.items.len(),
                res.len() == i,
                forall|k: int| 0 <= k < i ==> #[trigger] res@[k] == self.items@[k].0,
            decreases self.items.len() - i,
        {
            res.push(self.items[i].0);
            i += 1;
        }
        proof {
            assert forall|a: int, b: int| 0 <= a < b < res@.len() implies res@[a] != res@[b] by {
                assert(self.items@[a].0 != self.items@[b].0);
            }
            assert forall|k: K| res@.to_set().contains(k) == self@.dom().contains(k) by {
                if res@.contains(k) {
                    let a = choose|a: int| 0 <= a < res@.len() && res@[a] == k;
                    assert(self.items@[a].0 == k);
                }
                if has_key(self.items@, k) {
                    let a = pair_of(self.items@, k);
                    assert(res@[a] == k);
                }
            }
            assert(res@.to_set() =~= self@.dom());
        }
        res
    }
}

} // verus!
