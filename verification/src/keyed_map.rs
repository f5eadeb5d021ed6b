//! A small map kept as a vector of (key, value) entries, each key once;
//! it stands where the table logic used hash maps.

use vstd::prelude::*;

verus! {

/// A key that can be compared in executable code against its value in
/// specifications.
pub trait MapKey: Sized {
    type KeyView;

    spec fn key_view(&self) -> Self::KeyView;

    fn same_key(&self, other: &Self) -> (b: bool)
        ensures
            b == (self.key_view() == other.key_view()),
    ;
}

impl MapKey for i32 {
    type KeyView = i32;

    open spec fn key_view(&self) -> i32 {
        *self
    }

    fn same_key(&self, other: &Self) -> (b: bool) {
        *self == *other
    }
}

impl MapKey for Vec<u16> {
    type KeyView = Seq<u16>;

    open spec fn key_view(&self) -> Seq<u16> {
        self@
    }

    fn same_key(&self, other: &Self) -> (b: bool) {
        if self.len() != other.len() {
            return false;
        }
        let mut i: usize = 0;
        while i < self.len()
            invariant
                self@.len() == other@.len(),
                i <= self@.len(),
                forall|j: int| 0 <= j < i ==> self@[j] == other@[j],
            decreases self@.len() - i,
        {
            if self[i] != other[i] {
                return false;
            }
            i += 1;
        }
        assert(self@ =~= other@);
        true
    }
}

impl MapKey for String {
    type KeyView = Seq<char>;

    open spec fn key_view(&self) -> Seq<char> {
        self@
    }

    fn same_key(&self, other: &Self) -> (b: bool) {
        *self == *other
    }
}

/// The map that the entries describe (later entries replacing earlier).
pub open spec fn entries_map<K: MapKey, V>(entries: Seq<(K, V)>) -> Map<K::KeyView, V>
    decreases entries.len(),
{
    if entries.len() == 0 {
        Map::empty()
    } else {
        entries_map(entries.drop_last()).insert(entries.last().0.key_view(), entries.last().1)
    }
}

/// No key occurs twice.
pub open spec fn keys_distinct<K: MapKey, V>(entries: Seq<(K, V)>) -> bool {
    forall|i: int, j: int|
        0 <= i < j < entries.len() ==> (#[trigger] entries[i]).0.key_view() != (
        #[trigger] entries[j]).0.key_view()
}

proof fn lemma_entries_map_contents<K: MapKey, V>(entries: Seq<(K, V)>)
    requires
        keys_distinct(entries),
    ensures
        entries_map(entries).dom().finite(),
        entries_map(entries).dom().len() == entries.len(),
        forall|k: K::KeyView|
            entries_map(entries).contains_key(k) <==> exists|i: int|
                0 <= i < entries.len() && (#[trigger] entries[i]).0.key_view() == k,
        forall|i: int|
            0 <= i < entries.len() ==> #[trigger] entries_map(entries)[entries[i].0.key_view()]
                == entries[i].1,
    decreases entries.len(),
{
    if entries.len() > 0 {
        let init = entries.drop_last();
        let last = entries.last();
        assert(keys_distinct(init)) by {
            assert forall|i: int, j: int| 0 <= i < j < init.len() implies (
            #[trigger] init[i]).0.key_view() != (#[trigger] init[j]).0.key_view() by {
                assert(init[i] == entries[i] && init[j] == entries[j]);
            }
        }
        lemma_entries_map_contents(init);
        assert(!entries_map(init).contains_key(last.0.key_view())) by {
            if entries_map(init).contains_key(last.0.key_view()) {
                let i = choose|i: int|
                    0 <= i < init.len() && (#[trigger] init[i]).0.key_view() == last.0.key_view();
                assert(entries[i] == init[i]);
                assert(entries[entries.len() - 1] == last);
            }
        }
        assert forall|k: K::KeyView|
            entries_map(entries).contains_key(k) <==> exists|i: int|
                0 <= i < entries.len() && (#[trigger] entries[i]).0.key_view() == k by {
            if entries_map(entries).contains_key(k) {
                if k == last.0.key_view() {
                    assert(entries[entries.len() - 1].0.key_view() == k);
                } else {
                    let i = choose|i: int| 0 <= i < init.len() && (#[trigger] init[i]).0.key_view() == k;
                    assert(entries[i] == init[i]);
                }
            }
            if exists|i: int| 0 <= i < entries.len() && (#[trigger] entries[i]).0.key_view() == k {
                let i = choose|i: int|
                    0 <= i < entries.len() && (#[trigger] entries[i]).0.key_view() == k;
                if i < init.len() {
                    assert(init[i] == entries[i]);
                }
            }
        }
        assert forall|i: int| 0 <= i < entries.len() implies #[trigger] entries_map(
            entries,
        )[entries[i].0.key_view()] == entries[i].1 by {
            if i < init.len() {
                assert(init[i] == entries[i]);
                assert(entries[i].0.key_view() != last.0.key_view()) by {
                    assert(entries[entries.len() - 1] == last);
                }
            }
        }
    }
}

proof fn lemma_entries_map_equal<K: MapKey, V>(a: Seq<(K, V)>, b: Seq<(K, V)>, m: Map<K::KeyView, V>)
    requires
        keys_distinct(b),
        forall|k: K::KeyView| #[trigger] m.contains_key(k) <==> exists|i: int|
            0 <= i < b.len() && (#[trigger] b[i]).0.key_view() == k,
        forall|i: int| 0 <= i < b.len() ==> #[trigger] m[b[i].0.key_view()] == b[i].1,
    ensures
        entries_map(b) == m,
{
    lemma_entries_map_contents(b);
    assert forall|k: K::KeyView| #[trigger] entries_map(b).contains_key(k) implies entries_map(
        b,
    )[k] == m[k] by {
        let i = choose|i: int| 0 <= i < b.len() && (#[trigger] b[i]).0.key_view() == k;
        assert(entries_map(b)[b[i].0.key_view()] == b[i].1);
    }
    assert(entries_map(b) =~= m);
}

/// A finite map from keys to values.
pub struct KeyedMap<K: MapKey, V> {
    entries: Vec<(K, V)>,
}

impl<K: MapKey, V> View for KeyedMap<K, V> {
    type V = Map<K::KeyView, V>;

    closed spec fn view(&self) -> Map<K::KeyView, V> {
        entries_map(self.entries@)
    }
}

impl<K: MapKey, V> KeyedMap<K, V> {
    #[verifier::type_invariant]
    spec fn keys_unique(self) -> bool {
        keys_distinct(self.entries@)
    }

    /// An empty map.
    pub fn new() -> (map: Self)
        ensures
            map@ == Map::<K::KeyView, V>::empty(),
    {
        KeyedMap { entries: Vec::new() }
    }

    fn position(&self, key: &K) -> (found: Option<usize>)
        ensures
            found matches Some(i) ==> i < self.entries@.len() && self.entries@[i as int].0.key_view()
                == key.key_view(),
            found is None ==> forall|i: int|
                0 <= i < self.entries@.len() ==> (#[trigger] self.entries@[i]).0.key_view()
                    != key.key_view(),
    {
        let mut i: usize = 0;
        while i < self.entries.len()
            invariant
                i <= self.entries@.len(),
                forall|j: int|
                    0 <= j < i ==> (#[trigger] self.entries@[j]).0.key_view() != key.key_view(),
            decreases self.entries@.len() - i,
        {
            if self.entries[i].0.same_key(key) {
                return Some(i);
            }
            i += 1;
        }
        None
    }

    /// The value of `key`, if any.
    pub fn get(&self, key: &K) -> (value: Option<&V>)
        ensures
            value matches Some(v) ==> self@.contains_key(key.key_view()) && *v == self@[key.key_view()],
            value is None ==> !self@.contains_key(key.key_view()),
    {
        proof {
            use_type_invariant(self);
            lemma_entries_map_contents(self.entries@);
        }
        match self.position(key) {
            Some(i) => Some(&self.entries[i].1),
            None => None,
        }
    }

    /// `true` when the map has `key`.
    pub fn contains_key(&self, key: &K) -> (b: bool)
        ensures
            b == self@.contains_key(key.key_view()),
    {
        self.get(key).is_some()
    }

    /// Sets `key` to `value`.
    pub fn insert(&mut self, key: K, value: V)
        ensures
            final(self)@ == old(self)@.insert(key.key_view(), value),
    {
        proof {
            use_type_invariant(&*self);
        }
        let found = self.position(&key);
        let mut entries: Vec<(K, V)> = Vec::new();
        std::mem::swap(&mut entries, &mut self.entries);
        let ghost old_entries = entries@;
        let ghost target = entries_map(old_entries).insert(key.key_view(), value);
        proof {
            lemma_entries_map_contents(old_entries);
        }
        match found {
            Some(i) => {
                entries.set(i, (key, value));
                proof {
                    assert(keys_distinct(entries@)) by {
                        assert forall|a: int, b: int| 0 <= a < b < entries@.len() implies (
                        #[trigger] entries@[a]).0.key_view() != (
                        #[trigger] entries@[b]).0.key_view() by {
                            assert(old_entries[a].0.key_view() != old_entries[b].0.key_view());
                        }
                    }
                    assert forall|k: K::KeyView| #[trigger] target.contains_key(k) <==> exists|j: int|
                        0 <= j < entries@.len() && (#[trigger] entries@[j]).0.key_view() == k by {
                        if target.contains_key(k) && k != entries@[i as int].0.key_view() {
                            let j = choose|j: int|
                                0 <= j < old_entries.len() && (#[trigger] old_entries[j]).0.key_view()
                                    == k;
                            assert(entries@[j] == old_entries[j]);
                        }
                        if exists|j: int|
                            0 <= j < entries@.len() && (#[trigger] entries@[j]).0.key_view() == k {
                            let j = choose|j: int|
                                0 <= j < entries@.len() && (#[trigger] entries@[j]).0.key_view() == k;
                            if j != i {
                                assert(entries@[j] == old_entries[j]);
                            }
                        }
                    }
                    assert forall|j: int| 0 <= j < entries@.len() implies #[trigger] target[entries@[
                        j
                    ].0.key_view()] == entries@[j].1 by {
                        if j != i {
                            assert(entries@[j] == old_entries[j]);
                            assert(old_entries[j].0.key_view() != old_entries[i as int].0.key_view());
                        }
                    }
                    lemma_entries_map_equal(old_entries, entries@, target);
                }
            },
            None => {
                entries.push((key, value));
                proof {
                    assert(entries@.drop_last() =~= old_entries);
                    assert(keys_distinct(entries@)) by {
                        assert forall|a: int, b: int| 0 <= a < b < entries@.len() implies (
                        #[trigger] entries@[a]).0.key_view() != (
                        #[trigger] entries@[b]).0.key_view() by {
                            assert(entries@[a] == old_entries[a]);
                            if b < old_entries.len() {
                                assert(entries@[b] == old_entries[b]);
                            }
                        }
                    }
                }
            },
        }
        self.entries = entries;
    }

    /// Removes `key`, if present.
    pub fn remove(&mut self, key: &K)
        ensures
            final(self)@ == old(self)@.remove(key.key_view()),
    {
        proof {
            use_type_invariant(&*self);
        }
        let found = self.position(key);
        let mut entries: Vec<(K, V)> = Vec::new();
        std::mem::swap(&mut entries, &mut self.entries);
        let ghost old_entries = entries@;
        let ghost target = entries_map(old_entries).remove(key.key_view());
        proof {
            lemma_entries_map_contents(old_entries);
        }
        match found {
            Some(i) => {
                entries.remove(i);
                proof {
                    assert forall|j: int| 0 <= j < entries@.len() implies #[trigger] entries@[j] == (
                    if j < i {
                        old_entries[j]
                    } else {
                        old_entries[j + 1]
                    }) by {}
                    assert(keys_distinct(entries@)) by {
                        assert forall|a: int, b: int| 0 <= a < b < entries@.len() implies (
                        #[trigger] entries@[a]).0.key_view() != (
                        #[trigger] entries@[b]).0.key_view() by {
                            let oa = if a < i {
                                a
                            } else {
                                a + 1
                            };
                            let ob = if b < i {
                                b
                            } else {
                                b + 1
                            };
                            assert(old_entries[oa].0.key_view() != old_entries[ob].0.key_view());
                        }
                    }
                    assert forall|k: K::KeyView| #[trigger] target.contains_key(k) <==> exists|j: int|
                        0 <= j < entries@.len() && (#[trigger] entries@[j]).0.key_view() == k by {
                        if target.contains_key(k) {
                            let j = choose|j: int|
                                0 <= j < old_entries.len() && (#[trigger] old_entries[j]).0.key_view()
                                    == k;
                            assert(j != i);
                            if j < i {
                                assert(entries@[j] == old_entries[j]);
                            } else {
                                assert(entries@[j - 1] == old_entries[j]);
                            }
                        }
                        if exists|j: int|
                            0 <= j < entries@.len() && (#[trigger] entries@[j]).0.key_view() == k {
                            let j = choose|j: int|
                                0 <= j < entries@.len() && (#[trigger] entries@[j]).0.key_view() == k;
                            let oj = if j < i {
                                j
                            } else {
                                j + 1
                            };
                            assert(old_entries[oj].0.key_view() != old_entries[i as int].0.key_view());
                        }
                    }
                    assert forall|j: int| 0 <= j < entries@.len() implies #[trigger] target[entries@[
                        j
                    ].0.key_view()] == entries@[j].1 by {
                        let oj = if j < i {
                            j
                        } else {
                            j + 1
                        };
                        assert(old_entries[oj].0.key_view() != old_entries[i as int].0.key_view());
                    }
                    lemma_entries_map_equal(old_entries, entries@, target);
                }
            },
            None => {
                proof {
                    assert(target =~= entries_map(old_entries));
                }
            },
        }
        self.entries = entries;
    }
}

} // verus!
