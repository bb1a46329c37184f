//! A cache of loaded data, keyed by the data's name (a file path or a generated key), so that the
//! local and exchange processors can read the same data without loading it twice.
//!
//! Each entry counts how many readers have checked it out; the entry is dropped once every reader
//! has released it.
use vstd::prelude::*;

verus! {

/// `d` is a value that `D::default` returns: the empty data.
pub open spec fn is_default<D: Default>(d: D) -> bool {
    call_ensures(D::default, (), d)
}

/// A cached item: the number of readers holding it, whether it is loaded, and the data.
#[derive(Debug)]
pub struct CachedData<D> {
    pub count: usize,
    pub ready: bool,
    pub data: D,
}

impl<D: Clone + Default> CachedData<D> {
    /// A loaded item that no reader holds yet.
    pub fn new(data: D) -> (r: Self)
        ensures
            r.count == 0,
            r.ready,
            r.data == data,
    {
        Self { count: 0, ready: true, data }
    }

    /// A placeholder for data being loaded: it holds the empty data.
    pub fn empty() -> (r: Self)
        ensures
            r.count == 0,
            !r.ready,
            is_default(r.data),
    {
        Self { count: 0, ready: false, data: D::default() }
    }

    /// Replaces the data.
    pub fn set(&mut self, data: D)
        ensures
            final(self).data == data,
            final(self).count == old(self).count,
            final(self).ready == old(self).ready,
    {
        self.data = data;
    }

    /// Hands out a copy of the data to one more reader.
    pub fn checkout(&mut self) -> (r: D)
        requires
            old(self).count < usize::MAX,
        ensures
            cloned(old(self).data, r),
            final(self).count == old(self).count + 1,
            final(self).ready == old(self).ready,
            final(self).data == old(self).data,
    {
        self.count = self.count + 1;
        self.data.clone()
    }

    /// One reader gives the data back; returns whether no reader holds it anymore.
    pub fn turn_in(&mut self) -> (r: bool)
        requires
            old(self).count > 0,
        ensures
            final(self).count == old(self).count - 1,
            final(self).ready == old(self).ready,
            final(self).data == old(self).data,
            r == (final(self).count == 0),
    {
        self.count = self.count - 1;
        self.count == 0
    }
}

/// The position of the entry with the given key.
pub open spec fn key_pos<D>(entries: Seq<(String, CachedData<D>)>, key: Seq<char>) -> Option<int> {
    if exists|i: int| 0 <= i < entries.len() && #[trigger] entries[i].0@ == key {
        Some(choose|i: int| 0 <= i < entries.len() && #[trigger] entries[i].0@ == key)
    } else {
        None
    }
}

/// The keys of the entries are distinct.
pub open spec fn distinct_keys<D>(entries: Seq<(String, CachedData<D>)>) -> bool {
    forall|i: int, j: int|
        0 <= i < entries.len() && 0 <= j < entries.len() && i != j ==> #[trigger] entries[i].0@
            != #[trigger] entries[j].0@
}

/// The cache as a map from keys to entries.
pub open spec fn entries_map<D>(entries: Seq<(String, CachedData<D>)>) -> Map<
    Seq<char>,
    CachedData<D>,
> {
    Map::new(|k: Seq<char>| key_pos(entries, k) is Some, |k: Seq<char>| entries[key_pos(entries, k)->0].1)
}

/// The cache after one more reader checks out the data under `key`.
pub open spec fn checked_out<D>(m: Map<Seq<char>, CachedData<D>>, key: Seq<char>) -> Map<
    Seq<char>,
    CachedData<D>,
> {
    m.insert(key, CachedData { count: (m[key].count + 1) as usize, ..m[key] })
}

/// The cache after one reader releases the data under `key`: the entry is dropped when it was
/// the last reader.
pub open spec fn released<D>(m: Map<Seq<char>, CachedData<D>>, key: Seq<char>) -> Map<
    Seq<char>,
    CachedData<D>,
> {
    if !m.contains_key(key) {
        m
    } else if m[key].count == 1 {
        m.remove(key)
    } else {
        m.insert(key, CachedData { count: (m[key].count - 1) as usize, ..m[key] })
    }
}

/// A reader that checks out data another reader holds and releases it leaves the cache as it
/// was; the last reader's release drops the entry.
pub proof fn lemma_checkout_release<D>(m: Map<Seq<char>, CachedData<D>>, key: Seq<char>)
    requires
        m.contains_key(key),
        m[key].count < usize::MAX,
    ensures
        m[key].count > 0 ==> released(checked_out(m, key), key) == m,
        m[key].count == 0 ==> released(checked_out(m, key), key) == m.remove(key),
{
    if m[key].count > 0 {
        assert(released(checked_out(m, key), key) =~= m);
    } else {
        assert(released(checked_out(m, key), key) =~= m.remove(key));
    }
}

/// Provides a data cache shared by the readers of the same data.
pub struct Cache<D> {
    entries: Vec<(String, CachedData<D>)>,
}

impl<D> View for Cache<D> {
    type V = Map<Seq<char>, CachedData<D>>;

    closed spec fn view(&self) -> Map<Seq<char>, CachedData<D>> {
        entries_map(self.entries@)
    }
}

proof fn lemma_key_pos<D>(entries: Seq<(String, CachedData<D>)>, i: int)
    requires
        distinct_keys(entries),
        0 <= i < entries.len(),
    ensures
        key_pos(entries, entries[i].0@) == Some(i),
{
    let k = entries[i].0@;
    assert(0 <= i < entries.len() && entries[i].0@ == k);
    let c = choose|c: int| 0 <= c < entries.len() && #[trigger] entries[c].0@ == k;
    if c != i {
        assert(entries[c].0@ != entries[i].0@);
    }
}

impl<D: Clone + Default> Cache<D> {
    /// The cache's entries have distinct keys.
    pub closed spec fn wf(&self) -> bool {
        distinct_keys(self.entries@)
    }

    /// Constructs an empty cache.
    pub fn new() -> (r: Self)
        ensures
            r.wf(),
            r@ == Map::<Seq<char>, CachedData<D>>::empty(),
    {
        let r = Cache { entries: Vec::new() };
        assert(r@ =~= Map::<Seq<char>, CachedData<D>>::empty());
        r
    }

    fn find(&self, key: &str) -> (r: Option<usize>)
        requires
            self.wf(),
        ensures
            match r {
                Some(i) => i < self.entries@.len() && self.entries@[i as int].0@ == key@ && key_pos(
                    self.entries@,
                    key@,
                ) == Some(i as int),
                None => key_pos(self.entries@, key@) is None,
            },
    {
        let k = key.to_owned();
        let mut i: usize = 0;
        while i < self.entries.len()
            invariant
                i <= self.entries@.len(),
                distinct_keys(self.entries@),
                k@ == key@,
                forall|j: int| 0 <= j < i ==> #[trigger] self.entries@[j].0@ != key@,
            decreases self.entries@.len() - i,
        {
            if self.entries[i].0 == k {
                proof {
                    lemma_key_pos(self.entries@, i as int);
                }
                return Some(i);
            }
            i = i + 1;
        }
        None
    }

    fn put(&mut self, key: String, item: CachedData<D>)
        requires
            old(self).wf(),
        ensures
            final(self).wf(),
            final(self)@ == old(self)@.insert(key@, item),
    {
        let ghost old_entries = self.entries@;
        match self.find(key.as_str()) {
            Some(i) => {
                self.entries.set(i, (key, item));
                proof {
                    assert(distinct_keys(self.entries@));
                    assert forall|k: Seq<char>| #![auto]
                        (key_pos(self.entries@, k) is Some) == (k == old_entries[i as int].0@ || key_pos(old_entries, k) is Some) by {
                        if key_pos(old_entries, k) is Some {
                            let p = key_pos(old_entries, k)->0;
                            assert(old_entries[p].0@ == k);
                            assert(self.entries@[p].0@ == k);
                        }
                        if key_pos(self.entries@, k) is Some {
                            let p = key_pos(self.entries@, k)->0;
                            assert(self.entries@[p].0@ == k);
                            if p != i {
                                assert(old_entries[p].0@ == k);
                            }
                        }
                    }
                    assert forall|k: Seq<char>| #[trigger] key_pos(self.entries@, k) is Some implies
                        entries_map(self.entries@)[k] == old(self)@.insert(key@, item)[k] by {
                        let p = key_pos(self.entries@, k)->0;
                        lemma_key_pos(self.entries@, p);
                        if p != i {
                            lemma_key_pos(old_entries, p);
                        }
                    }
                    assert(entries_map(self.entries@) =~= old(self)@.insert(key@, item));
                }
            },
            None => {
                let ghost kv = key@;
                self.entries.push((key, item));
                proof {
                    assert(self.entries@ == old_entries.push((self.entries@[old_entries.len() as int].0, item)));
                    assert forall|a: int, b: int|
                        0 <= a < self.entries@.len() && 0 <= b < self.entries@.len() && a != b
                            implies #[trigger] self.entries@[a].0@ != #[trigger] self.entries@[b].0@ by {
                        if a < old_entries.len() && b < old_entries.len() {
                            assert(old_entries[a] == self.entries@[a]);
                            assert(old_entries[b] == self.entries@[b]);
                        } else if a < old_entries.len() {
                            assert(old_entries[a].0@ != kv);
                        } else {
                            assert(old_entries[b].0@ != kv);
                        }
                    }
                    assert forall|k: Seq<char>| #![auto]
                        (key_pos(self.entries@, k) is Some) == (k == kv || key_pos(old_entries, k) is Some) by {
                        if key_pos(old_entries, k) is Some {
                            let p = key_pos(old_entries, k)->0;
                            assert(self.entries@[p].0@ == k);
                        }
                        if k == kv {
                            assert(self.entries@[old_entries.len() as int].0@ == k);
                        }
                        if key_pos(self.entries@, k) is Some {
                            let p = key_pos(self.entries@, k)->0;
                            if p < old_entries.len() {
                                assert(old_entries[p].0@ == k);
                            }
                        }
                    }
                    assert forall|k: Seq<char>| #[trigger] key_pos(self.entries@, k) is Some implies
                        entries_map(self.entries@)[k] == old(self)@.insert(kv, item)[k] by {
                        let p = key_pos(self.entries@, k)->0;
                        lemma_key_pos(self.entries@, p);
                        if p < old_entries.len() {
                            lemma_key_pos(old_entries, p);
                        }
                    }
                    assert(entries_map(self.entries@) =~= old(self)@.insert(kv, item));
                }
            },
        }
    }

    fn take_at(&mut self, i: usize) -> (r: (String, CachedData<D>))
        requires
            old(self).wf(),
            i < old(self).entries@.len(),
        ensures
            final(self).wf(),
            r == old(self).entries@[i as int],
            final(self)@ == old(self)@.remove(r.0@),
    {
        let ghost old_entries = self.entries@;
        let ghost kv = old_entries[i as int].0@;
        let r = self.entries.remove(i);
        proof {
            assert forall|a: int, b: int|
                0 <= a < self.entries@.len() && 0 <= b < self.entries@.len() && a != b
                    implies #[trigger] self.entries@[a].0@ != #[trigger] self.entries@[b].0@ by {
                let oa = if a < i { a } else { a + 1 };
                let ob = if b < i { b } else { b + 1 };
                assert(self.entries@[a] == old_entries[oa]);
                assert(self.entries@[b] == old_entries[ob]);
            }
            assert forall|k: Seq<char>| #![auto]
                (key_pos(self.entries@, k) is Some) == (k != kv && key_pos(old_entries, k) is Some) by {
                if key_pos(old_entries, k) is Some && k != kv {
                    let p = key_pos(old_entries, k)->0;
                    assert(old_entries[p].0@ == k);
                    if p < i {
                        assert(self.entries@[p].0@ == k);
                    } else {
                        assert(p != i);
                        assert(self.entries@[p - 1].0@ == k);
                    }
                }
                if key_pos(self.entries@, k) is Some {
                    let p = key_pos(self.entries@, k)->0;
                    let op = if p < i { p } else { p + 1 };
                    assert(old_entries[op].0@ == k);
                    assert(op != i as int);
                    assert(old_entries[i as int].0@ != old_entries[op].0@);
                }
            }
            assert forall|k: Seq<char>| #[trigger] key_pos(self.entries@, k) is Some implies
                entries_map(self.entries@)[k] == old(self)@.remove(kv)[k] by {
                let p = key_pos(self.entries@, k)->0;
                lemma_key_pos(self.entries@, p);
                let op = if p < i { p } else { p + 1 };
                assert(self.entries@[p] == old_entries[op]);
                lemma_key_pos(old_entries, op);
            }
            assert(entries_map(self.entries@) =~= old(self)@.remove(kv));
        }
        r
    }

    /// Inserts loaded data under the key, no reader holding it yet.
    pub fn insert(&mut self, key: String, data: D)
        requires
            old(self).wf(),
        ensures
            final(self).wf(),
            final(self)@.dom() == old(self)@.dom().insert(key@),
            final(self)@[key@].count == 0,
            final(self)@[key@].ready,
            final(self)@[key@].data == data,
            forall|k: Seq<char>| k != key@ && #[trigger] old(self)@.contains_key(k) ==> final(self)@[k] == old(self)@[k],
            final(self)@ == old(self)@.insert(key@, CachedData { count: 0, ready: true, data }),
    {
        let ghost kv = key@;
        self.put(key, CachedData::new(data));
        assert(self@.dom() =~= old(self)@.dom().insert(kv));
    }

    /// Inserts a placeholder under the key, to be replaced when the data is loaded.
    pub fn prepare(&mut self, key: String)
        requires
            old(self).wf(),
        ensures
            final(self).wf(),
            final(self)@.dom() == old(self)@.dom().insert(key@),
            final(self)@[key@].count == 0,
            !final(self)@[key@].ready,
            is_default(final(self)@[key@].data),
            forall|k: Seq<char>| k != key@ && #[trigger] old(self)@.contains_key(k) ==> final(self)@[k] == old(self)@[k],
            final(self)@ == old(self)@.insert(key@, final(self)@[key@]),
    {
        let ghost kv = key@;
        self.put(key, CachedData::empty());
        assert(self@.dom() =~= old(self)@.dom().insert(kv));
    }

    /// One reader releases the data under the key; the entry is dropped once no reader holds
    /// it. A key not in the cache is ignored.
    pub fn remove(&mut self, key: &str)
        requires
            old(self).wf(),
            old(self)@.contains_key(key@) ==> old(self)@[key@].count > 0,
        ensures
            final(self).wf(),
            final(self)@ == released(old(self)@, key@),
    {
        match self.find(key) {
            Some(i) => {
                proof {
                    lemma_key_pos(self.entries@, i as int);
                }
                let (k, mut item) = self.take_at(i);
                let ghost removed = self@;
                let released = item.turn_in();
                if !released {
                    self.put(k, item);
                    assert(self@ =~= old(self)@.insert(
                        key@,
                        CachedData { count: (old(self)@[key@].count - 1) as usize, ..old(self)@[key@] },
                    ));
                }
            },
            None => {},
        }
    }

    /// Returns whether the cache holds data, loaded or not, under the key.
    pub fn contains(&self, key: &str) -> (r: bool)
        requires
            self.wf(),
        ensures
            r == self@.contains_key(key@),
    {
        self.find(key).is_some()
    }

    /// Hands out the data under the key to one more reader.
    pub fn get(&mut self, key: &str) -> (r: D)
        requires
            old(self).wf(),
            old(self)@.contains_key(key@),
            old(self)@[key@].count < usize::MAX,
        ensures
            final(self).wf(),
            final(self)@ == checked_out(old(self)@, key@),
            cloned(old(self)@[key@].data, r),
    {
        let i = self.find(key).unwrap();
        proof {
            lemma_key_pos(self.entries@, i as int);
        }
        let (k, mut item) = self.take_at(i);
        let data = item.checkout();
        self.put(k, item);
        assert(self@ =~= old(self)@.insert(
            key@,
            CachedData { count: (old(self)@[key@].count + 1) as usize, ..old(self)@[key@] },
        ));
        data
    }

    /// Sets the data under the key and marks it as loaded.
    pub fn set(&mut self, key: &str, data: D)
        requires
            old(self).wf(),
            old(self)@.contains_key(key@),
        ensures
            final(self).wf(),
            final(self)@ == old(self)@.insert(
                key@,
                CachedData { data, ready: true, ..old(self)@[key@] },
            ),
    {
        let i = self.find(key).unwrap();
        proof {
            lemma_key_pos(self.entries@, i as int);
        }
        let (k, mut item) = self.take_at(i);
        item.set(data);
        item.ready = true;
        self.put(k, item);
        assert(self@ =~= old(self)@.insert(
            key@,
            CachedData { data, ready: true, ..old(self)@[key@] },
        ));
    }

    /// Returns whether the data under the key is loaded.
    pub fn is_ready(&self, key: &str) -> (r: bool)
        requires
            self.wf(),
            self@.contains_key(key@),
        ensures
            r == self@[key@].ready,
    {
        let i = self.find(key).unwrap();
        proof {
            lemma_key_pos(self.entries@, i as int);
        }
        self.entries[i].1.ready
    }
}

} // verus!
