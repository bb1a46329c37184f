//! Reading a backtest's data chunk after chunk through the [`Cache`].
//!
//! The data is a sequence of chunks, each a file (`.npy` or `.npz`) or data given in memory,
//! in chronological order. The reader decides which files have to be loaded and when a chunk
//! can be handed out; loading the files is left to the caller, which reports each loaded chunk
//! back to the reader.
use vstd::prelude::*;

use crate::backtest::data::cache::{checked_out, is_default, released, Cache, CachedData};
use crate::backtest::BacktestError;

verus! {

/// A source of data: a file path, or data given in memory.
pub enum DataSource<D> {
    File(String),
    Data(D),
}

/// Preprocesses the data before the backtest reads it, such as shifting its timestamps by a
/// latency offset.
pub trait DataPreprocess<D> {
    /// The data can be preprocessed: the preprocessing stays within the values' range.
    spec fn can_preprocess(&self, data: D) -> bool;

    /// The preprocessing refuses the data.
    spec fn refuses(&self, data: D) -> bool;

    /// The preprocessing turns `before` into `after`.
    spec fn preprocessed(&self, before: D, after: D) -> bool;

    /// The reason the preprocessing gives when it refuses the data.
    spec fn reason(&self, data: D) -> Seq<char>;

    /// Preprocesses the data in place; an error carries the reason the data is refused.
    fn preprocess(&self, data: &mut D) -> (r: Result<(), String>)
        requires
            self.can_preprocess(*old(data)),
        ensures
            r is Err <==> self.refuses(*old(data)),
            r is Ok ==> self.preprocessed(*old(data), *final(data)),
            r matches Err(m) ==> m@ == self.reason(*old(data)),
    ;
}

/// A file that has to be loaded, by its path.
#[derive(Debug)]
pub enum Load {
    /// A NumPy `.npy` file.
    Npy(String),
    /// A NumPy `.npz` archive, whose `data` array is read.
    Npz(String),
}

/// A character of the lowercase hexadecimal digits.
pub open spec fn lower_hex(c: char) -> bool {
    ('0' <= c <= '9') || ('a' <= c <= 'f')
}

/// A key in the hyphenated form of a UUID: 36 lowercase hexadecimal digits and hyphens, the
/// hyphens at positions 8, 13, 18 and 23.
pub open spec fn uuid_key(k: Seq<char>) -> bool {
    &&& k.len() == 36
    &&& forall|i: int|
        0 <= i < 36 ==> if i == 8 || i == 13 || i == 18 || i == 23 {
            k[i] == '-'
        } else {
            lower_hex(#[trigger] k[i])
        }
}

/// Generates a key for data given in memory: the hyphenated form of a random (version 4) UUID.
#[verifier::external_body]
fn new_key() -> (r: String)
    ensures
        uuid_key(r@),
{
    uuid::Uuid::new_v4().to_string()
}

/// The in-memory data among the sources, in order, each under its key in `keys`.
pub open spec fn in_memory<D>(sources: Seq<DataSource<D>>, keys: Seq<Seq<char>>) -> Seq<(Seq<char>, D)>
    decreases sources.len(),
{
    if sources.len() == 0 {
        Seq::empty()
    } else {
        let prev = in_memory(sources.drop_last(), keys.drop_last());
        match sources.last() {
            DataSource::Data(d) => prev.push((keys.last(), d)),
            DataSource::File(_) => prev,
        }
    }
}

/// The key of each source: its path for a file, a generated UUID key for in-memory data.
pub open spec fn keyed<D>(sources: Seq<DataSource<D>>, keys: Seq<Seq<char>>) -> bool {
    &&& keys.len() == sources.len()
    &&& forall|i: int|
        0 <= i < sources.len() ==> match #[trigger] sources[i] {
            DataSource::File(p) => keys[i] == p@,
            DataSource::Data(_) => uuid_key(keys[i]),
        }
}

/// The cache holding the in-memory data, loaded and held by no reader, a later entry winning
/// under the same key.
pub open spec fn cached<D>(entries: Seq<(Seq<char>, D)>) -> Map<Seq<char>, CachedData<D>>
    decreases entries.len(),
{
    if entries.len() == 0 {
        Map::empty()
    } else {
        let (k, d) = entries.last();
        cached(entries.drop_last()).insert(k, CachedData { count: 0, ready: true, data: d })
    }
}

/// Whether the string ends with the suffix.
fn has_suffix(s: &str, suffix: &str) -> (r: bool)
    ensures
        r == (suffix@.len() <= s@.len() && s@.subrange(s@.len() - suffix@.len(), s@.len() as int)
            == suffix@),
{
    let n = s.unicode_len();
    let m = suffix.unicode_len();
    if m > n {
        return false;
    }
    let mut i: usize = 0;
    while i < m
        invariant
            n == s@.len(),
            m == suffix@.len(),
            m <= n,
            i <= m,
            forall|j: int| 0 <= j < i ==> s@[n - m + j] == #[trigger] suffix@[j],
        decreases m - i,
    {
        if s.get_char(n - m + i) != suffix.get_char(i) {
            assert(s@.subrange(n - m, n as int)[i as int] != suffix@[i as int]);
            return false;
        }
        i = i + 1;
    }
    assert(s@.subrange(n - m, n as int) =~= suffix@);
    true
}

/// What loading the key asks of the caller when the cache holds the keys `known`: nothing
/// (`Some(None)`) when the key is known, the `.npy` file (`Some(Some(true))`) or the `.npz` file
/// (`Some(Some(false))`) by the end of the key, and an error (`None`) for any other key.
pub open spec fn load_of(known: Set<Seq<char>>, key: Seq<char>) -> Option<Option<bool>> {
    if known.contains(key) {
        Some(None)
    } else if key.len() >= 4 && key.subrange(key.len() - 4, key.len() as int) == ".npy"@ {
        Some(Some(true))
    } else if key.len() >= 4 && key.subrange(key.len() - 4, key.len() as int) == ".npz"@ {
        Some(Some(false))
    } else {
        None
    }
}

/// A file to load as a plain value: whether it is a `.npy` file, and its path.
pub open spec fn load_view(l: Load) -> (bool, Seq<char>) {
    match l {
        Load::Npy(p) => (true, p@),
        Load::Npz(p) => (false, p@),
    }
}

/// The files that loading the key asks for, by [`load_of`].
pub open spec fn files_of(a: Option<bool>, key: Seq<char>) -> Seq<(bool, Seq<char>)> {
    match a {
        Some(npy) => seq![(npy, key)],
        None => Seq::empty(),
    }
}

/// The files to load to read the chunk at `pos` (and the one after it when loading ahead), or
/// `None` when one of these keys is of an unsupported kind.
pub open spec fn next_files(known: Set<Seq<char>>, keys: Seq<Seq<char>>, pos: int, ahead: bool) -> Option<
    Seq<(bool, Seq<char>)>,
> {
    let k0 = keys[pos];
    match load_of(known, k0) {
        None => None,
        Some(a) => if ahead && pos + 1 < keys.len() {
            match load_of(known.insert(k0), keys[pos + 1]) {
                None => None,
                Some(b) => Some(files_of(a, k0) + files_of(b, keys[pos + 1])),
            }
        } else {
            Some(files_of(a, k0))
        },
    }
}

/// A builder of a [`Reader`].
pub struct ReaderBuilder<D> {
    data_key_list: Vec<String>,
    temporary_data: Vec<(String, D)>,
    parallel_load: bool,
}

impl<D> ReaderBuilder<D> {
    /// The keys of the chunks, in order.
    pub closed spec fn keys(&self) -> Seq<Seq<char>> {
        self.data_key_list@.map_values(|k: String| k@)
    }

    /// The in-memory chunks under their keys, in order.
    pub closed spec fn temporary(&self) -> Seq<(Seq<char>, D)> {
        self.temporary_data@.map_values(|e: (String, D)| (e.0@, e.1))
    }

    /// Whether the next chunk is loaded ahead.
    pub closed spec fn parallel(&self) -> bool {
        self.parallel_load
    }
}

impl<D: Clone + Default> ReaderBuilder<D> {
    /// Constructs a builder with no data that loads the next chunk ahead.
    pub fn new() -> (r: Self)
        ensures
            r.keys() == Seq::<Seq<char>>::empty(),
            r.temporary() == Seq::<(Seq<char>, D)>::empty(),
            r.parallel(),
    {
        let r = ReaderBuilder { data_key_list: Vec::new(), temporary_data: Vec::new(), parallel_load: true };
        assert(r.keys() =~= Seq::<Seq<char>>::empty());
        assert(r.temporary() =~= Seq::<(Seq<char>, D)>::empty());
        r
    }

    /// Sets whether the next chunk is loaded ahead while the current one is read.
    pub fn parallel_load(self, parallel_load: bool) -> (r: Self)
        ensures
            r.keys() == self.keys(),
            r.temporary() == self.temporary(),
            r.parallel() == parallel_load,
    {
        ReaderBuilder { parallel_load, ..self }
    }

    /// Appends the chunks, which must be in chronological order: a file under its path, data
    /// in memory under a generated key.
    pub fn data(self, data: Vec<DataSource<D>>) -> (r: Self)
        ensures
            r.parallel() == self.parallel(),
            r.keys().len() == self.keys().len() + data@.len(),
            r.keys().take(self.keys().len() as int) == self.keys(),
            keyed(data@, r.keys().skip(self.keys().len() as int)),
            r.temporary() == self.temporary() + in_memory(
                data@,
                r.keys().skip(self.keys().len() as int),
            ),
    {
        let ghost old_keys = self.keys();
        let ghost old_temp = self.temporary();
        let ghost sources = data@;
        let total = data.len();
        let ReaderBuilder { mut data_key_list, mut temporary_data, parallel_load } = self;
        let ghost base = data_key_list@.len();
        let mut added: Vec<String> = Vec::new();
        let mut rest = data;
        let mut sources_rev: Vec<DataSource<D>> = Vec::new();
        // Take the sources from the back, then handle them from the front.
        while rest.len() > 0
            invariant
                rest@ + sources_rev@.reverse() == sources,
            decreases rest@.len(),
        {
            let s = rest.pop().unwrap();
            sources_rev.push(s);
            assert(rest@ + sources_rev@.reverse() =~= sources);
        }
        assert(sources_rev@.reverse() =~= sources);
        let ghost n = sources.len();
        assert(n == total);
        let mut i: usize = 0;
        while sources_rev.len() > 0
            invariant
                sources_rev@.len() + i == n,
                sources_rev@.reverse() == sources.skip(i as int),
                n == sources.len(),
                n <= usize::MAX,
                data_key_list@.len() == base + i,
                data_key_list@.map_values(|k: String| k@).take(base as int) == old_keys,
                base == old_keys.len(),
                keyed(sources.take(i as int), data_key_list@.map_values(|k: String| k@).skip(base as int)),
                temporary_data@.map_values(|e: (String, D)| (e.0@, e.1)) == old_temp + in_memory(
                    sources.take(i as int),
                    data_key_list@.map_values(|k: String| k@).skip(base as int),
                ),
            decreases sources_rev@.len(),
        {
            let ghost keys_before = data_key_list@.map_values(|k: String| k@);
            let ghost temp_before = temporary_data@.map_values(|e: (String, D)| (e.0@, e.1));
            let s = sources_rev.pop().unwrap();
            let ghost sv = s;
            proof {
                assert(sources.skip(i as int)[0] == s);
                assert(sources.skip(i as int).drop_first() =~= sources.skip(i + 1));
                assert(sources_rev@.reverse() =~= sources.skip(i as int).drop_first());
            }
            match s {
                DataSource::File(path) => {
                    data_key_list.push(path);
                },
                DataSource::Data(d) => {
                    let key = new_key();
                    let kc = key.clone();
                    data_key_list.push(key);
                    temporary_data.push((kc, d));
                },
            }
            proof {
                let keys_after = data_key_list@.map_values(|k: String| k@);
                let t1 = sources.take(i + 1);
                let k1 = keys_after.skip(base as int);
                assert(keys_after.take(base as int) =~= keys_before.take(base as int));
                assert(t1.drop_last() =~= sources.take(i as int));
                assert(k1.drop_last() =~= keys_before.skip(base as int));
                assert(t1.last() == s);
                assert forall|j: int| 0 <= j < t1.len() implies match #[trigger] t1[j] {
                    DataSource::File(p) => k1[j] == p@,
                    DataSource::Data(_) => uuid_key(k1[j]),
                } by {
                    if j < i {
                        assert(t1[j] == sources.take(i as int)[j]);
                        assert(k1[j] == keys_before.skip(base as int)[j]);
                    }
                }
                match sv {
                    DataSource::Data(dv) => {
                        assert(temporary_data@.map_values(|e: (String, D)| (e.0@, e.1)) =~= temp_before.push(
                            (k1.last(), dv),
                        ));
                    },
                    DataSource::File(_) => {
                        assert(temporary_data@.map_values(|e: (String, D)| (e.0@, e.1)) =~= temp_before);
                    },
                }
                assert(temporary_data@.map_values(|e: (String, D)| (e.0@, e.1)) =~= old_temp
                    + in_memory(t1, k1));
            }
            i = i + 1;
        }
        assert(sources.take(n as int) =~= sources);
        ReaderBuilder { data_key_list, temporary_data, parallel_load }
    }

    /// Builds the reader: the in-memory chunks go into its cache, loaded; reader 0 is the only
    /// one, and its next chunk is the first.
    pub fn build(self) -> (r: Reader<D>)
        ensures
            r.wf(),
            r.keys() == self.keys(),
            r.positions() == seq![0usize],
            r.parallel() == self.parallel(),
            r.cache() == cached(self.temporary()),
    {
        let ghost temp = self.temporary();
        let ReaderBuilder { data_key_list, temporary_data, parallel_load } = self;
        let mut cache: Cache<D> = Cache::new();
        let total = temporary_data.len();
        let mut rest = temporary_data;
        let mut rev: Vec<(String, D)> = Vec::new();
        while rest.len() > 0
            invariant
                rest@ + rev@.reverse() == temporary_data@,
            decreases rest@.len(),
        {
            let e = rest.pop().unwrap();
            rev.push(e);
            assert(rest@ + rev@.reverse() =~= temporary_data@);
        }
        assert(rev@.reverse() =~= temporary_data@);
        let ghost n = temporary_data@.len();
        assert(n == total);
        let mut i: usize = 0;
        while rev.len() > 0
            invariant
                cache.wf(),
                rev@.len() + i == n,
                n == temporary_data@.len(),
                n <= usize::MAX,
                rev@.reverse() == temporary_data@.skip(i as int),
                temp == temporary_data@.map_values(|e: (String, D)| (e.0@, e.1)),
                cache@ == cached(temp.take(i as int)),
            decreases rev@.len(),
        {
            let (k, d) = rev.pop().unwrap();
            proof {
                assert(temporary_data@.skip(i as int)[0] == (k, d));
                assert(temporary_data@.skip(i as int).drop_first() =~= temporary_data@.skip(i + 1));
                assert(rev@.reverse() =~= temporary_data@.skip(i as int).drop_first());
                assert(temporary_data@[i as int] == (k, d));
                assert(temp.take(i + 1).drop_last() =~= temp.take(i as int));
                assert(temp.take(i + 1).last() == (k@, d));
            }
            cache.insert(k, d);
            i = i + 1;
        }
        assert(temp.take(n as int) =~= temp);
        Reader { data_key_list, cache, data_num: vec![0], parallel_load }
    }

    /// Builds the reader, preprocessing each in-memory chunk in order before it goes into the
    /// cache; the first chunk the preprocessor refuses fails the build with its reason.
    pub fn build_with_preprocessor<P: DataPreprocess<D>>(self, preprocessor: &P) -> (r: Result<
        Reader<D>,
        BacktestError,
    >)
        requires
            forall|i: int|
                0 <= i < self.temporary().len() ==> preprocessor.can_preprocess(
                    #[trigger] self.temporary()[i].1,
                ),
        ensures
            r is Ok <==> forall|i: int|
                0 <= i < self.temporary().len() ==> !preprocessor.refuses(
                    #[trigger] self.temporary()[i].1,
                ),
            r is Err ==> exists|i: int|
                0 <= i < self.temporary().len() && preprocessor.refuses(
                    #[trigger] self.temporary()[i].1,
                ) && (forall|j: int|
                    0 <= j < i ==> !preprocessor.refuses(self.temporary()[j].1)) && (r matches Err(
                    BacktestError::DataError(m),
                ) && m@ == preprocessor.reason(self.temporary()[i].1)),
            r matches Ok(rd) ==> {
                &&& rd.wf()
                &&& rd.keys() == self.keys()
                &&& rd.positions() == seq![0usize]
                &&& rd.parallel() == self.parallel()
                &&& exists|ps: Seq<(Seq<char>, D)>|
                    {
                        &&& ps.len() == self.temporary().len()
                        &&& forall|i: int|
                            0 <= i < ps.len() ==> (#[trigger] ps[i]).0 == self.temporary()[i].0
                                && preprocessor.preprocessed(self.temporary()[i].1, ps[i].1)
                        &&& rd.cache() == cached(ps)
                    }
            },
    {
        let ghost temp = self.temporary();
        let ReaderBuilder { data_key_list, temporary_data, parallel_load } = self;
        let mut cache: Cache<D> = Cache::new();
        let total = temporary_data.len();
        let mut rest = temporary_data;
        let mut rev: Vec<(String, D)> = Vec::new();
        while rest.len() > 0
            invariant
                rest@ + rev@.reverse() == temporary_data@,
            decreases rest@.len(),
        {
            let e = rest.pop().unwrap();
            rev.push(e);
            assert(rest@ + rev@.reverse() =~= temporary_data@);
        }
        assert(rev@.reverse() =~= temporary_data@);
        let ghost n = temporary_data@.len();
        assert(n == total);
        let ghost mut ps: Seq<(Seq<char>, D)> = Seq::empty();
        let mut failure: Option<String> = None;
        let mut i: usize = 0;
        while rev.len() > 0 && failure.is_none()
            invariant
                cache.wf(),
                rev@.len() + i == n,
                n == temporary_data@.len(),
                n <= usize::MAX,
                rev@.reverse() == temporary_data@.skip(i as int),
                temp == temporary_data@.map_values(|e: (String, D)| (e.0@, e.1)),
                forall|j: int| 0 <= j < temp.len() ==> preprocessor.can_preprocess(#[trigger] temp[j].1),
                failure is None ==> {
                    &&& ps.len() == i
                    &&& forall|j: int|
                        0 <= j < i ==> (#[trigger] ps[j]).0 == temp[j].0 && preprocessor.preprocessed(
                            temp[j].1,
                            ps[j].1,
                        )
                    &&& forall|j: int| 0 <= j < i ==> !preprocessor.refuses(#[trigger] temp[j].1)
                    &&& cache@ == cached(ps)
                },
                failure matches Some(m) ==> exists|j: int|
                    0 <= j < temp.len() && preprocessor.refuses(#[trigger] temp[j].1) && (forall|
                        k: int,
                    | 0 <= k < j ==> !preprocessor.refuses(temp[k].1)) && m@ == preprocessor.reason(
                        temp[j].1,
                    ),
            decreases rev@.len(),
        {
            let (k, mut d) = rev.pop().unwrap();
            proof {
                assert(temporary_data@.skip(i as int)[0] == (k, d));
                assert(temporary_data@.skip(i as int).drop_first() =~= temporary_data@.skip(i + 1));
                assert(rev@.reverse() =~= temporary_data@.skip(i as int).drop_first());
                assert(temporary_data@[i as int] == (k, d));
                assert(temp[i as int] == (k@, d));
            }
            assert(preprocessor.can_preprocess(temp[i as int].1));
            match preprocessor.preprocess(&mut d) {
                Ok(()) => {
                    proof {
                        let ps1 = ps.push((k@, d));
                        assert(ps1.drop_last() =~= ps);
                        assert(ps1.last() == (k@, d));
                        ps = ps1;
                    }
                    cache.insert(k, d);
                },
                Err(m) => {
                    assert(preprocessor.refuses(temp[i as int].1));
                    assert(m@ == preprocessor.reason(temp[i as int].1));
                    failure = Some(m);
                },
            }
            i = i + 1;
        }
        match failure {
            Some(m) => {
                return Err(BacktestError::DataError(m));
            },
            None => {},
        }
        assert(i == n);
        Ok(Reader { data_key_list, cache, data_num: vec![0], parallel_load })
    }
}

/// Two readers sharing the cache that both take the chunk under a key, one after the other:
/// the chunk stays cached after the first of them releases it, as loaded as before, and the
/// second release drops it.
pub proof fn lemma_shared_take_release<D>(m: Map<Seq<char>, CachedData<D>>, key: Seq<char>)
    requires
        m.contains_key(key),
        m[key].count == 0,
    ensures
        ({
            let both = checked_out(checked_out(m, key), key);
            let one = released(both, key);
            &&& both[key].count == 2
            &&& one.contains_key(key)
            &&& one[key] == checked_out(m, key)[key]
            &&& one[key].ready == m[key].ready
            &&& one[key].data == m[key].data
            &&& released(one, key) == m.remove(key)
        }),
{
    let both = checked_out(checked_out(m, key), key);
    assert(released(both, key) =~= checked_out(m, key));
    assert(released(checked_out(m, key), key) =~= m.remove(key));
}

/// Reads the chunks of data in order through a cache. It holds one or more readers, numbered
/// from 0 (the one built, then the clones of [`Reader::clone_reader`]), each with its own
/// position in the chunks, all over the one cache.
pub struct Reader<D> {
    data_key_list: Vec<String>,
    cache: Cache<D>,
    data_num: Vec<usize>,
    parallel_load: bool,
}

impl<D: Clone + Default> Reader<D> {
    /// The keys of the chunks, in order.
    pub closed spec fn keys(&self) -> Seq<Seq<char>> {
        self.data_key_list@.map_values(|k: String| k@)
    }

    /// The position of the next chunk each of the readers sharing the cache hands out: the
    /// reader built, then its clones.
    pub closed spec fn positions(&self) -> Seq<usize> {
        self.data_num@
    }

    /// The position of the next chunk reader `h` hands out.
    pub open spec fn position(&self, h: int) -> nat {
        self.positions()[h] as nat
    }

    /// `h` is one of the readers sharing the cache.
    pub open spec fn has_reader(&self, h: int) -> bool {
        0 <= h < self.positions().len()
    }

    /// Whether the next chunk is loaded ahead.
    pub closed spec fn parallel(&self) -> bool {
        self.parallel_load
    }

    /// The cache of the chunks.
    pub closed spec fn cache(&self) -> Map<Seq<char>, CachedData<D>> {
        self.cache@
    }

    /// The reader's cache is well formed.
    pub closed spec fn wf(&self) -> bool {
        self.cache.wf()
    }

    /// Starts loading the key unless the cache holds it: returns the file to load, which the
    /// cache now awaits, or an error for a name that is neither `.npy` nor `.npz` (the cache
    /// then awaits the key all the same).
    fn load_data(&mut self, key: &str) -> (r: Result<Option<Load>, BacktestError>)
        requires
            old(self).wf(),
        ensures
            final(self).wf(),
            final(self).keys() == old(self).keys(),
            final(self).positions() == old(self).positions(),
            final(self).parallel() == old(self).parallel(),
            old(self).cache().contains_key(key@) ==> (r matches Ok(None)) && final(self).cache()
                == old(self).cache(),
            !old(self).cache().contains_key(key@) ==> {
                &&& final(self).cache().dom() == old(self).cache().dom().insert(key@)
                &&& final(self).cache()[key@].count == 0
                &&& !final(self).cache()[key@].ready
                &&& is_default(final(self).cache()[key@].data)
                &&& forall|k: Seq<char>|
                    k != key@ && #[trigger] old(self).cache().contains_key(k) ==> final(self).cache()[k]
                        == old(self).cache()[k]
                &&& match load_of(old(self).cache().dom(), key@) {
                    Some(Some(npy)) => r matches Ok(Some(l)) && load_view(l) == (npy, key@),
                    _ => r matches Err(BacktestError::DataError(m)) && m@ == "unsupported data type"@,
                }
            },
    {
        proof {
            reveal_strlit(".npy");
            reveal_strlit(".npz");
        }
        if self.cache.contains(key) {
            return Ok(None);
        }
        self.cache.prepare(key.to_owned());
        if has_suffix(key, ".npy") {
            Ok(Some(Load::Npy(key.to_owned())))
        } else if has_suffix(key, ".npz") {
            Ok(Some(Load::Npz(key.to_owned())))
        } else {
            Err(BacktestError::DataError("unsupported data type".to_owned()))
        }
    }

    /// Starts reading the next chunk: the files to load for it, and for the one after it when
    /// loading ahead; the end of the data is an error, as is a chunk of an unsupported kind.
    pub fn next_loads(&mut self, h: usize) -> (r: Result<Vec<Load>, BacktestError>)
        requires
            old(self).wf(),
            old(self).has_reader(h as int),
        ensures
            final(self).wf(),
            final(self).keys() == old(self).keys(),
            final(self).positions() == old(self).positions(),
            final(self).parallel() == old(self).parallel(),
            old(self).position(h as int) >= old(self).keys().len() ==> (r matches Err(
                BacktestError::EndOfData,
            )) && final(self).cache() == old(self).cache(),
            old(self).position(h as int) < old(self).keys().len() ==> {
                let key = old(self).keys()[old(self).position(h as int) as int];
                &&& final(self).cache().contains_key(key)
                &&& match next_files(
                    old(self).cache().dom(),
                    old(self).keys(),
                    old(self).position(h as int) as int,
                    old(self).parallel(),
                ) {
                    Some(files) => r matches Ok(v) && v@.map_values(|l: Load| load_view(l)) == files,
                    None => r matches Err(BacktestError::DataError(m)) && m@ == "unsupported data type"@,
                }
            },
            forall|k: Seq<char>|
                #[trigger] final(self).cache().contains_key(k) && !old(self).cache().contains_key(k)
                    ==> final(self).cache()[k].count == 0 && !final(self).cache()[k].ready
                    && is_default(final(self).cache()[k].data),
            forall|k: Seq<char>|
                #[trigger] old(self).cache().contains_key(k) ==> final(self).cache().contains_key(k)
                    && final(self).cache()[k] == old(self).cache()[k],
    {
        assert(self.keys().len() == self.data_key_list@.len());
        let pos = self.data_num[h];
        if pos >= self.data_key_list.len() {
            return Err(BacktestError::EndOfData);
        }
        let ghost dom0 = self.cache().dom();
        let mut loads: Vec<Load> = Vec::new();
        let key = self.data_key_list[pos].clone();
        assert(key@ == self.keys()[pos as int]);
        match self.load_data(key.as_str()) {
            Ok(Some(l)) => loads.push(l),
            Ok(None) => {},
            Err(e) => return Err(e),
        }
        let ghost a = load_of(dom0, key@)->0;
        assert(loads@.map_values(|l: Load| load_view(l)) =~= files_of(a, key@));
        assert(self.cache().dom() =~= dom0.insert(key@));
        let ghost mid = self.cache();
        assert forall|k: Seq<char>| #[trigger] old(self).cache().contains_key(k) implies mid.contains_key(k)
            && mid[k] == old(self).cache()[k] by {
            if k != key@ {
                assert(mid.contains_key(k));
            }
        }
        if self.parallel_load && pos + 1 < self.data_key_list.len() {
            let next_key = self.data_key_list[pos + 1].clone();
            assert(next_key@ == self.keys()[pos + 1]);
            let ghost before = loads@;
            match self.load_data(next_key.as_str()) {
                Ok(Some(l)) => loads.push(l),
                Ok(None) => {},
                Err(e) => {
                    assert(mid.contains_key(key@));
                    return Err(e);
                },
            }
            let ghost b = load_of(dom0.insert(key@), next_key@)->0;
            assert(loads@.map_values(|l: Load| load_view(l)) =~= files_of(a, key@) + files_of(
                b,
                next_key@,
            ));
            assert(mid.contains_key(key@));
            assert forall|k: Seq<char>| #[trigger] old(self).cache().contains_key(k) implies self.cache().contains_key(k)
                && self.cache()[k] == old(self).cache()[k] by {
                assert(mid.contains_key(k));
                if k != next_key@ {
                    assert(self.cache().contains_key(k));
                }
            }
        }
        Ok(loads)
    }

    /// Whether the next chunk is loaded.
    pub fn is_ready(&self, h: usize) -> (r: bool)
        requires
            self.wf(),
            self.has_reader(h as int),
            self.position(h as int) < self.keys().len(),
            self.cache().contains_key(self.keys()[self.position(h as int) as int]),
        ensures
            r == self.cache()[self.keys()[self.position(h as int) as int]].ready,
    {
        let key = &self.data_key_list[self.data_num[h]];
        assert(key@ == self.keys()[self.data_num@[h as int] as int]);
        self.cache.is_ready(key.as_str())
    }

    /// The loaded chunk of the key, which the cache awaits, comes in.
    pub fn loaded(&mut self, key: &str, data: D)
        requires
            old(self).wf(),
            old(self).cache().contains_key(key@),
        ensures
            final(self).wf(),
            final(self).keys() == old(self).keys(),
            final(self).positions() == old(self).positions(),
            final(self).parallel() == old(self).parallel(),
            final(self).cache() == old(self).cache().insert(
                key@,
                CachedData { data, ready: true, ..old(self).cache()[key@] },
            ),
    {
        self.cache.set(key, data);
    }

    /// The loaded chunk of the key, which the cache awaits, comes in and is preprocessed first:
    /// a chunk the preprocessor refuses is an error with the reason, and the cache keeps
    /// awaiting it.
    pub fn loaded_with_preprocessor<P: DataPreprocess<D>>(
        &mut self,
        key: &str,
        data: D,
        preprocessor: &P,
    ) -> (r: Result<(), BacktestError>)
        requires
            old(self).wf(),
            old(self).cache().contains_key(key@),
            preprocessor.can_preprocess(data),
        ensures
            final(self).wf(),
            final(self).keys() == old(self).keys(),
            final(self).positions() == old(self).positions(),
            final(self).parallel() == old(self).parallel(),
            r is Err <==> preprocessor.refuses(data),
            r is Err ==> (r matches Err(BacktestError::DataError(m)) && m@ == preprocessor.reason(
                data,
            )) && final(self).cache() == old(self).cache(),
            r is Ok ==> exists|d: D|
                preprocessor.preprocessed(data, d) && final(self).cache() == old(self).cache().insert(
                    key@,
                    CachedData { data: d, ready: true, ..old(self).cache()[key@] },
                ),
    {
        let mut d = data;
        match preprocessor.preprocess(&mut d) {
            Ok(()) => {
                self.cache.set(key, d);
                Ok(())
            },
            Err(m) => Err(BacktestError::DataError(m)),
        }
    }

    /// The error of a chunk whose file could not be read, with the reason.
    pub fn load_failed(key: &str, reason: &str) -> (r: BacktestError)
        ensures
            r matches BacktestError::DataError(m) && m@ == "Failed to read file '"@ + key@ + "': "@
                + reason@,
    {
        proof {
            reveal_strlit("Failed to read file '");
            reveal_strlit("': ");
        }
        let mut m = "Failed to read file '".to_owned();
        m.append(key);
        m.append("': ");
        m.append(reason);
        BacktestError::DataError(m)
    }

    /// Hands out the next chunk, which is loaded, and moves on to the one after it.
    pub fn take(&mut self, h: usize) -> (r: D)
        requires
            old(self).wf(),
            old(self).has_reader(h as int),
            old(self).position(h as int) < old(self).keys().len(),
            old(self).cache().contains_key(old(self).keys()[old(self).position(h as int) as int]),
            old(self).cache()[old(self).keys()[old(self).position(h as int) as int]].count < usize::MAX,
        ensures
            final(self).wf(),
            final(self).keys() == old(self).keys(),
            final(self).positions() == old(self).positions().update(h as int, (old(self).position(h as int) + 1) as usize),
            final(self).parallel() == old(self).parallel(),
            final(self).cache() == crate::backtest::data::cache::checked_out(
                old(self).cache(),
                old(self).keys()[old(self).position(h as int) as int],
            ),
            cloned(old(self).cache()[old(self).keys()[old(self).position(h as int) as int]].data, r),
    {
        let len = self.data_key_list.len();
        assert(self.keys().len() == len);
        let pos = self.data_num[h];
        let key = self.data_key_list[pos].clone();
        assert(key@ == self.keys()[pos as int]);
        let d = self.cache.get(key.as_str());
        self.data_num.set(h, pos + 1);
        d
    }

    /// Returns the key of the next chunk to hand out, if any is left: the key under which
    /// [`Self::take`] checks it out and [`Self::release`] gives it back.
    pub fn next_key(&self, h: usize) -> (r: Option<String>)
        requires
            self.has_reader(h as int),
        ensures
            r is Some <==> self.position(h as int) < self.keys().len(),
            r matches Some(k) ==> k@ == self.keys()[self.position(h as int) as int],
    {
        let pos = self.data_num[h];
        if pos < self.data_key_list.len() {
            Some(self.data_key_list[pos].clone())
        } else {
            None
        }
    }

    /// Opens another reader over the same chunks, starting where reader `h` stands, and returns
    /// it. The readers share the one cache: what any of them loads, checks out or releases, every
    /// other one sees, and a chunk checked out by several stays until each has released it.
    pub fn clone_reader(&mut self, h: usize) -> (r: usize)
        requires
            old(self).has_reader(h as int),
            old(self).positions().len() < usize::MAX,
        ensures
            r == old(self).positions().len(),
            final(self).positions() == old(self).positions().push(old(self).positions()[h as int]),
            final(self).wf() == old(self).wf(),
            final(self).keys() == old(self).keys(),
            final(self).parallel() == old(self).parallel(),
            final(self).cache() == old(self).cache(),
    {
        let pos = self.data_num[h];
        let r = self.data_num.len();
        self.data_num.push(pos);
        r
    }

    /// Releases a chunk handed out under the key; the cache drops it once no reader holds it.
    pub fn release(&mut self, key: &str)
        requires
            old(self).wf(),
            old(self).cache().contains_key(key@) ==> old(self).cache()[key@].count > 0,
        ensures
            final(self).wf(),
            final(self).keys() == old(self).keys(),
            final(self).positions() == old(self).positions(),
            final(self).parallel() == old(self).parallel(),
            final(self).cache() == crate::backtest::data::cache::released(old(self).cache(), key@),
    {
        self.cache.remove(key);
    }
}

} // verus!
