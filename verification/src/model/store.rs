//! The typed store: put, get, range scan and delete over an ordered
//! key-value engine, for any type that fulfils the `Storable` contract.
//! Scan results come back sorted by creation timestamp, newest first.

use vstd::prelude::*;
use vstd::utf8::encode_utf8;
use vstd::string::StrSliceExecFns;
use crate::model::convert::{Storable, StoreError};
use crate::model::task::{task_prefix, task_key_bytes, task_dec, task_enc, task_inv, TaskView};
use crate::model::task_entry::{
    entry_prefix, entry_task_prefix_bytes, entry_key_bytes, entry_dec, entry_enc, entry_inv,
    TaskEntryView,
};
use crate::keys::{uuid_bytes, lemma_uuid_bytes_len, lemma_uuid_bytes_injective};

verus! {

/// The ordered key-value engine this store is built on.
#[verifier::external_type_specification]
#[verifier::external_body]
pub struct ExDb(sled::Db);

/// What the engine holds: a map from key bytes to value bytes.
pub uninterp spec fn db_map(db: sled::Db) -> Map<Seq<u8>, Seq<u8>>;

/// The empty store contents.
pub open spec fn empty_db() -> Map<Seq<u8>, Seq<u8>> {
    Map::empty()
}

/// `p` is a prefix of `k`.
pub open spec fn is_prefix_of(p: Seq<u8>, k: Seq<u8>) -> bool {
    p.len() <= k.len() && k.subrange(0, p.len() as int) == p
}

/// Relies on `sled::open`: opens or creates the store file at the path.
/// Nothing is assumed of the contents of an existing file.
#[verifier::external_body]
fn db_open(path: &str) -> (r: Result<sled::Db, StoreError>)
    ensures
        r matches Err(e) ==> e == StoreError::Storage,
{
    sled::open(path).map_err(|_| StoreError::Storage)
}

/// Relies on `sled::Tree::insert`: on success the key maps to the value
/// and no other key changes.
#[verifier::external_body]
fn db_insert(db: &mut sled::Db, key: &Vec<u8>, value: &Vec<u8>) -> (r: Result<(), StoreError>)
    ensures
        r is Ok ==> db_map(*final(db)) == db_map(*old(db)).insert(key@, value@),
        r matches Err(e) ==> e == StoreError::Storage,
{
    match db.insert(key.as_slice(), value.as_slice()) {
        Ok(_) => Ok(()),
        Err(_) => Err(StoreError::Storage),
    }
}

/// Relies on `sled::Tree::get`: returns the value stored under the key,
/// or nothing when the key is absent.
#[verifier::external_body]
fn db_get(db: &sled::Db, key: &Vec<u8>) -> (r: Result<Option<Vec<u8>>, StoreError>)
    ensures
        r matches Ok(Some(v)) ==> db_map(*db).contains_pair(key@, v@),
        r matches Ok(None) ==> !db_map(*db).dom().contains(key@),
        r matches Err(e) ==> e == StoreError::Storage,
{
    match db.get(key.as_slice()) {
        Ok(Some(v)) => Ok(Some(v.to_vec())),
        Ok(None) => Ok(None),
        Err(_) => Err(StoreError::Storage),
    }
}

/// Relies on `sled::Tree::remove`: on success the key is gone and no
/// other key changes.
#[verifier::external_body]
fn db_remove(db: &mut sled::Db, key: &Vec<u8>) -> (r: Result<(), StoreError>)
    ensures
        r is Ok ==> db_map(*final(db)) == db_map(*old(db)).remove(key@),
        r matches Err(e) ==> e == StoreError::Storage,
{
    match db.remove(key.as_slice()) {
        Ok(_) => Ok(()),
        Err(_) => Err(StoreError::Storage),
    }
}

/// Relies on `sled::Tree::clear`: on success every key is gone.
#[verifier::external_body]
fn db_clear(db: &mut sled::Db) -> (r: Result<(), StoreError>)
    ensures
        r is Ok ==> db_map(*final(db)) == empty_db(),
        r matches Err(e) ==> e == StoreError::Storage,
{
    match db.clear() {
        Ok(()) => Ok(()),
        Err(_) => Err(StoreError::Storage),
    }
}

/// Relies on `sled::Tree::flush`: persists pending writes; the contents
/// do not change.
#[verifier::external_body]
fn db_flush(db: &mut sled::Db) -> (r: Result<(), StoreError>)
    ensures
        r is Ok ==> db_map(*final(db)) == db_map(*old(db)),
        r matches Err(e) ==> e == StoreError::Storage,
{
    match db.flush() {
        Ok(_) => Ok(()),
        Err(_) => Err(StoreError::Storage),
    }
}

/// Relies on `sled::Tree::scan_prefix`: on success the result holds
/// exactly the pairs whose key begins with the prefix, with pairwise
/// distinct keys (sled yields them in ascending key order).
#[verifier::external_body]
fn db_scan_prefix(db: &sled::Db, prefix: &Vec<u8>) -> (r: Result<
    Vec<(Vec<u8>, Vec<u8>)>,
    StoreError,
>)
    ensures
        r matches Ok(pairs) ==> {
            &&& forall|i: int|
                0 <= i < pairs@.len() ==> is_prefix_of(prefix@, (#[trigger] pairs@[i]).0@)
                    && db_map(*db).contains_pair(pairs@[i].0@, pairs@[i].1@)
            &&& forall|k: Seq<u8>|
                db_map(*db).dom().contains(k) && is_prefix_of(prefix@, k) ==> exists|i: int|
                    0 <= i < pairs@.len() && (#[trigger] pairs@[i]).0@ == k
            &&& forall|i: int, j: int|
                0 <= i < j < pairs@.len() ==> (#[trigger] pairs@[i]).0@ != (#[trigger] pairs@[j]).0@
        },
        r matches Err(e) ==> e == StoreError::Storage,
{
    let mut out: Vec<(Vec<u8>, Vec<u8>)> = Vec::new();
    for item in db.scan_prefix(prefix.as_slice()) {
        match item {
            Ok((k, v)) => out.push((k.to_vec(), v.to_vec())),
            Err(_) => {
                return Err(StoreError::Storage);
            },
        }
    }
    Ok(out)
}

/// The views of the elements of a sequence.
pub open spec fn views_of<T: View>(s: Seq<T>) -> Seq<T::V> {
    s.map_values(|t: T| t@)
}

/// Non-increasing by creation timestamp: newest first.
pub open spec fn sorted_by_stamp_desc<T: Storable>(vs: Seq<T::V>) -> bool {
    forall|i: int, j: int|
        0 <= i < j < vs.len() ==> T::stamp_of(#[trigger] vs[i]) >= T::stamp_of(#[trigger] vs[j])
}

/// Every listed value is well formed and decodes from some record of the
/// store whose key begins with the prefix.
pub open spec fn scan_sound<T: Storable>(
    m: Map<Seq<u8>, Seq<u8>>,
    pre: Seq<u8>,
    vs: Seq<T::V>,
) -> bool {
    forall|i: int|
        0 <= i < vs.len() ==> T::inv(#[trigger] vs[i]) && exists|k: Seq<u8>|
            m.dom().contains(k) && is_prefix_of(pre, k) && T::dec_of(m[k]) == Some(vs[i])
}

/// Every record of the store whose key begins with the prefix decodes to
/// some listed value.
pub open spec fn scan_complete<T: Storable>(
    m: Map<Seq<u8>, Seq<u8>>,
    pre: Seq<u8>,
    vs: Seq<T::V>,
) -> bool {
    forall|k: Seq<u8>|
        #[trigger] m.dom().contains(k) && is_prefix_of(pre, k) ==> exists|i: int|
            0 <= i < vs.len() && T::dec_of(m[k]) == Some(#[trigger] vs[i])
}

/// The listed values are exactly the store's records under the prefix:
/// `ks` pairs each listed value with its own store key, the keys are
/// pairwise distinct, and every matching key appears. In particular the
/// list has exactly one element per matching record.
pub open spec fn scan_exact<T: Storable>(
    m: Map<Seq<u8>, Seq<u8>>,
    pre: Seq<u8>,
    vs: Seq<T::V>,
    ks: Seq<Seq<u8>>,
) -> bool {
    &&& ks.len() == vs.len()
    &&& forall|i: int, j: int| 0 <= i < j < ks.len() ==> ks[i] != ks[j]
    &&& forall|i: int|
        0 <= i < ks.len() ==> m.dom().contains(#[trigger] ks[i]) && is_prefix_of(pre, ks[i])
            && T::dec_of(m[ks[i]]) == Some(vs[i]) && T::inv(vs[i])
    &&& forall|k: Seq<u8>| #[trigger] m.dom().contains(k) && is_prefix_of(pre, k) ==> ks.contains(k)
}

/// Some key list witnesses that the scan is exact.
pub open spec fn scan_exact_some<T: Storable>(
    m: Map<Seq<u8>, Seq<u8>>,
    pre: Seq<u8>,
    vs: Seq<T::V>,
) -> bool {
    exists|ks: Seq<Seq<u8>>| scan_exact::<T>(m, pre, vs, ks)
}

/// An exact scan is sound.
pub proof fn lemma_scan_exact_sound<T: Storable>(
    m: Map<Seq<u8>, Seq<u8>>,
    pre: Seq<u8>,
    vs: Seq<T::V>,
    ks: Seq<Seq<u8>>,
)
    requires
        scan_exact::<T>(m, pre, vs, ks),
    ensures
        scan_sound::<T>(m, pre, vs),
{
    assert forall|i: int| 0 <= i < vs.len() implies T::inv(#[trigger] vs[i]) && exists|k: Seq<u8>|
        m.dom().contains(k) && is_prefix_of(pre, k) && T::dec_of(m[k]) == Some(vs[i]) by {
        let k = ks[i];
        assert(m.dom().contains(k) && is_prefix_of(pre, k) && T::dec_of(m[k]) == Some(vs[i]));
    }
}

/// An exact scan is complete.
pub proof fn lemma_scan_exact_complete<T: Storable>(
    m: Map<Seq<u8>, Seq<u8>>,
    pre: Seq<u8>,
    vs: Seq<T::V>,
    ks: Seq<Seq<u8>>,
)
    requires
        scan_exact::<T>(m, pre, vs, ks),
    ensures
        scan_complete::<T>(m, pre, vs),
{
    assert forall|k: Seq<u8>| #[trigger] m.dom().contains(k) && is_prefix_of(pre, k) implies exists|
        i: int,
    | 0 <= i < vs.len() && T::dec_of(m[k]) == Some(#[trigger] vs[i]) by {
        let i = choose|i: int| 0 <= i < ks.len() && ks[i] == k;
        assert(0 <= i < vs.len() && T::dec_of(m[k]) == Some(vs[i]));
    }
}

/// The views of key-and-item pairs: each store key beside its decoded
/// abstract value.
spec fn keyed_views<T: View>(s: Seq<(Vec<u8>, T)>) -> Seq<(Seq<u8>, T::V)> {
    s.map_values(|p: (Vec<u8>, T)| (p.0@, p.1@))
}

/// The typed persistence layer over one open store.
pub struct TaskStore {
    db: sled::Db,
}

impl View for TaskStore {
    type V = Map<Seq<u8>, Seq<u8>>;

    closed spec fn view(&self) -> Map<Seq<u8>, Seq<u8>> {
        db_map(self.db)
    }
}

impl TaskStore {
    /// Open (or create) the store file at the given path. Failing to open
    /// is the one fatal startup condition; nothing is assumed about the
    /// contents of an existing file.
    pub fn new(db_path: &str) -> (r: Result<Self, StoreError>)
        ensures
            r matches Err(e) ==> e == StoreError::Storage,
    {
        match db_open(db_path) {
            Ok(db) => Ok(TaskStore { db }),
            Err(e) => Err(e),
        }
    }

    /// Idempotent upsert: on success the item sits under its own key, no
    /// other record changes, and the item is echoed back for chaining.
    pub fn put<T: Storable>(&mut self, item: T) -> (r: Result<T, StoreError>)
        requires
            T::inv(item@),
        ensures
            r matches Ok(it) ==> {
                &&& final(self)@ == old(self)@.insert(T::key_of(item@), T::enc_of(item@))
                &&& it@ == item@
            },
    {
        let key = item.to_key();
        let key_bytes = key.as_str().as_bytes_vec();
        let value = item.to_bytes();
        match db_insert(&mut self.db, &key_bytes, &value) {
            Ok(()) => Ok(item),
            Err(e) => Err(e),
        }
    }

    /// Fetch one record by key. `Ok(None)` exactly when the key is
    /// absent; a `Codec` error exactly when the key holds bytes that do
    /// not decode; a `Storage` error when the engine fails.
    pub fn get<T: Storable>(&self, key: String) -> (r: Result<Option<T>, StoreError>)
        ensures
            r matches Ok(Some(v)) ==> {
                &&& self@.dom().contains(encode_utf8(key@))
                &&& T::dec_of(self@[encode_utf8(key@)]) == Some(v@)
                &&& T::inv(v@)
            },
            r matches Ok(None) ==> !self@.dom().contains(encode_utf8(key@)),
            r == Err::<Option<T>, StoreError>(StoreError::Codec) ==> self@.dom().contains(
                encode_utf8(key@),
            ) && T::dec_of(self@[encode_utf8(key@)]) is None,
    {
        let key_bytes = key.as_str().as_bytes_vec();
        match db_get(&self.db, &key_bytes) {
            Ok(Some(v)) => match T::from_bytes(&v) {
                Ok(item) => Ok(Some(item)),
                Err(e) => Err(e),
            },
            Ok(None) => Ok(None),
            Err(e) => Err(e),
        }
    }

    /// Delete a record through the item it holds.
    pub fn delete_item<T: Storable>(&mut self, item: &T) -> (r: Result<(), StoreError>)
        requires
            T::inv(item@),
        ensures
            r is Ok ==> final(self)@ == old(self)@.remove(T::key_of(item@)),
    {
        let key = item.to_key();
        let key_bytes = key.as_str().as_bytes_vec();
        db_remove(&mut self.db, &key_bytes)
    }

    /// Delete a record by key.
    pub fn delete_key(&mut self, key: String) -> (r: Result<(), StoreError>)
        ensures
            r is Ok ==> final(self)@ == old(self)@.remove(encode_utf8(key@)),
    {
        let key_bytes = key.as_str().as_bytes_vec();
        db_remove(&mut self.db, &key_bytes)
    }

    /// Range scan: every record whose key begins with the prefix, decoded
    /// and sorted by creation timestamp, newest first. The whole call
    /// fails with a `Codec` error exactly when some matching record does
    /// not decode, and with a `Storage` error when the engine fails.
    #[verifier::rlimit(100)]
    pub fn get_prefix<T: Storable>(&self, prefix: &str) -> (r: Result<Vec<T>, StoreError>)
        ensures
            r matches Ok(items) ==> sorted_by_stamp_desc::<T>(views_of(items@)),
            r matches Ok(items) ==> scan_sound::<T>(self@, encode_utf8(prefix@), views_of(items@)),
            r matches Ok(items) ==> scan_complete::<T>(
                self@,
                encode_utf8(prefix@),
                views_of(items@),
            ),
            r matches Ok(items) ==> scan_exact_some::<T>(
                self@,
                encode_utf8(prefix@),
                views_of(items@),
            ),
            r == Err::<Vec<T>, StoreError>(StoreError::Codec) ==> exists|k: Seq<u8>|
                #[trigger] self@.dom().contains(k) && is_prefix_of(encode_utf8(prefix@), k)
                    && T::dec_of(self@[k]) is None,
    {
        let prefix_bytes = prefix.as_bytes_vec();
        let pairs = match db_scan_prefix(&self.db, &prefix_bytes) {
            Ok(p) => p,
            Err(e) => {
                return Err(e);
            },
        };
        let keyed = match decode_pairs::<T>(&pairs) {
            Ok(it) => it,
            Err(e) => {
                proof {
                    let i = choose|i: int|
                        0 <= i < pairs@.len() && T::dec_of((#[trigger] pairs@[i]).1@) is None;
                    assert(self@.contains_pair(pairs@[i].0@, pairs@[i].1@));
                    assert(self@.dom().contains(pairs@[i].0@) && is_prefix_of(
                        encode_utf8(prefix@),
                        pairs@[i].0@,
                    ) && T::dec_of(self@[pairs@[i].0@]) is None);
                }
                return Err(e);
            },
        };
        let ghost kvs0 = keyed_views(keyed@);
        let mut sorted = sort_by_timestamp_desc::<T>(keyed);
        let ghost sorted0 = sorted@;
        let ghost svs = keyed_views(sorted0);
        let mut items: Vec<T> = Vec::new();
        while sorted.len() > 0
            invariant
                items@.len() + sorted@.len() == sorted0.len(),
                sorted@ == sorted0.subrange(items@.len() as int, sorted0.len() as int),
                forall|j: int|
                    0 <= j < items@.len() ==> (#[trigger] items@[j])@ == sorted0[j].1@,
            decreases sorted@.len(),
        {
            let ghost done = items@.len() as int;
            let p = sorted.remove(0);
            proof {
                assert(sorted0.subrange(done, sorted0.len() as int)[0] == sorted0[done]);
                assert(sorted@ =~= sorted0.subrange(done + 1, sorted0.len() as int));
            }
            items.push(p.1);
        }
        let ghost ks = Seq::new(sorted0.len(), |i: int| sorted0[i].0@);
        proof {
            let pre = encode_utf8(prefix@);
            let vs = views_of(items@);
            kvs0.to_multiset_ensures();
            svs.to_multiset_ensures();
            assert(vs.len() == sorted0.len() && ks.len() == sorted0.len());
            assert(forall|i: int|
                0 <= i < sorted0.len() ==> #[trigger] svs[i] == (ks[i], vs[i]));
            // Each scanned pair relates a distinct store key to its record.
            assert(forall|j: int|
                0 <= j < kvs0.len() ==> #[trigger] kvs0[j] == (pairs@[j].0@, kvs0[j].1));
            assert forall|j: int| 0 <= j < kvs0.len() implies self@.contains_pair(
                (#[trigger] kvs0[j]).0,
                pairs@[j].1@,
            ) && is_prefix_of(pre, kvs0[j].0) && T::dec_of(self@[kvs0[j].0]) == Some(kvs0[j].1)
                && T::inv(kvs0[j].1) by {
                assert(kvs0[j].0 == keyed@[j].0@ && kvs0[j].1 == keyed@[j].1@);
            }
            assert(kvs0.no_duplicates()) by {
                assert forall|i: int, j: int|
                    0 <= i < kvs0.len() && 0 <= j < kvs0.len() && i != j implies kvs0[i]
                    != kvs0[j] by {
                    assert(kvs0[i].0 == pairs@[i].0@ && kvs0[j].0 == pairs@[j].0@);
                }
            }
            kvs0.lemma_multiset_has_no_duplicates();
            svs.lemma_multiset_has_no_duplicates_conv();
            // Every sorted pair is one of the scanned pairs.
            assert forall|i: int| 0 <= i < sorted0.len() implies self@.dom().contains(
                #[trigger] ks[i],
            ) && is_prefix_of(pre, ks[i]) && T::dec_of(self@[ks[i]]) == Some(vs[i]) && T::inv(
                vs[i],
            ) by {
                assert(svs.to_multiset().count(svs[i]) > 0);
                assert(kvs0.contains(svs[i]));
                let j = choose|j: int| 0 <= j < kvs0.len() && kvs0[j] == svs[i];
                assert(kvs0[j].0 == ks[i] && kvs0[j].1 == vs[i]);
            }
            // Distinct positions carry distinct keys.
            assert forall|i: int, j: int| 0 <= i < j < sorted0.len() implies ks[i] != ks[j] by {
                assert(svs[i] != svs[j]);
                assert(kvs0.contains(svs[i]) && kvs0.contains(svs[j])) by {
                    assert(svs.to_multiset().count(svs[i]) > 0);
                    assert(svs.to_multiset().count(svs[j]) > 0);
                }
                let a = choose|a: int| 0 <= a < kvs0.len() && kvs0[a] == svs[i];
                let b = choose|b: int| 0 <= b < kvs0.len() && kvs0[b] == svs[j];
                assert(a != b);
                assert(kvs0[a].0 == pairs@[a].0@ && kvs0[b].0 == pairs@[b].0@);
            }
            // Every matching store key appears.
            assert forall|k: Seq<u8>|
                #[trigger] self@.dom().contains(k) && is_prefix_of(pre, k) implies ks.contains(
                k,
            ) by {
                let i0 = choose|i: int| 0 <= i < pairs@.len() && (#[trigger] pairs@[i]).0@ == k;
                assert(kvs0[i0].0 == k);
                assert(kvs0.to_multiset().count(kvs0[i0]) > 0) by {
                    assert(kvs0.contains(kvs0[i0]));
                }
                assert(svs.contains(kvs0[i0]));
                let i = choose|i: int| 0 <= i < svs.len() && svs[i] == kvs0[i0];
                assert(ks[i] == k);
            }
            assert(scan_exact::<T>(self@, pre, vs, ks));
            assert(scan_exact_some::<T>(self@, encode_utf8(prefix@), views_of(items@))) by {
                assert(scan_exact::<T>(self@, encode_utf8(prefix@), views_of(items@), ks));
            }
            lemma_scan_exact_sound::<T>(self@, pre, vs, ks);
            lemma_scan_exact_complete::<T>(self@, pre, vs, ks);
            assert(sorted_by_stamp_desc::<T>(vs)) by {
                assert forall|i: int, j: int| 0 <= i < j < vs.len() implies T::stamp_of(
                    #[trigger] vs[i],
                ) >= T::stamp_of(#[trigger] vs[j]) by {
                    assert(vs[i] == sorted0[i].1@ && vs[j] == sorted0[j].1@);
                }
            }
        }
        Ok(items)
    }

    /// Wipe the store and persist the removal before returning.
    pub fn truncate(&mut self) -> (r: Result<(), StoreError>)
        ensures
            r is Ok ==> final(self)@ == empty_db(),
    {
        match db_clear(&mut self.db) {
            Ok(()) => db_flush(&mut self.db),
            Err(e) => Err(e),
        }
    }
}

/// Decode every scanned value, keeping each record's key beside it; the
/// call fails on the first record that does not decode, as one `Codec`
/// error.
fn decode_pairs<T: Storable>(pairs: &Vec<(Vec<u8>, Vec<u8>)>) -> (r: Result<
    Vec<(Vec<u8>, T)>,
    StoreError,
>)
    ensures
        r matches Ok(items) ==> {
            &&& items@.len() == pairs@.len()
            &&& forall|i: int|
                0 <= i < items@.len() ==> (#[trigger] items@[i]).0@ == pairs@[i].0@ && T::dec_of(
                    pairs@[i].1@,
                ) == Some(items@[i].1@) && T::inv(items@[i].1@)
        },
        r matches Err(e) ==> e == StoreError::Codec && exists|i: int|
            0 <= i < pairs@.len() && T::dec_of((#[trigger] pairs@[i]).1@) is None,
{
    let mut items: Vec<(Vec<u8>, T)> = Vec::new();
    let mut i: usize = 0;
    let n = pairs.len();
    while i < n
        invariant
            i <= n,
            n == pairs@.len(),
            items@.len() == i,
            forall|j: int|
                0 <= j < i ==> (#[trigger] items@[j]).0@ == pairs@[j].0@ && T::dec_of(
                    pairs@[j].1@,
                ) == Some(items@[j].1@) && T::inv(items@[j].1@),
        decreases n - i,
    {
        match T::from_bytes(&pairs[i].1) {
            Ok(item) => {
                let key = crate::codec::copy_range(&pairs[i].0, 0, pairs[i].0.len());
                proof {
                    assert(key@ =~= pairs@[i as int].0@);
                }
                items.push((key, item));
            },
            Err(e) => {
                return Err(e);
            },
        }
        i += 1;
    }
    Ok(items)
}

/// Sort key-and-item pairs descending by the item's creation timestamp;
/// the result is a permutation of the input pairs.
fn sort_by_timestamp_desc<T: Storable>(items: Vec<(Vec<u8>, T)>) -> (r: Vec<(Vec<u8>, T)>)
    ensures
        r@.len() == items@.len(),
        keyed_views(r@).to_multiset() == keyed_views(items@).to_multiset(),
        forall|i: int, j: int|
            0 <= i < j < r@.len() ==> T::stamp_of((#[trigger] r@[i]).1@) >= T::stamp_of(
                (#[trigger] r@[j]).1@,
            ),
{
    broadcast use vstd::seq_lib::group_to_multiset_ensures;

    let mut rest = items;
    let mut out: Vec<(Vec<u8>, T)> = Vec::new();
    proof {
        assert(keyed_views(out@) =~= Seq::<(Seq<u8>, T::V)>::empty());
        assert(keyed_views(out@).to_multiset().add(keyed_views(rest@).to_multiset())
            =~= keyed_views(rest@).to_multiset());
    }
    while rest.len() > 0
        invariant
            keyed_views(out@).to_multiset().add(keyed_views(rest@).to_multiset()) == keyed_views(
                items@,
            ).to_multiset(),
            out@.len() + rest@.len() == items@.len(),
            forall|i: int, j: int|
                0 <= i < j < out@.len() ==> T::stamp_of((#[trigger] out@[i]).1@) >= T::stamp_of(
                    (#[trigger] out@[j]).1@,
                ),
            forall|i: int, j: int|
                0 <= i < out@.len() && 0 <= j < rest@.len() ==> T::stamp_of(
                    (#[trigger] out@[i]).1@,
                ) >= T::stamp_of((#[trigger] rest@[j]).1@),
        decreases rest@.len(),
    {
        let mut best: usize = 0;
        let mut k: usize = 1;
        while k < rest.len()
            invariant
                best < k <= rest@.len(),
                rest@.len() > 0,
                forall|j: int|
                    0 <= j < k ==> T::stamp_of((#[trigger] rest@[best as int]).1@) >= T::stamp_of(
                        (rest@[j]).1@,
                    ),
            decreases rest@.len() - k,
        {
            if rest[k].1.timestamp_key() > rest[best].1.timestamp_key() {
                best = k;
            }
            k += 1;
        }
        let ghost old_out = out@;
        let ghost old_rest = rest@;
        let ghost v = (old_rest[best as int].0@, old_rest[best as int].1@);
        let x = rest.remove(best);
        out.push(x);
        proof {
            assert(keyed_views(old_rest)[best as int] == v);
            assert(keyed_views(old_rest).contains(v));
            assert(keyed_views(rest@) =~= keyed_views(old_rest).remove(best as int));
            assert(keyed_views(out@) =~= keyed_views(old_out).push(v));
            vstd::seq_lib::to_multiset_remove(keyed_views(old_rest), best as int);
            vstd::seq_lib::to_multiset_build(keyed_views(old_out), v);
            keyed_views(old_rest).to_multiset_ensures();
            assert(keyed_views(old_rest).to_multiset().count(v) > 0);
            assert(keyed_views(rest@).to_multiset() =~= keyed_views(old_rest).to_multiset().remove(
                v,
            ));
            assert(keyed_views(old_out).push(v).to_multiset() =~= keyed_views(
                old_out,
            ).to_multiset().insert(v));
            assert(keyed_views(out@).to_multiset() =~= keyed_views(old_out).to_multiset().insert(
                v,
            ));
            assert(keyed_views(out@).to_multiset().add(keyed_views(rest@).to_multiset())
                =~= keyed_views(old_out).to_multiset().add(keyed_views(old_rest).to_multiset()));
        }
    }
    out
}

/// The length of the longest column.
pub open spec fn max_col_len(cols: Seq<Seq<Seq<char>>>) -> nat
    decreases cols.len(),
{
    if cols.len() == 0 {
        0
    } else {
        let rest = max_col_len(cols.drop_last());
        if cols.last().len() > rest {
            cols.last().len()
        } else {
            rest
        }
    }
}

/// The cells of a CSV export: a header row of the tasks' names, then one
/// row per entry position, each task's entries in its own column, padded
/// with empty cells to the longest column.
pub fn csv_rows(names: &Vec<String>, columns: &Vec<Vec<String>>) -> (r: Vec<Vec<String>>)
    requires
        columns@.len() == names@.len(),
    ensures
        r@.len() == 1 + max_col_len(columns.deep_view()),
        r@[0].deep_view() == names.deep_view(),
        forall|i: int| 1 <= i < r@.len() ==> (#[trigger] r@[i])@.len() == names@.len(),
        forall|i: int, c: int|
            #![trigger r@[i].deep_view()[c]]
            1 <= i < r@.len() && 0 <= c < names@.len() ==> r@[i].deep_view()[c] == (if i - 1
                < columns.deep_view()[c].len() {
                columns.deep_view()[c][i - 1]
            } else {
                Seq::<char>::empty()
            }),
{
    let n = names.len();
    let mut max_len: usize = 0;
    let mut c: usize = 0;
    while c < n
        invariant
            c <= n,
            n == columns@.len(),
            max_len as nat == max_col_len(columns.deep_view().subrange(0, c as int)),
        decreases n - c,
    {
        proof {
            let pre = columns.deep_view().subrange(0, c as int + 1);
            assert(pre.drop_last() =~= columns.deep_view().subrange(0, c as int));
            assert(pre.last() == columns.deep_view()[c as int]);
            assert(columns.deep_view()[c as int].len() == columns@[c as int]@.len());
        }
        if columns[c].len() > max_len {
            max_len = columns[c].len();
        }
        c += 1;
    }
    proof {
        assert(columns.deep_view().subrange(0, n as int) =~= columns.deep_view());
    }
    let mut header: Vec<String> = Vec::new();
    let mut c: usize = 0;
    while c < n
        invariant
            c <= n,
            n == names@.len(),
            header@.len() == c,
            forall|j: int| 0 <= j < c ==> (#[trigger] header@[j])@ == names@[j]@,
        decreases n - c,
    {
        header.push(names[c].clone());
        c += 1;
    }
    let mut r: Vec<Vec<String>> = Vec::new();
    proof {
        assert(header.deep_view() =~= names.deep_view());
    }
    r.push(header);
    let mut i: usize = 0;
    while i < max_len
        invariant
            i <= max_len,
            n == names@.len() == columns@.len(),
            r@.len() == 1 + i,
            r@[0].deep_view() == names.deep_view(),
            forall|j: int| 1 <= j <= i ==> (#[trigger] r@[j])@.len() == n,
            forall|j: int, c2: int|
                #![trigger r@[j].deep_view()[c2]]
                1 <= j <= i && 0 <= c2 < n ==> r@[j].deep_view()[c2] == (if j - 1
                    < columns.deep_view()[c2].len() {
                    columns.deep_view()[c2][j - 1]
                } else {
                    Seq::<char>::empty()
                }),
        decreases max_len - i,
    {
        let mut row: Vec<String> = Vec::new();
        let mut c2: usize = 0;
        while c2 < n
            invariant
                c2 <= n,
                n == columns@.len(),
                row@.len() == c2,
                forall|j: int|
                    0 <= j < c2 ==> (#[trigger] row@[j])@ == (if i < columns.deep_view()[j].len() {
                        columns.deep_view()[j][i as int]
                    } else {
                        Seq::<char>::empty()
                    }),
            decreases n - c2,
        {
            proof {
                assert(columns.deep_view()[c2 as int].len() == columns@[c2 as int]@.len());
                assert(i < columns@[c2 as int]@.len() ==> columns.deep_view()[c2 as int][i as int]
                    == columns@[c2 as int]@[i as int]@);
            }
            if i < columns[c2].len() {
                row.push(columns[c2][i].clone());
            } else {
                row.push(String::new());
            }
            c2 += 1;
        }
        r.push(row);
        i += 1;
    }
    r
}

/// A consistent store: every record sits under its own canonical key —
/// tasks under `task:<id>`, entries under `task_entry:<task-id>:<id>`.
/// `put` establishes this for every record it writes; the predicate is
/// what prefix scans rest on.
pub open spec fn store_consistent(m: Map<Seq<u8>, Seq<u8>>) -> bool {
    &&& forall|k: Seq<u8>|
        #[trigger] m.dom().contains(k) && is_prefix_of(task_prefix(), k) ==> match task_dec(m[k]) {
            Some(v) => task_key_bytes(v.id) == k,
            None => false,
        }
    &&& forall|k: Seq<u8>|
        #[trigger] m.dom().contains(k) && is_prefix_of(entry_prefix(), k) ==> match entry_dec(
            m[k],
        ) {
            Some(v) => entry_key_bytes(v.task_id, v.id) == k,
            None => false,
        }
}

/// The empty store is consistent.
pub proof fn lemma_empty_consistent()
    ensures
        store_consistent(empty_db()),
{
}

/// Idempotent put: writing under one key twice leaves exactly one record
/// under it, the second value standing.
pub proof fn lemma_put_idempotent(m: Map<Seq<u8>, Seq<u8>>, k: Seq<u8>, v1: Seq<u8>, v2: Seq<u8>)
    ensures
        m.insert(k, v1).insert(k, v2) == m.insert(k, v2),
        m.insert(k, v2).dom() == m.dom().insert(k),
        m.insert(k, v2)[k] == v2,
{
    assert(m.insert(k, v1).insert(k, v2) =~= m.insert(k, v2));
    assert(m.insert(k, v2).dom() =~= m.dom().insert(k));
}

/// A stored record reads back whole: after an upsert, the bytes under
/// the item's key decode to exactly the item that was put.
pub proof fn lemma_put_reads_back<T: Storable>(m: Map<Seq<u8>, Seq<u8>>, v: T::V)
    requires
        T::inv(v),
    ensures
        T::dec_of(m.insert(T::key_of(v), T::enc_of(v))[T::key_of(v)]) == Some(v),
{
    T::lemma_round_trip(v);
}

/// The two key prefixes are disjoint: no key bears both.
pub proof fn lemma_prefixes_disjoint(k: Seq<u8>)
    requires
        is_prefix_of(task_prefix(), k),
    ensures
        !is_prefix_of(entry_prefix(), k),
{
    assert(k[4] == 58);
}

/// Storing a task keeps the store consistent.
pub proof fn lemma_put_task_consistent(m: Map<Seq<u8>, Seq<u8>>, t: TaskView)
    requires
        store_consistent(m),
        task_inv(t),
    ensures
        store_consistent(m.insert(task_key_bytes(t.id), task_enc(t))),
{
    let nk = task_key_bytes(t.id);
    let m2 = m.insert(nk, task_enc(t));
    crate::model::task::lemma_task_enc_dec(t);
    lemma_uuid_bytes_len(t.id);
    assert(is_prefix_of(task_prefix(), nk)) by {
        assert(nk.subrange(0, 5) =~= task_prefix());
    }
    lemma_prefixes_disjoint(nk);
    assert forall|k: Seq<u8>|
        #[trigger] m2.dom().contains(k) && is_prefix_of(task_prefix(), k) implies match task_dec(
        m2[k],
    ) {
        Some(v) => task_key_bytes(v.id) == k,
        None => false,
    } by {
        if k != nk {
            assert(m.dom().contains(k));
            assert(m2[k] == m[k]);
        }
    }
    assert forall|k: Seq<u8>|
        #[trigger] m2.dom().contains(k) && is_prefix_of(entry_prefix(), k) implies match entry_dec(
        m2[k],
    ) {
        Some(v) => entry_key_bytes(v.task_id, v.id) == k,
        None => false,
    } by {
        if k != nk {
            assert(m.dom().contains(k));
            assert(m2[k] == m[k]);
        }
    }
}

/// Storing an entry keeps the store consistent.
pub proof fn lemma_put_entry_consistent(m: Map<Seq<u8>, Seq<u8>>, e: TaskEntryView)
    requires
        store_consistent(m),
        entry_inv(e),
    ensures
        store_consistent(m.insert(entry_key_bytes(e.task_id, e.id), entry_enc(e))),
{
    let nk = entry_key_bytes(e.task_id, e.id);
    let m2 = m.insert(nk, entry_enc(e));
    crate::model::task_entry::lemma_entry_enc_dec(e);
    lemma_uuid_bytes_len(e.task_id);
    lemma_uuid_bytes_len(e.id);
    assert(is_prefix_of(entry_prefix(), nk)) by {
        assert(nk.subrange(0, 11) =~= entry_prefix());
    }
    assert(!is_prefix_of(task_prefix(), nk)) by {
        assert(nk[4] == 95);
    }
    assert forall|k: Seq<u8>|
        #[trigger] m2.dom().contains(k) && is_prefix_of(task_prefix(), k) implies match task_dec(
        m2[k],
    ) {
        Some(v) => task_key_bytes(v.id) == k,
        None => false,
    } by {
        if k != nk {
            assert(m.dom().contains(k));
            assert(m2[k] == m[k]);
        }
    }
    assert forall|k: Seq<u8>|
        #[trigger] m2.dom().contains(k) && is_prefix_of(entry_prefix(), k) implies match entry_dec(
        m2[k],
    ) {
        Some(v) => entry_key_bytes(v.task_id, v.id) == k,
        None => false,
    } by {
        if k != nk {
            assert(m.dom().contains(k));
            assert(m2[k] == m[k]);
        }
    }
}

/// Removing any record keeps the store consistent.
pub proof fn lemma_remove_consistent(m: Map<Seq<u8>, Seq<u8>>, k: Seq<u8>)
    requires
        store_consistent(m),
    ensures
        store_consistent(m.remove(k)),
{
    assert forall|j: Seq<u8>| #[trigger] m.remove(k).dom().contains(j) implies m.dom().contains(j)
        && m.remove(k)[j] == m[j] by {}
}

/// Prefix isolation, one record at a time: in a consistent store, a
/// record under the entry prefix of task `a` always belongs to task `a`.
pub proof fn lemma_prefix_isolation(
    m: Map<Seq<u8>, Seq<u8>>,
    a: u128,
    k: Seq<u8>,
    e: TaskEntryView,
)
    requires
        store_consistent(m),
        m.dom().contains(k),
        is_prefix_of(entry_task_prefix_bytes(a), k),
        entry_dec(m[k]) == Some(e),
    ensures
        e.task_id == a,
{
    lemma_uuid_bytes_len(a);
    assert(is_prefix_of(entry_prefix(), k)) by {
        assert(entry_task_prefix_bytes(a).subrange(0, 11) =~= entry_prefix());
        assert(k.subrange(0, 11) =~= entry_task_prefix_bytes(a).subrange(0, 11)) by {
            assert(k.subrange(0, 47).subrange(0, 11) =~= k.subrange(0, 11));
        }
    }
    let v = match entry_dec(m[k]) {
        Some(v) => v,
        None => e,
    };
    assert(v == e);
    assert(entry_key_bytes(v.task_id, v.id) == k);
    lemma_uuid_bytes_len(v.task_id);
    lemma_uuid_bytes_len(v.id);
    assert(uuid_bytes(v.task_id) =~= k.subrange(11, 47)) by {
        assert(entry_key_bytes(v.task_id, v.id).subrange(11, 47) =~= uuid_bytes(v.task_id));
    }
    assert(uuid_bytes(a) =~= k.subrange(11, 47)) by {
        assert(entry_task_prefix_bytes(a).subrange(11, 47) =~= uuid_bytes(a));
        assert(k.subrange(0, 47).subrange(11, 47) =~= k.subrange(11, 47));
    }
    lemma_uuid_bytes_injective(a, v.task_id);
}

/// Prefix isolation for whole scans: in a consistent store, everything a
/// scan of one task's entry prefix returns belongs to that task — never
/// to another parent.
pub proof fn lemma_scan_entries_belong(m: Map<Seq<u8>, Seq<u8>>, a: u128, vs: Seq<TaskEntryView>)
    requires
        store_consistent(m),
        scan_sound::<crate::model::task_entry::TaskEntry>(m, entry_task_prefix_bytes(a), vs),
    ensures
        forall|i: int| 0 <= i < vs.len() ==> (#[trigger] vs[i]).task_id == a,
{
    assert forall|i: int| 0 <= i < vs.len() implies (#[trigger] vs[i]).task_id == a by {
        let k = choose|k: Seq<u8>|
            m.dom().contains(k) && is_prefix_of(entry_task_prefix_bytes(a), k) && entry_dec(m[k])
                == Some(vs[i]);
        lemma_prefix_isolation(m, a, k, vs[i]);
    }
}

} // verus!
