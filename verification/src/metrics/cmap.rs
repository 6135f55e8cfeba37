use vstd::prelude::*;

verus! {

use crate::error::Error;
use dashmap::DashMap;

#[verifier::external_type_specification]
#[verifier::external_body]
#[verifier::reject_recursive_types(K)]
#[verifier::reject_recursive_types(V)]
#[verifier::reject_recursive_types(S)]
pub struct ExDashMap<K, V, S>(DashMap<K, V, S>);

/// The key-value pairs a concurrent map holds, keyed by the characters of
/// the key string.
pub uninterp spec fn dash_contents(m: DashMap<String, i64>) -> Map<Seq<char>, i64>;

/// The contents of a store with no counters.
pub open spec fn no_counters() -> Map<Seq<char>, i64> {
    Map::empty()
}

/// Relies on dashmap::DashMap::new: creates an empty map.
#[verifier::external_body]
fn dash_new() -> (m: DashMap<String, i64>)
    ensures
        dash_contents(m) == no_counters(),
{
    DashMap::new()
}

/// Relies on dashmap::DashMap::get: returns a reference to the value stored
/// under the key, if the key is present; the wrapper copies the value out.
#[verifier::external_body]
fn dash_get(m: &DashMap<String, i64>, key: &str) -> (r: Option<i64>)
    ensures
        r matches Some(v) ==> dash_contents(*m).contains_key(key@) && dash_contents(*m)[key@] == v,
        r is None ==> !dash_contents(*m).contains_key(key@),
{
    m.get(key).map(|entry| *entry)
}

/// Relies on dashmap::DashMap::insert: maps the key to the value, replacing
/// any value previously stored under it.
#[verifier::external_body]
fn dash_insert(m: &mut DashMap<String, i64>, key: String, value: i64)
    ensures
        dash_contents(*final(m)) == dash_contents(*old(m)).insert(key@, value),
{
    m.insert(key, value);
}

/// A keyed counter store backed by a concurrent map: every key maps to the
/// number of times it has been incremented, and keys are registered on
/// first use.
pub struct CMapMetrics {
    data: DashMap<String, i64>,
}

impl CMapMetrics {
    /// The counters the store holds, keyed by the characters of the key.
    pub closed spec fn spec_map(&self) -> Map<Seq<char>, i64> {
        dash_contents(self.data)
    }

    /// The counter stored under `k`, or 0 when `k` was never incremented.
    pub open spec fn count_of(&self, k: Seq<char>) -> int {
        if self.spec_map().contains_key(k) {
            self.spec_map()[k] as int
        } else {
            0
        }
    }

    /// An empty store: every counter reads 0.
    pub fn new() -> (m: CMapMetrics)
        ensures
            m.spec_map() == Map::<Seq<char>, i64>::empty(),
            forall|k: Seq<char>| #[trigger] m.count_of(k) == 0,
    {
        CMapMetrics { data: dash_new() }
    }

    /// Adds one to the counter under `key`, registering the key at 0 first
    /// when it is new.  Every other counter is left unchanged.  Fails only
    /// when the counter has reached `i64::MAX`.
    pub fn inc(&mut self, key: &str) -> (r: Result<(), Error>)
        ensures
            (r is Ok) <==> old(self).count_of(key@) < i64::MAX,
            r is Ok ==> final(self).spec_map() == old(self).spec_map().insert(
                key@,
                (old(self).count_of(key@) + 1) as i64,
            ),
            r is Ok ==> final(self).count_of(key@) == old(self).count_of(key@) + 1,
            r is Ok ==> forall|k: Seq<char>|
                k != key@ ==> #[trigger] final(self).count_of(k) == old(self).count_of(k),
            r is Err ==> *final(self) == *old(self) && r == Err::<(), Error>(Error::Overflow),
    {
        let cur: i64 = match dash_get(&self.data, key) {
            Some(v) => v,
            None => 0,
        };
        if cur == i64::MAX {
            return Err(Error::Overflow);
        }
        dash_insert(&mut self.data, key.to_owned(), cur + 1);
        Ok(())
    }

    /// Reads the counter under `key`: the stored value, or `None` when the
    /// key was never incremented.
    pub fn get(&self, key: &str) -> (r: Option<i64>)
        ensures
            r matches Some(v) ==> self.spec_map().contains_key(key@) && v == self.spec_map()[key@],
            r is None ==> !self.spec_map().contains_key(key@),
    {
        dash_get(&self.data, key)
    }
}

impl Default for CMapMetrics {
    /// The same empty store that `new` returns.
    fn default() -> (m: CMapMetrics)
        ensures
            m.spec_map() == Map::<Seq<char>, i64>::empty(),
            forall|k: Seq<char>| #[trigger] m.count_of(k) == 0,
    {
        CMapMetrics::new()
    }
}

} // verus!
