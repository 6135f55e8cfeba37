use vstd::prelude::*;

pub mod amap;
pub mod cmap;

verus! {

use crate::error::Error;

/// The index of the first key at position `i` or later whose characters are
/// `k`, or `-1` when no such key exists.
pub open spec fn spec_find(keys: Seq<String>, k: Seq<char>, i: int) -> int
    decreases keys.len() - i,
{
    if i < 0 || i >= keys.len() {
        -1
    } else if keys[i]@ == k {
        i
    } else {
        spec_find(keys, k, i + 1)
    }
}

pub(crate) proof fn lemma_find_props(keys: Seq<String>, k: Seq<char>, i: int)
    requires
        0 <= i <= keys.len(),
    ensures
        ({
            let r = spec_find(keys, k, i);
            &&& (r == -1 ==> forall|m: int| i <= m < keys.len() ==> (#[trigger] keys[m])@ != k)
            &&& (r != -1 ==> i <= r < keys.len() && keys[r]@ == k)
        }),
    decreases keys.len() - i,
{
    if i < keys.len() && keys[i]@ != k {
        lemma_find_props(keys, k, i + 1);
    }
}

pub(crate) proof fn lemma_find_push(keys: Seq<String>, newkey: String, k: Seq<char>, i: int)
    requires
        0 <= i <= keys.len(),
    ensures
        ({
            let r = spec_find(keys, k, i);
            let rp = spec_find(keys.push(newkey), k, i);
            &&& (r >= 0 ==> rp == r)
            &&& (r == -1 && newkey@ == k ==> rp == keys.len())
            &&& (r == -1 && newkey@ != k ==> rp == -1)
        }),
    decreases keys.len() - i,
{
    let pushed = keys.push(newkey);
    if i < keys.len() {
        assert(pushed[i] == keys[i]);
        if keys[i]@ != k {
            lemma_find_push(keys, newkey, k, i + 1);
        }
    } else {
        assert(pushed[i] == newkey);
        if newkey@ == k {
            assert(spec_find(pushed, k, i) == i);
        } else {
            assert(spec_find(pushed, k, i + 1) == -1);
            assert(spec_find(pushed, k, i) == -1);
        }
    }
}

/// Finds the index of `key` among `keys`, scanning from the front.
pub(crate) fn find_index(keys: &Vec<String>, key: &String) -> (r: Option<usize>)
    ensures
        r matches Some(i) ==> spec_find(keys@, key@, 0) == i,
        r is None ==> spec_find(keys@, key@, 0) == -1,
{
    let n = keys.len();
    let mut i: usize = 0;
    while i < n
        invariant
            n == keys@.len(),
            i <= n,
            spec_find(keys@, key@, 0) == spec_find(keys@, key@, i as int),
        decreases n - i,
    {
        if keys[i] == *key {
            return Some(i);
        }
        i = i + 1;
    }
    None
}

/// A keyed counter store: every key maps to the number of times it has been
/// incremented.  Keys are registered on first use.
#[derive(Debug, Clone)]
pub struct Metrics {
    keys: Vec<String>,
    counts: Vec<i64>,
}

impl Metrics {
    pub closed spec fn spec_keys(&self) -> Seq<String> {
        self.keys@
    }

    pub closed spec fn spec_counts(&self) -> Seq<i64> {
        self.counts@
    }

    /// One counter per key, each key registered once.
    pub open spec fn wf(&self) -> bool {
        &&& self.spec_keys().len() == self.spec_counts().len()
        &&& forall|i: int, j: int|
            0 <= i < self.spec_keys().len() && 0 <= j < self.spec_keys().len() && i != j ==> (
            #[trigger] self.spec_keys()[i])@ != (#[trigger] self.spec_keys()[j])@
    }

    /// Whether `k` has been registered.
    pub open spec fn has_key(&self, k: Seq<char>) -> bool {
        spec_find(self.spec_keys(), k, 0) >= 0
    }

    /// The counter stored under `k`, or 0 when `k` was never incremented.
    pub open spec fn count_of(&self, k: Seq<char>) -> int {
        let idx = spec_find(self.spec_keys(), k, 0);
        if 0 <= idx < self.spec_counts().len() {
            self.spec_counts()[idx] as int
        } else {
            0
        }
    }

    /// An empty store: every counter reads 0.
    pub fn new() -> (m: Metrics)
        ensures
            m.wf(),
            forall|k: Seq<char>| #[trigger] m.count_of(k) == 0,
            forall|k: Seq<char>| !(#[trigger] m.has_key(k)),
    {
        Metrics { keys: Vec::new(), counts: Vec::new() }
    }

    /// Adds one to the counter under `key`, registering the key at 0 first
    /// when it is new.  Every other counter is left unchanged.  Fails only
    /// when the counter has reached `i64::MAX`.
    pub fn inc(&mut self, key: &str) -> (r: Result<(), Error>)
        requires
            old(self).wf(),
        ensures
            final(self).wf(),
            (r is Ok) <==> old(self).count_of(key@) < i64::MAX,
            r is Ok ==> final(self).count_of(key@) == old(self).count_of(key@) + 1,
            r is Ok ==> forall|k: Seq<char>|
                k != key@ ==> #[trigger] final(self).count_of(k) == old(self).count_of(k),
            r is Err ==> *final(self) == *old(self) && r == Err::<(), Error>(Error::Overflow),
    {
        let kk: String = key.to_owned();
        proof {
            lemma_find_props(self.keys@, key@, 0);
        }
        match find_index(&self.keys, &kk) {
            Some(i) => {
                let c = self.counts[i];
                if c == i64::MAX {
                    return Err(Error::Overflow);
                }
                self.counts[i] = c + 1;
                proof {
                    assert forall|k: Seq<char>| k != key@ implies #[trigger] self.count_of(k)
                        == old(self).count_of(k) by {
                        lemma_find_props(self.keys@, k, 0);
                    }
                }
                Ok(())
            },
            None => {
                proof {
                    lemma_find_props(self.keys@, key@, 0);
                }
                self.keys.push(kk);
                self.counts.push(1);
                proof {
                    let oldkeys = old(self).keys@;
                    let pushed = self.keys@;
                    lemma_find_push(oldkeys, self.keys@[oldkeys.len() as int], key@, 0);
                    assert(self.count_of(key@) == 1);
                    assert forall|k: Seq<char>| k != key@ implies #[trigger] self.count_of(k)
                        == old(self).count_of(k) by {
                        lemma_find_push(oldkeys, self.keys@[oldkeys.len() as int], k, 0);
                        lemma_find_props(oldkeys, k, 0);
                    }
                    assert forall|i: int, j: int|
                        0 <= i < pushed.len() && 0 <= j < pushed.len() && i != j implies (
                    #[trigger] pushed[i])@ != (#[trigger] pushed[j])@ by {
                        lemma_find_props(oldkeys, key@, 0);
                    }
                }
                Ok(())
            },
        }
    }

    /// A copy of the whole store: the registered keys and, index for index,
    /// their counters.
    pub fn snapshot(&self) -> (r: (Vec<String>, Vec<i64>))
        requires
            self.wf(),
        ensures
            r.0@ == self.spec_keys(),
            r.1@ == self.spec_counts(),
    {
        let mut ks: Vec<String> = Vec::new();
        let mut cs: Vec<i64> = Vec::new();
        let n = self.keys.len();
        let mut i: usize = 0;
        while i < n
            invariant
                self.wf(),
                n == self.spec_keys().len(),
                n == self.spec_counts().len(),
                i <= n,
                ks@ == self.spec_keys().take(i as int),
                cs@ == self.spec_counts().take(i as int),
            decreases n - i,
        {
            ks.push(self.keys[i].clone());
            cs.push(self.counts[i]);
            proof {
                assert(ks@ =~= self.spec_keys().take(i + 1));
                assert(cs@ =~= self.spec_counts().take(i + 1));
            }
            i = i + 1;
        }
        proof {
            assert(ks@ =~= self.spec_keys());
            assert(cs@ =~= self.spec_counts());
        }
        (ks, cs)
    }
}

impl Default for Metrics {
    /// The same empty store that `new` returns.
    fn default() -> (m: Metrics)
        ensures
            m.wf(),
            forall|k: Seq<char>| #[trigger] m.count_of(k) == 0,
            forall|k: Seq<char>| !(#[trigger] m.has_key(k)),
    {
        Metrics::new()
    }
}

} // verus!
