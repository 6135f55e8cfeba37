use vstd::prelude::*;

verus! {

use crate::error::Error;
use crate::metrics::{find_index, lemma_find_props, lemma_find_push, spec_find};

/// Whether `k` occurs among the listed names.
pub open spec fn name_listed(names: Seq<&str>, k: Seq<char>) -> bool {
    exists|i: int| 0 <= i < names.len() && (#[trigger] names[i])@ == k
}

/// A keyed counter store over a registry that is fixed at construction:
/// incrementing an unregistered key is an error instead of registering it.
pub struct AMapMetrics {
    names: Vec<String>,
    counts: Vec<i64>,
}

impl AMapMetrics {
    pub closed spec fn spec_names(&self) -> Seq<String> {
        self.names@
    }

    pub closed spec fn spec_counts(&self) -> Seq<i64> {
        self.counts@
    }

    /// One counter per name, each name registered once.
    pub open spec fn wf(&self) -> bool {
        &&& self.spec_names().len() == self.spec_counts().len()
        &&& forall|i: int, j: int|
            0 <= i < self.spec_names().len() && 0 <= j < self.spec_names().len() && i != j ==> (
            #[trigger] self.spec_names()[i])@ != (#[trigger] self.spec_names()[j])@
    }

    /// Whether `k` is registered.
    pub open spec fn has_key(&self, k: Seq<char>) -> bool {
        spec_find(self.spec_names(), k, 0) >= 0
    }

    /// The counter under `k`, or 0 when `k` is not registered.
    pub open spec fn count_of(&self, k: Seq<char>) -> int {
        let idx = spec_find(self.spec_names(), k, 0);
        if 0 <= idx < self.spec_counts().len() {
            self.spec_counts()[idx] as int
        } else {
            0
        }
    }

    /// Builds the store over the given names, every counter starting at 0.
    /// A name given twice is registered once.
    pub fn new(metric_names: &[&str]) -> (m: AMapMetrics)
        ensures
            m.wf(),
            forall|k: Seq<char>| #[trigger] m.has_key(k) <==> name_listed(metric_names@, k),
            forall|k: Seq<char>| #[trigger] m.count_of(k) == 0,
    {
        let mut m = AMapMetrics { names: Vec::new(), counts: Vec::new() };
        let total = metric_names.len();
        let mut i: usize = 0;
        while i < total
            invariant
                m.wf(),
                total == metric_names@.len(),
                i <= total,
                forall|k: Seq<char>| #[trigger] spec_find(m.spec_names(), k, 0) >= 0 <==> (exists|
                    t: int,
                |
                    0 <= t < i && (#[trigger] metric_names@[t])@ == k),
                forall|idx: int|
                    0 <= idx < m.spec_counts().len() ==> #[trigger] m.spec_counts()[idx] == 0,
            decreases total - i,
        {
            let name: String = metric_names[i].to_owned();
            let ghost oldnames = m.names@;
            match find_index(&m.names, &name) {
                Some(_) => {
                    proof {
                        assert(spec_find(m.spec_names(), metric_names@[i as int]@, 0) >= 0);
                    }
                },
                None => {
                    m.names.push(name);
                    m.counts.push(0);
                    proof {
                        let pushed = m.names@;
                        let newk = pushed[oldnames.len() as int];
                        assert forall|k: Seq<char>| #[trigger] spec_find(
                            m.spec_names(),
                            k,
                            0,
                        ) >= 0 implies (exists|t: int|
                            0 <= t < i + 1 && (#[trigger] metric_names@[t])@ == k) by {
                            lemma_find_props(oldnames, k, 0);
                            lemma_find_push(oldnames, newk, k, 0);
                            if spec_find(oldnames, k, 0) >= 0 {
                                let t0 = choose|t: int|
                                    0 <= t < i && (#[trigger] metric_names@[t])@ == k;
                                assert(0 <= t0 < i + 1 && metric_names@[t0]@ == k);
                            } else {
                                assert(newk@ == k);
                                assert((metric_names@[i as int])@ == k);
                            }
                        }
                        assert forall|k: Seq<char>|
                            (exists|t: int|
                                0 <= t < i + 1 && (#[trigger] metric_names@[t])@
                                    == k) implies #[trigger] spec_find(m.spec_names(), k, 0)
                            >= 0 by {
                            lemma_find_props(oldnames, k, 0);
                            lemma_find_push(oldnames, newk, k, 0);
                            let t0 = choose|t: int|
                                0 <= t < i + 1 && (#[trigger] metric_names@[t])@ == k;
                            if t0 < i {
                                assert(spec_find(oldnames, k, 0) >= 0);
                            } else {
                                assert(newk@ == k);
                            }
                        }
                        assert forall|ii: int, jj: int|
                            0 <= ii < pushed.len() && 0 <= jj < pushed.len() && ii != jj implies (
                        #[trigger] pushed[ii])@ != (#[trigger] pushed[jj])@ by {
                            lemma_find_props(oldnames, newk@, 0);
                        }
                    }
                },
            }
            i = i + 1;
        }
        proof {
            assert forall|k: Seq<char>| #[trigger] m.has_key(k) <==> name_listed(
                metric_names@,
                k,
            ) by {
                assert(m.has_key(k) == (spec_find(m.spec_names(), k, 0) >= 0));
            }
        }
        m
    }

    /// Reads the counter under `key`: its value when the key is registered,
    /// `None` otherwise.
    pub fn get(&self, key: &str) -> (r: Option<i64>)
        requires
            self.wf(),
        ensures
            r matches Some(v) ==> self.has_key(key@) && v == self.count_of(key@),
            r is None <==> !self.has_key(key@),
    {
        let kk: String = key.to_owned();
        proof {
            lemma_find_props(self.names@, key@, 0);
        }
        match find_index(&self.names, &kk) {
            Some(i) => Some(self.counts[i]),
            None => None,
        }
    }

    /// Adds one to the counter under `key`.  Fails with `KeyNotFound` when
    /// `key` was not registered at construction, and with `Overflow` when
    /// the counter has reached `i64::MAX`; every other counter is left
    /// unchanged.
    pub fn inc(&mut self, key: &str) -> (r: Result<(), Error>)
        requires
            old(self).wf(),
        ensures
            final(self).wf(),
            (r is Ok) <==> (old(self).has_key(key@) && old(self).count_of(key@) < i64::MAX),
            (r == Err::<(), Error>(Error::KeyNotFound)) <==> !old(self).has_key(key@),
            (r == Err::<(), Error>(Error::Overflow)) <==> (old(self).has_key(key@) && old(
                self,
            ).count_of(key@) == i64::MAX),
            r is Ok ==> final(self).count_of(key@) == old(self).count_of(key@) + 1,
            r is Ok ==> final(self).spec_names() == old(self).spec_names(),
            r is Ok ==> forall|k: Seq<char>|
                k != key@ ==> #[trigger] final(self).count_of(k) == old(self).count_of(k),
            r is Err ==> *final(self) == *old(self),
    {
        let kk: String = key.to_owned();
        proof {
            lemma_find_props(self.names@, key@, 0);
        }
        match find_index(&self.names, &kk) {
            Some(i) => {
                let c = self.counts[i];
                if c == i64::MAX {
                    return Err(Error::Overflow);
                }
                self.counts[i] = c + 1;
                proof {
                    assert forall|k: Seq<char>| k != key@ implies #[trigger] self.count_of(k)
                        == old(self).count_of(k) by {
                        lemma_find_props(self.names@, k, 0);
                    }
                }
                Ok(())
            },
            None => Err(Error::KeyNotFound),
        }
    }
}

impl Clone for AMapMetrics {
    /// An independent copy with the same names and the same counters.
    fn clone(&self) -> (m: AMapMetrics)
        ensures
            m.spec_names() == self.spec_names(),
            m.spec_counts() == self.spec_counts(),
    {
        let mut names: Vec<String> = Vec::new();
        let mut counts: Vec<i64> = Vec::new();
        let n = self.names.len();
        let total = self.counts.len();
        let mut i: usize = 0;
        while i < n
            invariant
                n == self.spec_names().len(),
                i <= n,
                names@ == self.spec_names().take(i as int),
            decreases n - i,
        {
            names.push(self.names[i].clone());
            proof {
                assert(names@ =~= self.spec_names().take(i + 1));
            }
            i = i + 1;
        }
        let mut j: usize = 0;
        while j < total
            invariant
                total == self.spec_counts().len(),
                j <= total,
                counts@ == self.spec_counts().take(j as int),
            decreases total - j,
        {
            counts.push(self.counts[j]);
            proof {
                assert(counts@ =~= self.spec_counts().take(j + 1));
            }
            j = j + 1;
        }
        proof {
            assert(names@ =~= self.spec_names());
            assert(counts@ =~= self.spec_counts());
        }
        AMapMetrics { names, counts }
    }
}

} // verus!
