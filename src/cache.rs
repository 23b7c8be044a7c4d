//! The result cache: measurements keyed by audio fingerprint, with a
//! policy of independent flags. The table lives in memory for a run; the
//! durable store it is loaded from and written back to is the caller's.
use vstd::prelude::*;

use crate::gain::ComputedLoudness;
use crate::text::same_text;

verus! {

/// How the cache may be used; the three flags combine freely.
#[derive(Debug, Clone, Copy, PartialEq, Eq, Default)]
pub struct CachePolicy {
    /// Lookups always miss.
    pub no_read: bool,
    /// Stores are dropped.
    pub no_write: bool,
    /// The durable store is discarded when the cache is built.
    pub purge: bool,
}

/// A measurement keyed by the fingerprint of the track's audio.
#[derive(Debug, Clone, PartialEq)]
pub struct AnalyzedFile {
    pub audio_id: String,
    pub loudness_info: ComputedLoudness,
}

/// The first measurement stored under `k` in `s`, if any.
pub open spec fn stored_in(s: Seq<AnalyzedFile>, k: Seq<char>) -> Option<ComputedLoudness>
    decreases s.len(),
{
    if s.len() == 0 {
        None
    } else {
        match stored_in(s.drop_last(), k) {
            Some(v) => Some(v),
            None => if s.last().audio_id@ == k {
                Some(s.last().loudness_info)
            } else {
                None
            },
        }
    }
}

/// Once a prefix holds a key, the whole sequence holds the same value for it.
proof fn lemma_prefix_decides(s: Seq<AnalyzedFile>, n: int, k: Seq<char>)
    requires
        0 <= n <= s.len(),
        stored_in(s.take(n), k) is Some,
    ensures
        stored_in(s, k) == stored_in(s.take(n), k),
    decreases s.len() - n,
{
    if n < s.len() {
        assert(s.take(n + 1).drop_last() == s.take(n));
        lemma_prefix_decides(s, n + 1, k);
    } else {
        assert(s.take(n) == s);
    }
}

/// The fingerprint-to-loudness table that a run consults and fills.
///
/// It starts from the rows of the durable store (unless the policy purges
/// it); rows stored during the run are kept apart so that they can be
/// written back. A fingerprint, once stored, keeps its first value.
pub struct Cache {
    entries: Vec<AnalyzedFile>,
    persisted: usize,
    policy: CachePolicy,
}

impl Cache {
    /// The value the cache holds for fingerprint `k`.
    pub closed spec fn stored(&self, k: Seq<char>) -> Option<ComputedLoudness> {
        stored_in(self.entries@, k)
    }

    pub closed spec fn policy_spec(&self) -> CachePolicy {
        self.policy
    }

    /// The rows stored since the cache was built, in order.
    pub closed spec fn fresh_spec(&self) -> Seq<AnalyzedFile> {
        self.entries@.skip(self.persisted as int)
    }

    pub closed spec fn wf(&self) -> bool {
        self.persisted <= self.entries@.len()
    }

    /// What the cache holds for `k` once `f` has been handed to `store`.
    pub open spec fn after_store(&self, f: AnalyzedFile, k: Seq<char>) -> Option<ComputedLoudness> {
        if !self.policy_spec().no_write && self.stored(f.audio_id@) is None && k == f.audio_id@ {
            Some(f.loudness_info)
        } else {
            self.stored(k)
        }
    }

    /// Builds the cache over the rows read from the durable store. Under a
    /// purge policy those rows are discarded.
    pub fn new(policy: CachePolicy, persisted: Vec<AnalyzedFile>) -> (r: Cache)
        ensures
            r.wf(),
            r.policy_spec() == policy,
            r.fresh_spec().len() == 0,
            forall|k: Seq<char>| #[trigger] r.stored(k) == if policy.purge {
                None
            } else {
                stored_in(persisted@, k)
            },
    {
        let entries = if policy.purge {
            Vec::new()
        } else {
            persisted
        };
        let persisted = entries.len();
        let r = Cache { entries, persisted, policy };
        assert(r.entries@.skip(persisted as int).len() == 0);
        r
    }

    /// The stored measurement for fingerprint `key`; none when the policy
    /// forbids reads or nothing is stored under `key`.
    pub fn get(&self, key: &str) -> (r: Option<AnalyzedFile>)
        ensures
            self.policy_spec().no_read ==> r is None,
            !self.policy_spec().no_read ==> match r {
                Some(f) => f.audio_id@ == key@ && self.stored(key@) == Some(f.loudness_info),
                None => self.stored(key@) is None,
            },
    {
        if self.policy.no_read {
            return None;
        }
        let mut i: usize = 0;
        while i < self.entries.len()
            invariant
                i <= self.entries@.len(),
                !self.policy.no_read,
                stored_in(self.entries@.take(i as int), key@) is None,
            decreases self.entries@.len() - i,
        {
            let f = &self.entries[i];
            assert(self.entries@.take(i + 1).drop_last() == self.entries@.take(i as int));
            if same_text(f.audio_id.as_str(), key) {
                proof {
                    lemma_prefix_decides(self.entries@, i + 1, key@);
                }
                return Some(AnalyzedFile { audio_id: f.audio_id.clone(), loudness_info: f.loudness_info });
            }
            i += 1;
        }
        assert(self.entries@.take(i as int) == self.entries@);
        None
    }

    /// Stores a measurement. Nothing changes when the policy forbids writes or
    /// the fingerprint is already stored: the first write stands.
    pub fn store(&mut self, file: AnalyzedFile)
        requires
            old(self).wf(),
        ensures
            final(self).wf(),
            final(self).policy_spec() == old(self).policy_spec(),
            forall|k: Seq<char>| #[trigger] final(self).stored(k) == old(self).after_store(file, k),
            final(self).fresh_spec() == if !old(self).policy_spec().no_write && old(self).stored(file.audio_id@) is None {
                old(self).fresh_spec().push(file)
            } else {
                old(self).fresh_spec()
            },
    {
        if self.policy.no_write {
            return;
        }
        let ghost key = file.audio_id@;
        let found = self.get_any(file.audio_id.as_str());
        if found {
            return;
        }
        let ghost before = self.entries@;
        self.entries.push(file);
        proof {
            assert(self.entries@.drop_last() == before);
            assert(self.entries@.skip(self.persisted as int) == before.skip(self.persisted as int).push(file));
        }
    }

    /// Whether anything is stored under `key`, whatever the policy.
    fn get_any(&self, key: &str) -> (r: bool)
        ensures
            r == (self.stored(key@) is Some),
    {
        let mut i: usize = 0;
        while i < self.entries.len()
            invariant
                i <= self.entries@.len(),
                stored_in(self.entries@.take(i as int), key@) is None,
            decreases self.entries@.len() - i,
        {
            assert(self.entries@.take(i + 1).drop_last() == self.entries@.take(i as int));
            if same_text(self.entries[i].audio_id.as_str(), key) {
                proof {
                    lemma_prefix_decides(self.entries@, i + 1, key@);
                }
                return true;
            }
            i += 1;
        }
        assert(self.entries@.take(i as int) == self.entries@);
        false
    }

    /// Hands out the rows stored since the cache was built, for the durable store.
    pub fn into_fresh(self) -> (r: Vec<AnalyzedFile>)
        requires
            self.wf(),
        ensures
            r@ == self.fresh_spec(),
    {
        let mut entries = self.entries;
        entries.split_off(self.persisted)
    }
}

/// Storing twice under one fingerprint: the cache keeps the first value.
/// `b` is `a` after storing `first`, and `c` is `b` after storing `second`.
pub proof fn lemma_store_keeps_first(a: Cache, b: Cache, c: Cache, first: AnalyzedFile, second: AnalyzedFile)
    requires
        first.audio_id@ == second.audio_id@,
        b.policy_spec() == a.policy_spec(),
        forall|k: Seq<char>| #[trigger] b.stored(k) == a.after_store(first, k),
        forall|k: Seq<char>| #[trigger] c.stored(k) == b.after_store(second, k),
    ensures
        c.stored(first.audio_id@) == b.stored(first.audio_id@),
        !a.policy_spec().no_write && a.stored(first.audio_id@) is None ==> c.stored(first.audio_id@) == Some(
            first.loudness_info,
        ),
{
    assert(b.stored(first.audio_id@) == a.after_store(first, first.audio_id@));
    assert(c.stored(second.audio_id@) == b.after_store(second, second.audio_id@));
}

} // verus!
