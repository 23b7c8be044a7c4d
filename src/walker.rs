//! The walk over a collection. Decoding and measuring, the slow part,
//! happen outside and may run in parallel; their results come back here,
//! where each track is updated, the cache consulted and filled, and the
//! report assembled, one track after the other.
use vstd::prelude::*;

use crate::cache::{AnalyzedFile, Cache};
use crate::gain::{
    compute_and_update_model, difference_spec, updated_entry, warning_spec, ClippingWarning,
    ComputedLoudness,
};
use crate::models::{AnalysisDifference, Collection, Entry, Location, Nml};
use crate::text::{append_without_colons, strip_colons};

verus! {

/// The host convention that absolute paths follow.
#[derive(Debug, Clone, Copy, PartialEq, Eq)]
pub enum Platform {
    /// Volumes are mounted under `/Volumes/`.
    MacOs,
    /// The volume name starts the path.
    Windows,
    /// Volumes hang off the root.
    Unix,
}

pub open spec fn prefix_spec(p: Platform) -> Seq<char> {
    match p {
        Platform::MacOs => "/Volumes/"@,
        Platform::Windows => ""@,
        Platform::Unix => "/"@,
    }
}

/// The absolute path of a track: the platform prefix, then volume and
/// directory with their colons removed, then the file name.
pub open spec fn track_path_spec(l: Location, p: Platform) -> Seq<char> {
    prefix_spec(p) + strip_colons(l.volume@) + strip_colons(l.directory@) + l.file@
}

pub fn track_path(location: &Location, platform: Platform) -> (r: String)
    ensures
        r@ == track_path_spec(*location, platform),
{
    let mut path = match platform {
        Platform::MacOs => String::from_str("/Volumes/"),
        Platform::Windows => String::from_str(""),
        Platform::Unix => String::from_str("/"),
    };
    append_without_colons(&mut path, location.volume.as_str());
    append_without_colons(&mut path, location.directory.as_str());
    path.append(location.file.as_str());
    path
}

/// Whether the cache answers for a record at this point of a run.
pub open spec fn cache_hit(e: Entry, c: Cache) -> bool {
    &&& e.audio_id is Some
    &&& !c.policy_spec().no_read
    &&& c.stored(e.audio_id->Some_0@) is Some
}

/// The measurement a record is updated with: the cached one on a hit, else
/// the one the meter gave, if any.
pub open spec fn source_spec(e: Entry, c: Cache, measured: Option<ComputedLoudness>) -> Option<ComputedLoudness> {
    if cache_hit(e, c) {
        c.stored(e.audio_id->Some_0@)
    } else {
        measured
    }
}

/// One line of a run's output: the report line and, when the track clips
/// after gain, its warning.
pub struct TrackReport {
    pub difference: AnalysisDifference,
    pub clipping: Option<ClippingWarning>,
}

/// The pipeline of one track: cache lookup, then the gain update from the
/// cached or the measured loudness, then storing a fresh measurement under
/// the track's fingerprint. Without either loudness the track failed: its
/// record and the cache stay as they are and nothing is reported.
pub fn analyze_entry(
    entry: &mut Entry,
    target_loudness: i32,
    cache: &mut Cache,
    measured: Option<ComputedLoudness>,
) -> (r: Option<TrackReport>)
    requires
        old(cache).wf(),
    ensures
        final(cache).wf(),
        final(cache).policy_spec() == old(cache).policy_spec(),
        match source_spec(*old(entry), *old(cache), measured) {
            None => {
                &&& r is None
                &&& *final(entry) == *old(entry)
                &&& *final(cache) == *old(cache)
            },
            Some(m) => {
                &&& r is Some
                &&& *final(entry) == updated_entry(*old(entry), m, target_loudness)
                &&& difference_spec(r->Some_0.difference, *old(entry), m)
                &&& warning_spec(r->Some_0.clipping, *old(entry), m, target_loudness)
                &&& if cache_hit(*old(entry), *old(cache)) || old(entry).audio_id is None {
                    *final(cache) == *old(cache)
                } else {
                    forall|k: Seq<char>| #[trigger] final(cache).stored(k)
                        == old(cache).after_store(
                        AnalyzedFile { audio_id: old(entry).audio_id->Some_0, loudness_info: m },
                        k,
                    )
                }
            },
        },
{
    let mut hit: Option<ComputedLoudness> = None;
    match &entry.audio_id {
        Some(id) => {
            match cache.get(id.as_str()) {
                Some(f) => {
                    hit = Some(f.loudness_info);
                },
                None => {},
            }
        },
        None => {},
    }
    match hit {
        Some(m) => {
            let (difference, clipping) = compute_and_update_model(&m, target_loudness, entry);
            Some(TrackReport { difference, clipping })
        },
        None => match measured {
            Some(m) => {
                let id = entry.audio_id.clone();
                let (difference, clipping) = compute_and_update_model(&m, target_loudness, entry);
                match id {
                    Some(audio_id) => {
                        cache.store(AnalyzedFile { audio_id, loudness_info: m });
                    },
                    None => {},
                }
                Some(TrackReport { difference, clipping })
            },
            None => None,
        },
    }
}

/// The measurement handed in for track `i`; none past the end.
pub open spec fn measured_at(measured: Seq<Option<ComputedLoudness>>, i: int) -> Option<ComputedLoudness> {
    if 0 <= i < measured.len() {
        measured[i]
    } else {
        None
    }
}

/// The positions, in order, of the tracks that got a measurement.
pub open spec fn ok_indices(src: Seq<Option<ComputedLoudness>>) -> Seq<int>
    decreases src.len(),
{
    if src.len() == 0 {
        Seq::empty()
    } else if src.last() is Some {
        ok_indices(src.drop_last()).push(src.len() - 1)
    } else {
        ok_indices(src.drop_last())
    }
}

/// A run over `before` that used measurement `src[i]` for track `i` (none for
/// a failed track) turned the records into `after` and reported `report`:
/// one line per track that did not fail, in track order.
pub open spec fn run_spec(
    before: Seq<Entry>,
    after: Seq<Entry>,
    src: Seq<Option<ComputedLoudness>>,
    report: Seq<TrackReport>,
    target: i32,
) -> bool {
    &&& src.len() == before.len()
    &&& after.len() == before.len()
    &&& forall|i: int| 0 <= i < before.len() ==> #[trigger] after[i] == match src[i] {
        None => before[i],
        Some(m) => updated_entry(before[i], m, target),
    }
    &&& report.len() == ok_indices(src).len()
    &&& forall|k: int| 0 <= k < report.len() ==> {
        let i = #[trigger] ok_indices(src)[k];
        &&& 0 <= i < before.len()
        &&& src[i] is Some
        &&& difference_spec(report[k].difference, before[i], src[i]->Some_0)
        &&& warning_spec(report[k].clipping, before[i], src[i]->Some_0, target)
    }
}

/// One track's effect on the cache: unchanged, unless the track used a fresh
/// measurement and has a fingerprint, which is then handed to `store`.
pub open spec fn cache_step(c0: Cache, c1: Cache, e: Entry, m: Option<ComputedLoudness>) -> bool {
    &&& c1.policy_spec() == c0.policy_spec()
    &&& match source_spec(e, c0, m) {
        None => c1 == c0,
        Some(v) => if cache_hit(e, c0) || e.audio_id is None {
            c1 == c0
        } else {
            forall|k: Seq<char>| #[trigger] c1.stored(k) == c0.after_store(
                AnalyzedFile { audio_id: e.audio_id->Some_0, loudness_info: v },
                k,
            )
        },
    }
}

/// The walk over `before`, one track after the other: `caches[i]` is the
/// cache when track `i` comes up, and `src[i]` the measurement it is updated
/// with: the cached one on a hit, else the meter's, else none (a failure).
/// A value, once in the cache, stays.
pub open spec fn walk_spec(
    before: Seq<Entry>,
    measured: Seq<Option<ComputedLoudness>>,
    src: Seq<Option<ComputedLoudness>>,
    caches: Seq<Cache>,
) -> bool {
    &&& src.len() == before.len()
    &&& caches.len() == before.len() + 1
    &&& forall|i: int| 0 <= i < before.len() ==> {
        &&& #[trigger] src[i] == source_spec(before[i], caches[i], measured_at(measured, i))
        &&& cache_step(caches[i], caches[i + 1], before[i], measured_at(measured, i))
    }
    &&& forall|i: int| 0 <= i <= before.len() ==> #[trigger] caches[i].policy_spec() == caches[0].policy_spec()
    &&& forall|i: int, j: int, k: Seq<char>|
        0 <= i <= j <= before.len() && (#[trigger] caches[i].stored(k)) is Some ==> #[trigger] caches[j].stored(k)
            == caches[i].stored(k)
}

proof fn lemma_ok_indices_bounded(src: Seq<Option<ComputedLoudness>>)
    ensures
        forall|k: int| 0 <= k < ok_indices(src).len() ==> {
            let i = #[trigger] ok_indices(src)[k];
            0 <= i < src.len() && src[i] is Some
        },
    decreases src.len(),
{
    if src.len() > 0 {
        lemma_ok_indices_bounded(src.drop_last());
    }
}

/// Analyses every track of a collection, in order. Track `i` uses the
/// cached loudness for its fingerprint when the cache answers for it, else
/// `measured[i]`; a track with neither failed: it is left as it was and gets
/// no report line. A fresh measurement is stored under the track's
/// fingerprint. Everything but the track records stays as it was. Returns one
/// report line per track that did not fail.
pub fn collection_analysis(
    collection: &mut Nml,
    target_loudness: i32,
    cache: &mut Cache,
    measured: &Vec<Option<ComputedLoudness>>,
) -> (r: Vec<TrackReport>)
    requires
        old(cache).wf(),
    ensures
        final(cache).wf(),
        final(cache).policy_spec() == old(cache).policy_spec(),
        *final(collection) == (Nml {
            collection: Collection {
                entries: final(collection).collection.entries,
                ..old(collection).collection
            },
            ..*old(collection)
        }),
        exists|src: Seq<Option<ComputedLoudness>>, caches: Seq<Cache>|
            {
                &&& run_spec(
                    old(collection).collection.entries@,
                    final(collection).collection.entries@,
                    src,
                    r@,
                    target_loudness,
                )
                &&& walk_spec(old(collection).collection.entries@, measured@, src, caches)
                &&& caches[0] == *old(cache)
                &&& caches.last() == *final(cache)
            },
{
    let ghost before = collection.collection.entries@;
    let ghost nml0 = *collection;
    let ghost cache0 = *cache;
    let ghost mut src: Seq<Option<ComputedLoudness>> = Seq::empty();
    let ghost mut caches: Seq<Cache> = seq![*cache];
    let mut report: Vec<TrackReport> = Vec::new();
    let n = collection.collection.entries.len();
    let mut i: usize = 0;
    while i < n
        invariant
            n == before.len(),
            i <= n,
            collection.collection.entries@.len() == n,
            *collection == (Nml {
                collection: Collection { entries: collection.collection.entries, ..nml0.collection },
                ..nml0
            }),
            forall|j: int| i <= j < n ==> #[trigger] collection.collection.entries@[j] == before[j],
            src.len() == i,
            run_spec(before.take(i as int), collection.collection.entries@.take(i as int), src, report@, target_loudness),
            walk_spec(before.take(i as int), measured@, src, caches),
            caches[0] == cache0,
            caches.last() == *cache,
            cache.wf(),
        decreases n - i,
    {
        let m = if i < measured.len() {
            measured[i]
        } else {
            None
        };
        let ghost c1 = *cache;
        let ghost e1 = collection.collection.entries@[i as int];
        let ghost s = source_spec(e1, c1, m);
        let ghost report0 = report@;
        let ghost entries0 = collection.collection.entries@;
        let ghost src0 = src;
        let ghost caches0 = caches;
        let out = analyze_entry(&mut collection.collection.entries[i], target_loudness, cache, m);
        proof {
            assert(e1 == before[i as int]);
            assert(m == measured_at(measured@, i as int));
            assert(cache_step(c1, *cache, e1, m));
            src = src.push(s);
            caches = caches.push(*cache);
            assert(src.drop_last() == src0);
            assert(ok_indices(src) == if s is Some {
                ok_indices(src0).push(i as int)
            } else {
                ok_indices(src0)
            });
            lemma_ok_indices_bounded(src);
        }
        match out {
            Some(t) => {
                report.push(t);
            },
            None => {},
        }
        proof {
            let b = before.take(i + 1);
            let a = collection.collection.entries@.take(i + 1);
            assert(b.drop_last() == before.take(i as int));
            assert(a.drop_last() == entries0.take(i as int));
            assert forall|j: int| 0 <= j < i + 1 implies #[trigger] a[j] == match src[j] {
                None => b[j],
                Some(mm) => updated_entry(b[j], mm, target_loudness),
            } by {
                if j < i {
                    assert(a[j] == entries0.take(i as int)[j]);
                    assert(b[j] == before.take(i as int)[j]);
                    assert(src[j] == src0[j]);
                }
            }
            assert forall|k: int| 0 <= k < report@.len() implies {
                let j = #[trigger] ok_indices(src)[k];
                &&& 0 <= j < b.len()
                &&& src[j] is Some
                &&& difference_spec(report@[k].difference, b[j], src[j]->Some_0)
                &&& warning_spec(report@[k].clipping, b[j], src[j]->Some_0, target_loudness)
            } by {
                if k < report0.len() {
                    assert(ok_indices(src)[k] == ok_indices(src0)[k]);
                    let j = ok_indices(src)[k];
                    assert(src[j] == src0[j]);
                    assert(b[j] == before.take(i as int)[j]);
                } else {
                    assert(ok_indices(src)[k] == i);
                }
            }
            let bp = before.take(i as int);
            assert forall|j: int| 0 <= j < b.len() implies {
                &&& #[trigger] src[j] == source_spec(b[j], caches[j], measured_at(measured@, j))
                &&& cache_step(caches[j], caches[j + 1], b[j], measured_at(measured@, j))
            } by {
                if j < i {
                    assert(src[j] == src0[j]);
                    assert(b[j] == bp[j]);
                    assert(caches[j] == caches0[j]);
                    assert(caches[j + 1] == caches0[j + 1]);
                }
            }
            assert forall|j: int| 0 <= j <= b.len() implies #[trigger] caches[j].policy_spec()
                == caches[0].policy_spec() by {
                if j <= i {
                    assert(caches[j] == caches0[j]);
                }
            }
            assert forall|x: int, y: int, k: Seq<char>|
                0 <= x <= y <= b.len() && (#[trigger] caches[x].stored(k)) is Some implies #[trigger] caches[y].stored(k)
                    == caches[x].stored(k) by {
                if y <= i {
                    assert(caches[x] == caches0[x]);
                    assert(caches[y] == caches0[y]);
                } else if x == y {
                } else {
                    assert(caches[x] == caches0[x]);
                    assert(caches0[i as int] == c1);
                    assert(caches0[x].stored(k) is Some);
                    assert(caches0[i as int].stored(k) == caches0[x].stored(k));
                    assert(c1.stored(k) == caches0[x].stored(k));
                    assert(caches[y] == *cache);
                    if cache_hit(e1, c1) || e1.audio_id is None || s is None {
                    } else {
                        assert(cache.stored(k) == c1.after_store(
                            AnalyzedFile { audio_id: e1.audio_id->Some_0, loudness_info: s->Some_0 },
                            k,
                        ));
                    }
                }
            }
            assert(walk_spec(b, measured@, src, caches));
        }
        i += 1;
    }
    proof {
        assert(before.take(n as int) == before);
        assert(collection.collection.entries@.take(n as int) == collection.collection.entries@);
    }
    report
}

/// A track whose fingerprint the cache held when the walk began, with reads
/// allowed, is updated with the cached value, whatever was measured for it.
pub proof fn lemma_walk_uses_cache(
    before: Seq<Entry>,
    measured: Seq<Option<ComputedLoudness>>,
    src: Seq<Option<ComputedLoudness>>,
    caches: Seq<Cache>,
    i: int,
)
    requires
        walk_spec(before, measured, src, caches),
        0 <= i < before.len(),
        before[i].audio_id is Some,
        !caches[0].policy_spec().no_read,
        caches[0].stored(before[i].audio_id->Some_0@) is Some,
    ensures
        src[i] == caches[0].stored(before[i].audio_id->Some_0@),
{
    let k = before[i].audio_id->Some_0@;
    assert(caches[i].stored(k) == caches[0].stored(k));
    assert(caches[i].policy_spec() == caches[0].policy_spec());
    assert(src[i] == source_spec(before[i], caches[i], measured_at(measured, i)));
}

/// With reads forbidden, every track is updated with its own measurement,
/// and a track without one is left alone.
pub proof fn lemma_walk_without_reads(
    before: Seq<Entry>,
    measured: Seq<Option<ComputedLoudness>>,
    src: Seq<Option<ComputedLoudness>>,
    caches: Seq<Cache>,
    i: int,
)
    requires
        walk_spec(before, measured, src, caches),
        0 <= i < before.len(),
        caches[0].policy_spec().no_read,
    ensures
        src[i] == measured_at(measured, i),
{
    assert(caches[i].policy_spec() == caches[0].policy_spec());
    assert(src[i] == source_spec(before[i], caches[i], measured_at(measured, i)));
}

/// A fresh measurement of a track with a fingerprint, with writes allowed,
/// leaves a value stored under that fingerprint at the end of the walk.
pub proof fn lemma_walk_stores_fresh(
    before: Seq<Entry>,
    measured: Seq<Option<ComputedLoudness>>,
    src: Seq<Option<ComputedLoudness>>,
    caches: Seq<Cache>,
    i: int,
)
    requires
        walk_spec(before, measured, src, caches),
        0 <= i < before.len(),
        before[i].audio_id is Some,
        src[i] is Some,
        !caches[0].policy_spec().no_write,
    ensures
        caches.last().stored(before[i].audio_id->Some_0@) is Some,
{
    let k = before[i].audio_id->Some_0@;
    let n = before.len() as int;
    assert(caches[i].policy_spec() == caches[0].policy_spec());
    assert(cache_step(caches[i], caches[i + 1], before[i], measured_at(measured, i)));
    assert(src[i] == source_spec(before[i], caches[i], measured_at(measured, i)));
    if cache_hit(before[i], caches[i]) {
        assert(caches[i].stored(k) is Some);
        assert(caches[i + 1] == caches[i]);
    } else {
        assert(caches[i + 1].stored(k) == caches[i].after_store(
            AnalyzedFile { audio_id: before[i].audio_id->Some_0, loudness_info: src[i]->Some_0 },
            k,
        ));
    }
    assert(caches[i + 1].stored(k) is Some);
    assert(caches[n].stored(k) == caches[i + 1].stored(k));
    assert(caches.last() == caches[n]);
}

/// Fan-out without failures: when every track has a measurement, the report
/// holds exactly one line per track, in track order, so no path is missing or
/// repeated.
pub proof fn lemma_fan_out_complete(
    before: Seq<Entry>,
    after: Seq<Entry>,
    measured: Seq<Option<ComputedLoudness>>,
    src: Seq<Option<ComputedLoudness>>,
    report: Seq<TrackReport>,
    target: i32,
    caches: Seq<Cache>,
)
    requires
        run_spec(before, after, src, report, target),
        walk_spec(before, measured, src, caches),
        measured.len() == before.len(),
        forall|i: int| 0 <= i < measured.len() ==> #[trigger] measured[i] is Some,
    ensures
        report.len() == before.len(),
        forall|k: int| 0 <= k < report.len() ==> #[trigger] report[k].difference.path == before[k].location.file,
{
    assert forall|i: int| 0 <= i < src.len() implies #[trigger] src[i] is Some by {
        assert(measured_at(measured, i) is Some);
        assert(src[i] == source_spec(before[i], caches[i], measured_at(measured, i)));
    }
    lemma_all_ok(src);
    assert forall|k: int| 0 <= k < report.len() implies #[trigger] report[k].difference.path == before[k].location.file by {
        assert(ok_indices(src)[k] == k);
    }
}

proof fn lemma_all_ok(src: Seq<Option<ComputedLoudness>>)
    requires
        forall|i: int| 0 <= i < src.len() ==> #[trigger] src[i] is Some,
    ensures
        ok_indices(src).len() == src.len(),
        forall|k: int| 0 <= k < src.len() ==> #[trigger] ok_indices(src)[k] == k,
    decreases src.len(),
{
    if src.len() > 0 {
        let p = src.drop_last();
        assert forall|i: int| 0 <= i < p.len() implies #[trigger] p[i] is Some by {
            assert(p[i] == src[i]);
        }
        lemma_all_ok(p);
        assert(src.last() == src[src.len() - 1]);
    }
}

/// The tracks that need decoding: the path of each track that the cache
/// does not answer for, none for the others.
pub fn tracks_to_measure(collection: &Nml, cache: &Cache, platform: Platform) -> (r: Vec<Option<String>>)
    ensures
        r@.len() == collection.collection.entries@.len(),
        forall|i: int| 0 <= i < r@.len() ==> match #[trigger] r@[i] {
            Some(p) => !cache_hit(collection.collection.entries@[i], *cache) && p@ == track_path_spec(
                collection.collection.entries@[i].location,
                platform,
            ),
            None => cache_hit(collection.collection.entries@[i], *cache),
        },
{
    let entries = &collection.collection.entries;
    let mut r: Vec<Option<String>> = Vec::new();
    let mut i: usize = 0;
    while i < entries.len()
        invariant
            i <= entries@.len(),
            r@.len() == i,
            forall|j: int| 0 <= j < i ==> match #[trigger] r@[j] {
                Some(p) => !cache_hit(entries@[j], *cache) && p@ == track_path_spec(entries@[j].location, platform),
                None => cache_hit(entries@[j], *cache),
            },
        decreases entries@.len() - i,
    {
        let e = &entries[i];
        let hit = match &e.audio_id {
            Some(id) => cache.get(id.as_str()).is_some(),
            None => false,
        };
        if hit {
            r.push(None);
        } else {
            r.push(Some(track_path(&e.location, platform)));
        }
        i += 1;
    }
    r
}

} // verus!
