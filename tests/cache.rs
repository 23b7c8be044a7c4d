use dj_library_gain_calculator::cache::{AnalyzedFile, Cache, CachePolicy};
use dj_library_gain_calculator::gain::{ComputedLoudness, TruePeak};

fn loud(l: i32) -> ComputedLoudness {
    ComputedLoudness { integrated_loudness: l, true_peak: TruePeak::Decibels(-1_000_000) }
}

fn file(id: &str, l: i32) -> AnalyzedFile {
    AnalyzedFile { audio_id: id.to_string(), loudness_info: loud(l) }
}

#[test]
fn store_twice_keeps_the_first_value() {
    let mut c = Cache::new(CachePolicy::default(), Vec::new());
    c.store(file("abc", -10_000_000));
    c.store(file("abc", -20_000_000));
    assert_eq!(c.get("abc").unwrap().loudness_info, loud(-10_000_000));
    assert_eq!(c.into_fresh().len(), 1);
}

#[test]
fn lookup_misses_unknown_fingerprints() {
    let c = Cache::new(CachePolicy::default(), vec![file("a", 1)]);
    assert!(c.get("b").is_none());
    let hit = c.get("a").unwrap();
    assert_eq!(hit.audio_id, "a");
    assert_eq!(hit.loudness_info, loud(1));
}

#[test]
fn no_read_policy_always_misses() {
    let policy = CachePolicy { no_read: true, no_write: false, purge: false };
    let mut c = Cache::new(policy, vec![file("a", 1)]);
    assert!(c.get("a").is_none());
    c.store(file("b", 2));
    assert!(c.get("b").is_none());
    assert_eq!(c.into_fresh().len(), 1);
}

#[test]
fn no_write_policy_drops_stores() {
    let policy = CachePolicy { no_read: false, no_write: true, purge: false };
    let mut c = Cache::new(policy, Vec::new());
    c.store(file("a", 1));
    assert!(c.get("a").is_none());
    assert!(c.into_fresh().is_empty());
}

#[test]
fn both_flags_make_a_pass_through() {
    let policy = CachePolicy { no_read: true, no_write: true, purge: false };
    let mut c = Cache::new(policy, vec![file("a", 1)]);
    c.store(file("b", 2));
    assert!(c.get("a").is_none());
    assert!(c.get("b").is_none());
}

#[test]
fn purge_discards_the_persisted_rows() {
    let policy = CachePolicy { no_read: false, no_write: false, purge: true };
    let c = Cache::new(policy, vec![file("a", 1)]);
    assert!(c.get("a").is_none());
}

#[test]
fn persisted_rows_are_not_fresh() {
    let mut c = Cache::new(CachePolicy::default(), vec![file("a", 1)]);
    c.store(file("a", 5));
    c.store(file("b", 2));
    let fresh = c.into_fresh();
    assert_eq!(fresh.len(), 1);
    assert_eq!(fresh[0].audio_id, "b");
}
