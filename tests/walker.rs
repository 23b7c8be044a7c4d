use dj_library_gain_calculator::cache::{AnalyzedFile, Cache, CachePolicy};
use dj_library_gain_calculator::gain::{ComputedLoudness, TruePeak};
use dj_library_gain_calculator::models::{Collection, Entry, Head, Info, Location, ModificationInfo, Nml};
use dj_library_gain_calculator::walker::{collection_analysis, track_path, tracks_to_measure, Platform};

fn track(file: &str, id: Option<&str>) -> Entry {
    Entry {
        album: None,
        artist: None,
        audio_id: id.map(|s| s.to_string()),
        cue_v2: None,
        info: Info {
            bitrate: None,
            cover_art_id: None,
            file_size: None,
            flags: None,
            genre: None,
            import_date: "2021/2/3".to_string(),
            key: None,
            label: None,
            last_played: None,
            play_count: None,
            play_time: None,
            play_time_float: None,
            release_date: None,
            rating: None,
            comment: None,
            ranking: None,
        },
        location: Location {
            directory: "/:Users/:dj/:Music/:".to_string(),
            file: file.to_string(),
            volume: "Macintosh HD".to_string(),
            volume_id: "id".to_string(),
        },
        loudness: None,
        modification_info: ModificationInfo { author_type: "user".to_string() },
        modified_date: None,
        modified_time: None,
        musical_key: None,
        tempo: None,
        title: None,
    }
}

fn library(entries: Vec<Entry>) -> Nml {
    Nml {
        head: Head { company: "www.native-instruments.com".to_string(), program: "Traktor".to_string() },
        collection: Collection { entries_count: entries.len() as i64, entries },
        playlists: None,
        sets: None,
        sorting_orders: None,
        version: 19,
    }
}

fn measured(l: i32) -> Option<ComputedLoudness> {
    Some(ComputedLoudness { integrated_loudness: l, true_peak: TruePeak::Decibels(-3_000_000) })
}

#[test]
fn path_is_rebuilt_per_platform_without_colons() {
    let e = track("song.mp3", None);
    assert_eq!(track_path(&e.location, Platform::MacOs), "/Volumes/Macintosh HD/Users/dj/Music/song.mp3");
    assert_eq!(track_path(&e.location, Platform::Unix), "/Macintosh HD/Users/dj/Music/song.mp3");
    assert_eq!(track_path(&e.location, Platform::Windows), "Macintosh HD/Users/dj/Music/song.mp3");
}

#[test]
fn colons_in_the_file_name_are_kept() {
    let mut e = track("a:b.mp3", None);
    e.location.volume = "C:".to_string();
    e.location.directory = "/:x/:".to_string();
    assert_eq!(track_path(&e.location, Platform::Windows), "C/x/a:b.mp3");
}

#[test]
fn fan_out_reports_every_track_once() {
    let names = ["a.wav", "b.wav", "c.wav", "d.wav", "e.wav"];
    let mut nml = library(names.iter().map(|n| track(n, None)).collect());
    let mut cache = Cache::new(CachePolicy::default(), Vec::new());
    let m: Vec<Option<ComputedLoudness>> = (0..5).map(|i| measured(-20_000_000 + i)).collect();
    let report = collection_analysis(&mut nml, -14_000_000, &mut cache, &m);
    assert_eq!(report.len(), 5);
    let paths: Vec<&str> = report.iter().map(|r| r.difference.path.as_str()).collect();
    assert_eq!(paths, names.to_vec());
    for (i, e) in nml.collection.entries.iter().enumerate() {
        assert_eq!(e.loudness.as_ref().unwrap().analyzed_db, Some(6_000_000 - i as i64));
    }
}

#[test]
fn a_failed_track_is_left_alone_and_not_reported() {
    let mut nml = library(vec![track("ok.wav", None), track("broken.wav", None), track("ok2.wav", None)]);
    let mut cache = Cache::new(CachePolicy::default(), Vec::new());
    let m = vec![measured(-10_000_000), None, measured(-12_000_000)];
    let report = collection_analysis(&mut nml, -14_000_000, &mut cache, &m);
    assert_eq!(report.len(), 2);
    assert_eq!(report[0].difference.path, "ok.wav");
    assert_eq!(report[1].difference.path, "ok2.wav");
    assert!(nml.collection.entries[1].loudness.is_none());
}

#[test]
fn cached_loudness_is_used_and_fresh_measurements_are_stored() {
    let stored = AnalyzedFile {
        audio_id: "known".to_string(),
        loudness_info: ComputedLoudness { integrated_loudness: -8_000_000, true_peak: TruePeak::Silent },
    };
    let mut cache = Cache::new(CachePolicy::default(), vec![stored]);
    let mut nml = library(vec![track("cached.wav", Some("known")), track("new.wav", Some("fresh"))]);
    let plan = tracks_to_measure(&nml, &cache, Platform::Unix);
    assert_eq!(plan[0], None);
    assert_eq!(plan[1].as_deref(), Some("/Macintosh HD/Users/dj/Music/new.wav"));
    let m = vec![None, measured(-16_000_000)];
    let report = collection_analysis(&mut nml, -14_000_000, &mut cache, &m);
    assert_eq!(report.len(), 2);
    assert_eq!(report[0].difference.computed_analyzed_db, -8_000_000);
    assert_eq!(report[0].difference.computed_peak_db, -144_000_000);
    assert_eq!(nml.collection.entries[0].loudness.as_ref().unwrap().analyzed_db, Some(-6_000_000));
    assert_eq!(cache.get("fresh").unwrap().loudness_info.integrated_loudness, -16_000_000);
    assert_eq!(cache.into_fresh().len(), 1);
}

#[test]
fn duplicate_fingerprints_share_the_first_measurement() {
    let mut cache = Cache::new(CachePolicy::default(), Vec::new());
    let mut nml = library(vec![track("one.wav", Some("same")), track("two.wav", Some("same"))]);
    let m = vec![measured(-10_000_000), measured(-30_000_000)];
    let report = collection_analysis(&mut nml, -14_000_000, &mut cache, &m);
    assert_eq!(report[1].difference.computed_analyzed_db, -10_000_000);
}

#[test]
fn clipping_tracks_are_flagged_in_the_run() {
    let mut nml = library(vec![track("quiet.wav", None), track("hot.wav", None)]);
    let mut cache = Cache::new(CachePolicy::default(), Vec::new());
    let hot = Some(ComputedLoudness { integrated_loudness: -30_000_000, true_peak: TruePeak::Decibels(-2_000_000) });
    let m = vec![measured(-10_000_000), hot];
    let report = collection_analysis(&mut nml, -14_000_000, &mut cache, &m);
    assert!(report[0].clipping.is_none());
    assert_eq!(report[1].clipping.as_ref().unwrap().path, "hot.wav");
}
