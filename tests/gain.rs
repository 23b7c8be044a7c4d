use dj_library_gain_calculator::gain::{linear_to_db, loudness_to_gain, TruePeak, PEAK_FLOOR_DB};

#[test]
fn gain_from_minus_20_to_minus_14_is_6_db() {
    assert_eq!(loudness_to_gain(-20_000_000, -14_000_000), 6_000_000);
}

#[test]
fn silence_peaks_at_the_floor() {
    assert_eq!(linear_to_db(TruePeak::Silent), -144_000_000);
    assert_eq!(PEAK_FLOOR_DB, -144_000_000);
}

#[test]
fn a_measured_peak_keeps_its_level() {
    assert_eq!(linear_to_db(TruePeak::Decibels(-3_010_300)), -3_010_300);
}

use dj_library_gain_calculator::gain::{compute_and_update_model, ComputedLoudness};
use dj_library_gain_calculator::models::{Entry, Info, Location, Loudness, ModificationInfo};

pub fn sample_entry(file: &str) -> Entry {
    Entry {
        album: None,
        artist: Some("Artist".to_string()),
        audio_id: Some(format!("id-{}", file)),
        cue_v2: None,
        info: Info {
            bitrate: None,
            cover_art_id: None,
            file_size: None,
            flags: None,
            genre: None,
            import_date: "2020/1/1".to_string(),
            key: None,
            label: None,
            last_played: None,
            play_count: None,
            play_time: None,
            play_time_float: None,
            release_date: None,
            rating: None,
            comment: None,
            ranking: None,
        },
        location: Location {
            directory: "/:Music/:".to_string(),
            file: file.to_string(),
            volume: "Disk".to_string(),
            volume_id: "vol".to_string(),
        },
        loudness: None,
        modification_info: ModificationInfo { author_type: "user".to_string() },
        modified_date: None,
        modified_time: None,
        musical_key: None,
        tempo: None,
        title: Some("Title".to_string()),
    }
}

#[test]
fn update_writes_gain_and_peak_into_the_record() {
    let mut e = sample_entry("a.wav");
    let m = ComputedLoudness { integrated_loudness: -20_000_000, true_peak: TruePeak::Decibels(-10_000_000) };
    let (diff, warning) = compute_and_update_model(&m, -14_000_000, &mut e);
    assert_eq!(
        e.loudness,
        Some(Loudness { analyzed_db: Some(6_000_000), perceived_db: Some(6_000_000), peak_db: Some(-10_000_000) })
    );
    assert_eq!(diff.path, "a.wav");
    assert_eq!(diff.human_name, "Artist - Title");
    assert_eq!(diff.original_analyzed_db, None);
    assert_eq!(diff.computed_analyzed_db, -20_000_000);
    assert_eq!(diff.computed_perceived_db, -20_000_000);
    assert_eq!(diff.computed_peak_db, -10_000_000);
    assert!(warning.is_none());
}

#[test]
fn update_keeps_earlier_values_in_the_report_only() {
    let mut e = sample_entry("b.wav");
    e.loudness = Some(Loudness { analyzed_db: Some(1), perceived_db: Some(2), peak_db: Some(3) });
    e.artist = None;
    e.title = None;
    let m = ComputedLoudness { integrated_loudness: -10_000_000, true_peak: TruePeak::Silent };
    let (diff, _) = compute_and_update_model(&m, -14_000_000, &mut e);
    assert_eq!(diff.original_analyzed_db, Some(1));
    assert_eq!(diff.original_perceived_db, Some(2));
    assert_eq!(diff.original_peak_db, Some(3));
    assert_eq!(diff.human_name, "? - ?");
    assert_eq!(diff.computed_peak_db, -144_000_000);
    let l = e.loudness.unwrap();
    assert_eq!(l.analyzed_db, Some(-4_000_000));
    assert_eq!(l.perceived_db, Some(-4_000_000));
    assert_eq!(l.peak_db, Some(-144_000_000));
}

#[test]
fn clipping_track_gives_one_warning_with_its_path() {
    let mut e = sample_entry("loud.flac");
    // peak -1 dB, gain +6 dB: +5 dB after gain
    let m = ComputedLoudness { integrated_loudness: -20_000_000, true_peak: TruePeak::Decibels(-1_000_000) };
    let (_, warning) = compute_and_update_model(&m, -14_000_000, &mut e);
    let w = warning.expect("a clipping warning");
    assert_eq!(w.path, "loud.flac");
    assert_eq!(w.peak_after_gain, 5_000_000);
}

#[test]
fn peak_exactly_at_full_scale_after_gain_does_not_clip() {
    let mut e = sample_entry("edge.mp3");
    let m = ComputedLoudness { integrated_loudness: -20_000_000, true_peak: TruePeak::Decibels(-6_000_000) };
    let (_, warning) = compute_and_update_model(&m, -14_000_000, &mut e);
    assert!(warning.is_none());
}
