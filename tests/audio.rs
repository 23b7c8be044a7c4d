use std::f64::consts::PI;
use std::io::Cursor;

use dj_library_gain_calculator::audio::{
    audio_format, decode_audio, extension_of, format_for_extension, mp3_frames_to_decoded, normalize_int_stream,
    AudioFormat, DecodeError, Mp3Frame,
};

fn wav_bytes(channels: u16, rate: u32, bits: u16, float: bool, amplitude: f64, seconds: f64) -> Vec<u8> {
    let spec = hound::WavSpec {
        channels,
        sample_rate: rate,
        bits_per_sample: bits,
        sample_format: if float { hound::SampleFormat::Float } else { hound::SampleFormat::Int },
    };
    let mut buf = Vec::new();
    {
        let mut w = hound::WavWriter::new(Cursor::new(&mut buf), spec).unwrap();
        let frames = (rate as f64 * seconds) as usize;
        let full = ((1i64 << (bits - 1)) - 1) as f64;
        for i in 0..frames {
            let x = amplitude * (2.0 * PI * 440.0 * i as f64 / rate as f64).sin();
            for _ in 0..channels {
                if float {
                    w.write_sample(x as f32).unwrap();
                } else {
                    w.write_sample((x * full).round() as i32).unwrap();
                }
            }
        }
        w.finalize().unwrap();
    }
    buf
}

fn peak_fraction(data: &[i32]) -> f64 {
    data.iter().map(|s| (*s as f64).abs()).fold(0.0, f64::max) / 2147483648.0
}

#[test]
fn full_scale_sine_stays_in_range_for_every_depth() {
    for (bits, float) in [(8u16, false), (16, false), (24, false), (32, false), (32, true)] {
        let bytes = wav_bytes(1, 8000, bits, float, 1.0, 0.1);
        let d = decode_audio(AudioFormat::Wav, &bytes).unwrap();
        assert_eq!(d.channels, 1);
        assert_eq!(d.rate, 8000);
        assert_eq!(d.data.len(), 800);
        let peak = peak_fraction(&d.data);
        assert!(peak <= 1.0, "{} bits: {}", bits, peak);
        assert!(peak > 0.98, "{} bits: {}", bits, peak);
    }
}

#[test]
fn integer_samples_scale_by_their_width() {
    let d = normalize_int_stream(2, 44100, 16, &vec![1, -32768, 32767]).unwrap();
    assert_eq!(d.data, vec![65536, i32::MIN, 32767 * 65536]);
    let d = normalize_int_stream(1, 48000, 24, &vec![-8388608, 1]).unwrap();
    assert_eq!(d.data, vec![i32::MIN, 256]);
    let d = normalize_int_stream(1, 48000, 32, &vec![i32::MAX, i32::MIN]).unwrap();
    assert_eq!(d.data, vec![i32::MAX, i32::MIN]);
}

#[test]
fn unsupported_depth_and_bad_streams_are_rejected() {
    assert_eq!(normalize_int_stream(1, 8000, 12, &vec![1]), Err(DecodeError::UnsupportedBitDepth(12)));
    assert_eq!(normalize_int_stream(0, 8000, 16, &vec![1]), Err(DecodeError::MissingStreamParameters));
    assert_eq!(normalize_int_stream(1, 0, 16, &vec![1]), Err(DecodeError::MissingStreamParameters));
    assert_eq!(normalize_int_stream(1, 8000, 16, &vec![40000]), Err(DecodeError::SampleOutOfRange));
}

#[test]
fn eight_bit_wav_is_scaled_to_full_scale() {
    let bytes = wav_bytes(1, 8000, 8, false, 1.0, 0.1);
    let d = decode_audio(AudioFormat::Wav, &bytes).unwrap();
    assert_eq!(d.data.len(), 800);
    assert!(d.data.iter().all(|s| s % (1 << 24) == 0));
    let peak = peak_fraction(&d.data);
    assert!(peak <= 1.0 && peak > 0.98, "{}", peak);
}

#[test]
fn eight_bit_samples_scale_by_two_to_the_24() {
    let d = normalize_int_stream(1, 8000, 8, &vec![-128, 127, 1]).unwrap();
    assert_eq!(d.data, vec![i32::MIN, 127 << 24, 1 << 24]);
    assert_eq!(normalize_int_stream(1, 8000, 8, &vec![128]), Err(DecodeError::SampleOutOfRange));
}

#[test]
fn garbage_is_an_invalid_stream() {
    let junk = vec![1u8, 2, 3, 4, 5];
    assert_eq!(decode_audio(AudioFormat::Wav, &junk), Err(DecodeError::InvalidStream));
    assert_eq!(decode_audio(AudioFormat::Flac, &junk), Err(DecodeError::InvalidStream));
    assert_eq!(decode_audio(AudioFormat::Ogg, &junk), Err(DecodeError::InvalidStream));
    assert_eq!(decode_audio(AudioFormat::Mp3, &junk), Err(DecodeError::MissingStreamParameters));
}

fn frame(rate: u32, channels: u32, samples: Vec<i16>) -> Option<Mp3Frame> {
    Some(Mp3Frame { rate, channels, samples })
}

#[test]
fn mp3_frames_are_joined() {
    let d = mp3_frames_to_decoded(&vec![frame(44100, 2, vec![1, -1]), None, frame(44100, 2, vec![2, 3])]).unwrap();
    assert_eq!(d.rate, 44100);
    assert_eq!(d.channels, 2);
    assert_eq!(d.data, vec![65536, -65536, 131072, 196608]);
}

#[test]
fn mp3_frames_must_agree() {
    let r = mp3_frames_to_decoded(&vec![frame(44100, 2, vec![]), frame(48000, 2, vec![])]);
    assert_eq!(r, Err(DecodeError::InconsistentSampleRate));
    let r = mp3_frames_to_decoded(&vec![frame(44100, 2, vec![]), frame(44100, 1, vec![])]);
    assert_eq!(r, Err(DecodeError::InconsistentChannelCount));
    assert_eq!(mp3_frames_to_decoded(&vec![]), Err(DecodeError::MissingStreamParameters));
    assert_eq!(mp3_frames_to_decoded(&vec![None, None]), Err(DecodeError::MissingStreamParameters));
}

#[test]
fn extension_follows_the_last_dot_of_the_file_name() {
    assert_eq!(extension_of("/music/a.b/track.flac"), Some("flac"));
    assert_eq!(extension_of("/music/a.b/track"), None);
    assert_eq!(extension_of("/music/.hidden"), None);
    assert_eq!(extension_of("x.tar.gz"), Some("gz"));
    assert_eq!(extension_of("name."), Some(""));
}

#[test]
fn format_is_chosen_by_lowercase_extension() {
    assert_eq!(format_for_extension("ogg"), Some(AudioFormat::Ogg));
    assert_eq!(format_for_extension("OGG"), None);
    assert_eq!(audio_format("/a/b/Song.WAV"), Ok(AudioFormat::Wav));
    assert_eq!(audio_format("/a/b/Song.Flac"), Ok(AudioFormat::Flac));
    assert_eq!(audio_format("/a/b/song.mp3"), Ok(AudioFormat::Mp3));
    assert_eq!(audio_format("/a/b/song.ogg"), Ok(AudioFormat::Ogg));
    assert_eq!(audio_format("/a/b/song.aiff"), Err(DecodeError::UnsupportedFormat));
    assert_eq!(audio_format("/a/b/song"), Err(DecodeError::UnsupportedFormat));
}

#[test]
fn loudness_measurement_smoketest() {
    let bytes = wav_bytes(2, 44100, 16, false, 0.7, 10.0);
    let d = decode_audio(AudioFormat::Wav, &bytes).unwrap();
    let mut ebu = ebur128::EbuR128::new(d.channels, d.rate, ebur128::Mode::I | ebur128::Mode::TRUE_PEAK).unwrap();
    ebu.add_frames_i32(&d.data).unwrap();
    let integrated = ebu.loudness_global().unwrap();
    let peak = (0..d.channels).map(|c| ebu.true_peak(c).unwrap()).fold(0.0, f64::max);
    assert!(integrated < -3.5 && integrated > -4.2, "integrated {}", integrated);
    assert!(peak > 0.67 && peak < 0.73, "peak {}", peak);
}

use dj_library_gain_calculator::cache::{Cache, CachePolicy};
use dj_library_gain_calculator::gain::{ComputedLoudness, TruePeak};
use dj_library_gain_calculator::models::{Collection, Entry, Head, Info, Location, ModificationInfo, Nml};
use dj_library_gain_calculator::walker::collection_analysis;

fn one_track_library() -> Nml {
    let entry = Entry {
        album: None,
        artist: Some("Tone".to_string()),
        audio_id: Some("sine".to_string()),
        cue_v2: None,
        info: Info {
            bitrate: None,
            cover_art_id: None,
            file_size: None,
            flags: None,
            genre: None,
            import_date: "2022/1/1".to_string(),
            key: None,
            label: None,
            last_played: None,
            play_count: None,
            play_time: None,
            play_time_float: None,
            release_date: None,
            rating: None,
            comment: None,
            ranking: None,
        },
        location: Location {
            directory: "/:".to_string(),
            file: "sine-440.wav".to_string(),
            volume: "".to_string(),
            volume_id: "".to_string(),
        },
        loudness: None,
        modification_info: ModificationInfo { author_type: "user".to_string() },
        modified_date: None,
        modified_time: None,
        musical_key: None,
        tempo: None,
        title: Some("440 Hz".to_string()),
    };
    Nml {
        head: Head { company: "c".to_string(), program: "p".to_string() },
        collection: Collection { entries_count: 1, entries: vec![entry] },
        playlists: None,
        sets: None,
        sorting_orders: None,
        version: 19,
    }
}

#[test]
fn one_track_library_reports_the_reference_loudness() {
    let bytes = wav_bytes(2, 48000, 24, false, 0.5, 6.0);
    let d = decode_audio(AudioFormat::Wav, &bytes).unwrap();
    let mut ebu = ebur128::EbuR128::new(d.channels, d.rate, ebur128::Mode::I | ebur128::Mode::TRUE_PEAK).unwrap();
    ebu.add_frames_i32(&d.data).unwrap();
    let integrated = ebu.loudness_global().unwrap();
    let peak = (0..d.channels).map(|c| ebu.true_peak(c).unwrap()).fold(0.0, f64::max);
    let m = ComputedLoudness {
        integrated_loudness: (integrated * 1e6).round() as i32,
        true_peak: TruePeak::Decibels((20.0 * peak.log10() * 1e6).round() as i32),
    };
    let mut nml = one_track_library();
    let mut cache = Cache::new(CachePolicy::default(), Vec::new());
    let report = collection_analysis(&mut nml, -14_000_000, &mut cache, &vec![Some(m)]);
    assert_eq!(report.len(), 1);
    let diff = &report[0].difference;
    assert_eq!(diff.path, "sine-440.wav");
    assert_eq!(diff.human_name, "Tone - 440 Hz");
    // a stereo sine at half scale: about -6.0 dB peak, integrated near -6.7 LUFS
    let peak_db = diff.computed_peak_db as f64 / 1e6;
    let analyzed = diff.computed_analyzed_db as f64 / 1e6;
    assert!((peak_db - 20.0 * 0.5f64.log10()).abs() < 0.5, "peak {}", peak_db);
    assert!(analyzed > -7.5 && analyzed < -6.0, "integrated {}", analyzed);
    let gain = nml.collection.entries[0].loudness.as_ref().unwrap().analyzed_db.unwrap();
    assert_eq!(gain, -14_000_000 - diff.computed_analyzed_db);
    assert!(report[0].clipping.is_none());
}
