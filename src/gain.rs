//! The gain model: from a loudness measurement and a target to the gain
//! and peak written into a track record, and the report line for it.
use vstd::prelude::*;

use crate::models::{AnalysisDifference, Entry, Loudness};

verus! {

/// The level given to a silent signal, whose peak has no finite decibel value:
/// the dynamic range of 24-bit audio, -144 dB, in micro-decibels.
pub const PEAK_FLOOR_DB: i64 = -144_000_000;

/// The true peak of a signal, on the decibel scale.
#[derive(Debug, Clone, Copy, PartialEq, Eq)]
pub enum TruePeak {
    /// The signal never leaves zero.
    Silent,
    /// `20 * log10(peak)`, in micro-decibels.
    Decibels(i32),
}

/// What the loudness meter found for one track.
#[derive(Debug, Clone, Copy, PartialEq, Eq)]
pub struct ComputedLoudness {
    /// Integrated loudness, in micro-LUFS.
    pub integrated_loudness: i32,
    pub true_peak: TruePeak,
}

/// The warning raised for a track whose peak would exceed full scale after gain.
#[derive(Debug, Clone, PartialEq)]
pub struct ClippingWarning {
    pub path: String,
    /// Peak level after gain, in micro-decibels; always above zero.
    pub peak_after_gain: i64,
}

pub open spec fn peak_db_spec(p: TruePeak) -> int {
    match p {
        TruePeak::Silent => PEAK_FLOOR_DB as int,
        TruePeak::Decibels(d) => d as int,
    }
}

/// The gain, in micro-decibels, that brings `loudness` to `target`.
pub fn loudness_to_gain(loudness: i32, target: i32) -> (r: i64)
    ensures
        r == target as int - loudness as int,
{
    target as i64 - loudness as i64
}

/// The peak level in micro-decibels, with silence at the floor level.
pub fn linear_to_db(peak: TruePeak) -> (r: i64)
    ensures
        r == peak_db_spec(peak),
{
    match peak {
        TruePeak::Silent => PEAK_FLOOR_DB,
        TruePeak::Decibels(d) => d as i64,
    }
}

/// Whether a track clips once `gain` is applied to it.
pub open spec fn clips(peak_db: int, gain_db: int) -> bool {
    peak_db + gain_db > 0
}

/// The part of the display name taken from an optional field.
pub open spec fn name_part(o: Option<String>) -> Seq<char> {
    match o {
        Some(s) => s@,
        None => "?"@,
    }
}

/// "artist - title", with "?" for a missing part.
pub open spec fn human_name_spec(e: Entry) -> Seq<char> {
    name_part(e.artist) + " - "@ + name_part(e.title)
}

/// The record as it stands after a measurement was applied to it.
pub open spec fn updated_entry(e: Entry, m: ComputedLoudness, target: i32) -> Entry {
    let gain = (target as int - m.integrated_loudness as int) as i64;
    let peak = peak_db_spec(m.true_peak) as i64;
    Entry {
        loudness: Some(Loudness { analyzed_db: Some(gain), perceived_db: Some(gain), peak_db: Some(peak) }),
        ..e
    }
}

pub open spec fn loudness_field(l: Option<Loudness>, which: int) -> Option<i64> {
    match l {
        Some(l) => if which == 0 {
            l.analyzed_db
        } else if which == 1 {
            l.perceived_db
        } else {
            l.peak_db
        },
        None => None,
    }
}

/// The report line for a record before the update and its measurement.
pub open spec fn difference_spec(d: AnalysisDifference, e: Entry, m: ComputedLoudness) -> bool {
    &&& d.path == e.location.file
    &&& d.human_name@ == human_name_spec(e)
    &&& d.original_analyzed_db == loudness_field(e.loudness, 0)
    &&& d.original_perceived_db == loudness_field(e.loudness, 1)
    &&& d.original_peak_db == loudness_field(e.loudness, 2)
    &&& d.computed_analyzed_db == m.integrated_loudness
    &&& d.computed_perceived_db == m.integrated_loudness
    &&& d.computed_peak_db == peak_db_spec(m.true_peak)
}

/// The clipping warning owed for a record and its measurement, if any.
pub open spec fn warning_spec(w: Option<ClippingWarning>, e: Entry, m: ComputedLoudness, target: i32) -> bool {
    let peak = peak_db_spec(m.true_peak);
    let gain = target as int - m.integrated_loudness as int;
    if clips(peak, gain) {
        w == Some(ClippingWarning { path: e.location.file, peak_after_gain: (peak + gain) as i64 })
    } else {
        w is None
    }
}

fn or_unknown(o: &Option<String>) -> (r: String)
    ensures
        r@ == name_part(*o),
{
    match o {
        Some(s) => s.clone(),
        None => String::from_str("?"),
    }
}

/// Builds "artist - title" for the report.
fn human_name(entry: &Entry) -> (r: String)
    ensures
        r@ == human_name_spec(*entry),
{
    let mut name = or_unknown(&entry.artist);
    name.append(" - ");
    let title = or_unknown(&entry.title);
    name.append(title.as_str());
    name
}

/// Applies a measurement to a track record: the gain towards `target_loudness`
/// goes into both the analyzed and the perceived field, the peak level into the
/// peak field. Returns the report line, which keeps the record's earlier values,
/// and the clipping warning when the peak after gain is above full scale.
pub fn compute_and_update_model(
    loudness: &ComputedLoudness,
    target_loudness: i32,
    entry: &mut Entry,
) -> (r: (AnalysisDifference, Option<ClippingWarning>))
    ensures
        *final(entry) == updated_entry(*old(entry), *loudness, target_loudness),
        difference_spec(r.0, *old(entry), *loudness),
        warning_spec(r.1, *old(entry), *loudness, target_loudness),
{
    let peak = linear_to_db(loudness.true_peak);
    let gain = loudness_to_gain(loudness.integrated_loudness, target_loudness);
    let peak_after_gain: i64 = peak + gain;
    let warning = if peak_after_gain > 0 {
        Some(ClippingWarning { path: entry.location.file.clone(), peak_after_gain })
    } else {
        None
    };
    let (original_analyzed_db, original_perceived_db, original_peak_db) = match &entry.loudness {
        Some(l) => (l.analyzed_db, l.perceived_db, l.peak_db),
        None => (None, None, None),
    };
    let diff = AnalysisDifference {
        path: entry.location.file.clone(),
        human_name: human_name(entry),
        original_analyzed_db,
        original_perceived_db,
        original_peak_db,
        computed_analyzed_db: loudness.integrated_loudness as i64,
        computed_perceived_db: loudness.integrated_loudness as i64,
        computed_peak_db: peak,
    };
    entry.loudness = Some(Loudness { analyzed_db: Some(gain), perceived_db: Some(gain), peak_db: Some(peak) });
    (diff, warning)
}

} // verus!
