//! The library document as a model: track records, header, playlist tree
//! and sorting orders.
use vstd::prelude::*;

verus! {

/// Album information attached to a track.
#[derive(Debug, Clone, PartialEq)]
pub struct Album {
    pub title: Option<String>,
    pub track: Option<i64>,
}

/// The list of tracks of a library, with the declared entry count.
#[derive(Debug, Clone, PartialEq)]
pub struct Collection {
    pub entries_count: i64,
    pub entries: Vec<Entry>,
}

/// One track record.
#[derive(Debug, Clone, PartialEq)]
pub struct Entry {
    pub album: Option<Album>,
    pub artist: Option<String>,
    pub audio_id: Option<String>,
    pub cue_v2: Option<Vec<CueV2>>,
    pub info: Info,
    pub location: Location,
    pub loudness: Option<Loudness>,
    pub modification_info: ModificationInfo,
    pub modified_date: Option<String>,
    pub modified_time: Option<i64>,
    pub musical_key: Option<MusicalKey>,
    pub tempo: Option<Tempo>,
    pub title: Option<String>,
}

/// The header block of a library file.
#[derive(Debug, Clone, PartialEq)]
pub struct Head {
    pub company: String,
    pub program: String,
}

/// Descriptive metadata of a track, kept verbatim.
#[derive(Debug, Clone, PartialEq)]
pub struct Info {
    pub bitrate: Option<i64>,
    pub cover_art_id: Option<String>,
    pub file_size: Option<i64>,
    pub flags: Option<i64>,
    pub genre: Option<String>,
    pub import_date: String,
    pub key: Option<String>,
    pub label: Option<String>,
    pub last_played: Option<String>,
    pub play_count: Option<i64>,
    pub play_time: Option<String>,
    pub play_time_float: Option<String>,
    pub release_date: Option<String>,
    pub rating: Option<String>,
    pub comment: Option<String>,
    pub ranking: Option<String>,
}

/// A cue point of a track.
#[derive(Debug, Clone, PartialEq)]
pub struct CueV2 {
    pub cue_type: i64,
    pub display_order: i64,
    pub hotcue: i64,
    pub length: String,
    pub name: String,
    pub repeats: i64,
    pub start: String,
}

/// Where a track's audio file lives: volume, directory and file name.
#[derive(Debug, Clone, PartialEq)]
pub struct Location {
    pub directory: String,
    pub file: String,
    pub volume: String,
    pub volume_id: String,
}

/// The loudness sub-record of a track, in micro-decibels.
#[derive(Debug, Clone, PartialEq)]
pub struct Loudness {
    pub analyzed_db: Option<i64>,
    pub perceived_db: Option<i64>,
    pub peak_db: Option<i64>,
}

#[derive(Debug, Clone, PartialEq)]
pub struct ModificationInfo {
    pub author_type: String,
}

#[derive(Debug, Clone, PartialEq)]
pub struct MusicalKey {
    pub value: String,
}

/// A whole library document.
#[derive(Debug, PartialEq)]
pub struct Nml {
    pub head: Head,
    pub collection: Collection,
    pub playlists: Option<Playlists>,
    pub sets: Option<Sets>,
    pub sorting_orders: Option<Vec<SortingOrder>>,
    pub version: i64,
}

impl Nml {
    pub fn track_count(&self) -> (r: u64)
        ensures
            r == self.collection.entries@.len(),
    {
        self.collection.entries.len() as u64
    }
}

/// A node of the playlist tree: a folder (with sub-nodes) or a playlist.
#[derive(Debug, PartialEq)]
pub struct Node {
    pub name: String,
    pub node_type: String,
    pub playlist: Option<Playlist>,
    pub subnodes: Option<SubNodes>,
}

#[derive(Debug, Clone, PartialEq)]
pub struct Playlist {
    pub entries: Option<Vec<PlayListEntry>>,
    pub entries_count: i64,
    pub playlist_type: String,
    pub uuid: String,
}

#[derive(Debug, Clone, PartialEq)]
pub struct PlayListEntry {
    pub primary_key: PrimaryKey,
}

#[derive(Debug, PartialEq)]
pub struct Playlists {
    pub nodes: Vec<Node>,
}

#[derive(Debug, Clone, PartialEq)]
pub struct PrimaryKey {
    pub primary_key_type: String,
    pub key: String,
}

#[derive(Debug, Clone, PartialEq)]
pub struct Sets {
    pub entries: i64,
}

#[derive(Debug, Clone, PartialEq)]
pub struct SortingData {
    pub idx: String,
    pub ord: String,
}

#[derive(Debug, Clone, PartialEq)]
pub struct SortingOrder {
    pub path: String,
    pub sorting_data: Option<SortingData>,
}

#[derive(Debug, PartialEq)]
pub struct SubNodes {
    pub count: i64,
    pub nodes: Vec<Node>,
}

#[derive(Debug, Clone, PartialEq)]
pub struct Tempo {
    pub bpm: Option<String>,
    pub bpm_quality: String,
}

/// One line of the difference report: a track's loudness before and after a run.
#[derive(Debug, Clone, PartialEq)]
pub struct AnalysisDifference {
    pub path: String,
    pub human_name: String,
    pub original_analyzed_db: Option<i64>,
    pub original_perceived_db: Option<i64>,
    pub original_peak_db: Option<i64>,
    pub computed_analyzed_db: i64,
    pub computed_perceived_db: i64,
    pub computed_peak_db: i64,
}

} // verus!
