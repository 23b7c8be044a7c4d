//! Reading a library document: from XML events to the model. Elements
//! may come in any order and unknown ones are skipped.
use vstd::prelude::*;

use crate::models::{
    Album, Collection, CueV2, Entry, Head, Info, Location, Loudness, ModificationInfo, MusicalKey, Nml,
    PlayListEntry, Playlist, Playlists, PrimaryKey, Sets, SortingData, SortingOrder, SubNodes, Tempo, Node,
};
use crate::error::AppError;
use crate::read::read_events;
use crate::parse::{attr_value, db_value, int_value, lookup, parse_db, parse_int, text_of, ParseFault};
use crate::parse::{lemma_db_round_trip, lemma_int_round_trip};
use crate::serialize::{
    cue_attrs, entry_attrs, info_attrs, kv, location_attrs, loudness_attrs, opt_int as opt_int_attr, opt_text,
    or_zero, Attrs,
};
use crate::text::same_text;
use crate::xml::{attrs_view, XmlAttr, XmlEvent};

verus! {

/// A required text attribute.
pub fn req_text(attrs: &Vec<XmlAttr>, key: &str) -> (r: Result<String, ParseFault>)
    ensures
        match r {
            Ok(s) => lookup(attrs_view(attrs@), key@) == Some(s@),
            Err(e) => e == ParseFault::Missing && lookup(attrs_view(attrs@), key@) is None,
        },
{
    match attr_value(attrs, key) {
        Some(s) => Ok(s),
        None => Err(ParseFault::Missing),
    }
}

/// What an optional integer attribute reads as.
pub open spec fn opt_int_spec(a: Attrs, k: Seq<char>) -> Result<Option<i64>, ParseFault> {
    match lookup(a, k) {
        None => Ok(None),
        Some(t) => match int_value(t) {
            Some(v) => Ok(Some(v)),
            None => Err(ParseFault::Number),
        },
    }
}

/// What a required integer attribute reads as.
pub open spec fn req_int_spec(a: Attrs, k: Seq<char>) -> Result<i64, ParseFault> {
    match lookup(a, k) {
        None => Err(ParseFault::Missing),
        Some(t) => match int_value(t) {
            Some(v) => Ok(v),
            None => Err(ParseFault::Number),
        },
    }
}

/// What an optional decibel attribute reads as.
pub open spec fn opt_db_spec(a: Attrs, k: Seq<char>) -> Result<Option<i64>, ParseFault> {
    match lookup(a, k) {
        None => Ok(None),
        Some(t) => match db_value(t) {
            Some(v) => Ok(Some(v)),
            None => Err(ParseFault::Number),
        },
    }
}

pub fn opt_int(attrs: &Vec<XmlAttr>, key: &str) -> (r: Result<Option<i64>, ParseFault>)
    ensures
        r == opt_int_spec(attrs_view(attrs@), key@),
{
    match attr_value(attrs, key) {
        None => Ok(None),
        Some(t) => match parse_int(t.as_str()) {
            Some(v) => Ok(Some(v)),
            None => Err(ParseFault::Number),
        },
    }
}

pub fn req_int(attrs: &Vec<XmlAttr>, key: &str) -> (r: Result<i64, ParseFault>)
    ensures
        r == req_int_spec(attrs_view(attrs@), key@),
{
    match attr_value(attrs, key) {
        None => Err(ParseFault::Missing),
        Some(t) => match parse_int(t.as_str()) {
            Some(v) => Ok(v),
            None => Err(ParseFault::Number),
        },
    }
}

pub fn opt_db(attrs: &Vec<XmlAttr>, key: &str) -> (r: Result<Option<i64>, ParseFault>)
    ensures
        r == opt_db_spec(attrs_view(attrs@), key@),
{
    match attr_value(attrs, key) {
        None => Ok(None),
        Some(t) => match parse_db(t.as_str()) {
            Some(v) => Ok(Some(v)),
            None => Err(ParseFault::Number),
        },
    }
}

/// A location from the attributes of its element.
pub fn location_from_attrs(attrs: &Vec<XmlAttr>) -> (r: Result<Location, ParseFault>)
    ensures
        match r {
            Ok(l) => {
                &&& lookup(attrs_view(attrs@), "DIR"@) == Some(l.directory@)
                &&& lookup(attrs_view(attrs@), "FILE"@) == Some(l.file@)
                &&& lookup(attrs_view(attrs@), "VOLUME"@) == Some(l.volume@)
                &&& lookup(attrs_view(attrs@), "VOLUMEID"@) == Some(l.volume_id@)
            },
            Err(e) => e == ParseFault::Missing,
        },
{
    Ok(Location {
        directory: req_text(attrs, "DIR")?,
        file: req_text(attrs, "FILE")?,
        volume: req_text(attrs, "VOLUME")?,
        volume_id: req_text(attrs, "VOLUMEID")?,
    })
}

/// A loudness record from the attributes of its element.
pub fn loudness_from_attrs(attrs: &Vec<XmlAttr>) -> (r: Result<Loudness, ParseFault>)
    ensures
        match r {
            Ok(l) => {
                &&& opt_db_spec(attrs_view(attrs@), "PEAK_DB"@) == Ok::<Option<i64>, ParseFault>(l.peak_db)
                &&& opt_db_spec(attrs_view(attrs@), "PERCEIVED_DB"@) == Ok::<Option<i64>, ParseFault>(l.perceived_db)
                &&& opt_db_spec(attrs_view(attrs@), "ANALYZED_DB"@) == Ok::<Option<i64>, ParseFault>(l.analyzed_db)
            },
            Err(e) => e == ParseFault::Number,
        },
{
    Ok(Loudness {
        peak_db: opt_db(attrs, "PEAK_DB")?,
        perceived_db: opt_db(attrs, "PERCEIVED_DB")?,
        analyzed_db: opt_db(attrs, "ANALYZED_DB")?,
    })
}

/// A cue point from the attributes of its element.
pub fn cue_from_attrs(attrs: &Vec<XmlAttr>) -> (r: Result<CueV2, ParseFault>)
    ensures
        match r {
            Ok(c) => {
                &&& lookup(attrs_view(attrs@), "NAME"@) == Some(c.name@)
                &&& req_int_spec(attrs_view(attrs@), "DISPL_ORDER"@) == Ok::<i64, ParseFault>(c.display_order)
                &&& req_int_spec(attrs_view(attrs@), "TYPE"@) == Ok::<i64, ParseFault>(c.cue_type)
                &&& lookup(attrs_view(attrs@), "START"@) == Some(c.start@)
                &&& lookup(attrs_view(attrs@), "LEN"@) == Some(c.length@)
                &&& req_int_spec(attrs_view(attrs@), "REPEATS"@) == Ok::<i64, ParseFault>(c.repeats)
                &&& req_int_spec(attrs_view(attrs@), "HOTCUE"@) == Ok::<i64, ParseFault>(c.hotcue)
            },
            Err(_) => true,
        },
{
    Ok(CueV2 {
        name: req_text(attrs, "NAME")?,
        display_order: req_int(attrs, "DISPL_ORDER")?,
        cue_type: req_int(attrs, "TYPE")?,
        start: req_text(attrs, "START")?,
        length: req_text(attrs, "LEN")?,
        repeats: req_int(attrs, "REPEATS")?,
        hotcue: req_int(attrs, "HOTCUE")?,
    })
}

/// The descriptive metadata of a track from the attributes of its element.
pub fn info_from_attrs(attrs: &Vec<XmlAttr>) -> (r: Result<Info, ParseFault>)
    ensures
        match r {
            Ok(i) => {
                &&& lookup(attrs_view(attrs@), "IMPORT_DATE"@) == Some(i.import_date@)
                &&& opt_int_spec(attrs_view(attrs@), "BITRATE"@) == Ok::<Option<i64>, ParseFault>(i.bitrate)
                &&& opt_int_spec(attrs_view(attrs@), "PLAYCOUNT"@) == Ok::<Option<i64>, ParseFault>(i.play_count)
                &&& opt_int_spec(attrs_view(attrs@), "FLAGS"@) == Ok::<Option<i64>, ParseFault>(i.flags)
                &&& opt_int_spec(attrs_view(attrs@), "FILESIZE"@) == Ok::<Option<i64>, ParseFault>(i.file_size)
            },
            Err(_) => true,
        },
{
    Ok(Info {
        bitrate: opt_int(attrs, "BITRATE")?,
        cover_art_id: attr_value(attrs, "COVERARTID"),
        file_size: opt_int(attrs, "FILESIZE")?,
        flags: opt_int(attrs, "FLAGS")?,
        genre: attr_value(attrs, "GENRE"),
        import_date: req_text(attrs, "IMPORT_DATE")?,
        key: attr_value(attrs, "KEY"),
        label: attr_value(attrs, "LABEL"),
        last_played: attr_value(attrs, "LAST_PLAYED"),
        play_count: opt_int(attrs, "PLAYCOUNT")?,
        play_time: attr_value(attrs, "PLAYTIME"),
        play_time_float: attr_value(attrs, "PLAYTIME_FLOAT"),
        release_date: attr_value(attrs, "RELEASE_DATE"),
        rating: attr_value(attrs, "RATING"),
        comment: attr_value(attrs, "COMMENT"),
        ranking: attr_value(attrs, "RANKING"),
    })
}

/// The position just past the element that opens at `pos`.
fn skip_element(ev: &Vec<XmlEvent>, pos: usize) -> (r: Result<usize, ParseFault>)
    requires
        pos < ev@.len(),
    ensures
        r matches Ok(n) ==> pos < n <= ev@.len(),
{
    let mut depth: usize = 0;
    let mut i: usize = pos;
    while i < ev.len()
        invariant
            pos <= i <= ev@.len(),
            i == pos ==> depth == 0,
            depth <= i - pos,
        decreases ev@.len() - i,
    {
        match &ev[i] {
            XmlEvent::Start { .. } => {
                depth = depth + 1;
            },
            XmlEvent::End { .. } => {
                if depth <= 1 {
                    if i == pos {
                        return Err(ParseFault::Structure);
                    }
                    return Ok(i + 1);
                }
                depth = depth - 1;
            },
        }
        i += 1;
    }
    Err(ParseFault::Structure)
}

/// Whether event `j` opens an element named `name`.
pub open spec fn opens_at(ev: Seq<XmlEvent>, j: int, name: Seq<char>) -> bool {
    0 <= j < ev.len() && match ev[j] {
        XmlEvent::Start { name: n, .. } => n@ == name,
        XmlEvent::End { .. } => false,
    }
}

/// The location that the attributes of a LOCATION element give.
pub open spec fn location_read(a: Attrs, l: Location) -> bool {
    &&& lookup(a, "DIR"@) == Some(l.directory@)
    &&& lookup(a, "FILE"@) == Some(l.file@)
    &&& lookup(a, "VOLUME"@) == Some(l.volume@)
    &&& lookup(a, "VOLUMEID"@) == Some(l.volume_id@)
}

/// What a successful read of a track record found between `pos` and `n`:
/// the record's own attributes, and the three elements it cannot do without
/// (location, modification info, metadata) with their required attributes.
pub open spec fn entry_read(ev: Seq<XmlEvent>, pos: int, n: int, e: Entry) -> bool {
    let a = attrs_of(ev[pos]);
    &&& pos < n <= ev.len()
    &&& text_of(e.modified_date) == lookup(a, "MODIFIED_DATE"@)
    &&& opt_int_spec(a, "MODIFIED_TIME"@) == Ok::<Option<i64>, ParseFault>(e.modified_time)
    &&& text_of(e.audio_id) == lookup(a, "AUDIO_ID"@)
    &&& text_of(e.title) == lookup(a, "TITLE"@)
    &&& text_of(e.artist) == lookup(a, "ARTIST"@)
    &&& exists|j: int| pos < j < n && opens_at(ev, j, "LOCATION"@) && location_read(attrs_of(ev[j]), e.location)
    &&& exists|j: int|
        pos < j < n && opens_at(ev, j, "MODIFICATION_INFO"@) && lookup(attrs_of(ev[j]), "AUTHOR_TYPE"@) == Some(
            e.modification_info.author_type@,
        )
    &&& exists|j: int|
        pos < j < n && opens_at(ev, j, "INFO"@) && lookup(attrs_of(ev[j]), "IMPORT_DATE"@) == Some(
            e.info.import_date@,
        )
}

/// What a successful read of a whole document found: the root element with
/// its version, a header with both of its attributes and a track list with
/// its count. A document without one of them does not read.
pub open spec fn nml_read(ev: Seq<XmlEvent>, n: Nml) -> bool {
    &&& opens_at(ev, 0, "NML"@)
    &&& req_int_spec(attrs_of(ev[0]), "VERSION"@) == Ok::<i64, ParseFault>(n.version)
    &&& exists|j: int|
        opens_at(ev, j, "HEAD"@) && lookup(attrs_of(ev[j]), "COMPANY"@) == Some(n.head.company@) && lookup(
            attrs_of(ev[j]),
            "PROGRAM"@,
        ) == Some(n.head.program@)
    &&& exists|j: int|
        opens_at(ev, j, "COLLECTION"@) && req_int_spec(attrs_of(ev[j]), "ENTRIES"@) == Ok::<i64, ParseFault>(
            n.collection.entries_count,
        )
}

/// The attributes of an opening event; none for a closing one.
pub open spec fn attrs_of(e: XmlEvent) -> Attrs {
    match e {
        XmlEvent::Start { attrs, .. } => attrs_view(attrs@),
        XmlEvent::End { .. } => Seq::empty(),
    }
}

/// The attributes of the element that opens at `pos`.
fn start_attrs(ev: &Vec<XmlEvent>, pos: usize) -> (r: Result<&Vec<XmlAttr>, ParseFault>)
    requires
        pos < ev@.len(),
    ensures
        r matches Ok(a) ==> attrs_of(ev@[pos as int]) == attrs_view(a@),
{
    match &ev[pos] {
        XmlEvent::Start { attrs, .. } => Ok(attrs),
        XmlEvent::End { .. } => Err(ParseFault::Structure),
    }
}

/// Whether the event at `i` opens an element named `name`.
fn opens(ev: &Vec<XmlEvent>, i: usize, name: &str) -> (r: bool)
    requires
        i < ev@.len(),
    ensures
        r == opens_at(ev@, i as int, name@),
{
    match &ev[i] {
        XmlEvent::Start { name: n, .. } => same_text(n.as_str(), name),
        XmlEvent::End { .. } => false,
    }
}

fn is_end(ev: &Vec<XmlEvent>, i: usize) -> (r: bool)
    requires
        i < ev@.len(),
{
    match &ev[i] {
        XmlEvent::Start { .. } => false,
        XmlEvent::End { .. } => true,
    }
}

fn parse_album(attrs: &Vec<XmlAttr>) -> (r: Result<Album, ParseFault>) {
    Ok(Album { track: opt_int(attrs, "TRACK")?, title: attr_value(attrs, "TITLE") })
}

fn parse_tempo(attrs: &Vec<XmlAttr>) -> (r: Result<Tempo, ParseFault>) {
    Ok(Tempo { bpm: attr_value(attrs, "BPM"), bpm_quality: req_text(attrs, "BPM_QUALITY")? })
}

/// One track record, from the element that opens at `pos`: its own
/// attributes, then its child elements in any order.
fn parse_entry(ev: &Vec<XmlEvent>, pos: usize) -> (r: Result<(Entry, usize), ParseFault>)
    requires
        pos < ev@.len(),
    ensures
        r matches Ok((e, n)) ==> entry_read(ev@, pos as int, n as int, e),
{
    let attrs = start_attrs(ev, pos)?;
    let modified_date = attr_value(attrs, "MODIFIED_DATE");
    let modified_time = opt_int(attrs, "MODIFIED_TIME")?;
    let audio_id = attr_value(attrs, "AUDIO_ID");
    let title = attr_value(attrs, "TITLE");
    let artist = attr_value(attrs, "ARTIST");
    let mut location: Option<Location> = None;
    let mut album: Option<Album> = None;
    let mut modification_info: Option<ModificationInfo> = None;
    let mut info: Option<Info> = None;
    let mut tempo: Option<Tempo> = None;
    let mut loudness: Option<Loudness> = None;
    let mut musical_key: Option<MusicalKey> = None;
    let mut cues: Vec<CueV2> = Vec::new();
    let len = ev.len();
    let mut i: usize = pos + 1;
    loop
        invariant
            pos < i <= ev@.len(),
            len == ev@.len(),
            location matches Some(l) ==> exists|j: int|
                pos < j < i && opens_at(ev@, j, "LOCATION"@) && location_read(attrs_of(ev@[j]), l),
            modification_info matches Some(m) ==> exists|j: int|
                pos < j < i && opens_at(ev@, j, "MODIFICATION_INFO"@) && lookup(attrs_of(ev@[j]), "AUTHOR_TYPE"@)
                    == Some(m.author_type@),
            info matches Some(f) ==> exists|j: int|
                pos < j < i && opens_at(ev@, j, "INFO"@) && lookup(attrs_of(ev@[j]), "IMPORT_DATE"@) == Some(
                    f.import_date@,
                ),
        ensures
            pos < i < ev@.len(),
            location matches Some(l) ==> exists|j: int|
                pos < j < i && opens_at(ev@, j, "LOCATION"@) && location_read(attrs_of(ev@[j]), l),
            modification_info matches Some(m) ==> exists|j: int|
                pos < j < i && opens_at(ev@, j, "MODIFICATION_INFO"@) && lookup(attrs_of(ev@[j]), "AUTHOR_TYPE"@)
                    == Some(m.author_type@),
            info matches Some(f) ==> exists|j: int|
                pos < j < i && opens_at(ev@, j, "INFO"@) && lookup(attrs_of(ev@[j]), "IMPORT_DATE"@) == Some(
                    f.import_date@,
                ),
        decreases ev@.len() - i,
    {
        if i >= ev.len() {
            return Err(ParseFault::Structure);
        }
        if is_end(ev, i) {
            break;
        }
        let a = start_attrs(ev, i)?;
        if opens(ev, i, "LOCATION") {
            let l = location_from_attrs(a)?;
            assert(opens_at(ev@, i as int, "LOCATION"@) && location_read(attrs_of(ev@[i as int]), l));
            location = Some(l);
        } else if opens(ev, i, "ALBUM") {
            album = Some(parse_album(a)?);
        } else if opens(ev, i, "MODIFICATION_INFO") {
            let m = ModificationInfo { author_type: req_text(a, "AUTHOR_TYPE")? };
            assert(opens_at(ev@, i as int, "MODIFICATION_INFO"@));
            modification_info = Some(m);
        } else if opens(ev, i, "INFO") {
            let f = info_from_attrs(a)?;
            assert(opens_at(ev@, i as int, "INFO"@));
            info = Some(f);
        } else if opens(ev, i, "TEMPO") {
            tempo = Some(parse_tempo(a)?);
        } else if opens(ev, i, "LOUDNESS") {
            loudness = Some(loudness_from_attrs(a)?);
        } else if opens(ev, i, "MUSICAL_KEY") {
            musical_key = Some(MusicalKey { value: req_text(a, "VALUE")? });
        } else if opens(ev, i, "CUE_V2") {
            cues.push(cue_from_attrs(a)?);
        }
        i = skip_element(ev, i)?;
    }
    let entry = Entry {
        album,
        artist,
        audio_id,
        cue_v2: if cues.len() == 0 {
            None
        } else {
            Some(cues)
        },
        info: match info {
            Some(x) => x,
            None => return Err(ParseFault::Missing),
        },
        location: match location {
            Some(x) => x,
            None => return Err(ParseFault::Missing),
        },
        loudness,
        modification_info: match modification_info {
            Some(x) => x,
            None => return Err(ParseFault::Missing),
        },
        modified_date,
        modified_time,
        musical_key,
        tempo,
        title,
    };
    Ok((entry, i + 1))
}

/// A playlist line, from the element that opens at `pos`.
fn parse_playlist_entry(ev: &Vec<XmlEvent>, pos: usize) -> (r: Result<(PlayListEntry, usize), ParseFault>)
    requires
        pos < ev@.len(),
    ensures
        r matches Ok((_, n)) ==> pos < n <= ev@.len(),
{
    let mut key: Option<PrimaryKey> = None;
    let len = ev.len();
    let mut i: usize = pos + 1;
    loop
        invariant
            pos < i <= ev@.len(),
            len == ev@.len(),
        ensures
            pos < i < ev@.len(),
        decreases ev@.len() - i,
    {
        if i >= ev.len() {
            return Err(ParseFault::Structure);
        }
        if is_end(ev, i) {
            break;
        }
        if opens(ev, i, "PRIMARYKEY") {
            let a = start_attrs(ev, i)?;
            key = Some(PrimaryKey { primary_key_type: req_text(a, "TYPE")?, key: req_text(a, "KEY")? });
        }
        i = skip_element(ev, i)?;
    }
    match key {
        Some(primary_key) => Ok((PlayListEntry { primary_key }, i + 1)),
        None => Err(ParseFault::Missing),
    }
}

/// A playlist, from the element that opens at `pos`.
fn parse_playlist(ev: &Vec<XmlEvent>, pos: usize) -> (r: Result<(Playlist, usize), ParseFault>)
    requires
        pos < ev@.len(),
    ensures
        r matches Ok((_, n)) ==> pos < n <= ev@.len(),
{
    let attrs = start_attrs(ev, pos)?;
    let entries_count = req_int(attrs, "ENTRIES")?;
    let playlist_type = req_text(attrs, "TYPE")?;
    let uuid = req_text(attrs, "UUID")?;
    let mut entries: Vec<PlayListEntry> = Vec::new();
    let len = ev.len();
    let mut i: usize = pos + 1;
    loop
        invariant
            pos < i <= ev@.len(),
            len == ev@.len(),
        ensures
            pos < i < ev@.len(),
        decreases ev@.len() - i,
    {
        if i >= ev.len() {
            return Err(ParseFault::Structure);
        }
        if is_end(ev, i) {
            break;
        }
        if opens(ev, i, "ENTRY") {
            let (e, n) = parse_playlist_entry(ev, i)?;
            entries.push(e);
            i = n;
        } else {
            i = skip_element(ev, i)?;
        }
    }
    let entries = if entries.len() == 0 {
        None
    } else {
        Some(entries)
    };
    Ok((Playlist { entries, entries_count, playlist_type, uuid }, i + 1))
}

/// A node of the playlist tree, from the element that opens at `pos`.
fn parse_node(ev: &Vec<XmlEvent>, pos: usize) -> (r: Result<(Node, usize), ParseFault>)
    requires
        pos < ev@.len(),
    ensures
        r matches Ok((_, n)) ==> pos < n <= ev@.len(),
    decreases ev@.len() - pos,
{
    let attrs = start_attrs(ev, pos)?;
    let node_type = req_text(attrs, "TYPE")?;
    let name = req_text(attrs, "NAME")?;
    let mut playlist: Option<Playlist> = None;
    let mut subnodes: Option<SubNodes> = None;
    let len = ev.len();
    let mut i: usize = pos + 1;
    loop
        invariant
            pos < i <= ev@.len(),
            len == ev@.len(),
        ensures
            pos < i < ev@.len(),
        decreases ev@.len() - i,
    {
        if i >= ev.len() {
            return Err(ParseFault::Structure);
        }
        if is_end(ev, i) {
            break;
        }
        if opens(ev, i, "SUBNODES") {
            let (s, n) = parse_subnodes(ev, i)?;
            subnodes = Some(s);
            i = n;
        } else if opens(ev, i, "PLAYLIST") {
            let (p, n) = parse_playlist(ev, i)?;
            playlist = Some(p);
            i = n;
        } else {
            i = skip_element(ev, i)?;
        }
    }
    Ok((Node { name, node_type, playlist, subnodes }, i + 1))
}

/// The children of a folder node, from the element that opens at `pos`.
fn parse_subnodes(ev: &Vec<XmlEvent>, pos: usize) -> (r: Result<(SubNodes, usize), ParseFault>)
    requires
        pos < ev@.len(),
    ensures
        r matches Ok((_, n)) ==> pos < n <= ev@.len(),
    decreases ev@.len() - pos,
{
    let attrs = start_attrs(ev, pos)?;
    let count = req_int(attrs, "COUNT")?;
    let mut nodes: Vec<Node> = Vec::new();
    let len = ev.len();
    let mut i: usize = pos + 1;
    loop
        invariant
            pos < i <= ev@.len(),
            len == ev@.len(),
        ensures
            pos < i < ev@.len(),
        decreases ev@.len() - i,
    {
        if i >= ev.len() {
            return Err(ParseFault::Structure);
        }
        if is_end(ev, i) {
            break;
        }
        if opens(ev, i, "NODE") {
            let (node, n) = parse_node(ev, i)?;
            nodes.push(node);
            i = n;
        } else {
            i = skip_element(ev, i)?;
        }
    }
    Ok((SubNodes { count, nodes }, i + 1))
}

/// The nodes under the playlist root, from the element that opens at `pos`.
fn parse_playlists(ev: &Vec<XmlEvent>, pos: usize) -> (r: Result<(Playlists, usize), ParseFault>)
    requires
        pos < ev@.len(),
    ensures
        r matches Ok((_, n)) ==> pos < n <= ev@.len(),
{
    let mut nodes: Vec<Node> = Vec::new();
    let len = ev.len();
    let mut i: usize = pos + 1;
    loop
        invariant
            pos < i <= ev@.len(),
            len == ev@.len(),
        ensures
            pos < i < ev@.len(),
        decreases ev@.len() - i,
    {
        if i >= ev.len() {
            return Err(ParseFault::Structure);
        }
        if is_end(ev, i) {
            break;
        }
        if opens(ev, i, "NODE") {
            let (node, n) = parse_node(ev, i)?;
            nodes.push(node);
            i = n;
        } else {
            i = skip_element(ev, i)?;
        }
    }
    Ok((Playlists { nodes }, i + 1))
}

/// A sorting order, from the element that opens at `pos`.
fn parse_sorting_order(ev: &Vec<XmlEvent>, pos: usize) -> (r: Result<(SortingOrder, usize), ParseFault>)
    requires
        pos < ev@.len(),
    ensures
        r matches Ok((_, n)) ==> pos < n <= ev@.len(),
{
    let attrs = start_attrs(ev, pos)?;
    let path = req_text(attrs, "PATH")?;
    let mut sorting_data: Option<SortingData> = None;
    let len = ev.len();
    let mut i: usize = pos + 1;
    loop
        invariant
            pos < i <= ev@.len(),
            len == ev@.len(),
        ensures
            pos < i < ev@.len(),
        decreases ev@.len() - i,
    {
        if i >= ev.len() {
            return Err(ParseFault::Structure);
        }
        if is_end(ev, i) {
            break;
        }
        if opens(ev, i, "SORTING_DATA") {
            let a = start_attrs(ev, i)?;
            sorting_data = Some(SortingData { idx: req_text(a, "IDX")?, ord: req_text(a, "ORD")? });
        }
        i = skip_element(ev, i)?;
    }
    Ok((SortingOrder { path, sorting_data }, i + 1))
}

/// The track list, from the element that opens at `pos`.
fn parse_collection(ev: &Vec<XmlEvent>, pos: usize) -> (r: Result<(Collection, usize), ParseFault>)
    requires
        pos < ev@.len(),
    ensures
        r matches Ok((c, n)) ==> pos < n <= ev@.len() && req_int_spec(attrs_of(ev@[pos as int]), "ENTRIES"@)
            == Ok::<i64, ParseFault>(c.entries_count),
{
    let attrs = start_attrs(ev, pos)?;
    let entries_count = req_int(attrs, "ENTRIES")?;
    let mut entries: Vec<Entry> = Vec::new();
    let len = ev.len();
    let mut i: usize = pos + 1;
    loop
        invariant
            pos < i <= ev@.len(),
            len == ev@.len(),
        ensures
            pos < i < ev@.len(),
        decreases ev@.len() - i,
    {
        if i >= ev.len() {
            return Err(ParseFault::Structure);
        }
        if is_end(ev, i) {
            break;
        }
        if opens(ev, i, "ENTRY") {
            let (e, n) = parse_entry(ev, i)?;
            entries.push(e);
            i = n;
        } else {
            i = skip_element(ev, i)?;
        }
    }
    Ok((Collection { entries_count, entries }, i + 1))
}

/// A whole document, from its events; elements the model does not hold are skipped.
pub fn parse_nml(ev: &Vec<XmlEvent>) -> (r: Result<Nml, ParseFault>)
    ensures
        r matches Ok(n) ==> nml_read(ev@, n),
        !opens_at(ev@, 0, "NML"@) ==> r == Err::<Nml, ParseFault>(ParseFault::Structure),
{
    if ev.len() == 0 || !opens(ev, 0, "NML") {
        return Err(ParseFault::Structure);
    }
    let attrs = start_attrs(ev, 0)?;
    let version = req_int(attrs, "VERSION")?;
    let mut head: Option<Head> = None;
    let mut collection: Option<Collection> = None;
    let mut sets: Option<Sets> = None;
    let mut playlists: Option<Playlists> = None;
    let mut orders: Vec<SortingOrder> = Vec::new();
    let mut i: usize = 1;
    loop
        invariant
            0 < i <= ev@.len(),
            opens_at(ev@, 0, "NML"@),
            head matches Some(h) ==> exists|j: int|
                opens_at(ev@, j, "HEAD"@) && lookup(attrs_of(ev@[j]), "COMPANY"@) == Some(h.company@) && lookup(
                    attrs_of(ev@[j]),
                    "PROGRAM"@,
                ) == Some(h.program@),
            collection matches Some(c) ==> exists|j: int|
                opens_at(ev@, j, "COLLECTION"@) && req_int_spec(attrs_of(ev@[j]), "ENTRIES"@) == Ok::<
                    i64,
                    ParseFault,
                >(c.entries_count),
        ensures
            0 < i < ev@.len(),
            head matches Some(h) ==> exists|j: int|
                opens_at(ev@, j, "HEAD"@) && lookup(attrs_of(ev@[j]), "COMPANY"@) == Some(h.company@) && lookup(
                    attrs_of(ev@[j]),
                    "PROGRAM"@,
                ) == Some(h.program@),
            collection matches Some(c) ==> exists|j: int|
                opens_at(ev@, j, "COLLECTION"@) && req_int_spec(attrs_of(ev@[j]), "ENTRIES"@) == Ok::<
                    i64,
                    ParseFault,
                >(c.entries_count),
        decreases ev@.len() - i,
    {
        if i >= ev.len() {
            return Err(ParseFault::Structure);
        }
        if is_end(ev, i) {
            break;
        }
        if opens(ev, i, "HEAD") {
            let a = start_attrs(ev, i)?;
            let h = Head { company: req_text(a, "COMPANY")?, program: req_text(a, "PROGRAM")? };
            assert(opens_at(ev@, i as int, "HEAD"@));
            head = Some(h);
            i = skip_element(ev, i)?;
        } else if opens(ev, i, "COLLECTION") {
            let (c, n) = parse_collection(ev, i)?;
            assert(opens_at(ev@, i as int, "COLLECTION"@));
            collection = Some(c);
            i = n;
        } else if opens(ev, i, "SETS") {
            let a = start_attrs(ev, i)?;
            sets = Some(Sets { entries: req_int(a, "ENTRIES")? });
            i = skip_element(ev, i)?;
        } else if opens(ev, i, "PLAYLISTS") {
            let (p, n) = parse_playlists(ev, i)?;
            playlists = Some(p);
            i = n;
        } else if opens(ev, i, "SORTING_ORDER") {
            let (o, n) = parse_sorting_order(ev, i)?;
            orders.push(o);
            i = n;
        } else {
            i = skip_element(ev, i)?;
        }
    }
    let head = match head {
        Some(h) => h,
        None => return Err(ParseFault::Missing),
    };
    let collection = match collection {
        Some(c) => c,
        None => return Err(ParseFault::Missing),
    };
    let sorting_orders = if orders.len() == 0 {
        None
    } else {
        Some(orders)
    };
    Ok(Nml { head, collection, playlists, sets, sorting_orders, version })
}

impl ParseFault {
    pub fn message(&self) -> (r: &'static str) {
        match self {
            ParseFault::Syntax => "deserialization error: malformed XML",
            ParseFault::Structure => "deserialization error: unexpected element structure",
            ParseFault::Missing => "deserialization error: missing attribute or element",
            ParseFault::Number => "deserialization error: invalid number",
        }
    }
}

/// Reads a library document from its text. A success read the root, the
/// header and the track list with their required attributes.
pub fn deserialize_collection(text: &str) -> (r: Result<Nml, AppError>)
    ensures
        r matches Ok(n) ==> exists|ev: Seq<XmlEvent>| nml_read(ev, n),
{
    let parsed = match read_events(text) {
        Ok(ev) => parse_nml(&ev),
        Err(e) => Err(e),
    };
    match parsed {
        Ok(n) => Ok(n),
        Err(e) => Err(AppError::GenericError(String::from_str(e.message()))),
    }
}

proof fn lemma_lookup_concat(a: Attrs, b: Attrs, k: Seq<char>)
    ensures
        lookup(a + b, k) == match lookup(a, k) {
            Some(v) => Some(v),
            None => lookup(b, k),
        },
    decreases a.len(),
{
    if a.len() > 0 {
        assert((a + b).drop_first() == a.drop_first() + b);
        assert((a + b)[0] == a[0]);
        lemma_lookup_concat(a.drop_first(), b, k);
    } else {
        assert(a + b == b);
    }
}

proof fn lemma_lookup_kv(key: Seq<char>, v: Seq<char>, k: Seq<char>)
    ensures
        lookup(kv(key, v), k) == if key == k {
            Some(v)
        } else {
            None
        },
{
    let a = kv(key, v);
    assert(a[0] == (key, v));
    assert(a.drop_first() == Seq::<(Seq<char>, Seq<char>)>::empty());
    assert(lookup(Seq::<(Seq<char>, Seq<char>)>::empty(), k) == None::<Seq<char>>);
}

/// Looking up a name among three named values.
proof fn lemma_lookup_three(
    k1: Seq<char>,
    v1: Seq<char>,
    k2: Seq<char>,
    v2: Seq<char>,
    k3: Seq<char>,
    v3: Seq<char>,
    k: Seq<char>,
)
    ensures
        lookup(kv(k1, v1) + kv(k2, v2) + kv(k3, v3), k) == if k == k1 {
            Some(v1)
        } else if k == k2 {
            Some(v2)
        } else if k == k3 {
            Some(v3)
        } else {
            None
        },
{
    lemma_lookup_kv(k1, v1, k);
    lemma_lookup_kv(k2, v2, k);
    lemma_lookup_kv(k3, v3, k);
    lemma_lookup_concat(kv(k1, v1), kv(k2, v2), k);
    lemma_lookup_concat(kv(k1, v1) + kv(k2, v2), kv(k3, v3), k);
}

/// The attributes written for a location name each of its fields once: read
/// back, they give the same texts.
pub proof fn lemma_location_round_trip(l: Location)
    ensures
        lookup(location_attrs(l), "DIR"@) == Some(l.directory@),
        lookup(location_attrs(l), "FILE"@) == Some(l.file@),
        lookup(location_attrs(l), "VOLUME"@) == Some(l.volume@),
        lookup(location_attrs(l), "VOLUMEID"@) == Some(l.volume_id@),
{
    reveal_strlit("DIR");
    reveal_strlit("FILE");
    reveal_strlit("VOLUME");
    reveal_strlit("VOLUMEID");
    assert("DIR"@.len() == 3 && "FILE"@.len() == 4 && "VOLUME"@.len() == 6 && "VOLUMEID"@.len() == 8);
    assert("FILE"@ != "DIR"@ && "VOLUME"@ != "DIR"@ && "VOLUME"@ != "FILE"@);
    assert("VOLUMEID"@ != "DIR"@ && "VOLUMEID"@ != "FILE"@ && "VOLUMEID"@ != "VOLUME"@);
    let front = kv("DIR"@, l.directory@) + kv("FILE"@, l.file@) + kv("VOLUME"@, l.volume@);
    let last = kv("VOLUMEID"@, l.volume_id@);
    lemma_lookup_three("DIR"@, l.directory@, "FILE"@, l.file@, "VOLUME"@, l.volume@, "DIR"@);
    lemma_lookup_three("DIR"@, l.directory@, "FILE"@, l.file@, "VOLUME"@, l.volume@, "FILE"@);
    lemma_lookup_three("DIR"@, l.directory@, "FILE"@, l.file@, "VOLUME"@, l.volume@, "VOLUME"@);
    lemma_lookup_three("DIR"@, l.directory@, "FILE"@, l.file@, "VOLUME"@, l.volume@, "VOLUMEID"@);
    lemma_lookup_kv("VOLUMEID"@, l.volume_id@, "VOLUMEID"@);
    lemma_lookup_concat(front, last, "DIR"@);
    lemma_lookup_concat(front, last, "FILE"@);
    lemma_lookup_concat(front, last, "VOLUME"@);
    lemma_lookup_concat(front, last, "VOLUMEID"@);
}

/// The attributes written for a loudness record read back as its values,
/// an absent value coming back as zero.
pub proof fn lemma_loudness_round_trip(l: Loudness)
    ensures
        opt_db_spec(loudness_attrs(l), "PEAK_DB"@) == Ok::<Option<i64>, ParseFault>(Some(or_zero(l.peak_db) as i64)),
        opt_db_spec(loudness_attrs(l), "PERCEIVED_DB"@) == Ok::<Option<i64>, ParseFault>(
            Some(or_zero(l.perceived_db) as i64),
        ),
        opt_db_spec(loudness_attrs(l), "ANALYZED_DB"@) == Ok::<Option<i64>, ParseFault>(
            Some(or_zero(l.analyzed_db) as i64),
        ),
{
    reveal_strlit("PEAK_DB");
    reveal_strlit("PERCEIVED_DB");
    reveal_strlit("ANALYZED_DB");
    assert("PEAK_DB"@.len() == 7 && "PERCEIVED_DB"@.len() == 12 && "ANALYZED_DB"@.len() == 11);
    assert("PERCEIVED_DB"@ != "PEAK_DB"@ && "ANALYZED_DB"@ != "PEAK_DB"@ && "ANALYZED_DB"@ != "PERCEIVED_DB"@);
    let p = or_zero(l.peak_db) as i64;
    let q = or_zero(l.perceived_db) as i64;
    let r = or_zero(l.analyzed_db) as i64;
    lemma_db_round_trip(p);
    lemma_db_round_trip(q);
    lemma_db_round_trip(r);
    let tp = crate::xml::db_text(p as int);
    let tq = crate::xml::db_text(q as int);
    let tr = crate::xml::db_text(r as int);
    lemma_lookup_three("PEAK_DB"@, tp, "PERCEIVED_DB"@, tq, "ANALYZED_DB"@, tr, "PEAK_DB"@);
    lemma_lookup_three("PEAK_DB"@, tp, "PERCEIVED_DB"@, tq, "ANALYZED_DB"@, tr, "PERCEIVED_DB"@);
    lemma_lookup_three("PEAK_DB"@, tp, "PERCEIVED_DB"@, tq, "ANALYZED_DB"@, tr, "ANALYZED_DB"@);
}

proof fn lemma_cue_key(c: CueV2, k: Seq<char>)
    ensures
        lookup(cue_attrs(c), k) == if k == "NAME"@ {
            Some(c.name@)
        } else if k == "DISPL_ORDER"@ {
            Some(crate::xml::int_text(c.display_order as int))
        } else if k == "TYPE"@ {
            Some(crate::xml::int_text(c.cue_type as int))
        } else if k == "START"@ {
            Some(c.start@)
        } else if k == "LEN"@ {
            Some(c.length@)
        } else if k == "REPEATS"@ {
            Some(crate::xml::int_text(c.repeats as int))
        } else if k == "HOTCUE"@ {
            Some(crate::xml::int_text(c.hotcue as int))
        } else {
            None
        },
{
    let a1 = kv("NAME"@, c.name@);
    let a2 = kv("DISPL_ORDER"@, crate::xml::int_text(c.display_order as int));
    let a3 = kv("TYPE"@, crate::xml::int_text(c.cue_type as int));
    let a4 = kv("START"@, c.start@);
    let a5 = kv("LEN"@, c.length@);
    let a6 = kv("REPEATS"@, crate::xml::int_text(c.repeats as int));
    let a7 = kv("HOTCUE"@, crate::xml::int_text(c.hotcue as int));
    lemma_lookup_three("NAME"@, c.name@, "DISPL_ORDER"@, crate::xml::int_text(c.display_order as int), "TYPE"@,
        crate::xml::int_text(c.cue_type as int), k);
    lemma_lookup_kv("START"@, c.start@, k);
    lemma_lookup_kv("LEN"@, c.length@, k);
    lemma_lookup_kv("REPEATS"@, crate::xml::int_text(c.repeats as int), k);
    lemma_lookup_kv("HOTCUE"@, crate::xml::int_text(c.hotcue as int), k);
    lemma_lookup_concat(a1 + a2 + a3, a4, k);
    lemma_lookup_concat(a1 + a2 + a3 + a4, a5, k);
    lemma_lookup_concat(a1 + a2 + a3 + a4 + a5, a6, k);
    lemma_lookup_concat(a1 + a2 + a3 + a4 + a5 + a6, a7, k);
}

/// The attributes written for a cue point read back as its fields.
pub proof fn lemma_cue_round_trip(c: CueV2)
    ensures
        lookup(cue_attrs(c), "NAME"@) == Some(c.name@),
        req_int_spec(cue_attrs(c), "DISPL_ORDER"@) == Ok::<i64, ParseFault>(c.display_order),
        req_int_spec(cue_attrs(c), "TYPE"@) == Ok::<i64, ParseFault>(c.cue_type),
        lookup(cue_attrs(c), "START"@) == Some(c.start@),
        lookup(cue_attrs(c), "LEN"@) == Some(c.length@),
        req_int_spec(cue_attrs(c), "REPEATS"@) == Ok::<i64, ParseFault>(c.repeats),
        req_int_spec(cue_attrs(c), "HOTCUE"@) == Ok::<i64, ParseFault>(c.hotcue),
{
    reveal_strlit("NAME");
    reveal_strlit("DISPL_ORDER");
    reveal_strlit("TYPE");
    reveal_strlit("START");
    reveal_strlit("LEN");
    reveal_strlit("REPEATS");
    reveal_strlit("HOTCUE");
    assert("NAME"@[0] == 'N' && "TYPE"@[0] == 'T' && "NAME"@.len() == 4 && "TYPE"@.len() == 4);
    assert("DISPL_ORDER"@.len() == 11 && "START"@.len() == 5 && "LEN"@.len() == 3);
    assert("REPEATS"@.len() == 7 && "HOTCUE"@.len() == 6);
    assert("NAME"@ != "TYPE"@);
    lemma_int_round_trip(c.display_order);
    lemma_int_round_trip(c.cue_type);
    lemma_int_round_trip(c.repeats);
    lemma_int_round_trip(c.hotcue);
    lemma_cue_key(c, "NAME"@);
    lemma_cue_key(c, "DISPL_ORDER"@);
    lemma_cue_key(c, "TYPE"@);
    lemma_cue_key(c, "START"@);
    lemma_cue_key(c, "LEN"@);
    lemma_cue_key(c, "REPEATS"@);
    lemma_cue_key(c, "HOTCUE"@);
}

proof fn lemma_lookup_opt_text(key: Seq<char>, v: Option<String>, k: Seq<char>)
    ensures
        lookup(opt_text(key, v), k) == if key == k {
            text_of(v)
        } else {
            None
        },
{
    match v {
        Some(s) => lemma_lookup_kv(key, s@, k),
        None => {},
    }
}

proof fn lemma_lookup_opt_int(key: Seq<char>, v: Option<i64>, k: Seq<char>)
    ensures
        key == k ==> opt_int_spec(opt_int_attr(key, v), k) == Ok::<Option<i64>, ParseFault>(v),
        key != k ==> lookup(opt_int_attr(key, v), k) is None,
{
    match v {
        Some(n) => {
            lemma_lookup_kv(key, crate::xml::int_text(n as int), k);
            lemma_int_round_trip(n);
        },
        None => {},
    }
}

/// The attributes written on a track record's own element read back as its
/// fields: with `parse_entry`, which reads exactly these, a written record
/// keeps its date, time, fingerprint, title and artist.
pub proof fn lemma_entry_attrs_round_trip(e: Entry)
    ensures
        lookup(entry_attrs(e), "MODIFIED_DATE"@) == text_of(e.modified_date),
        opt_int_spec(entry_attrs(e), "MODIFIED_TIME"@) == Ok::<Option<i64>, ParseFault>(e.modified_time),
        lookup(entry_attrs(e), "AUDIO_ID"@) == text_of(e.audio_id),
        lookup(entry_attrs(e), "TITLE"@) == text_of(e.title),
        lookup(entry_attrs(e), "ARTIST"@) == text_of(e.artist),
{
    reveal_strlit("MODIFIED_DATE");
    reveal_strlit("MODIFIED_TIME");
    reveal_strlit("AUDIO_ID");
    reveal_strlit("TITLE");
    reveal_strlit("ARTIST");
    assert("MODIFIED_DATE"@.len() == 13 && "MODIFIED_TIME"@.len() == 13 && "AUDIO_ID"@.len() == 8);
    assert("TITLE"@.len() == 5 && "ARTIST"@.len() == 6);
    assert("MODIFIED_DATE"@[9] == 'D' && "MODIFIED_TIME"@[9] == 'T');
    assert("MODIFIED_DATE"@ != "MODIFIED_TIME"@);
    let a1 = opt_text("MODIFIED_DATE"@, e.modified_date);
    let a2 = opt_int_attr("MODIFIED_TIME"@, e.modified_time);
    let a3 = opt_text("AUDIO_ID"@, e.audio_id);
    let a4 = opt_text("TITLE"@, e.title);
    let a5 = opt_text("ARTIST"@, e.artist);
    assert(entry_attrs(e) == a1 + a2 + a3 + a4 + a5);
    let keys = seq!["MODIFIED_DATE"@, "MODIFIED_TIME"@, "AUDIO_ID"@, "TITLE"@, "ARTIST"@];
    assert forall|i: int| 0 <= i < 5 implies ({
        let k = #[trigger] keys[i];
        &&& lookup(a1 + a2 + a3 + a4 + a5, k) == match lookup(a1, k) {
            Some(v) => Some(v),
            None => match lookup(a2, k) {
                Some(v) => Some(v),
                None => match lookup(a3, k) {
                    Some(v) => Some(v),
                    None => match lookup(a4, k) {
                        Some(v) => Some(v),
                        None => lookup(a5, k),
                    },
                },
            },
        }
        &&& lookup(a1, k) == if k == "MODIFIED_DATE"@ { text_of(e.modified_date) } else { None }
        &&& (k != "MODIFIED_TIME"@ ==> lookup(a2, k) is None)
        &&& lookup(a3, k) == if k == "AUDIO_ID"@ { text_of(e.audio_id) } else { None }
        &&& lookup(a4, k) == if k == "TITLE"@ { text_of(e.title) } else { None }
        &&& lookup(a5, k) == if k == "ARTIST"@ { text_of(e.artist) } else { None }
    }) by {
        let k = keys[i];
        lemma_lookup_opt_text("MODIFIED_DATE"@, e.modified_date, k);
        lemma_lookup_opt_int("MODIFIED_TIME"@, e.modified_time, k);
        lemma_lookup_opt_text("AUDIO_ID"@, e.audio_id, k);
        lemma_lookup_opt_text("TITLE"@, e.title, k);
        lemma_lookup_opt_text("ARTIST"@, e.artist, k);
        lemma_lookup_concat(a1, a2, k);
        lemma_lookup_concat(a1 + a2, a3, k);
        lemma_lookup_concat(a1 + a2 + a3, a4, k);
        lemma_lookup_concat(a1 + a2 + a3 + a4, a5, k);
    }
    assert(keys[0] == "MODIFIED_DATE"@);
    assert(keys[1] == "MODIFIED_TIME"@);
    assert(keys[2] == "AUDIO_ID"@);
    assert(keys[3] == "TITLE"@);
    assert(keys[4] == "ARTIST"@);
    lemma_lookup_opt_int("MODIFIED_TIME"@, e.modified_time, "MODIFIED_TIME"@);
    // the time attribute sits behind the date: only the date can shadow it
    lemma_lookup_concat(a1, a2, "MODIFIED_TIME"@);
    lemma_lookup_concat(a1 + a2, a3, "MODIFIED_TIME"@);
    lemma_lookup_concat(a1 + a2 + a3, a4, "MODIFIED_TIME"@);
    lemma_lookup_concat(a1 + a2 + a3 + a4, a5, "MODIFIED_TIME"@);
    lemma_lookup_opt_text("MODIFIED_DATE"@, e.modified_date, "MODIFIED_TIME"@);
    lemma_lookup_opt_text("AUDIO_ID"@, e.audio_id, "MODIFIED_TIME"@);
    lemma_lookup_opt_text("TITLE"@, e.title, "MODIFIED_TIME"@);
    lemma_lookup_opt_text("ARTIST"@, e.artist, "MODIFIED_TIME"@);
}

/// Looking up one of the metadata names in the attributes written for it:
/// the one part that carries the name answers.
proof fn lemma_info_key(i: Info, k: Seq<char>)
    ensures
        k == "BITRATE"@ ==> lookup(info_attrs(i), k) == lookup(opt_int_attr("BITRATE"@, i.bitrate), k),
        k == "GENRE"@ ==> lookup(info_attrs(i), k) == lookup(opt_text("GENRE"@, i.genre), k),
        k == "LABEL"@ ==> lookup(info_attrs(i), k) == lookup(opt_text("LABEL"@, i.label), k),
        k == "COVERARTID"@ ==> lookup(info_attrs(i), k) == lookup(opt_text("COVERARTID"@, i.cover_art_id), k),
        k == "KEY"@ ==> lookup(info_attrs(i), k) == lookup(opt_text("KEY"@, i.key), k),
        k == "PLAYCOUNT"@ ==> lookup(info_attrs(i), k) == lookup(opt_int_attr("PLAYCOUNT"@, i.play_count), k),
        k == "PLAYTIME"@ ==> lookup(info_attrs(i), k) == lookup(opt_text("PLAYTIME"@, i.play_time), k),
        k == "PLAYTIME_FLOAT"@ ==> lookup(info_attrs(i), k) == lookup(opt_text("PLAYTIME_FLOAT"@, i.play_time_float), k),
        k == "IMPORT_DATE"@ ==> lookup(info_attrs(i), k) == lookup(kv("IMPORT_DATE"@, i.import_date@), k),
        k == "LAST_PLAYED"@ ==> lookup(info_attrs(i), k) == lookup(opt_text("LAST_PLAYED"@, i.last_played), k),
        k == "RELEASE_DATE"@ ==> lookup(info_attrs(i), k) == lookup(opt_text("RELEASE_DATE"@, i.release_date), k),
        k == "RANKING"@ ==> lookup(info_attrs(i), k) == lookup(opt_text("RANKING"@, i.ranking), k),
        k == "RATING"@ ==> lookup(info_attrs(i), k) == lookup(opt_text("RATING"@, i.rating), k),
        k == "COMMENT"@ ==> lookup(info_attrs(i), k) == lookup(opt_text("COMMENT"@, i.comment), k),
        k == "FLAGS"@ ==> lookup(info_attrs(i), k) == lookup(opt_int_attr("FLAGS"@, i.flags), k),
        k == "FILESIZE"@ ==> lookup(info_attrs(i), k) == lookup(opt_int_attr("FILESIZE"@, i.file_size), k),
{
    reveal_strlit("BITRATE");
    reveal_strlit("GENRE");
    reveal_strlit("LABEL");
    reveal_strlit("COVERARTID");
    reveal_strlit("KEY");
    reveal_strlit("PLAYCOUNT");
    reveal_strlit("PLAYTIME");
    reveal_strlit("PLAYTIME_FLOAT");
    reveal_strlit("IMPORT_DATE");
    reveal_strlit("LAST_PLAYED");
    reveal_strlit("RELEASE_DATE");
    reveal_strlit("RANKING");
    reveal_strlit("RATING");
    reveal_strlit("COMMENT");
    reveal_strlit("FLAGS");
    reveal_strlit("FILESIZE");
    // names of one length differ in their first character
    assert("BITRATE"@[0] == 'B' && "RANKING"@[0] == 'R' && "COMMENT"@[0] == 'C');
    assert("GENRE"@[0] == 'G' && "LABEL"@[0] == 'L' && "FLAGS"@[0] == 'F');
    assert("PLAYTIME"@[0] == 'P' && "FILESIZE"@[0] == 'F');
    assert("IMPORT_DATE"@[0] == 'I' && "LAST_PLAYED"@[0] == 'L');
    assert("BITRATE"@.len() == 7);
    assert("GENRE"@.len() == 5);
    assert("LABEL"@.len() == 5);
    assert("COVERARTID"@.len() == 10);
    assert("KEY"@.len() == 3);
    assert("PLAYCOUNT"@.len() == 9);
    assert("PLAYTIME"@.len() == 8);
    assert("PLAYTIME_FLOAT"@.len() == 14);
    assert("IMPORT_DATE"@.len() == 11);
    assert("LAST_PLAYED"@.len() == 11);
    assert("RELEASE_DATE"@.len() == 12);
    assert("RANKING"@.len() == 7);
    assert("RATING"@.len() == 6);
    assert("COMMENT"@.len() == 7);
    assert("FLAGS"@.len() == 5);
    assert("FILESIZE"@.len() == 8);
    let a0 = opt_int_attr("BITRATE"@, i.bitrate);
    let a1 = opt_text("GENRE"@, i.genre);
    let a2 = opt_text("LABEL"@, i.label);
    let a3 = opt_text("COVERARTID"@, i.cover_art_id);
    let a4 = opt_text("KEY"@, i.key);
    let a5 = opt_int_attr("PLAYCOUNT"@, i.play_count);
    let a6 = opt_text("PLAYTIME"@, i.play_time);
    let a7 = opt_text("PLAYTIME_FLOAT"@, i.play_time_float);
    let a8 = kv("IMPORT_DATE"@, i.import_date@);
    let a9 = opt_text("LAST_PLAYED"@, i.last_played);
    let a10 = opt_text("RELEASE_DATE"@, i.release_date);
    let a11 = opt_text("RANKING"@, i.ranking);
    let a12 = opt_text("RATING"@, i.rating);
    let a13 = opt_text("COMMENT"@, i.comment);
    let a14 = opt_int_attr("FLAGS"@, i.flags);
    let a15 = opt_int_attr("FILESIZE"@, i.file_size);
    lemma_lookup_opt_int("BITRATE"@, i.bitrate, k);
    lemma_lookup_opt_text("GENRE"@, i.genre, k);
    lemma_lookup_opt_text("LABEL"@, i.label, k);
    lemma_lookup_opt_text("COVERARTID"@, i.cover_art_id, k);
    lemma_lookup_opt_text("KEY"@, i.key, k);
    lemma_lookup_opt_int("PLAYCOUNT"@, i.play_count, k);
    lemma_lookup_opt_text("PLAYTIME"@, i.play_time, k);
    lemma_lookup_opt_text("PLAYTIME_FLOAT"@, i.play_time_float, k);
    lemma_lookup_kv("IMPORT_DATE"@, i.import_date@, k);
    lemma_lookup_opt_text("LAST_PLAYED"@, i.last_played, k);
    lemma_lookup_opt_text("RELEASE_DATE"@, i.release_date, k);
    lemma_lookup_opt_text("RANKING"@, i.ranking, k);
    lemma_lookup_opt_text("RATING"@, i.rating, k);
    lemma_lookup_opt_text("COMMENT"@, i.comment, k);
    lemma_lookup_opt_int("FLAGS"@, i.flags, k);
    lemma_lookup_opt_int("FILESIZE"@, i.file_size, k);
    let p0 = a0;
    lemma_lookup_concat(p0, a1, k);
    let p1 = p0 + a1;
    lemma_lookup_concat(p1, a2, k);
    let p2 = p1 + a2;
    lemma_lookup_concat(p2, a3, k);
    let p3 = p2 + a3;
    lemma_lookup_concat(p3, a4, k);
    let p4 = p3 + a4;
    lemma_lookup_concat(p4, a5, k);
    let p5 = p4 + a5;
    lemma_lookup_concat(p5, a6, k);
    let p6 = p5 + a6;
    lemma_lookup_concat(p6, a7, k);
    let p7 = p6 + a7;
    lemma_lookup_concat(p7, a8, k);
    let p8 = p7 + a8;
    lemma_lookup_concat(p8, a9, k);
    let p9 = p8 + a9;
    lemma_lookup_concat(p9, a10, k);
    let p10 = p9 + a10;
    lemma_lookup_concat(p10, a11, k);
    let p11 = p10 + a11;
    lemma_lookup_concat(p11, a12, k);
    let p12 = p11 + a12;
    lemma_lookup_concat(p12, a13, k);
    let p13 = p12 + a13;
    lemma_lookup_concat(p13, a14, k);
    let p14 = p13 + a14;
    lemma_lookup_concat(p14, a15, k);
    let p15 = p14 + a15;
    assert(info_attrs(i) == p15);
}

/// The attributes written for a track's descriptive metadata read back as
/// its fields, numbers included.
pub proof fn lemma_info_round_trip(i: Info)
    ensures
        opt_int_spec(info_attrs(i), "BITRATE"@) == Ok::<Option<i64>, ParseFault>(i.bitrate),
        lookup(info_attrs(i), "GENRE"@) == text_of(i.genre),
        lookup(info_attrs(i), "LABEL"@) == text_of(i.label),
        lookup(info_attrs(i), "COVERARTID"@) == text_of(i.cover_art_id),
        lookup(info_attrs(i), "KEY"@) == text_of(i.key),
        opt_int_spec(info_attrs(i), "PLAYCOUNT"@) == Ok::<Option<i64>, ParseFault>(i.play_count),
        lookup(info_attrs(i), "PLAYTIME"@) == text_of(i.play_time),
        lookup(info_attrs(i), "PLAYTIME_FLOAT"@) == text_of(i.play_time_float),
        lookup(info_attrs(i), "IMPORT_DATE"@) == Some(i.import_date@),
        lookup(info_attrs(i), "LAST_PLAYED"@) == text_of(i.last_played),
        lookup(info_attrs(i), "RELEASE_DATE"@) == text_of(i.release_date),
        lookup(info_attrs(i), "RANKING"@) == text_of(i.ranking),
        lookup(info_attrs(i), "RATING"@) == text_of(i.rating),
        lookup(info_attrs(i), "COMMENT"@) == text_of(i.comment),
        opt_int_spec(info_attrs(i), "FLAGS"@) == Ok::<Option<i64>, ParseFault>(i.flags),
        opt_int_spec(info_attrs(i), "FILESIZE"@) == Ok::<Option<i64>, ParseFault>(i.file_size),
{
    lemma_info_key(i, "BITRATE"@);
    lemma_lookup_opt_int("BITRATE"@, i.bitrate, "BITRATE"@);
    lemma_info_key(i, "GENRE"@);
    lemma_lookup_opt_text("GENRE"@, i.genre, "GENRE"@);
    lemma_info_key(i, "LABEL"@);
    lemma_lookup_opt_text("LABEL"@, i.label, "LABEL"@);
    lemma_info_key(i, "COVERARTID"@);
    lemma_lookup_opt_text("COVERARTID"@, i.cover_art_id, "COVERARTID"@);
    lemma_info_key(i, "KEY"@);
    lemma_lookup_opt_text("KEY"@, i.key, "KEY"@);
    lemma_info_key(i, "PLAYCOUNT"@);
    lemma_lookup_opt_int("PLAYCOUNT"@, i.play_count, "PLAYCOUNT"@);
    lemma_info_key(i, "PLAYTIME"@);
    lemma_lookup_opt_text("PLAYTIME"@, i.play_time, "PLAYTIME"@);
    lemma_info_key(i, "PLAYTIME_FLOAT"@);
    lemma_lookup_opt_text("PLAYTIME_FLOAT"@, i.play_time_float, "PLAYTIME_FLOAT"@);
    lemma_info_key(i, "IMPORT_DATE"@);
    lemma_lookup_kv("IMPORT_DATE"@, i.import_date@, "IMPORT_DATE"@);
    lemma_info_key(i, "LAST_PLAYED"@);
    lemma_lookup_opt_text("LAST_PLAYED"@, i.last_played, "LAST_PLAYED"@);
    lemma_info_key(i, "RELEASE_DATE"@);
    lemma_lookup_opt_text("RELEASE_DATE"@, i.release_date, "RELEASE_DATE"@);
    lemma_info_key(i, "RANKING"@);
    lemma_lookup_opt_text("RANKING"@, i.ranking, "RANKING"@);
    lemma_info_key(i, "RATING"@);
    lemma_lookup_opt_text("RATING"@, i.rating, "RATING"@);
    lemma_info_key(i, "COMMENT"@);
    lemma_lookup_opt_text("COMMENT"@, i.comment, "COMMENT"@);
    lemma_info_key(i, "FLAGS"@);
    lemma_lookup_opt_int("FLAGS"@, i.flags, "FLAGS"@);
    lemma_info_key(i, "FILESIZE"@);
    lemma_lookup_opt_int("FILESIZE"@, i.file_size, "FILESIZE"@);
}

} // verus!
