//! Writing a library document: the model projected to XML events in a
//! fixed element and attribute order, then rendered as text.
use vstd::prelude::*;

use crate::models::{
    Album, CueV2, Entry, Info, Location, Loudness, MusicalKey, Node, Nml, PlayListEntry, Playlist,
    SortingOrder, Tempo,
};
use crate::error::AppError;
use crate::xml::{attrs_view, db_text, db_to_text, events_view, int_text, int_to_text, EventView, XmlAttr, XmlEvent};

verus! {

pub type Attrs = Seq<(Seq<char>, Seq<char>)>;

pub open spec fn kv(k: Seq<char>, v: Seq<char>) -> Attrs {
    seq![(k, v)]
}

/// An attribute that is written only when its value is present.
pub open spec fn opt_text(k: Seq<char>, v: Option<String>) -> Attrs {
    match v {
        Some(s) => kv(k, s@),
        None => Seq::empty(),
    }
}

pub open spec fn opt_int(k: Seq<char>, v: Option<i64>) -> Attrs {
    match v {
        Some(n) => kv(k, int_text(n as int)),
        None => Seq::empty(),
    }
}

pub open spec fn start(name: Seq<char>, a: Attrs) -> Seq<EventView> {
    seq![EventView::Start(name, a)]
}

pub open spec fn end(name: Seq<char>) -> Seq<EventView> {
    seq![EventView::End(name)]
}

/// An element without children.
pub open spec fn elem(name: Seq<char>, a: Attrs) -> Seq<EventView> {
    start(name, a) + end(name)
}

pub open spec fn entry_attrs(e: Entry) -> Attrs {
    opt_text("MODIFIED_DATE"@, e.modified_date) + opt_int("MODIFIED_TIME"@, e.modified_time) + opt_text(
        "AUDIO_ID"@,
        e.audio_id,
    ) + opt_text("TITLE"@, e.title) + opt_text("ARTIST"@, e.artist)
}

pub open spec fn location_attrs(l: Location) -> Attrs {
    kv("DIR"@, l.directory@) + kv("FILE"@, l.file@) + kv("VOLUME"@, l.volume@) + kv("VOLUMEID"@, l.volume_id@)
}

pub open spec fn album_events(a: Option<Album>) -> Seq<EventView> {
    match a {
        Some(a) => elem("ALBUM"@, opt_int("TRACK"@, a.track) + opt_text("TITLE"@, a.title)),
        None => Seq::empty(),
    }
}

pub open spec fn info_attrs(i: Info) -> Attrs {
    opt_int("BITRATE"@, i.bitrate) + opt_text("GENRE"@, i.genre) + opt_text("LABEL"@, i.label) + opt_text(
        "COVERARTID"@,
        i.cover_art_id,
    ) + opt_text("KEY"@, i.key) + opt_int("PLAYCOUNT"@, i.play_count) + opt_text("PLAYTIME"@, i.play_time)
        + opt_text("PLAYTIME_FLOAT"@, i.play_time_float) + kv("IMPORT_DATE"@, i.import_date@) + opt_text(
        "LAST_PLAYED"@,
        i.last_played,
    ) + opt_text("RELEASE_DATE"@, i.release_date) + opt_text("RANKING"@, i.ranking) + opt_text(
        "RATING"@,
        i.rating,
    ) + opt_text("COMMENT"@, i.comment) + opt_int("FLAGS"@, i.flags) + opt_int("FILESIZE"@, i.file_size)
}

pub open spec fn or_zero(v: Option<i64>) -> int {
    match v {
        Some(n) => n as int,
        None => 0,
    }
}

pub open spec fn loudness_attrs(l: Loudness) -> Attrs {
    kv("PEAK_DB"@, db_text(or_zero(l.peak_db))) + kv("PERCEIVED_DB"@, db_text(or_zero(l.perceived_db))) + kv(
        "ANALYZED_DB"@,
        db_text(or_zero(l.analyzed_db)),
    )
}

pub open spec fn cue_attrs(c: CueV2) -> Attrs {
    kv("NAME"@, c.name@) + kv("DISPL_ORDER"@, int_text(c.display_order as int)) + kv(
        "TYPE"@,
        int_text(c.cue_type as int),
    ) + kv("START"@, c.start@) + kv("LEN"@, c.length@) + kv("REPEATS"@, int_text(c.repeats as int)) + kv(
        "HOTCUE"@,
        int_text(c.hotcue as int),
    )
}

pub open spec fn cue_events(c: CueV2) -> Seq<EventView> {
    elem("CUE_V2"@, cue_attrs(c))
}

pub open spec fn cues_events(s: Seq<CueV2>) -> Seq<EventView>
    decreases s.len(),
{
    if s.len() == 0 {
        Seq::empty()
    } else {
        cues_events(s.drop_last()) + cue_events(s.last())
    }
}

pub open spec fn tempo_events(t: Option<Tempo>) -> Seq<EventView> {
    match t {
        Some(t) => elem("TEMPO"@, opt_text("BPM"@, t.bpm) + kv("BPM_QUALITY"@, t.bpm_quality@)),
        None => Seq::empty(),
    }
}

pub open spec fn loudness_events(l: Option<Loudness>) -> Seq<EventView> {
    match l {
        Some(l) => elem("LOUDNESS"@, loudness_attrs(l)),
        None => Seq::empty(),
    }
}

pub open spec fn musical_key_events(k: Option<MusicalKey>) -> Seq<EventView> {
    match k {
        Some(k) => elem("MUSICAL_KEY"@, kv("VALUE"@, k.value@)),
        None => Seq::empty(),
    }
}

pub open spec fn opt_cues_events(c: Option<Vec<CueV2>>) -> Seq<EventView> {
    match c {
        Some(c) => cues_events(c@),
        None => Seq::empty(),
    }
}

/// The events of one track record, in the fixed element and attribute order.
pub open spec fn entry_events(e: Entry) -> Seq<EventView> {
    start("ENTRY"@, entry_attrs(e)) + elem("LOCATION"@, location_attrs(e.location)) + album_events(e.album)
        + elem("MODIFICATION_INFO"@, kv("AUTHOR_TYPE"@, e.modification_info.author_type@)) + elem(
        "INFO"@,
        info_attrs(e.info),
    ) + tempo_events(e.tempo) + loudness_events(e.loudness) + musical_key_events(e.musical_key)
        + opt_cues_events(e.cue_v2) + end("ENTRY"@)
}

pub open spec fn entries_events(s: Seq<Entry>) -> Seq<EventView>
    decreases s.len(),
{
    if s.len() == 0 {
        Seq::empty()
    } else {
        entries_events(s.drop_last()) + entry_events(s.last())
    }
}

pub open spec fn playlist_entry_events(p: PlayListEntry) -> Seq<EventView> {
    start("ENTRY"@, Seq::empty()) + elem(
        "PRIMARYKEY"@,
        kv("TYPE"@, p.primary_key.primary_key_type@) + kv("KEY"@, p.primary_key.key@),
    ) + end("ENTRY"@)
}

pub open spec fn playlist_entries_events(s: Seq<PlayListEntry>) -> Seq<EventView>
    decreases s.len(),
{
    if s.len() == 0 {
        Seq::empty()
    } else {
        playlist_entries_events(s.drop_last()) + playlist_entry_events(s.last())
    }
}

pub open spec fn playlist_events(p: Playlist) -> Seq<EventView> {
    start(
        "PLAYLIST"@,
        kv("ENTRIES"@, int_text(p.entries_count as int)) + kv("TYPE"@, p.playlist_type@) + kv("UUID"@, p.uuid@),
    ) + match p.entries {
        Some(s) => playlist_entries_events(s@),
        None => Seq::empty(),
    } + end("PLAYLIST"@)
}

/// The events of a node of the playlist tree, sub-nodes first.
pub open spec fn node_events(n: Node) -> Seq<EventView>
    decreases n,
{
    start("NODE"@, kv("TYPE"@, n.node_type@) + kv("NAME"@, n.name@)) + match n.subnodes {
        Some(sub) => start("SUBNODES"@, kv("COUNT"@, int_text(sub.count as int))) + nodes_events(sub.nodes@)
            + end("SUBNODES"@),
        None => Seq::empty(),
    } + match n.playlist {
        Some(p) => playlist_events(p),
        None => Seq::empty(),
    } + end("NODE"@)
}

pub open spec fn nodes_events(s: Seq<Node>) -> Seq<EventView>
    decreases s,
{
    if s.len() == 0 {
        Seq::empty()
    } else {
        nodes_events(s.drop_last()) + node_events(s.last())
    }
}

pub open spec fn sorting_order_events(o: SortingOrder) -> Seq<EventView> {
    start("SORTING_ORDER"@, kv("PATH"@, o.path@)) + match o.sorting_data {
        Some(d) => elem("SORTING_DATA"@, kv("IDX"@, d.idx@) + kv("ORD"@, d.ord@)),
        None => Seq::empty(),
    } + end("SORTING_ORDER"@)
}

pub open spec fn sorting_orders_events(s: Seq<SortingOrder>) -> Seq<EventView>
    decreases s.len(),
{
    if s.len() == 0 {
        Seq::empty()
    } else {
        sorting_orders_events(s.drop_last()) + sorting_order_events(s.last())
    }
}

/// The events of a whole document: every element of the model, each with
/// its attributes in a fixed order and absent values left out.
pub open spec fn nml_events(n: Nml) -> Seq<EventView> {
    start("NML"@, kv("VERSION"@, int_text(n.version as int))) + elem(
        "HEAD"@,
        kv("COMPANY"@, n.head.company@) + kv("PROGRAM"@, n.head.program@),
    ) + elem("MUSICFOLDERS"@, Seq::empty()) + start(
        "COLLECTION"@,
        kv("ENTRIES"@, int_text(n.collection.entries_count as int)),
    ) + entries_events(n.collection.entries@) + end("COLLECTION"@) + match n.sets {
        Some(s) => elem("SETS"@, kv("ENTRIES"@, int_text(s.entries as int))),
        None => Seq::empty(),
    } + match n.playlists {
        Some(p) => start("PLAYLISTS"@, Seq::empty()) + nodes_events(p.nodes@) + end("PLAYLISTS"@),
        None => Seq::empty(),
    } + match n.sorting_orders {
        Some(o) => sorting_orders_events(o@),
        None => Seq::empty(),
    } + end("NML"@)
}

fn push_text(attrs: &mut Vec<XmlAttr>, k: &str, v: &String)
    ensures
        attrs_view(final(attrs)@) == attrs_view(old(attrs)@) + kv(k@, v@),
{
    push_owned(attrs, k, v.clone());
}

fn push_owned(attrs: &mut Vec<XmlAttr>, k: &str, v: String)
    ensures
        attrs_view(final(attrs)@) == attrs_view(old(attrs)@) + kv(k@, v@),
{
    let ghost a = attrs@;
    attrs.push(XmlAttr { key: String::from_str(k), value: v });
    assert(attrs_view(attrs@) =~= attrs_view(a) + kv(k@, v@));
}

fn push_int(attrs: &mut Vec<XmlAttr>, k: &str, n: i64)
    ensures
        attrs_view(final(attrs)@) == attrs_view(old(attrs)@) + kv(k@, int_text(n as int)),
{
    push_owned(attrs, k, int_to_text(n));
}

/// A present attribute value with its name.
pub fn kv_to_tuple<'a>(k: &'a str, v: &'a Option<String>) -> (r: (&'a str, &'a str))
    requires
        v is Some,
    ensures
        r.0@ == k@,
        r.1@ == v->Some_0@,
{
    match v {
        Some(s) => (k, s.as_str()),
        None => (k, k),
    }
}

fn push_opt_text(attrs: &mut Vec<XmlAttr>, k: &str, v: &Option<String>)
    ensures
        attrs_view(final(attrs)@) == attrs_view(old(attrs)@) + opt_text(k@, *v),
{
    match v {
        Some(_) => {
            let (key, value) = kv_to_tuple(k, v);
            push_owned(attrs, key, String::from_str(value));
        },
        None => {
            assert(attrs_view(attrs@) =~= attrs_view(attrs@) + opt_text(k@, *v));
        },
    }
}

fn push_opt_int(attrs: &mut Vec<XmlAttr>, k: &str, v: Option<i64>)
    ensures
        attrs_view(final(attrs)@) == attrs_view(old(attrs)@) + opt_int(k@, v),
{
    match v {
        Some(n) => push_int(attrs, k, n),
        None => {
            assert(attrs_view(attrs@) =~= attrs_view(attrs@) + opt_int(k@, v));
        },
    }
}

fn push_start(events: &mut Vec<XmlEvent>, name: &str, attrs: Vec<XmlAttr>)
    ensures
        events_view(final(events)@) == events_view(old(events)@) + start(name@, attrs_view(attrs@)),
{
    let ghost e = events@;
    let ghost a = attrs@;
    events.push(XmlEvent::Start { name: String::from_str(name), attrs });
    assert(events_view(events@) =~= events_view(e) + start(name@, attrs_view(a)));
}

fn push_end(events: &mut Vec<XmlEvent>, name: &str)
    ensures
        events_view(final(events)@) == events_view(old(events)@) + end(name@),
{
    let ghost e = events@;
    events.push(XmlEvent::End { name: String::from_str(name) });
    assert(events_view(events@) =~= events_view(e) + end(name@));
}

fn push_elem(events: &mut Vec<XmlEvent>, name: &str, attrs: Vec<XmlAttr>)
    ensures
        events_view(final(events)@) == events_view(old(events)@) + elem(name@, attrs_view(attrs@)),
{
    push_start(events, name, attrs);
    push_end(events, name);
}

fn no_attrs() -> (r: Vec<XmlAttr>)
    ensures
        attrs_view(r@) == Seq::<(Seq<char>, Seq<char>)>::empty(),
{
    let r: Vec<XmlAttr> = Vec::new();
    assert(attrs_view(r@) =~= Seq::<(Seq<char>, Seq<char>)>::empty());
    r
}

fn info_attributes(i: &Info) -> (r: Vec<XmlAttr>)
    ensures
        attrs_view(r@) == info_attrs(*i),
{
    let mut a = no_attrs();
    push_opt_int(&mut a, "BITRATE", i.bitrate);
    push_opt_text(&mut a, "GENRE", &i.genre);
    push_opt_text(&mut a, "LABEL", &i.label);
    push_opt_text(&mut a, "COVERARTID", &i.cover_art_id);
    push_opt_text(&mut a, "KEY", &i.key);
    push_opt_int(&mut a, "PLAYCOUNT", i.play_count);
    push_opt_text(&mut a, "PLAYTIME", &i.play_time);
    push_opt_text(&mut a, "PLAYTIME_FLOAT", &i.play_time_float);
    push_text(&mut a, "IMPORT_DATE", &i.import_date);
    push_opt_text(&mut a, "LAST_PLAYED", &i.last_played);
    push_opt_text(&mut a, "RELEASE_DATE", &i.release_date);
    push_opt_text(&mut a, "RANKING", &i.ranking);
    push_opt_text(&mut a, "RATING", &i.rating);
    push_opt_text(&mut a, "COMMENT", &i.comment);
    push_opt_int(&mut a, "FLAGS", i.flags);
    push_opt_int(&mut a, "FILESIZE", i.file_size);
    assert(attrs_view(a@) =~= info_attrs(*i));
    a
}

fn or_zero_exec(v: Option<i64>) -> (r: i64)
    ensures
        r == or_zero(v),
{
    match v {
        Some(n) => n,
        None => 0,
    }
}

fn write_cue(events: &mut Vec<XmlEvent>, c: &CueV2)
    ensures
        events_view(final(events)@) == events_view(old(events)@) + cue_events(*c),
{
    let mut a = no_attrs();
    push_text(&mut a, "NAME", &c.name);
    push_int(&mut a, "DISPL_ORDER", c.display_order);
    push_int(&mut a, "TYPE", c.cue_type);
    push_text(&mut a, "START", &c.start);
    push_text(&mut a, "LEN", &c.length);
    push_int(&mut a, "REPEATS", c.repeats);
    push_int(&mut a, "HOTCUE", c.hotcue);
    assert(attrs_view(a@) =~= cue_attrs(*c));
    push_elem(events, "CUE_V2", a);
}

fn write_cues(events: &mut Vec<XmlEvent>, cues: &Vec<CueV2>)
    ensures
        events_view(final(events)@) == events_view(old(events)@) + cues_events(cues@),
{
    let ghost e0 = events_view(events@);
    let mut i: usize = 0;
    while i < cues.len()
        invariant
            i <= cues@.len(),
            events_view(events@) == e0 + cues_events(cues@.take(i as int)),
        decreases cues@.len() - i,
    {
        write_cue(events, &cues[i]);
        proof {
            assert(cues@.take(i + 1).drop_last() == cues@.take(i as int));
            assert(events_view(events@) =~= e0 + cues_events(cues@.take(i + 1)));
        }
        i += 1;
    }
    assert(cues@.take(i as int) == cues@);
}

fn write_entry_start(events: &mut Vec<XmlEvent>, e: &Entry)
    ensures
        events_view(final(events)@) == events_view(old(events)@) + start("ENTRY"@, entry_attrs(*e)),
{
    let mut a = no_attrs();
    push_opt_text(&mut a, "MODIFIED_DATE", &e.modified_date);
    push_opt_int(&mut a, "MODIFIED_TIME", e.modified_time);
    push_opt_text(&mut a, "AUDIO_ID", &e.audio_id);
    push_opt_text(&mut a, "TITLE", &e.title);
    push_opt_text(&mut a, "ARTIST", &e.artist);
    assert(attrs_view(a@) =~= entry_attrs(*e));
    push_start(events, "ENTRY", a);
}

fn write_location(events: &mut Vec<XmlEvent>, l: &Location)
    ensures
        events_view(final(events)@) == events_view(old(events)@) + elem("LOCATION"@, location_attrs(*l)),
{
    let mut a = no_attrs();
    push_text(&mut a, "DIR", &l.directory);
    push_text(&mut a, "FILE", &l.file);
    push_text(&mut a, "VOLUME", &l.volume);
    push_text(&mut a, "VOLUMEID", &l.volume_id);
    assert(attrs_view(a@) =~= location_attrs(*l));
    push_elem(events, "LOCATION", a);
}

fn write_album(events: &mut Vec<XmlEvent>, album: &Option<Album>)
    ensures
        events_view(final(events)@) == events_view(old(events)@) + album_events(*album),
{
    match album {
        Some(album) => {
            let mut a = no_attrs();
            push_opt_int(&mut a, "TRACK", album.track);
            push_opt_text(&mut a, "TITLE", &album.title);
            assert(attrs_view(a@) =~= opt_int("TRACK"@, album.track) + opt_text("TITLE"@, album.title));
            push_elem(events, "ALBUM", a);
        },
        None => {
            assert(events_view(events@) =~= events_view(events@) + album_events(None));
        },
    }
}

fn write_modification_info(events: &mut Vec<XmlEvent>, e: &Entry)
    ensures
        events_view(final(events)@) == events_view(old(events)@) + elem(
            "MODIFICATION_INFO"@,
            kv("AUTHOR_TYPE"@, e.modification_info.author_type@),
        ),
{
    let mut a = no_attrs();
    push_text(&mut a, "AUTHOR_TYPE", &e.modification_info.author_type);
    assert(attrs_view(a@) =~= kv("AUTHOR_TYPE"@, e.modification_info.author_type@));
    push_elem(events, "MODIFICATION_INFO", a);
}

fn write_tempo(events: &mut Vec<XmlEvent>, tempo: &Option<Tempo>)
    ensures
        events_view(final(events)@) == events_view(old(events)@) + tempo_events(*tempo),
{
    match tempo {
        Some(t) => {
            let mut a = no_attrs();
            push_opt_text(&mut a, "BPM", &t.bpm);
            push_text(&mut a, "BPM_QUALITY", &t.bpm_quality);
            assert(attrs_view(a@) =~= opt_text("BPM"@, t.bpm) + kv("BPM_QUALITY"@, t.bpm_quality@));
            push_elem(events, "TEMPO", a);
        },
        None => {
            assert(events_view(events@) =~= events_view(events@) + tempo_events(None));
        },
    }
}

fn write_loudness(events: &mut Vec<XmlEvent>, loudness: &Option<Loudness>)
    ensures
        events_view(final(events)@) == events_view(old(events)@) + loudness_events(*loudness),
{
    match loudness {
        Some(l) => {
            let mut a = no_attrs();
            push_owned(&mut a, "PEAK_DB", db_to_text(or_zero_exec(l.peak_db)));
            push_owned(&mut a, "PERCEIVED_DB", db_to_text(or_zero_exec(l.perceived_db)));
            push_owned(&mut a, "ANALYZED_DB", db_to_text(or_zero_exec(l.analyzed_db)));
            assert(attrs_view(a@) =~= loudness_attrs(*l));
            push_elem(events, "LOUDNESS", a);
        },
        None => {
            assert(events_view(events@) =~= events_view(events@) + loudness_events(None));
        },
    }
}

fn write_musical_key(events: &mut Vec<XmlEvent>, key: &Option<MusicalKey>)
    ensures
        events_view(final(events)@) == events_view(old(events)@) + musical_key_events(*key),
{
    match key {
        Some(k) => {
            let mut a = no_attrs();
            push_text(&mut a, "VALUE", &k.value);
            assert(attrs_view(a@) =~= kv("VALUE"@, k.value@));
            push_elem(events, "MUSICAL_KEY", a);
        },
        None => {
            assert(events_view(events@) =~= events_view(events@) + musical_key_events(None));
        },
    }
}

fn write_opt_cues(events: &mut Vec<XmlEvent>, cues: &Option<Vec<CueV2>>)
    ensures
        events_view(final(events)@) == events_view(old(events)@) + opt_cues_events(*cues),
{
    match cues {
        Some(c) => write_cues(events, c),
        None => {
            assert(events_view(events@) =~= events_view(events@) + opt_cues_events(None));
        },
    }
}

/// Appends the events of one track record.
fn write_entry(events: &mut Vec<XmlEvent>, e: &Entry)
    ensures
        events_view(final(events)@) == events_view(old(events)@) + entry_events(*e),
{
    let ghost e0 = events_view(events@);
    write_entry_start(events, e);
    let ghost e1 = events_view(events@);
    write_location(events, &e.location);
    let ghost e2 = events_view(events@);
    write_album(events, &e.album);
    let ghost e3 = events_view(events@);
    write_modification_info(events, e);
    let ghost e4 = events_view(events@);
    push_elem(events, "INFO", info_attributes(&e.info));
    let ghost e5 = events_view(events@);
    write_tempo(events, &e.tempo);
    let ghost e6 = events_view(events@);
    write_loudness(events, &e.loudness);
    let ghost e7 = events_view(events@);
    write_musical_key(events, &e.musical_key);
    let ghost e8 = events_view(events@);
    write_opt_cues(events, &e.cue_v2);
    let ghost e9 = events_view(events@);
    push_end(events, "ENTRY");
    assert(events_view(events@) =~= e0 + entry_events(*e));
}

fn write_entries(events: &mut Vec<XmlEvent>, entries: &Vec<Entry>)
    ensures
        events_view(final(events)@) == events_view(old(events)@) + entries_events(entries@),
{
    let ghost e0 = events_view(events@);
    let mut i: usize = 0;
    while i < entries.len()
        invariant
            i <= entries@.len(),
            events_view(events@) == e0 + entries_events(entries@.take(i as int)),
        decreases entries@.len() - i,
    {
        write_entry(events, &entries[i]);
        proof {
            assert(entries@.take(i + 1).drop_last() == entries@.take(i as int));
            assert(events_view(events@) =~= e0 + entries_events(entries@.take(i + 1)));
        }
        i += 1;
    }
    assert(entries@.take(i as int) == entries@);
}

fn write_playlist_entry(events: &mut Vec<XmlEvent>, p: &PlayListEntry)
    ensures
        events_view(final(events)@) == events_view(old(events)@) + playlist_entry_events(*p),
{
    let ghost e0 = events_view(events@);
    push_start(events, "ENTRY", no_attrs());
    let mut a = no_attrs();
    push_text(&mut a, "TYPE", &p.primary_key.primary_key_type);
    push_text(&mut a, "KEY", &p.primary_key.key);
    assert(attrs_view(a@) =~= kv("TYPE"@, p.primary_key.primary_key_type@) + kv("KEY"@, p.primary_key.key@));
    push_elem(events, "PRIMARYKEY", a);
    push_end(events, "ENTRY");
    assert(events_view(events@) =~= e0 + playlist_entry_events(*p));
}

fn write_playlist(events: &mut Vec<XmlEvent>, p: &Playlist)
    ensures
        events_view(final(events)@) == events_view(old(events)@) + playlist_events(*p),
{
    let ghost e0 = events_view(events@);
    let mut a = no_attrs();
    push_int(&mut a, "ENTRIES", p.entries_count);
    push_text(&mut a, "TYPE", &p.playlist_type);
    push_text(&mut a, "UUID", &p.uuid);
    assert(attrs_view(a@) =~= kv("ENTRIES"@, int_text(p.entries_count as int)) + kv("TYPE"@, p.playlist_type@)
        + kv("UUID"@, p.uuid@));
    push_start(events, "PLAYLIST", a);
    let ghost e1 = events_view(events@);
    match &p.entries {
        Some(list) => {
            let mut i: usize = 0;
            while i < list.len()
                invariant
                    i <= list@.len(),
                    events_view(events@) == e1 + playlist_entries_events(list@.take(i as int)),
                decreases list@.len() - i,
            {
                write_playlist_entry(events, &list[i]);
                proof {
                    assert(list@.take(i + 1).drop_last() == list@.take(i as int));
                    assert(events_view(events@) =~= e1 + playlist_entries_events(list@.take(i + 1)));
                }
                i += 1;
            }
            assert(list@.take(i as int) == list@);
        },
        None => {},
    }
    let ghost e2 = events_view(events@);
    push_end(events, "PLAYLIST");
    assert(events_view(events@) =~= e0 + playlist_events(*p));
}

/// Appends the events of a node of the playlist tree and of everything below it.
fn write_node(events: &mut Vec<XmlEvent>, node: &Node)
    ensures
        events_view(final(events)@) == events_view(old(events)@) + node_events(*node),
    decreases node,
{
    let ghost e0 = events_view(events@);
    let mut a = no_attrs();
    push_text(&mut a, "TYPE", &node.node_type);
    push_text(&mut a, "NAME", &node.name);
    assert(attrs_view(a@) =~= kv("TYPE"@, node.node_type@) + kv("NAME"@, node.name@));
    push_start(events, "NODE", a);
    let ghost e1 = events_view(events@);
    match &node.subnodes {
        Some(sub) => {
            let mut a = no_attrs();
            push_int(&mut a, "COUNT", sub.count);
            assert(attrs_view(a@) =~= kv("COUNT"@, int_text(sub.count as int)));
            push_start(events, "SUBNODES", a);
            write_nodes(events, &sub.nodes);
            push_end(events, "SUBNODES");
        },
        None => {},
    }
    let ghost e2 = events_view(events@);
    match &node.playlist {
        Some(p) => write_playlist(events, p),
        None => {},
    }
    let ghost e3 = events_view(events@);
    push_end(events, "NODE");
    proof {
        if node.subnodes is Some {
            let sub = node.subnodes->Some_0;
            assert(e2 =~= e1 + (start("SUBNODES"@, kv("COUNT"@, int_text(sub.count as int))) + nodes_events(sub.nodes@)
                + end("SUBNODES"@)));
        } else {
            assert(e2 =~= e1);
        }
        if node.playlist is Some {
            assert(e3 =~= e2 + playlist_events(node.playlist->Some_0));
        } else {
            assert(e3 =~= e2);
        }
        assert(events_view(events@) =~= e0 + node_events(*node));
    }
}

fn write_nodes(events: &mut Vec<XmlEvent>, nodes: &Vec<Node>)
    ensures
        events_view(final(events)@) == events_view(old(events)@) + nodes_events(nodes@),
    decreases nodes,
{
    let ghost e0 = events_view(events@);
    let mut i: usize = 0;
    while i < nodes.len()
        invariant
            i <= nodes@.len(),
            events_view(events@) == e0 + nodes_events(nodes@.take(i as int)),
        decreases nodes@.len() - i,
    {
        proof {
            assert(decreases_to!(nodes => nodes@[i as int]));
        }
        write_node(events, &nodes[i]);
        proof {
            assert(nodes@.take(i + 1).drop_last() == nodes@.take(i as int));
            assert(events_view(events@) =~= e0 + nodes_events(nodes@.take(i + 1)));
        }
        i += 1;
    }
    assert(nodes@.take(i as int) == nodes@);
}

fn write_sorting_orders(events: &mut Vec<XmlEvent>, orders: &Vec<SortingOrder>)
    ensures
        events_view(final(events)@) == events_view(old(events)@) + sorting_orders_events(orders@),
{
    let ghost e0 = events_view(events@);
    let mut i: usize = 0;
    while i < orders.len()
        invariant
            i <= orders@.len(),
            events_view(events@) == e0 + sorting_orders_events(orders@.take(i as int)),
        decreases orders@.len() - i,
    {
        let o = &orders[i];
        let ghost before = events_view(events@);
        let mut a = no_attrs();
        push_text(&mut a, "PATH", &o.path);
        assert(attrs_view(a@) =~= kv("PATH"@, o.path@));
        push_start(events, "SORTING_ORDER", a);
        match &o.sorting_data {
            Some(d) => {
                let mut a = no_attrs();
                push_text(&mut a, "IDX", &d.idx);
                push_text(&mut a, "ORD", &d.ord);
                assert(attrs_view(a@) =~= kv("IDX"@, d.idx@) + kv("ORD"@, d.ord@));
                push_elem(events, "SORTING_DATA", a);
            },
            None => {},
        }
        push_end(events, "SORTING_ORDER");
        proof {
            assert(events_view(events@) =~= before + sorting_order_events(*o));
            assert(orders@.take(i + 1).drop_last() == orders@.take(i as int));
            assert(events_view(events@) =~= e0 + sorting_orders_events(orders@.take(i + 1)));
        }
        i += 1;
    }
    assert(orders@.take(i as int) == orders@);
}

/// Projects a whole document to its events.
pub fn collection_events(collection: &Nml) -> (r: Vec<XmlEvent>)
    ensures
        events_view(r@) == nml_events(*collection),
{
    let mut events: Vec<XmlEvent> = Vec::new();
    let mut a = no_attrs();
    push_int(&mut a, "VERSION", collection.version);
    assert(attrs_view(a@) =~= kv("VERSION"@, int_text(collection.version as int)));
    push_start(&mut events, "NML", a);
    let mut a = no_attrs();
    push_text(&mut a, "COMPANY", &collection.head.company);
    push_text(&mut a, "PROGRAM", &collection.head.program);
    assert(attrs_view(a@) =~= kv("COMPANY"@, collection.head.company@) + kv("PROGRAM"@, collection.head.program@));
    push_elem(&mut events, "HEAD", a);
    push_elem(&mut events, "MUSICFOLDERS", no_attrs());
    let mut a = no_attrs();
    push_int(&mut a, "ENTRIES", collection.collection.entries_count);
    assert(attrs_view(a@) =~= kv("ENTRIES"@, int_text(collection.collection.entries_count as int)));
    push_start(&mut events, "COLLECTION", a);
    write_entries(&mut events, &collection.collection.entries);
    push_end(&mut events, "COLLECTION");
    let ghost e1 = events_view(events@);
    match &collection.sets {
        Some(sets) => {
            let mut a = no_attrs();
            push_int(&mut a, "ENTRIES", sets.entries);
            assert(attrs_view(a@) =~= kv("ENTRIES"@, int_text(sets.entries as int)));
            push_elem(&mut events, "SETS", a);
        },
        None => {},
    }
    let ghost e2 = events_view(events@);
    match &collection.playlists {
        Some(p) => {
            push_start(&mut events, "PLAYLISTS", no_attrs());
            write_nodes(&mut events, &p.nodes);
            push_end(&mut events, "PLAYLISTS");
        },
        None => {},
    }
    let ghost e3 = events_view(events@);
    match &collection.sorting_orders {
        Some(o) => write_sorting_orders(&mut events, o),
        None => {},
    }
    let ghost e4 = events_view(events@);
    push_end(&mut events, "NML");
    proof {
        let n = *collection;
        let sets = match n.sets {
            Some(s) => elem("SETS"@, kv("ENTRIES"@, int_text(s.entries as int))),
            None => Seq::empty(),
        };
        assert(e2 =~= e1 + sets);
        if n.playlists is Some {
            assert(e3 =~= e2 + (start("PLAYLISTS"@, Seq::empty()) + nodes_events(n.playlists->Some_0.nodes@) + end(
                "PLAYLISTS"@,
            )));
        } else {
            assert(e3 =~= e2);
        }
        if n.sorting_orders is Some {
            assert(e4 =~= e3 + sorting_orders_events(n.sorting_orders->Some_0@));
        } else {
            assert(e4 =~= e3);
        }
        assert(events_view(events@) =~= nml_events(n));
    }
    events
}

#[verifier::external_type_specification]
#[verifier::external_body]
#[verifier::reject_recursive_types(W)]
pub struct ExWriter<W>(quick_xml::Writer<W>);

/// The bytes a writer over a buffer holds.
pub uninterp spec fn written(w: quick_xml::Writer<Vec<u8>>) -> Seq<u8>;

/// The text quick_xml writes for an opening or a closing tag.
pub uninterp spec fn tag_text(e: EventView) -> Seq<u8>;

/// The text quick_xml writes for an XML declaration.
pub uninterp spec fn declaration_text(version: Seq<char>, encoding: Seq<char>, standalone: Seq<char>) -> Seq<u8>;

/// The text of a sequence of tags, one after the other.
pub open spec fn xml_text(events: Seq<EventView>) -> Seq<u8>
    decreases events.len(),
{
    if events.len() == 0 {
        Seq::empty()
    } else {
        xml_text(events.drop_last()) + tag_text(events.last())
    }
}

/// The text of a whole document: the declaration, then its tags.
pub open spec fn document_text(n: Nml) -> Seq<u8> {
    declaration_text("1.0"@, "UTF-8"@, "no"@) + xml_text(nml_events(n))
}

/// Relies on quick_xml's `Writer::new`: a writer over an empty buffer.
#[verifier::external_body]
fn new_writer() -> (r: quick_xml::Writer<Vec<u8>>)
    ensures
        written(r) == Seq::<u8>::empty(),
{
    quick_xml::Writer::new(Vec::new())
}

/// Relies on quick_xml's `Writer::write_event` with a `BytesDecl`: appends
/// the XML declaration. Writing into a `Vec` cannot fail.
#[verifier::external_body]
fn write_declaration(w: &mut quick_xml::Writer<Vec<u8>>, version: &str, encoding: &str, standalone: &str) -> (r: bool)
    ensures
        r,
        written(*final(w)) == written(*old(w)) + declaration_text(version@, encoding@, standalone@),
{
    let decl = quick_xml::events::BytesDecl::new(version, Some(encoding), Some(standalone));
    w.write_event(quick_xml::events::Event::Decl(decl)).is_ok()
}

/// Relies on quick_xml's `Writer::write_event` with a `BytesStart`: appends
/// an opening tag, escaping the attribute values. Writing into a `Vec`
/// cannot fail.
#[verifier::external_body]
fn write_start(w: &mut quick_xml::Writer<Vec<u8>>, name: &str, attrs: &Vec<XmlAttr>) -> (r: bool)
    ensures
        r,
        written(*final(w)) == written(*old(w)) + tag_text(EventView::Start(name@, attrs_view(attrs@))),
{
    let tag = quick_xml::events::BytesStart::new(name).with_attributes(
        attrs.iter().map(|a| (a.key.as_str(), a.value.as_str())),
    );
    w.write_event(quick_xml::events::Event::Start(tag)).is_ok()
}

/// Relies on quick_xml's `Writer::write_event` with a `BytesEnd`: appends a
/// closing tag. Writing into a `Vec` cannot fail.
#[verifier::external_body]
fn write_end(w: &mut quick_xml::Writer<Vec<u8>>, name: &str) -> (r: bool)
    ensures
        r,
        written(*final(w)) == written(*old(w)) + tag_text(EventView::End(name@)),
{
    w.write_event(quick_xml::events::Event::End(quick_xml::events::BytesEnd::new(name))).is_ok()
}

/// Relies on quick_xml's `Writer::into_inner`: the bytes written so far.
#[verifier::external_body]
fn written_bytes(w: quick_xml::Writer<Vec<u8>>) -> (r: Vec<u8>)
    ensures
        r@ == written(w),
{
    w.into_inner()
}

/// Renders a document as XML text: the declaration, then its events.
pub fn serialize_collection(collection: &Nml) -> (r: Result<Vec<u8>, AppError>)
    ensures
        r is Ok,
        r matches Ok(bytes) ==> bytes@ == document_text(*collection),
{
    let events = collection_events(collection);
    let mut w = new_writer();
    if !write_declaration(&mut w, "1.0", "UTF-8", "no") {
        return Err(AppError::GenericError(String::from_str("could not write the XML declaration")));
    }
    let ghost decl = written(w);
    let ghost ev = events_view(events@);
    let mut i: usize = 0;
    while i < events.len()
        invariant
            i <= events@.len(),
            ev == events_view(events@),
            ev == nml_events(*collection),
            written(w) == decl + xml_text(ev.take(i as int)),
            decl == declaration_text("1.0"@, "UTF-8"@, "no"@),
        decreases events@.len() - i,
    {
        proof {
            assert(ev.take(i + 1).drop_last() == ev.take(i as int));
            assert(ev.take(i + 1).last() == events@[i as int]@);
        }
        let ok = match &events[i] {
            XmlEvent::Start { name, attrs } => write_start(&mut w, name.as_str(), attrs),
            XmlEvent::End { name } => write_end(&mut w, name.as_str()),
        };
        if !ok {
            return Err(AppError::GenericError(String::from_str("could not write an element")));
        }
        proof {
            assert(written(w) =~= decl + xml_text(ev.take(i + 1)));
        }
        i += 1;
    }
    assert(ev.take(i as int) == ev);
    Ok(written_bytes(w))
}

} // verus!
