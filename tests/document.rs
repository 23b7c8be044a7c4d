use dj_library_gain_calculator::document::deserialize_collection;
use dj_library_gain_calculator::parse::{parse_db, parse_int};
use dj_library_gain_calculator::serialize::{collection_events, serialize_collection};
use dj_library_gain_calculator::xml::{db_to_text, int_to_text, XmlEvent};

const DECL: &str = r#"<?xml version="1.0" encoding="UTF-8" standalone="no"?>"#;

fn entry_text() -> String {
    [
    r#"<ENTRY MODIFIED_DATE="2020/3/4" MODIFIED_TIME="40000" AUDIO_ID="AXBxQ" TITLE="Song &amp; Dance" ARTIST="Someone">"#,
    r#"<LOCATION DIR="/:Music/:" FILE="song.mp3" VOLUME="Disk" VOLUMEID="abc"></LOCATION>"#,
    r#"<ALBUM TRACK="3" TITLE="Album"></ALBUM>"#,
    r#"<MODIFICATION_INFO AUTHOR_TYPE="user"></MODIFICATION_INFO>"#,
    r#"<INFO BITRATE="320000" GENRE="House" KEY="8A" PLAYCOUNT="2" PLAYTIME="300" PLAYTIME_FLOAT="299.912" IMPORT_DATE="2020/3/4" RELEASE_DATE="2019/1/1" FLAGS="12" FILESIZE="11800"></INFO>"#,
    r#"<TEMPO BPM="124.000000" BPM_QUALITY="100.000000"></TEMPO>"#,
    r#"<LOUDNESS PEAK_DB="-0.402912" PERCEIVED_DB="-2.500000" ANALYZED_DB="-2.500000"></LOUDNESS>"#,
    r#"<MUSICAL_KEY VALUE="21"></MUSICAL_KEY>"#,
    r#"<CUE_V2 NAME="AutoGrid" DISPL_ORDER="0" TYPE="4" START="38.128" LEN="0.000000" REPEATS="-1" HOTCUE="0"></CUE_V2>"#,
    r#"</ENTRY>"#,
    ]
    .concat()
}

fn document(entries: &str, count: usize, tail: &str) -> String {
    format!(
        r#"{}<NML VERSION="19"><HEAD COMPANY="www.native-instruments.com" PROGRAM="Traktor"></HEAD><MUSICFOLDERS></MUSICFOLDERS><COLLECTION ENTRIES="{}">{}</COLLECTION>{}</NML>"#,
        DECL, count, entries, tail
    )
}

fn round_trip(text: &str) -> String {
    let nml = deserialize_collection(text).unwrap();
    String::from_utf8(serialize_collection(&nml).unwrap()).unwrap()
}

#[test]
fn serialization_roundtrip_on_a_1_element_collection() {
    let doc = document(&entry_text(), 1, "");
    assert_eq!(round_trip(&doc), doc);
}

#[test]
fn serialization_roundtrip_on_a_large_collection_with_1_playlist() {
    let entries = entry_text().repeat(40);
    let playlists = [
        r#"<SETS ENTRIES="0"></SETS><PLAYLISTS><NODE TYPE="FOLDER" NAME="$ROOT"><SUBNODES COUNT="1">"#,
        r#"<NODE TYPE="PLAYLIST" NAME="Set"><PLAYLIST ENTRIES="2" TYPE="LIST" UUID="f00d">"#,
        r#"<ENTRY><PRIMARYKEY TYPE="TRACK" KEY="Disk/:Music/:song.mp3"></PRIMARYKEY></ENTRY>"#,
        r#"<ENTRY><PRIMARYKEY TYPE="TRACK" KEY="Disk/:Music/:other.mp3"></PRIMARYKEY></ENTRY>"#,
        r#"</PLAYLIST></NODE></SUBNODES></NODE></PLAYLISTS>"#,
    ].concat();
    let doc = document(&entries, 40, &playlists);
    assert_eq!(round_trip(&doc), doc);
}

#[test]
fn serialization_roundtrip_on_a_collection_with_2_sorting_orders() {
    let tail = [
        r#"<SORTING_ORDER PATH="$COLLECTION"><SORTING_DATA IDX="1" ORD="0"></SORTING_DATA></SORTING_ORDER>"#,
        r#"<SORTING_ORDER PATH="$ROOT"></SORTING_ORDER>"#,
    ].concat();
    let doc = document(&entry_text(), 1, &tail);
    assert_eq!(round_trip(&doc), doc);
}

#[test]
fn serialization_roundtrip() {
    let minimal = [
        r#"<ENTRY><LOCATION DIR="/:" FILE="x.wav" VOLUME="V" VOLUMEID="v"></LOCATION>"#,
        r#"<MODIFICATION_INFO AUTHOR_TYPE="importer"></MODIFICATION_INFO><INFO IMPORT_DATE="2001/1/1"></INFO></ENTRY>"#,
    ].concat();
    let doc = document(&minimal, 1, "");
    assert_eq!(round_trip(&doc), doc);
}

#[test]
fn other_attribute_and_element_orders_come_out_canonical() {
    let shuffled = [
        r#"<ENTRY TITLE="T" AUDIO_ID="id"><INFO IMPORT_DATE="2001/1/1"></INFO>"#,
        r#"<MODIFICATION_INFO AUTHOR_TYPE="importer"/><UNKNOWN A="1"><X/></UNKNOWN>"#,
        r#"<LOCATION VOLUMEID="v" VOLUME="V" FILE="x.wav" DIR="/:"></LOCATION></ENTRY>"#,
    ].concat();
    let canonical = [
        r#"<ENTRY AUDIO_ID="id" TITLE="T"><LOCATION DIR="/:" FILE="x.wav" VOLUME="V" VOLUMEID="v"></LOCATION>"#,
        r#"<MODIFICATION_INFO AUTHOR_TYPE="importer"></MODIFICATION_INFO><INFO IMPORT_DATE="2001/1/1"></INFO></ENTRY>"#,
    ].concat();
    let input = format!("{}\n  ", document(&shuffled, 1, "")).replace("><", ">\n  <");
    assert_eq!(round_trip(&input), document(&canonical, 1, ""));
}

#[test]
fn loudness_is_written_with_six_decimals() {
    let entry = [
        r#"<ENTRY><LOCATION DIR="/:" FILE="x.wav" VOLUME="V" VOLUMEID="v"></LOCATION>"#,
        r#"<MODIFICATION_INFO AUTHOR_TYPE="importer"></MODIFICATION_INFO><INFO IMPORT_DATE="2001/1/1"></INFO>"#,
        r#"<LOUDNESS PEAK_DB="-1.5" ANALYZED_DB="3.1234569"></LOUDNESS></ENTRY>"#,
    ].concat();
    let out = round_trip(&document(&entry, 1, ""));
    assert!(out.contains(r#"<LOUDNESS PEAK_DB="-1.500000" PERCEIVED_DB="0.000000" ANALYZED_DB="3.123456"></LOUDNESS>"#));
}

#[test]
fn missing_required_parts_are_errors() {
    let no_location = [
        r#"<ENTRY><MODIFICATION_INFO AUTHOR_TYPE="importer"></MODIFICATION_INFO>"#,
        r#"<INFO IMPORT_DATE="2001/1/1"></INFO></ENTRY>"#,
    ].concat();
    assert!(deserialize_collection(&document(&no_location, 1, "")).is_err());
    let no_head = format!(r#"{}<NML VERSION="19"><COLLECTION ENTRIES="0"></COLLECTION></NML>"#, DECL);
    assert!(deserialize_collection(&no_head).is_err());
    assert!(deserialize_collection(r#"<NML VERSION="x"></NML>"#).is_err());
    assert!(deserialize_collection("<NML VERSION=\"19\"><HEAD").is_err());
    assert!(deserialize_collection("").is_err());
}

#[test]
fn document_events_follow_the_model() {
    let nml = deserialize_collection(&document(&entry_text(), 1, "")).unwrap();
    let events = collection_events(&nml);
    match &events[0] {
        XmlEvent::Start { name, attrs } => {
            assert_eq!(name, "NML");
            assert_eq!(attrs[0].key, "VERSION");
            assert_eq!(attrs[0].value, "19");
        }
        XmlEvent::End { .. } => panic!("document starts with an opening tag"),
    }
    assert!(matches!(events.last(), Some(XmlEvent::End { name }) if name == "NML"));
    assert_eq!(nml.collection.entries[0].title.as_deref(), Some("Song & Dance"));
    assert_eq!(nml.collection.entries[0].loudness.as_ref().unwrap().peak_db, Some(-402_912));
}

#[test]
fn integers_read_and_write_as_decimal_text() {
    assert_eq!(int_to_text(0), "0");
    assert_eq!(int_to_text(-1), "-1");
    assert_eq!(int_to_text(i64::MIN), "-9223372036854775808");
    assert_eq!(int_to_text(1234567), "1234567");
    assert_eq!(parse_int("42"), Some(42));
    assert_eq!(parse_int("+42"), Some(42));
    assert_eq!(parse_int("-9223372036854775808"), Some(i64::MIN));
    assert_eq!(parse_int("9223372036854775808"), None);
    assert_eq!(parse_int(""), None);
    assert_eq!(parse_int("-"), None);
    assert_eq!(parse_int("1.5"), None);
}

#[test]
fn decibels_read_and_write_in_fixed_point() {
    assert_eq!(db_to_text(0), "0.000000");
    assert_eq!(db_to_text(-1), "-0.000001");
    assert_eq!(db_to_text(6_000_000), "6.000000");
    assert_eq!(db_to_text(-144_000_000), "-144.000000");
    assert_eq!(parse_db("-3.5"), Some(-3_500_000));
    assert_eq!(parse_db("12"), Some(12_000_000));
    assert_eq!(parse_db("0.1234567"), Some(123_456));
    assert_eq!(parse_db("-0.000001"), Some(-1));
    assert_eq!(parse_db("abc"), None);
    assert_eq!(parse_db("1.2.3"), None);
    assert_eq!(parse_db("."), None);
}

fn failure(text: &str) -> String {
    match deserialize_collection(text) {
        Ok(_) => "no error".to_string(),
        Err(e) => e.description().to_string(),
    }
}

#[test]
fn each_kind_of_bad_document_has_its_message() {
    assert_eq!(failure(r#"<NML VERSION="x"><HEAD COMPANY="c" PROGRAM="p"></HEAD></NML>"#), "deserialization error: invalid number");
    assert_eq!(failure(r#"<NML><HEAD COMPANY="c" PROGRAM="p"></HEAD></NML>"#), "deserialization error: missing attribute or element");
    assert_eq!(failure(r#"<COLLECTION ENTRIES="0"></COLLECTION>"#), "deserialization error: unexpected element structure");
    assert_eq!(failure(r#"<NML VERSION="19"><HEAD COMPANY="c" PROGRAM="p"></WRONG></NML>"#), "deserialization error: malformed XML");
}
