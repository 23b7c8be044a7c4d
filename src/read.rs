//! The XML reader: from text to a flat list of element events.
use vstd::prelude::*;

use crate::parse::ParseFault;
use crate::xml::{XmlAttr, XmlEvent};

verus! {

#[verifier::external_type_specification]
#[verifier::external_body]
#[verifier::reject_recursive_types(R)]
pub struct ExReader<R>(quick_xml::Reader<R>);

#[verifier::external_type_specification]
#[verifier::external_body]
pub struct ExBytesStart<'a>(quick_xml::events::BytesStart<'a>);

#[verifier::external_type_specification]
#[verifier::external_body]
pub struct ExAttributes<'a>(quick_xml::events::attributes::Attributes<'a>);

#[verifier::external_type_specification]
#[verifier::external_body]
pub struct ExAttribute<'a>(quick_xml::events::attributes::Attribute<'a>);

#[verifier::external_type_specification]
#[verifier::external_body]
pub struct ExAttrError(quick_xml::events::attributes::AttrError);

/// One step of the XML reader.
pub enum ReadStep<'a> {
    /// An opening tag.
    Open(quick_xml::events::BytesStart<'a>),
    /// A self-closing tag.
    Empty(quick_xml::events::BytesStart<'a>),
    /// A closing tag, with its name.
    Close(String),
    /// The end of the text.
    Eof,
    /// Anything else: declaration, text, comment.
    Other,
    /// The reader rejected the text.
    Fault,
}

/// One step over the attributes of a tag.
pub enum AttrStep {
    Attr(XmlAttr),
    Done,
    Fault,
}

/// Relies on quick_xml's `Reader::from_str`: a reader at the start of `text`.
#[verifier::external_body]
fn open_reader<'a>(text: &'a str) -> (r: quick_xml::Reader<&'a [u8]>) {
    quick_xml::Reader::from_str(text)
}

/// Relies on quick_xml's `Reader::read_event`: the next event of the text.
#[verifier::external_body]
fn read_step<'a>(reader: &mut quick_xml::Reader<&'a [u8]>) -> (r: ReadStep<'a>) {
    match reader.read_event() {
        Ok(quick_xml::events::Event::Start(tag)) => ReadStep::Open(tag),
        Ok(quick_xml::events::Event::Empty(tag)) => ReadStep::Empty(tag),
        Ok(quick_xml::events::Event::End(tag)) => ReadStep::Close(tag.name().as_ref().to_string()),
        Ok(quick_xml::events::Event::Eof) => ReadStep::Eof,
        Ok(_) => ReadStep::Other,
        Err(_) => ReadStep::Fault,
    }
}

/// Relies on quick_xml's `BytesStart::name`: the name of a tag.
#[verifier::external_body]
fn tag_name(tag: &quick_xml::events::BytesStart) -> (r: String) {
    tag.name().as_ref().to_string()
}

/// Relies on quick_xml's `BytesStart::attributes`: an iterator over the
/// attributes of a tag.
#[verifier::external_body]
fn tag_attributes<'b>(tag: &'b quick_xml::events::BytesStart) -> (r: quick_xml::events::attributes::Attributes<'b>) {
    tag.attributes()
}

/// Relies on quick_xml's `Attributes::next` and `Attribute::normalized_value`:
/// the next attribute of a tag, with its value unescaped.
#[verifier::external_body]
fn next_attribute(it: &mut quick_xml::events::attributes::Attributes) -> (r: AttrStep) {
    match it.next() {
        Some(Ok(a)) => match a.normalized_value(quick_xml::XmlVersion::Explicit1_0) {
            Ok(v) => AttrStep::Attr(XmlAttr { key: a.key.as_ref().to_string(), value: v.into_owned() }),
            Err(_) => AttrStep::Fault,
        },
        Some(Err(_)) => AttrStep::Fault,
        None => AttrStep::Done,
    }
}

/// Relies on quick_xml's `BytesStart`, which dereferences to the tag's text,
/// and on `str::len`: the length of that text in bytes.
#[verifier::external_body]
fn tag_len(tag: &quick_xml::events::BytesStart) -> (r: usize) {
    tag.len()
}

/// The attributes of a tag. Each attribute takes at least one byte of the
/// tag, which bounds the number of steps.
fn read_attributes(tag: &quick_xml::events::BytesStart) -> (r: Result<Vec<XmlAttr>, ParseFault>) {
    let budget = tag_len(tag);
    let mut it = tag_attributes(tag);
    let mut attrs: Vec<XmlAttr> = Vec::new();
    let mut n: u128 = 0;
    while n <= budget as u128
        invariant
            n <= budget as u128 + 1,
        decreases budget as u128 + 1 - n,
    {
        match next_attribute(&mut it) {
            AttrStep::Attr(a) => attrs.push(a),
            AttrStep::Done => return Ok(attrs),
            AttrStep::Fault => return Err(ParseFault::Syntax),
        }
        n += 1;
    }
    Err(ParseFault::Syntax)
}

/// The element events of an XML text, a self-closing tag giving an opening
/// and a closing event. Each reader step but the last takes at least one
/// character of the text, which bounds the number of steps.
pub fn read_events(text: &str) -> (r: Result<Vec<XmlEvent>, ParseFault>) {
    let budget = text.unicode_len();
    let mut reader = open_reader(text);
    let mut events: Vec<XmlEvent> = Vec::new();
    let mut n: u128 = 0;
    while n <= budget as u128
        invariant
            n <= budget as u128 + 1,
        decreases budget as u128 + 1 - n,
    {
        match read_step(&mut reader) {
            ReadStep::Open(tag) => {
                let attrs = read_attributes(&tag)?;
                events.push(XmlEvent::Start { name: tag_name(&tag), attrs });
            },
            ReadStep::Empty(tag) => {
                let attrs = read_attributes(&tag)?;
                let name = tag_name(&tag);
                let end = name.clone();
                events.push(XmlEvent::Start { name, attrs });
                events.push(XmlEvent::End { name: end });
            },
            ReadStep::Close(name) => events.push(XmlEvent::End { name }),
            ReadStep::Eof => return Ok(events),
            ReadStep::Other => {},
            ReadStep::Fault => return Err(ParseFault::Syntax),
        }
        n += 1;
    }
    Err(ParseFault::Syntax)
}

} // verus!
