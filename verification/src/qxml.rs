//! The byte-level XML boundary.
//!
//! `quick_xml` does the byte work: it parses `content.xml` into events and
//! renders events back into bytes.  Each call into it stands behind a
//! trusted wrapper that converts between the crate's plain event model and
//! the library's borrowed event types; the structural logic on either side
//! of this module is verified against the event model alone.

use vstd::prelude::*;

use crate::error::OdsError;
use crate::xml::XmlEvent;

verus! {

/// The byte-stream XML reader of `quick_xml`.
#[verifier::external_type_specification]
#[verifier::external_body]
#[verifier::reject_recursive_types(R)]
pub struct ExReader<R>(quick_xml::Reader<R>);

/// The byte-stream XML writer of `quick_xml`.
#[verifier::external_type_specification]
#[verifier::external_body]
#[verifier::reject_recursive_types(W)]
pub struct ExWriter<W>(quick_xml::Writer<W>);

/// A positioned byte cursor of the standard library.
#[verifier::external_type_specification]
#[verifier::external_body]
#[verifier::reject_recursive_types(T)]
pub struct ExCursor<T>(std::io::Cursor<T>);

/// An open start or empty tag of `quick_xml`.
#[verifier::external_type_specification]
#[verifier::external_body]
pub struct ExBytesStart<'a>(quick_xml::events::BytesStart<'a>);

/// A general entity reference of `quick_xml`.
#[verifier::external_type_specification]
#[verifier::external_body]
pub struct ExBytesRef<'a>(quick_xml::events::BytesRef<'a>);

/// Escaped character data of `quick_xml`.
#[verifier::external_type_specification]
#[verifier::external_body]
pub struct ExBytesText<'a>(quick_xml::events::BytesText<'a>);

/// An event source over an in-memory document.
pub struct XmlSource {
    /// The reader, positioned after what was pulled so far.
    pub inner: quick_xml::Reader<std::io::Cursor<Vec<u8>>>,
    /// The scratch buffer events borrow from.
    pub buf: Vec<u8>,
}

/// Relies on `quick_xml::Reader::from_reader`: a reader over the given
/// bytes.  Text comes through untrimmed; the structural parser trims whole
/// assembled runs itself, so spacing around entity references survives.
#[verifier::external_body]
pub fn xml_source(bytes: Vec<u8>) -> XmlSource {
    let inner = quick_xml::Reader::from_reader(std::io::Cursor::new(bytes));
    XmlSource { inner, buf: Vec::new() }
}

/// Relies on `BytesStart::name` and `Attributes::unescape_value`: the tag's
/// name and its attributes, with entity references in values resolved.
#[verifier::external_body]
fn tag_event(e: &quick_xml::events::BytesStart, empty: bool) -> (r: Result<XmlEvent, OdsError>) {
    let name = e.name().as_ref().to_string();
    let mut attrs: Vec<(String, String)> = Vec::new();
    for a in e.attributes().with_checks(false) {
        match a {
            Ok(a) => match a.unescape_value() {
                Ok(v) => attrs.push((a.key.as_ref().to_string(), v.into_owned())),
                Err(err) => return Err(OdsError::Xml(format!("{}", err))),
            },
            Err(err) => return Err(OdsError::Xml(format!("{}", err))),
        }
    }
    Ok(if empty { XmlEvent::Empty(name, attrs) } else { XmlEvent::Start(name, attrs) })
}

/// Relies on `quick_xml::Reader::read_event_into`: the next event of the
/// document, converted to the plain model; general references come back as
/// resolved text, and anything the content model ignores comes back as the
/// other kind.
#[verifier::external_body]
pub fn next_event(src: &mut XmlSource) -> (r: Result<XmlEvent, OdsError>) {
    src.buf.clear();
    match src.inner.read_event_into(&mut src.buf) {
        Ok(quick_xml::events::Event::Start(e)) => tag_event(&e, false),
        Ok(quick_xml::events::Event::Empty(e)) => tag_event(&e, true),
        Ok(quick_xml::events::Event::End(e)) => Ok(XmlEvent::End(e.name().as_ref().to_string())),
        Ok(quick_xml::events::Event::Text(t)) => text_event(&t),
        Ok(quick_xml::events::Event::GeneralRef(e)) => ref_event(&e),
        Ok(quick_xml::events::Event::Eof) => Ok(XmlEvent::Eof),
        Ok(_) => Ok(XmlEvent::Other),
        Err(err) => Err(OdsError::Xml(format!("{}", err))),
    }
}

/// Relies on `quick_xml::escape::unescape`: the character data with its
/// entity references resolved.
#[verifier::external_body]
fn text_event(t: &quick_xml::events::BytesText) -> (r: Result<XmlEvent, OdsError>) {
    match quick_xml::escape::unescape(t.as_ref()) {
        Ok(s) => Ok(XmlEvent::Text(s.into_owned())),
        Err(err) => Err(OdsError::Xml(format!("{}", err))),
    }
}

/// Relies on `BytesRef::resolve_char_ref` and
/// `escape::resolve_predefined_entity`: the text a general reference stands
/// for.
#[verifier::external_body]
fn ref_event(e: &quick_xml::events::BytesRef) -> (r: Result<XmlEvent, OdsError>) {
    match e.resolve_char_ref() {
        Ok(Some(c)) => Ok(XmlEvent::Text(c.to_string())),
        Ok(None) => match quick_xml::escape::resolve_predefined_entity(e.as_ref()) {
            Some(s) => Ok(XmlEvent::Text(s.to_string())),
            None => Err(OdsError::Xml(format!("unknown entity {}", e.as_ref()))),
        },
        Err(err) => Err(OdsError::Xml(format!("{}", err))),
    }
}

/// An event sink rendering into an in-memory document.
pub struct XmlSink {
    /// The writer holding the bytes rendered so far.
    pub inner: quick_xml::Writer<Vec<u8>>,
}

/// Relies on `quick_xml::Writer::new` and `Writer::write_event` with
/// `BytesDecl`: a sink holding the XML declaration.
#[verifier::external_body]
pub fn xml_sink() -> (r: Result<XmlSink, OdsError>) {
    let mut inner = quick_xml::Writer::new(Vec::new());
    match inner.write_event(quick_xml::events::Event::Decl(
        quick_xml::events::BytesDecl::new("1.0", Some("UTF-8"), None),
    )) {
        Ok(()) => Ok(XmlSink { inner }),
        Err(err) => Err(OdsError::Xml(format!("{}", err))),
    }
}

/// Relies on `BytesStart::push_attribute`: the tag with every attribute
/// attached, values escaped by the library.
#[verifier::external_body]
fn build_tag<'a>(name: &'a str, attrs: &'a Vec<(String, String)>) -> (r: quick_xml::events::BytesStart<'a>) {
    let mut b = quick_xml::events::BytesStart::new(name);
    for a in attrs.iter() {
        b.push_attribute((a.0.as_str(), a.1.as_str()));
    }
    b
}

/// Relies on `Writer::write_event` with `Event::Start`.
#[verifier::external_body]
pub fn sink_start(sink: &mut XmlSink, name: &str, attrs: &Vec<(String, String)>) -> (r: Result<
    (),
    OdsError,
>) {
    sink.inner.write_event(quick_xml::events::Event::Start(build_tag(name, attrs))).map_err(
        |e| OdsError::Xml(format!("{}", e)),
    )
}

/// Relies on `Writer::write_event` with `Event::Empty`.
#[verifier::external_body]
pub fn sink_empty(sink: &mut XmlSink, name: &str, attrs: &Vec<(String, String)>) -> (r: Result<
    (),
    OdsError,
>) {
    sink.inner.write_event(quick_xml::events::Event::Empty(build_tag(name, attrs))).map_err(
        |e| OdsError::Xml(format!("{}", e)),
    )
}

/// Relies on `Writer::write_event` with `Event::End`.
#[verifier::external_body]
pub fn sink_end(sink: &mut XmlSink, name: &str) -> (r: Result<(), OdsError>) {
    sink.inner.write_event(quick_xml::events::Event::End(
        quick_xml::events::BytesEnd::new(name),
    )).map_err(|e| OdsError::Xml(format!("{}", e)))
}

/// Relies on `Writer::write_event` with `Event::Text` and `BytesText::new`,
/// which escapes the content.
#[verifier::external_body]
pub fn sink_text(sink: &mut XmlSink, text: &str) -> (r: Result<(), OdsError>) {
    sink.inner.write_event(quick_xml::events::Event::Text(
        quick_xml::events::BytesText::new(text),
    )).map_err(|e| OdsError::Xml(format!("{}", e)))
}

/// Relies on `Writer::into_inner`: the rendered bytes.
#[verifier::external_body]
pub fn sink_take(sink: XmlSink) -> (r: Vec<u8>) {
    sink.inner.into_inner()
}

/// Pulls every event of a document into the plain model, ending at the end
/// marker.  A stream that yields more events than twice its bytes plus a
/// small fixed allowance is treated as malformed.
pub fn collect_events(bytes: Vec<u8>) -> (r: Result<Vec<XmlEvent>, OdsError>)
    ensures
        r is Ok ==> (r->Ok_0)@.len() > 0,
{
    let cap: usize = if bytes.len() <= usize::MAX / 2 - 1024 {
        2 * bytes.len() + 1024
    } else {
        usize::MAX
    };
    let mut src = xml_source(bytes);
    let mut events: Vec<XmlEvent> = Vec::new();
    let mut n: usize = 0;
    while n < cap
        invariant
            n <= cap,
            events@.len() == n,
        decreases cap - n,
    {
        let ev = next_event(&mut src)?;
        let done = matches!(&ev, XmlEvent::Eof);
        events.push(ev);
        n += 1;
        if done {
            return Ok(events);
        }
    }
    Err(OdsError::Xml("event stream does not end".to_owned()))
}

/// Reads a whole content document from its bytes.
pub fn read_content_bytes(bytes: Vec<u8>) -> (r: Result<crate::book::WorkBook, OdsError>)
    ensures
        r is Ok ==> (r->Ok_0).wf(),
{
    let events = collect_events(bytes)?;
    crate::read::read_content(&events)
}

/// Renders a whole workbook into content-document bytes.
pub fn write_content_bytes(book: &crate::book::WorkBook) -> (r: Result<Vec<u8>, OdsError>)
    requires
        book.wf(),
{
    let events = crate::write::write_ods_content(book);
    let mut sink = xml_sink()?;
    let mut i: usize = 0;
    while i < events.len()
        invariant
            i <= events@.len(),
        decreases events@.len() - i,
    {
        match &events[i] {
            XmlEvent::Start(n, attrs) => {
                sink_start(&mut sink, n.as_str(), attrs)?;
            },
            XmlEvent::Empty(n, attrs) => {
                sink_empty(&mut sink, n.as_str(), attrs)?;
            },
            XmlEvent::End(n) => {
                sink_end(&mut sink, n.as_str())?;
            },
            XmlEvent::Text(t) => {
                sink_text(&mut sink, t.as_str())?;
            },
            XmlEvent::Eof => {},
            XmlEvent::Other => {},
        }
        i += 1;
    }
    Ok(sink_take(sink))
}

} // verus!
