//! Reading XML events with `quick_xml`, as plain values.
use vstd::prelude::*;

use quick_xml::events::{BytesStart, Event};
use quick_xml::Reader;

verus! {

#[verifier::external_type_specification]
#[verifier::external_body]
#[verifier::reject_recursive_types(R)]
pub struct ExReader<R>(Reader<R>);

#[verifier::external_type_specification]
#[verifier::external_body]
pub struct ExBytesStart<'a>(BytesStart<'a>);

/// An attribute of a start tag: its key and raw value, or `None` where
/// `quick_xml` reports it malformed.
pub type Attribute = Option<(Vec<u8>, Vec<u8>)>;

/// One event of an XML document, as the transcript parser reads it.
pub enum XmlEvent {
    /// An opening tag, with its name and attributes in order.
    Start { name: Vec<u8>, attributes: Vec<Attribute> },
    /// A closing tag.
    End { name: Vec<u8> },
    /// Text between tags, unescaped, or the message of the unescaping error.
    Text { content: Result<String, String> },
    /// The end of the document.
    Eof,
    /// A syntax error, with its message.
    Failure { message: String },
    /// Any other event: comments, declarations, self-closing tags.
    Other,
}

/// An `XmlEvent` with its bytes and strings taken as sequences.
pub enum XmlEventView {
    Start { name: Seq<u8>, attributes: Seq<Option<(Seq<u8>, Seq<u8>)>> },
    End { name: Seq<u8> },
    Text { content: Result<Seq<char>, Seq<char>> },
    Eof,
    Failure { message: Seq<char> },
    Other,
}

/// The view of an attribute.
pub open spec fn attribute_view(a: Attribute) -> Option<(Seq<u8>, Seq<u8>)> {
    match a {
        Some(kv) => Some((kv.0@, kv.1@)),
        None => None,
    }
}

/// The views of a list of attributes.
pub open spec fn attributes_view(v: Seq<Attribute>) -> Seq<Option<(Seq<u8>, Seq<u8>)>> {
    v.map_values(|a: Attribute| attribute_view(a))
}

impl View for XmlEvent {
    type V = XmlEventView;

    open spec fn view(&self) -> XmlEventView {
        match self {
            XmlEvent::Start { name, attributes } => XmlEventView::Start {
                name: name@,
                attributes: attributes_view(attributes@),
            },
            XmlEvent::End { name } => XmlEventView::End { name: name@ },
            XmlEvent::Text { content } => XmlEventView::Text {
                content: match content {
                    Ok(s) => Ok(s@),
                    Err(m) => Err(m@),
                },
            },
            XmlEvent::Eof => XmlEventView::Eof,
            XmlEvent::Failure { message } => XmlEventView::Failure { message: message@ },
            XmlEvent::Other => XmlEventView::Other,
        }
    }
}

/// The views of a list of events.
pub open spec fn events_view(v: Seq<XmlEvent>) -> Seq<XmlEventView> {
    v.map_values(|e: XmlEvent| e@)
}

/// The event that `read_event` returns on its call number `index` (from 0)
/// on `Reader::from_str(xml)` set to `trim_text(true)`: a start tag with the
/// raw values of its attributes, an end tag, text with
/// `BytesText::unescape` applied, the end of the document, an error with
/// its message, or another event.
pub uninterp spec fn quick_xml_event(xml: Seq<char>, index: nat) -> XmlEventView;

/// The end of the document or an error: the events after it are ends of
/// the document.
pub open spec fn is_last_event(e: XmlEventView) -> bool {
    e is Eof || e is Failure
}

/// A reader of the XML events of a text, with the text and the number of
/// events read so far.
pub struct EventReader<'a> {
    reader: Reader<&'a [u8]>,
    source: Ghost<Seq<char>>,
    count: Ghost<nat>,
}

impl<'a> EventReader<'a> {
    /// The text being read.
    pub closed spec fn source(&self) -> Seq<char> {
        self.source@
    }

    /// The number of events read so far.
    pub closed spec fn count(&self) -> nat {
        self.count@
    }

    /// `Reader::from_str(xml)` with `trim_text(true)`: a reader at the start
    /// of `xml` that leaves out white space around text.
    #[verifier::external_body]
    pub fn new(xml: &'a str) -> (r: Self)
        ensures
            r.source() == xml@,
            r.count() == 0,
    {
        let mut reader = Reader::from_str(xml);
        reader.trim_text(true);
        EventReader { reader, source: Ghost(xml@), count: Ghost(0) }
    }

    /// `Reader::read_event`, with the event converted to plain values: the
    /// event that `quick_xml_event` names for the text and the number of
    /// events read. Every event before the end of the document or an error
    /// consumes at least one byte of the text, so such an event comes only
    /// while fewer events than bytes were read.
    #[verifier::external_body]
    pub fn next(&mut self) -> (e: XmlEvent)
        ensures
            e@ == quick_xml_event(old(self).source(), old(self).count()),
            final(self).source() == old(self).source(),
            final(self).count() == old(self).count() + 1,
            !is_last_event(e@) ==> old(self).count() < vstd::utf8::encode_utf8(
                old(self).source(),
            ).len(),
    {
        let event = match self.reader.read_event() {
            Ok(Event::Start(e)) => start_event(&e),
            Ok(Event::End(e)) => XmlEvent::End { name: e.name().as_ref().to_vec() },
            Ok(Event::Text(e)) => XmlEvent::Text {
                content: e.unescape().map(|s| s.into_owned()).map_err(|x| x.to_string()),
            },
            Ok(Event::Eof) => XmlEvent::Eof,
            Ok(_) => XmlEvent::Other,
            Err(e) => XmlEvent::Failure { message: e.to_string() },
        };
        self.count = Ghost(self.count@ + 1);
        event
    }
}

/// `BytesStart::name` and `BytesStart::attributes`: an opening tag as a
/// plain event, with the raw value of each attribute. Called only by
/// `EventReader::next`, whose contract covers the result.
#[verifier::external_body]
fn start_event(e: &BytesStart) -> XmlEvent {
    XmlEvent::Start {
        name: e.name().as_ref().to_vec(),
        attributes: e.attributes().map(|a| a.ok().map(|a| (a.key.as_ref().to_vec(), a.value.to_vec()))).collect(),
    }
}

/// The events of `xml` up to `n`: those that `quick_xml_event` names.
pub open spec fn events_up_to(xml: Seq<char>, n: nat) -> Seq<XmlEventView> {
    Seq::new(n, |i: int| quick_xml_event(xml, i as nat))
}

/// The index of the first event of `xml` that ends the document or reports
/// an error.
pub open spec fn last_event_index(xml: Seq<char>) -> nat {
    choose|k: nat|
        is_last_event(quick_xml_event(xml, k)) && forall|j: nat|
            j < k ==> !is_last_event(#[trigger] quick_xml_event(xml, j))
}

/// The events of `xml`, up to and with the end of the document or the first
/// error.
pub open spec fn document_events(xml: Seq<char>) -> Seq<XmlEventView> {
    events_up_to(xml, last_event_index(xml) + 1)
}

/// The events of `xml`, up to the end of the document or the first error.
pub fn read_events(xml: &str) -> (r: Vec<XmlEvent>)
    ensures
        events_view(r@) == document_events(xml@),
{
    let mut reader = EventReader::new(xml);
    let mut events: Vec<XmlEvent> = Vec::new();
    let ghost bytes = vstd::utf8::encode_utf8(xml@).len();
    loop
        invariant_except_break
            reader.source() == xml@,
            reader.count() == events@.len(),
            reader.count() <= bytes,
            bytes == vstd::utf8::encode_utf8(xml@).len(),
            events_view(events@) == events_up_to(xml@, reader.count()),
            forall|j: nat| j < reader.count() ==> !is_last_event(#[trigger] quick_xml_event(xml@, j)),
        ensures
            events_view(events@) == document_events(xml@),
        decreases bytes - reader.count(),
    {
        let ghost n = reader.count();
        let event = reader.next();
        let last = match &event {
            XmlEvent::Eof => true,
            XmlEvent::Failure { .. } => true,
            _ => false,
        };
        let ghost ev = event@;
        let ghost before = events@;
        events.push(event);
        assert(events@ == before.push(events@[n as int]));
        assert(ev == quick_xml_event(xml@, n));
        assert forall|k: int| 0 <= k < n + 1 implies #[trigger] events_view(events@)[k]
            == events_up_to(xml@, n + 1)[k] by {
            if k < n {
                assert(events_view(events@)[k] == events_view(before)[k]);
                assert(events_view(before)[k] == events_up_to(xml@, n)[k]);
            }
        }
        assert(events_view(events@) =~= events_up_to(xml@, n + 1));
        if last {
            assert(is_last_event(quick_xml_event(xml@, n)));
            assert(last_event_index(xml@) == n) by {
                let k = last_event_index(xml@);
                assert(is_last_event(quick_xml_event(xml@, k)) && forall|j: nat|
                    j < k ==> !is_last_event(#[trigger] quick_xml_event(xml@, j)));
                if k < n {
                } else if k > n {
                    assert(!is_last_event(quick_xml_event(xml@, n)));
                }
            }
            break;
        }
    }
    events
}

} // verus!
