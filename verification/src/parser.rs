//! Turning a transcript document into transcript items.
//!
//! YouTube serves transcripts in two XML formats: `<text start= dur=>`
//! elements with times in seconds, and `<p t= d=>` elements with times in
//! milliseconds.
use vstd::prelude::*;

use crate::html_escape::{decode_html_entities, decoded};
use crate::text::{
    chars_of, concat, extend, is_trimmed, lemma_trim_is_trimmed, string_of, trim, trim_chars,
};
use crate::xml::{
    attribute_view, attributes_view, document_events, events_view, read_events, Attribute, XmlEvent, XmlEventView,
};

verus! {

/// One line of a transcript. The times are the raw values of the element's
/// attributes: seconds for `<text>`, milliseconds for `<p>`; a missing
/// attribute is `None`.
#[derive(Debug)]
pub struct TranscriptItem {
    pub text: String,
    pub start: Option<Vec<u8>>,
    pub duration: Option<Vec<u8>>,
    pub milliseconds: bool,
}

/// A `TranscriptItem` with its text and times taken as sequences.
pub struct TranscriptItemView {
    pub text: Seq<char>,
    pub start: Option<Seq<u8>>,
    pub duration: Option<Seq<u8>>,
    pub milliseconds: bool,
}

/// The bytes of an optional byte string.
pub open spec fn opt_bytes_view(o: Option<Vec<u8>>) -> Option<Seq<u8>> {
    match o {
        Some(v) => Some(v@),
        None => None,
    }
}

impl View for TranscriptItem {
    type V = TranscriptItemView;

    open spec fn view(&self) -> TranscriptItemView {
        TranscriptItemView {
            text: self.text@,
            start: opt_bytes_view(self.start),
            duration: opt_bytes_view(self.duration),
            milliseconds: self.milliseconds,
        }
    }
}

/// The views of a list of transcript items.
pub open spec fn items_view(v: Seq<TranscriptItem>) -> Seq<TranscriptItemView> {
    v.map_values(|t: TranscriptItem| t@)
}

/// `text`
pub open spec fn tag_text() -> Seq<u8> {
    seq![0x74u8, 0x65u8, 0x78u8, 0x74u8]
}

/// `p`
pub open spec fn tag_p() -> Seq<u8> {
    seq![0x70u8]
}

/// `s`
pub open spec fn tag_s() -> Seq<u8> {
    seq![0x73u8]
}

/// `br`
pub open spec fn tag_br() -> Seq<u8> {
    seq![0x62u8, 0x72u8]
}

/// The name of the attribute that holds the start time.
pub open spec fn start_key(p_format: bool) -> Seq<u8> {
    if p_format {
        seq![0x74u8]
    } else {
        seq![0x73u8, 0x74u8, 0x61u8, 0x72u8, 0x74u8]
    }
}

/// The name of the attribute that holds the duration.
pub open spec fn duration_key(p_format: bool) -> Seq<u8> {
    if p_format {
        seq![0x64u8]
    } else {
        seq![0x64u8, 0x75u8, 0x72u8]
    }
}

/// The message for a document that ends inside an element.
pub open spec fn eof_message(p_format: bool) -> Seq<char> {
    if p_format {
        "Unexpected EOF in p element"@
    } else {
        "Unexpected EOF in text element"@
    }
}

/// The raw value of the first well-formed attribute named `key`.
pub open spec fn attribute_value(attrs: Seq<Option<(Seq<u8>, Seq<u8>)>>, key: Seq<u8>) -> Option<Seq<u8>>
    decreases attrs.len(),
{
    if attrs.len() == 0 {
        None
    } else {
        match attrs[0] {
            Some(kv) => if kv.0 == key {
                Some(kv.1)
            } else {
                attribute_value(attrs.drop_first(), key)
            },
            None => attribute_value(attrs.drop_first(), key),
        }
    }
}

/// Reads the content of an element from event `i` on, with `acc` read so
/// far: the text up to the closing tag and the index after it, or an error.
/// Text is decoded with `decoded`; in the `<p>` format an `<s>` or `<br>`
/// tag stands for one space.
pub open spec fn element_content(events: Seq<XmlEventView>, i: int, p_format: bool, acc: Seq<char>) -> (
    Result<Seq<char>, Seq<char>>,
    int,
)
    decreases events.len() - i,
{
    if i < 0 || i >= events.len() {
        (Err(eof_message(p_format)), i)
    } else {
        match events[i] {
            XmlEventView::Text { content } => match content {
                Ok(s) => element_content(events, i + 1, p_format, acc + decoded(s)),
                Err(m) => (Err("Failed to unescape: "@ + m), i + 1),
            },
            XmlEventView::End { name } => if name == (if p_format {
                tag_p()
            } else {
                tag_text()
            }) {
                (Ok(acc), i + 1)
            } else {
                element_content(events, i + 1, p_format, acc)
            },
            XmlEventView::Start { name, attributes } => if p_format && (name == tag_s() || name
                == tag_br()) && !(acc.len() > 0 && acc.last() == ' ') {
                element_content(events, i + 1, p_format, acc.push(' '))
            } else {
                element_content(events, i + 1, p_format, acc)
            },
            XmlEventView::Eof => (Err(eof_message(p_format)), i + 1),
            XmlEventView::Failure { message } => (Err("XML parse error: "@ + message), i + 1),
            XmlEventView::Other => element_content(events, i + 1, p_format, acc),
        }
    }
}

/// `element_content` never goes back.
pub proof fn lemma_element_content_advances(
    events: Seq<XmlEventView>,
    i: int,
    p_format: bool,
    acc: Seq<char>,
)
    ensures
        element_content(events, i, p_format, acc).1 >= i,
        0 <= i <= events.len() ==> element_content(events, i, p_format, acc).1 <= events.len(),
    decreases events.len() - i,
{
    if 0 <= i < events.len() {
        match events[i] {
            XmlEventView::Text { content } => match content {
                Ok(s) => lemma_element_content_advances(events, i + 1, p_format, acc + decoded(s)),
                Err(_) => {},
            },
            XmlEventView::Start { name, attributes } => {
                lemma_element_content_advances(events, i + 1, p_format, acc);
                lemma_element_content_advances(events, i + 1, p_format, acc.push(' '));
            },
            _ => {
                lemma_element_content_advances(events, i + 1, p_format, acc);
            },
        }
    }
}

/// The item that an element with the given attributes and text makes:
/// none where the text is blank.
pub open spec fn element_item(attrs: Seq<Option<(Seq<u8>, Seq<u8>)>>, text: Seq<char>, p_format: bool) -> Option<
    TranscriptItemView,
> {
    if trim(text).len() == 0 {
        None
    } else {
        Some(
            TranscriptItemView {
                text: trim(text),
                start: attribute_value(attrs, start_key(p_format)),
                duration: attribute_value(attrs, duration_key(p_format)),
                milliseconds: p_format,
            },
        )
    }
}

/// The transcript items of the events from `i` on, after `items`: one per
/// `<text>` or `<p>` element with text, up to the end of the document; or
/// the first error.
pub open spec fn document_items(events: Seq<XmlEventView>, i: int, items: Seq<TranscriptItemView>) -> Result<
    Seq<TranscriptItemView>,
    Seq<char>,
>
    decreases events.len() - i,
{
    if i < 0 || i >= events.len() {
        Ok(items)
    } else {
        match events[i] {
            XmlEventView::Start { name, attributes } => if name == tag_text() || name == tag_p() {
                let p_format = name == tag_p();
                let read = element_content(events, i + 1, p_format, Seq::empty());
                proof {
                    lemma_element_content_advances(events, i + 1, p_format, Seq::empty());
                }
                match read.0 {
                    Err(m) => Err(m),
                    Ok(text) => document_items(
                        events,
                        read.1,
                        match element_item(attributes, text, p_format) {
                            Some(item) => items.push(item),
                            None => items,
                        },
                    ),
                }
            } else {
                document_items(events, i + 1, items)
            },
            XmlEventView::Eof => Ok(items),
            XmlEventView::Failure { message } => Err("XML parse error: "@ + message),
            _ => document_items(events, i + 1, items),
        }
    }
}

/// Every item has text that is not blank and neither begins nor ends with
/// white space.
pub open spec fn lines_well_formed(items: Seq<TranscriptItemView>) -> bool {
    forall|k: int| 0 <= k < items.len() ==> #[trigger] items[k].text.len() > 0 && is_trimmed(
        items[k].text,
    )
}

/// A parsed transcript has no blank lines, and no line begins or ends with
/// white space; `<text>` lines carry times in seconds and `<p>` lines in
/// milliseconds.
pub proof fn lemma_document_items_well_formed(
    events: Seq<XmlEventView>,
    i: int,
    items: Seq<TranscriptItemView>,
)
    requires
        lines_well_formed(items),
    ensures
        document_items(events, i, items) matches Ok(r) ==> lines_well_formed(r),
    decreases events.len() - i,
{
    if 0 <= i < events.len() {
        match events[i] {
            XmlEventView::Start { name, attributes } => {
                if name == tag_text() || name == tag_p() {
                    let p_format = name == tag_p();
                    let read = element_content(events, i + 1, p_format, Seq::empty());
                    lemma_element_content_advances(events, i + 1, p_format, Seq::empty());
                    if let Ok(text) = read.0 {
                        lemma_trim_is_trimmed(text);
                        let next_items = match element_item(attributes, text, p_format) {
                            Some(item) => items.push(item),
                            None => items,
                        };
                        assert(lines_well_formed(next_items));
                        lemma_document_items_well_formed(events, read.1, next_items);
                    }
                } else {
                    lemma_document_items_well_formed(events, i + 1, items);
                }
            },
            XmlEventView::Eof => {},
            XmlEventView::Failure { message } => {},
            _ => {
                lemma_document_items_well_formed(events, i + 1, items);
            },
        }
    }
}

/// Whether two byte strings are equal.
fn same_bytes(a: &[u8], b: &[u8]) -> (r: bool)
    ensures
        r == (a@ == b@),
{
    if a.len() != b.len() {
        return false;
    }
    let mut i: usize = 0;
    while i < a.len()
        invariant
            a@.len() == b@.len(),
            i <= a@.len(),
            forall|j: int| 0 <= j < i ==> a@[j] == b@[j],
        decreases a.len() - i,
    {
        if a[i] != b[i] {
            return false;
        }
        i += 1;
    }
    assert(a@ =~= b@);
    true
}

/// The raw value of the first well-formed attribute named `key`.
fn find_attribute(attrs: &Vec<Attribute>, key: &[u8]) -> (r: Option<Vec<u8>>)
    ensures
        opt_bytes_view(r) == attribute_value(attributes_view(attrs@), key@),
{
    let ghost av = attributes_view(attrs@);
    let mut i: usize = 0;
    assert(av.skip(0) =~= av);
    while i < attrs.len()
        invariant
            av == attributes_view(attrs@),
            i <= attrs@.len(),
            attribute_value(av, key@) == attribute_value(av.skip(i as int), key@),
        decreases attrs.len() - i,
    {
        assert(av.skip(i as int).drop_first() =~= av.skip(i + 1));
        assert(av.skip(i as int)[0] == attribute_view(attrs@[i as int]));
        if let Some(kv) = &attrs[i] {
            if same_bytes(kv.0.as_slice(), key) {
                return Some(kv.1.clone());
            }
        }
        i += 1;
    }
    None
}

/// The content of the element whose events start at `start`.
fn read_element(events: &Vec<XmlEvent>, start: usize, p_format: bool) -> (r: (
    Result<Vec<char>, String>,
    usize,
))
    ensures
        element_content(events_view(events@), start as int, p_format, Seq::empty()) == (
            match r.0 {
                Ok(t) => Ok(t@),
                Err(m) => Err(m@),
            },
            r.1 as int,
        ),
{
    let closing: [u8; 4] = if p_format {
        [0x70u8, 0, 0, 0]
    } else {
        [0x74u8, 0x65u8, 0x78u8, 0x74u8]
    };
    let closing_len: usize = if p_format {
        1
    } else {
        4
    };
    let closing_name = &closing[0..closing_len];
    assert(closing_name@ =~= (if p_format {
        tag_p()
    } else {
        tag_text()
    }));
    let s_name: [u8; 1] = [0x73u8];
    let br_name: [u8; 2] = [0x62u8, 0x72u8];
    assert(s_name@ =~= tag_s());
    assert(br_name@ =~= tag_br());
    let mut acc: Vec<char> = Vec::new();
    let mut i = start;
    if i > events.len() {
        return (Err(eof_text(p_format)), i);
    }
    while i < events.len()
        invariant
            start <= i <= events@.len(),
            closing_name@ == (if p_format {
                tag_p()
            } else {
                tag_text()
            }),
            s_name@ == tag_s(),
            br_name@ == tag_br(),
            element_content(events_view(events@), start as int, p_format, Seq::empty()) == element_content(
                events_view(events@),
                i as int,
                p_format,
                acc@,
            ),
        decreases events.len() - i,
    {
        assert(events_view(events@)[i as int] == events@[i as int]@);
        match &events[i] {
            XmlEvent::Text { content } => match content {
                Ok(s) => {
                    let d = decode_html_entities(s.as_str());
                    let dc = chars_of(d.as_str());
                    extend(&mut acc, dc.as_slice());
                },
                Err(m) => {
                    return (Err(concat("Failed to unescape: ", m.as_str())), i + 1);
                },
            },
            XmlEvent::End { name } => {
                if same_bytes(name.as_slice(), closing_name) {
                    return (Ok(acc), i + 1);
                }
            },
            XmlEvent::Start { name, attributes } => {
                if p_format && (same_bytes(name.as_slice(), s_name.as_slice()) || same_bytes(
                    name.as_slice(),
                    br_name.as_slice(),
                )) {
                    if !(acc.len() > 0 && acc[acc.len() - 1] == ' ') {
                        acc.push(' ');
                    }
                }
            },
            XmlEvent::Eof => {
                return (Err(eof_text(p_format)), i + 1);
            },
            XmlEvent::Failure { message } => {
                return (Err(concat("XML parse error: ", message.as_str())), i + 1);
            },
            XmlEvent::Other => {},
        }
        i += 1;
    }
    (Err(eof_text(p_format)), i)
}

/// The message for a document that ends inside an element.
fn eof_text(p_format: bool) -> (r: String)
    ensures
        r@ == eof_message(p_format),
{
    if p_format {
        crate::text::owned("Unexpected EOF in p element")
    } else {
        crate::text::owned("Unexpected EOF in text element")
    }
}

/// The transcript items of a document given as its events, as
/// `document_items` says.
pub fn items_from_events(events: &Vec<XmlEvent>) -> (r: Result<Vec<TranscriptItem>, String>)
    ensures
        match r {
            Ok(items) => document_items(events_view(events@), 0, Seq::empty()) == Ok::<
                Seq<TranscriptItemView>,
                Seq<char>,
            >(items_view(items@)),
            Err(m) => document_items(events_view(events@), 0, Seq::empty()) == Err::<
                Seq<TranscriptItemView>,
                Seq<char>,
            >(m@),
        },
{
    let text_name: [u8; 4] = [0x74u8, 0x65u8, 0x78u8, 0x74u8];
    let p_name: [u8; 1] = [0x70u8];
    let start_text: [u8; 5] = [0x73u8, 0x74u8, 0x61u8, 0x72u8, 0x74u8];
    let dur_text: [u8; 3] = [0x64u8, 0x75u8, 0x72u8];
    let start_p: [u8; 1] = [0x74u8];
    let dur_p: [u8; 1] = [0x64u8];
    assert(text_name@ =~= tag_text());
    assert(p_name@ =~= tag_p());
    assert(start_text@ =~= start_key(false));
    assert(dur_text@ =~= duration_key(false));
    assert(start_p@ =~= start_key(true));
    assert(dur_p@ =~= duration_key(true));
    let mut items: Vec<TranscriptItem> = Vec::new();
    let mut i: usize = 0;
    assert(items_view(items@) =~= Seq::<TranscriptItemView>::empty());
    while i < events.len()
        invariant
            i <= events@.len(),
            text_name@ == tag_text(),
            p_name@ == tag_p(),
            start_text@ == start_key(false),
            dur_text@ == duration_key(false),
            start_p@ == start_key(true),
            dur_p@ == duration_key(true),
            document_items(events_view(events@), 0, Seq::empty()) == document_items(
                events_view(events@),
                i as int,
                items_view(items@),
            ),
        decreases events.len() - i,
    {
        assert(events_view(events@)[i as int] == events@[i as int]@);
        match &events[i] {
            XmlEvent::Start { name, attributes } => {
                let is_text = same_bytes(name.as_slice(), text_name.as_slice());
                let is_p = same_bytes(name.as_slice(), p_name.as_slice());
                if is_text || is_p {
                    proof {
                        lemma_element_content_advances(events_view(events@), i + 1, is_p, Seq::empty());
                    }
                    let (content, next) = read_element(events, i + 1, is_p);
                    match content {
                        Err(m) => {
                            return Err(m);
                        },
                        Ok(text) => {
                            let trimmed = trim_chars(text.as_slice());
                            if trimmed.len() > 0 {
                                let item = TranscriptItem {
                                    text: string_of(trimmed.as_slice()),
                                    start: find_attribute(
                                        attributes,
                                        if is_p {
                                            start_p.as_slice()
                                        } else {
                                            start_text.as_slice()
                                        },
                                    ),
                                    duration: find_attribute(
                                        attributes,
                                        if is_p {
                                            dur_p.as_slice()
                                        } else {
                                            dur_text.as_slice()
                                        },
                                    ),
                                    milliseconds: is_p,
                                };
                                let ghost before = items_view(items@);
                                let ghost iv = item@;
                                items.push(item);
                                assert(items_view(items@) =~= before.push(iv));
                            }
                            i = next;
                        },
                    }
                } else {
                    i += 1;
                }
            },
            XmlEvent::Eof => {
                return Ok(items);
            },
            XmlEvent::Failure { message } => {
                return Err(concat("XML parse error: ", message.as_str()));
            },
            _ => {
                i += 1;
            },
        }
    }
    Ok(items)
}

/// Parses transcript documents.
pub struct TranscriptParser {
    _preserve_formatting: bool,
}

impl TranscriptParser {
    /// Whether the parser was asked to preserve formatting.
    pub closed spec fn preserves_formatting(&self) -> bool {
        self._preserve_formatting
    }

    /// A parser; formatting is never preserved, whatever is asked.
    pub fn new(preserve_formatting: bool) -> (r: Self)
        ensures
            r.preserves_formatting() == preserve_formatting,
    {
        Self { _preserve_formatting: preserve_formatting }
    }

    /// The transcript items of the XML document `xml`: those of the events
    /// that `quick_xml` reads from it, up to the end or the first error.
    /// The result depends on the document alone, whatever the parser was
    /// asked about formatting.
    pub fn parse(&self, xml: &str) -> (r: Result<Vec<TranscriptItem>, String>)
        ensures
            match r {
                Ok(items) => parsed_document(xml@) == Ok::<Seq<TranscriptItemView>, Seq<char>>(
                    items_view(items@),
                ),
                Err(m) => parsed_document(xml@) == Err::<Seq<TranscriptItemView>, Seq<char>>(m@),
            },
    {
        let events = read_events(xml);
        items_from_events(&events)
    }
}

/// The transcript items of the XML document `xml`, or the parse error.
pub open spec fn parsed_document(xml: Seq<char>) -> Result<Seq<TranscriptItemView>, Seq<char>> {
    document_items(document_events(xml), 0, Seq::empty())
}

} // verus!
