//! Reading XML responses as a sequence of plain events.
use vstd::prelude::*;
use quick_xml::events::Event;

verus! {

#[verifier::external_type_specification]
#[verifier::external_body]
#[verifier::reject_recursive_types(R)]
pub struct ExXmlReader<R>(quick_xml::Reader<R>);

/// One event of an XML document, as plain values.
pub enum XmlEvent {
    /// An opening tag, by local name.
    Start(String),
    /// A closing tag, by local name.
    End(String),
    /// A self-closing tag, by local name.
    Empty(String),
    /// Text, with entities resolved.
    Text(String),
    /// The end of the document.
    Eof,
    /// A syntax error, with its description.
    Error(String),
    /// Anything else (declarations, comments, empty tags).
    Other,
}

pub enum XmlEventView {
    Start(Seq<char>),
    End(Seq<char>),
    Empty(Seq<char>),
    Text(Seq<char>),
    Eof,
    Error(Seq<char>),
    Other,
}

impl View for XmlEvent {
    type V = XmlEventView;

    open spec fn view(&self) -> XmlEventView {
        match self {
            XmlEvent::Start(s) => XmlEventView::Start(s@),
            XmlEvent::End(s) => XmlEventView::End(s@),
            XmlEvent::Empty(s) => XmlEventView::Empty(s@),
            XmlEvent::Text(s) => XmlEventView::Text(s@),
            XmlEvent::Eof => XmlEventView::Eof,
            XmlEvent::Error(s) => XmlEventView::Error(s@),
            XmlEvent::Other => XmlEventView::Other,
        }
    }
}

pub open spec fn is_stop(ev: XmlEventView) -> bool {
    ev is Eof || ev is Error
}

/// The index of the first end of the document or error, if any.
pub open spec fn first_stop(evs: Seq<XmlEventView>, from: int) -> Option<int>
    decreases evs.len() - from,
{
    if from < 0 || from >= evs.len() {
        None
    } else if is_stop(evs[from]) {
        Some(from)
    } else {
        first_stop(evs, from + 1)
    }
}

pub open spec fn events_view(v: Seq<XmlEvent>) -> Seq<XmlEventView> {
    v.map_values(|e: XmlEvent| e@)
}

/// The events quick-xml reads from a text, with `trim_text` set to `trim`,
/// in order, up to and including the first end of document or error.
pub uninterp spec fn xml_event_seq(text: Seq<char>, trim: bool) -> Seq<XmlEventView>;

/// A quick-xml reader over a text, with the text, the trimming and the
/// number of events read so far.
pub struct XmlCursor<'a> {
    reader: quick_xml::Reader<&'a [u8]>,
    text: Ghost<Seq<char>>,
    trim: Ghost<bool>,
    read: Ghost<nat>,
}

impl<'a> XmlCursor<'a> {
    /// The text being read.
    pub closed spec fn source(&self) -> Seq<char> {
        self.text@
    }

    /// Whether white space around text is dropped.
    pub closed spec fn trimmed(&self) -> bool {
        self.trim@
    }

    /// How many events have been read.
    pub closed spec fn position(&self) -> nat {
        self.read@
    }
}

/// `quick_xml::Reader::from_str` and `trim_text`: a reader at the start of
/// the text. Reading a text gives at least one event (its end, if nothing
/// else).
#[verifier::external_body]
fn xml_reader<'a>(body: &'a str, trim: bool) -> (r: XmlCursor<'a>)
    ensures
        r.source() == body@,
        r.trimmed() == trim,
        r.position() == 0,
        xml_event_seq(r.source(), r.trimmed()).len() >= 1,
{
    let mut reader = quick_xml::Reader::from_str(body);
    reader.trim_text(trim);
    XmlCursor { reader, text: Ghost(body@), trim: Ghost(trim), read: Ghost(0) }
}

/// `Reader::read_event_into`: the next event of the text, which is the one
/// at the reader's position among `xml_event_seq`. Tag names are their local
/// names read as UTF-8 (invalid sequences replaced); text that cannot be
/// unescaped reads as empty, as `unescape().unwrap_or_default()` gives it.
/// The event is an end of document or an error exactly when it is the last
/// of the sequence. The reader's position is ghost state: it counts the
/// events read and has no run-time form.
#[verifier::external_body]
fn next_xml_event<'a>(cursor: &mut XmlCursor<'a>) -> (e: XmlEvent)
    requires
        old(cursor).position() < xml_event_seq(old(cursor).source(), old(cursor).trimmed()).len(),
    ensures
        e@ == xml_event_seq(old(cursor).source(), old(cursor).trimmed())[old(cursor).position() as int],
        final(cursor).source() == old(cursor).source(),
        final(cursor).trimmed() == old(cursor).trimmed(),
        final(cursor).position() == old(cursor).position() + 1,
        is_stop(e@) <==> final(cursor).position() == xml_event_seq(final(cursor).source(), final(cursor).trimmed()).len(),
{
    match cursor.reader.read_event_into(&mut Vec::new()) {
        Ok(Event::Start(e)) => XmlEvent::Start(String::from_utf8_lossy(e.local_name().as_ref()).into()),
        Ok(Event::End(e)) => XmlEvent::End(String::from_utf8_lossy(e.local_name().as_ref()).into()),
        Ok(Event::Empty(e)) => XmlEvent::Empty(String::from_utf8_lossy(e.local_name().as_ref()).into()),
        Ok(Event::Text(e)) => XmlEvent::Text(e.unescape().unwrap_or_default().into_owned()),
        Ok(Event::Eof) => XmlEvent::Eof,
        Err(e) => XmlEvent::Error(e.to_string()),
        Ok(_) => XmlEvent::Other,
    }
}

/// Reads the events of an XML text (text trimmed when `trim` is set), up to
/// the end of the document or the first error.
pub fn xml_events(body: &str, trim: bool) -> (evs: Vec<XmlEvent>)
    ensures
        events_view(evs@) == xml_event_seq(body@, trim),
        evs@.len() >= 1,
        forall|i: int| 0 <= i < evs@.len() - 1 ==> !is_stop(#[trigger] evs@[i]@),
        is_stop(evs@.last()@),
{
    let mut cursor = xml_reader(body, trim);
    let ghost all = xml_event_seq(body@, trim);
    let mut evs: Vec<XmlEvent> = Vec::new();
    assert(events_view(evs@) =~= all.take(0));
    loop
        invariant
            cursor.source() == body@,
            cursor.trimmed() == trim,
            all == xml_event_seq(body@, trim),
            cursor.position() == evs@.len(),
            evs@.len() < all.len(),
            events_view(evs@) == all.take(evs@.len() as int),
            forall|i: int| 0 <= i < evs@.len() ==> !is_stop(#[trigger] evs@[i]@),
        decreases all.len() - evs@.len(),
    {
        let ev = next_xml_event(&mut cursor);
        let stop = match &ev {
            XmlEvent::Eof => true,
            XmlEvent::Error(_) => true,
            _ => false,
        };
        let ghost before = evs@;
        evs.push(ev);
        assert(events_view(evs@) =~= all.take(evs@.len() as int)) by {
            assert(events_view(evs@) =~= events_view(before).push(evs@.last()@));
        }
        if stop {
            assert(all.take(evs@.len() as int) =~= all);
            return evs;
        }
    }
}

} // verus!
