//! The stream of markup events that the loaders consume, and the reader that
//! produces it from a document held in memory.
use vstd::prelude::*;
use xml::reader::EventReader;
use xml::reader::XmlEvent;

verus! {

/// One attribute of an element.
#[derive(Debug, PartialEq, Eq)]
pub struct Attribute {
    pub name: String,
    pub value: String,
}

/// One event of a markup stream.
#[derive(Debug, PartialEq, Eq)]
pub enum MarkupEvent {
    /// An element opens.
    Start { name: String, attributes: Vec<Attribute> },
    /// Character data between tags.
    Text(String),
    /// An element closes.
    End { name: String },
    /// The document ended as it should.
    Finished,
    /// The document is malformed from here on.
    Malformed { message: String },
    /// Anything the loaders pay no attention to.
    Other,
}

/// The mathematical value of an event.
pub enum MarkupEventView {
    Start { name: Seq<char>, attributes: Seq<(Seq<char>, Seq<char>)> },
    Text(Seq<char>),
    End { name: Seq<char> },
    Finished,
    Malformed { message: Seq<char> },
    Other,
}

impl View for Attribute {
    type V = (Seq<char>, Seq<char>);

    open spec fn view(&self) -> (Seq<char>, Seq<char>) {
        (self.name@, self.value@)
    }
}

impl View for MarkupEvent {
    type V = MarkupEventView;

    open spec fn view(&self) -> MarkupEventView {
        match self {
            MarkupEvent::Start { name, attributes } => MarkupEventView::Start {
                name: name@,
                attributes: attribute_views(attributes@),
            },
            MarkupEvent::Text(text) => MarkupEventView::Text(text@),
            MarkupEvent::End { name } => MarkupEventView::End { name: name@ },
            MarkupEvent::Finished => MarkupEventView::Finished,
            MarkupEvent::Malformed { message } => MarkupEventView::Malformed { message: message@ },
            MarkupEvent::Other => MarkupEventView::Other,
        }
    }
}

/// The values of attributes.
pub open spec fn attribute_views(attributes: Seq<Attribute>) -> Seq<(Seq<char>, Seq<char>)> {
    attributes.map_values(|a: Attribute| a@)
}

/// The values of events.
pub open spec fn event_views(events: Seq<MarkupEvent>) -> Seq<MarkupEventView> {
    events.map_values(|e: MarkupEvent| e@)
}

impl MarkupEventView {
    /// After a terminal event the stream delivers nothing new.
    pub open spec fn is_terminal(self) -> bool {
        self is Finished || self is Malformed
    }
}

/// A stream is a run of ordinary events closed by exactly one terminal event.
pub open spec fn is_event_stream(events: Seq<MarkupEventView>) -> bool {
    &&& events.len() >= 1
    &&& events.last().is_terminal()
    &&& forall|i: int| 0 <= i < events.len() - 1 ==> !(#[trigger] events[i]).is_terminal()
}

/// The message of the error that ends the stream, if an error ends it.
pub open spec fn stream_error(events: Seq<MarkupEventView>) -> Option<Seq<char>>
    decreases events.len(),
{
    if events.len() == 0 {
        None
    } else {
        match events[0] {
            MarkupEventView::Finished => None,
            MarkupEventView::Malformed { message } => Some(message),
            _ => stream_error(events.skip(1)),
        }
    }
}

/// The document was malformed from some point on. What was taken from it
/// before that point is kept.
#[derive(Debug, PartialEq, Eq)]
pub struct MarkupStreamError {
    pub message: String,
}

/// The message of an error that may have ended a stream.
pub open spec fn error_view(error: Option<MarkupStreamError>) -> Option<Seq<char>> {
    match error {
        Some(e) => Some(e.message@),
        None => None,
    }
}

/// A pull parser over a document held in memory: the `EventReader` of the
/// `xml` crate over the bytes. Its inside is hidden from the proofs; what
/// they know of a reader is what `pending_events` says of it.
#[verifier::external_body]
pub struct MarkupReader<'a> {
    inner: EventReader<&'a [u8]>,
}

/// The events that the parser yields for a document, up to and including the
/// first terminal one.
pub uninterp spec fn document_events(bytes: Seq<u8>) -> Seq<MarkupEventView>;

/// The events that a reader has yet to deliver, up to and including the
/// terminal one.
pub uninterp spec fn pending_events(reader: &MarkupReader) -> Seq<MarkupEventView>;

/// `EventReader::new` over a byte slice: nothing is read yet, so everything
/// the document holds is pending. Parsing a finite document ends in
/// `EndDocument` or in an error.
#[verifier::external_body]
pub(crate) fn open_document<'a>(bytes: &'a [u8]) -> (reader: MarkupReader<'a>)
    ensures
        pending_events(&reader) == document_events(bytes@),
        is_event_stream(pending_events(&reader)),
{
    MarkupReader { inner: EventReader::new(bytes) }
}

/// `EventReader::next` delivers the first pending event. A terminal event
/// (`EndDocument`, or an error) is delivered again by every later call; any
/// other event is consumed. Names, and the message of an error, are rendered
/// as the parser displays them.
#[verifier::external_body]
pub(crate) fn next_event(reader: &mut MarkupReader) -> (event: MarkupEvent)
    requires
        pending_events(old(reader)).len() >= 1,
    ensures
        event@ == pending_events(old(reader))[0],
        pending_events(final(reader)) == if event@.is_terminal() {
            pending_events(old(reader))
        } else {
            pending_events(old(reader)).skip(1)
        },
{
    match reader.inner.next() {
        Ok(XmlEvent::StartElement { name, attributes, .. }) => MarkupEvent::Start {
            name: name.to_string(),
            attributes: attributes.into_iter().map(
                |a| Attribute { name: a.name.to_string(), value: a.value },
            ).collect(),
        },
        Ok(XmlEvent::Characters(text)) => MarkupEvent::Text(text),
        Ok(XmlEvent::EndElement { name }) => MarkupEvent::End { name: name.to_string() },
        Ok(XmlEvent::EndDocument) => MarkupEvent::Finished,
        Ok(_) => MarkupEvent::Other,
        Err(e) => MarkupEvent::Malformed { message: e.to_string() },
    }
}

/// Reads a whole document into its events.
pub fn read_events(bytes: &[u8]) -> (events: Vec<MarkupEvent>)
    ensures
        event_views(events@) == document_events(bytes@),
{
    let mut reader = open_document(bytes);
    let mut events: Vec<MarkupEvent> = Vec::new();
    let ghost all = document_events(bytes@);
    loop
        invariant_except_break
            is_event_stream(pending_events(&reader)),
            is_event_stream(all),
            0 <= events@.len() < all.len(),
            pending_events(&reader) == all.skip(events@.len() as int),
            event_views(events@) == all.take(events@.len() as int),
        ensures
            event_views(events@) == all,
        decreases pending_events(&reader).len(),
    {
        let ghost n = events@.len() as int;
        let event = next_event(&mut reader);
        let done = match &event {
            MarkupEvent::Finished => true,
            MarkupEvent::Malformed { .. } => true,
            _ => false,
        };
        proof {
            assert(event@ == all[n]);
            assert(all.take(n + 1) == all.take(n).push(all[n]));
            assert(all.skip(n).skip(1) == all.skip(n + 1));
        }
        events.push(event);
        if done {
            proof {
                // The terminal event is the last of the stream.
                assert(n == all.len() - 1);
                assert(all.take(n + 1) == all);
            }
            break;
        }
    }
    events
}

} // verus!
