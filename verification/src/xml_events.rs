//! The event stream of an XML document as `quick_xml`'s namespace-aware reader produces it,
//! held as plain values.
use vstd::prelude::*;
use quick_xml::events::{BytesStart, BytesText, Event};
use quick_xml::name::ResolveResult;
use quick_xml::reader::NsReader;
use std::io::Cursor;

verus! {

#[verifier::external_type_specification]
#[verifier::external_body]
pub struct ExXmlEvent<'a>(Event<'a>);

#[verifier::external_type_specification]
#[verifier::external_body]
pub struct ExBytesStart<'a>(BytesStart<'a>);

#[verifier::external_type_specification]
#[verifier::external_body]
pub struct ExBytesText<'a>(BytesText<'a>);

#[verifier::external_type_specification]
#[verifier::external_body]
#[verifier::reject_recursive_types(R)]
pub struct ExNsReader<R>(NsReader<R>);

#[verifier::external_type_specification]
#[verifier::external_body]
#[verifier::reject_recursive_types(T)]
pub struct ExCursor<T>(Cursor<T>);

/// What kind of reader event an [`XmlEvent`] is.
#[derive(Debug, Clone, Copy, PartialEq, Eq, Structural)]
pub enum XmlEventKind {
    /// `<tag ...>`
    Start,
    /// `<tag ... />`
    Empty,
    /// `</tag>`
    End,
    /// Character data whose entities were resolved; `text` holds it.
    Text,
    /// Character data whose entities could not be resolved; `text` holds the error message.
    BadText,
    /// `<!DOCTYPE ...>`
    DocType,
    /// End of the document.
    Eof,
    /// The reader failed; `text` holds the error message. After a well-formedness error or a
    /// namespace-resolution error the reader goes on with the rest of the document; after any
    /// other error the next event is `Eof`.
    Error,
    /// Anything else (declaration, comment, CDATA, processing instruction).
    Other,
}

/// One reader event: its raw qualified name (tags), its resolved namespace URI (tags bound to
/// a namespace), its attributes as raw key and entity-resolved value (an attribute whose value
/// does not resolve reads as empty; a malformed attribute is left out), and its text.
#[derive(Debug, Clone)]
pub struct XmlEvent {
    pub kind: XmlEventKind,
    pub raw: Vec<u8>,
    pub ns: Vec<u8>,
    pub attrs: Vec<(Vec<u8>, String)>,
    pub text: String,
}

pub struct XmlEventView {
    pub kind: XmlEventKind,
    pub raw: Seq<u8>,
    pub ns: Seq<u8>,
    pub attrs: Seq<(Seq<u8>, Seq<char>)>,
    pub text: Seq<char>,
}

impl View for XmlEvent {
    type V = XmlEventView;

    open spec fn view(&self) -> XmlEventView {
        XmlEventView {
            kind: self.kind,
            raw: self.raw@,
            ns: self.ns@,
            attrs: self.attrs@.map_values(|a: (Vec<u8>, String)| (a.0@, a.1@)),
            text: self.text@,
        }
    }
}

pub open spec fn events_view(v: Seq<XmlEvent>) -> Seq<XmlEventView> {
    v.map_values(|e: XmlEvent| e@)
}

/// The event that the call numbered `i` (from 0) of
/// `quick_xml::reader::NsReader::read_resolved_event_into` yields on a reader made by
/// `NsReader::from_reader` over `data`, errors included.
pub uninterp spec fn xml_event_at(data: Seq<u8>, i: nat) -> XmlEventView;

/// The document a reader reads.
pub uninterp spec fn reader_input(r: NsReader<Cursor<Vec<u8>>>) -> Seq<u8>;

/// How many events a reader has yielded so far.
pub uninterp spec fn reader_reads(r: NsReader<Cursor<Vec<u8>>>) -> nat;

/// The event at `i` is an `Eof`.
pub open spec fn eof_at(data: Seq<u8>, i: nat) -> bool {
    xml_event_at(data, i).kind == XmlEventKind::Eof
}

/// The position of the first `Eof` in the events of `data`.
pub open spec fn first_eof(data: Seq<u8>) -> nat {
    choose|k: nat| eof_at(data, k) && forall|j: nat| j < k ==> !eof_at(data, j)
}

/// The events of `data` up to and including the first `Eof`.
pub open spec fn xml_event_stream(data: Seq<u8>) -> Seq<XmlEventView> {
    Seq::new(first_eof(data) + 1, |i: int| xml_event_at(data, i as nat))
}

/// A stream ends with its only `Eof` event.
pub open spec fn terminated(evs: Seq<XmlEventView>) -> bool {
    &&& evs.len() >= 1
    &&& evs.last().kind == XmlEventKind::Eof
    &&& forall|i: int| 0 <= i < evs.len() - 1 ==> (#[trigger] evs[i]).kind != XmlEventKind::Eof
}

impl XmlEvent {
    /// An event holding the reader's error message.
    pub fn error(text: String) -> (e: XmlEvent)
        ensures
            e.kind == XmlEventKind::Error,
            e.raw@.len() == 0,
            e.ns@.len() == 0,
            e.attrs@.len() == 0,
            e.text == text,
    {
        XmlEvent { kind: XmlEventKind::Error, raw: Vec::new(), ns: Vec::new(), attrs: Vec::new(), text }
    }

    /// An event of `kind` with a name and no attributes or text.
    pub fn bare(kind: XmlEventKind, raw: Vec<u8>, ns: Vec<u8>) -> (e: XmlEvent)
        ensures
            e.kind == kind,
            e.raw == raw,
            e.ns == ns,
            e.attrs@.len() == 0,
            e.text@.len() == 0,
    {
        XmlEvent { kind, raw, ns, attrs: Vec::new(), text: String::new() }
    }
}

/// Converts one `quick_xml` tag event of `kind`: its raw name, and `attributes()` with
/// malformed ones left out, each as its raw key and `unescape_value()` (empty when that
/// fails). Part of [`read_event`]'s conversion of what the reader yields.
#[verifier::external_body]
fn tag_event(kind: XmlEventKind, ns: Vec<u8>, e: &BytesStart) -> XmlEvent {
    let attrs = e.attributes().flatten().map(|a| {
        (a.key.as_ref().to_vec(), a.unescape_value().map(|v| v.into_owned()).unwrap_or_default())
    }).collect();
    XmlEvent { kind, raw: e.name().as_ref().to_vec(), ns, attrs, text: String::new() }
}

/// Converts one `quick_xml` text event: `unescape()`, or its error's message. Part of
/// [`read_event`]'s conversion of what the reader yields.
#[verifier::external_body]
fn text_event(t: BytesText) -> XmlEvent {
    let (kind, text) = match t.unescape() {
        Ok(s) => (XmlEventKind::Text, s.into_owned()),
        Err(e) => (XmlEventKind::BadText, e.to_string()),
    };
    XmlEvent { kind, raw: Vec::new(), ns: Vec::new(), attrs: Vec::new(), text }
}

/// Converts one `quick_xml` event, given the namespace its name resolved to. Part of
/// [`read_event`]'s conversion of what the reader yields.
#[verifier::external_body]
fn event_of(ns: Vec<u8>, ev: Event) -> XmlEvent {
    match ev {
        Event::Start(e) => tag_event(XmlEventKind::Start, ns, &e),
        Event::Empty(e) => tag_event(XmlEventKind::Empty, ns, &e),
        Event::End(e) => XmlEvent::bare(XmlEventKind::End, e.name().as_ref().to_vec(), ns),
        Event::Text(t) => text_event(t),
        Event::DocType(_) => XmlEvent::bare(XmlEventKind::DocType, Vec::new(), Vec::new()),
        Event::Eof => XmlEvent::bare(XmlEventKind::Eof, Vec::new(), Vec::new()),
        _ => XmlEvent::bare(XmlEventKind::Other, Vec::new(), Vec::new()),
    }
}

/// `quick_xml::reader::NsReader::from_reader` over a copy of `data`: a reader of `data` that
/// has yielded nothing yet.
#[verifier::external_body]
fn open_reader(data: &[u8]) -> (r: NsReader<Cursor<Vec<u8>>>)
    ensures
        reader_input(r) == data@,
        reader_reads(r) == 0,
{
    NsReader::from_reader(Cursor::new(data.to_vec()))
}

/// `quick_xml::reader::NsReader::read_resolved_event_into`: the next event, with the
/// namespace its name resolved to (empty when unbound), or the error's message. The contract
/// names the event by the document and the number of events read before it. Every event
/// other than `Eof` is made from at least one byte that the reader consumes (a
/// well-formedness or namespace-resolution error leaves the reader going on; once in its
/// `Done` state, after `Eof` or any other error, it yields only `Eof`), so a read after more
/// events than the document has bytes yields `Eof`.
#[verifier::external_body]
fn read_event(reader: &mut NsReader<Cursor<Vec<u8>>>) -> (r: XmlEvent)
    ensures
        reader_input(*final(reader)) == reader_input(*old(reader)),
        reader_reads(*final(reader)) == reader_reads(*old(reader)) + 1,
        r@ == xml_event_at(reader_input(*old(reader)), reader_reads(*old(reader))),
        reader_reads(*old(reader)) > reader_input(*old(reader)).len() ==> r.kind
            == XmlEventKind::Eof,
{
    let mut buf = Vec::new();
    match reader.read_resolved_event_into(&mut buf) {
        Ok((ResolveResult::Bound(n), ev)) => event_of(n.into_inner().to_vec(), ev),
        Ok((_, ev)) => event_of(Vec::new(), ev),
        Err(e) => XmlEvent::error(e.to_string()),
    }
}

/// Every event of `data`, errors included, up to and including the first `Eof`.
pub fn read_xml_events(data: &[u8]) -> (r: Vec<XmlEvent>)
    ensures
        events_view(r@) == xml_event_stream(data@),
        terminated(events_view(r@)),
{
    let mut reader = open_reader(data);
    let mut out: Vec<XmlEvent> = Vec::new();
    loop
        invariant
            reader_input(reader) == data@,
            reader_reads(reader) == out@.len(),
            out@.len() <= data@.len() + 1,
            forall|i: int| 0 <= i < out@.len() ==> (#[trigger] out@[i])@ == xml_event_at(data@, i as nat),
            forall|i: int| 0 <= i < out@.len() ==> (#[trigger] out@[i]).kind != XmlEventKind::Eof,
        decreases data@.len() + 1 - out@.len(),
    {
        let ev = read_event(&mut reader);
        let done = ev.kind == XmlEventKind::Eof;
        out.push(ev);
        if done {
            proof {
                let k = (out@.len() - 1) as nat;
                assert(eof_at(data@, k));
                assert forall|j: nat| j < k implies !eof_at(data@, j) by {
                    assert(out@[j as int]@ == xml_event_at(data@, j));
                }
                let c = first_eof(data@);
                assert(eof_at(data@, c) && forall|j: nat| j < c ==> !eof_at(data@, j));
                if c < k {
                    assert(!eof_at(data@, c));
                }
                if k < c {
                    assert(!eof_at(data@, k));
                }
                assert(events_view(out@) =~= xml_event_stream(data@));
            }
            return out;
        }
    }
}

/// `String::from_utf8_lossy` of `b`, as characters.
pub uninterp spec fn utf8_lossy(b: Seq<u8>) -> Seq<char>;

/// std's `String::from_utf8_lossy`: decodes UTF-8, replacing invalid sequences. The contract
/// names the result, a function of the bytes alone.
#[verifier::external_body]
pub(crate) fn lossy_string(b: &[u8]) -> (r: String)
    ensures
        r@ == utf8_lossy(b@),
{
    String::from_utf8_lossy(b).into_owned()
}

} // verus!
