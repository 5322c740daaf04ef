//! XML documents as rows of events.
//!
//! `quick_xml` splits a document into events and resolves the entities in them. Everything that
//! is read out of the events is decided elsewhere, over the plain values of this module.

use quick_xml::events::attributes::{Attribute, Attributes};
use quick_xml::events::{BytesText, Event};
use quick_xml::Reader;
use vstd::prelude::*;

verus! {

// ---------------------------------------------------------------------------------------------
// Events
// ---------------------------------------------------------------------------------------------

/// An event as it stands in the document, entities unresolved.
#[derive(Debug)]
pub enum RawEvent {
    /// `<name attributes>`
    Start { name: String, attributes: String },
    /// Character data
    Text(String),
    /// `</name>`
    End(String),
    /// The document cannot be read any further, and why.
    Failed(String),
    /// The end of the document
    Eof,
    /// Any other markup: a self-closing tag, a comment, a declaration and the like
    Other,
}

/// The view of a `RawEvent`.
pub enum RawEventView {
    Start { name: Seq<char>, attributes: Seq<char> },
    Text(Seq<char>),
    End(Seq<char>),
    Failed(Seq<char>),
    Eof,
    Other,
}

impl View for RawEvent {
    type V = RawEventView;

    open spec fn view(&self) -> RawEventView {
        match self {
            RawEvent::Start { name, attributes } => RawEventView::Start {
                name: name@,
                attributes: attributes@,
            },
            RawEvent::Text(text) => RawEventView::Text(text@),
            RawEvent::End(name) => RawEventView::End(name@),
            RawEvent::Failed(message) => RawEventView::Failed(message@),
            RawEvent::Eof => RawEventView::Eof,
            RawEvent::Other => RawEventView::Other,
        }
    }
}

/// An attribute of a start tag. The value is `None` where an entity in it cannot be resolved.
#[derive(Debug)]
pub struct XmlAttribute {
    pub key: String,
    pub value: Option<String>,
}

/// The view of an `XmlAttribute`.
pub struct XmlAttributeView {
    pub key: Seq<char>,
    pub value: Option<Seq<char>>,
}

impl View for XmlAttribute {
    type V = XmlAttributeView;

    open spec fn view(&self) -> XmlAttributeView {
        XmlAttributeView { key: self.key@, value: text_view(self.value) }
    }
}

/// An event with its entities resolved.
#[derive(Debug)]
pub enum XmlEvent {
    /// A start tag with its well-formed attributes
    Start { name: String, attributes: Vec<XmlAttribute> },
    /// Character data, or why an entity in it cannot be resolved
    Text(Result<String, String>),
    /// An end tag
    End(String),
    /// The document cannot be read any further, and why.
    Failed(String),
    /// Any other markup
    Other,
}

/// The view of an `XmlEvent`.
pub enum XmlEventView {
    Start { name: Seq<char>, attributes: Seq<XmlAttributeView> },
    Text(Result<Seq<char>, Seq<char>>),
    End(Seq<char>),
    Failed(Seq<char>),
    Other,
}

impl View for XmlEvent {
    type V = XmlEventView;

    open spec fn view(&self) -> XmlEventView {
        match self {
            XmlEvent::Start { name, attributes } => XmlEventView::Start {
                name: name@,
                attributes: attributes@.map_values(|a: XmlAttribute| a@),
            },
            XmlEvent::Text(content) => XmlEventView::Text(outcome_view(*content)),
            XmlEvent::End(name) => XmlEventView::End(name@),
            XmlEvent::Failed(message) => XmlEventView::Failed(message@),
            XmlEvent::Other => XmlEventView::Other,
        }
    }
}

/// The view of a row of events.
pub open spec fn event_views(events: Seq<XmlEvent>) -> Seq<XmlEventView> {
    events.map_values(|e: XmlEvent| e@)
}

/// The view of text that may be missing.
pub open spec fn text_view(text: Option<String>) -> Option<Seq<char>> {
    match text {
        Some(t) => Some(t@),
        None => None,
    }
}

/// The view of text, or of the reason why there is none.
pub open spec fn outcome_view(outcome: Result<String, String>) -> Result<Seq<char>, Seq<char>> {
    match outcome {
        Ok(t) => Ok(t@),
        Err(e) => Err(e@),
    }
}

/// The view of an attribute as it stands in a tag.
pub open spec fn pair_view(pair: Option<(String, String)>) -> Option<(Seq<char>, Seq<char>)> {
    match pair {
        Some(p) => Some((p.0@, p.1@)),
        None => None,
    }
}

// ---------------------------------------------------------------------------------------------
// The outside reader
// ---------------------------------------------------------------------------------------------

/// `quick_xml::Reader`, which splits a document into events.
#[verifier::external_type_specification]
#[verifier::external_body]
#[verifier::reject_recursive_types(R)]
pub struct ExReader<R>(quick_xml::Reader<R>);

/// The events that `Reader::read_event_into` has yet to hand out before the end of the document.
pub uninterp spec fn buffered_ahead(reader: quick_xml::Reader<&[u8]>) -> Seq<RawEventView>;

/// The events that `Reader::read_event` has yet to hand out before the end of the document.
pub uninterp spec fn borrowed_ahead(reader: quick_xml::Reader<&[u8]>) -> Seq<RawEventView>;

/// The events of a document whose text events are trimmed, as `Reader::read_event_into` reads
/// them.
pub uninterp spec fn buffered_document(xml: Seq<char>) -> Seq<RawEventView>;

/// The events of a document whose text events are trimmed, as `Reader::read_event` reads them.
pub uninterp spec fn borrowed_document(xml: Seq<char>) -> Seq<RawEventView>;

/// `quick_xml::Reader::from_str`, set to trim text by `Reader::trim_text`: a reader at the start
/// of the document, with all the events of the document ahead of it.
#[verifier::external_body]
fn open_document<'a>(xml: &'a str) -> (reader: Reader<&'a [u8]>)
    ensures
        buffered_ahead(reader) == buffered_document(xml@),
        borrowed_ahead(reader) == borrowed_document(xml@),
{
    let mut reader = Reader::from_str(xml);
    reader.trim_text(true);
    reader
}

/// `quick_xml::Reader::read_event_into` with a fresh buffer: takes the next event from those
/// ahead, or tells that the document is at its end. Every event other than the end consumes
/// input and an error is followed by the end, so a reader has finitely many events ahead.
#[verifier::external_body]
fn next_buffered(reader: &mut Reader<&[u8]>) -> (event: RawEvent)
    ensures
        buffered_ahead(*old(reader)).len() > 0 ==> event@ == buffered_ahead(*old(reader))[0]
            && event !is Eof && buffered_ahead(*final(reader)) == buffered_ahead(
            *old(reader),
        ).drop_first(),
        buffered_ahead(*old(reader)).len() == 0 ==> event is Eof && buffered_ahead(*final(reader))
            == buffered_ahead(*old(reader)),
{
    match reader.read_event_into(&mut Vec::new()) {
        Ok(Event::Start(e)) => RawEvent::Start {
            name: String::from_utf8_lossy(e.name().as_ref()).into_owned(),
            attributes: String::from_utf8_lossy(e.attributes_raw()).into_owned(),
        },
        Ok(Event::Text(e)) => RawEvent::Text(String::from_utf8_lossy(&e).into_owned()),
        Ok(Event::End(e)) => RawEvent::End(String::from_utf8_lossy(e.name().as_ref()).into_owned()),
        Ok(Event::Eof) => RawEvent::Eof,
        Ok(_) => RawEvent::Other,
        Err(e) => RawEvent::Failed(e.to_string()),
    }
}

/// `quick_xml::Reader::read_event`: takes the next event from those ahead, or tells that the
/// document is at its end. It differs from `read_event_into` on a tag that the document breaks
/// off in: an error here, a tag there.
#[verifier::external_body]
fn next_borrowed(reader: &mut Reader<&[u8]>) -> (event: RawEvent)
    ensures
        borrowed_ahead(*old(reader)).len() > 0 ==> event@ == borrowed_ahead(*old(reader))[0]
            && event !is Eof && borrowed_ahead(*final(reader)) == borrowed_ahead(
            *old(reader),
        ).drop_first(),
        borrowed_ahead(*old(reader)).len() == 0 ==> event is Eof && borrowed_ahead(*final(reader))
            == borrowed_ahead(*old(reader)),
{
    match reader.read_event() {
        Ok(Event::Start(e)) => RawEvent::Start {
            name: String::from_utf8_lossy(e.name().as_ref()).into_owned(),
            attributes: String::from_utf8_lossy(e.attributes_raw()).into_owned(),
        },
        Ok(Event::Text(e)) => RawEvent::Text(String::from_utf8_lossy(&e).into_owned()),
        Ok(Event::End(e)) => RawEvent::End(String::from_utf8_lossy(e.name().as_ref()).into_owned()),
        Ok(Event::Eof) => RawEvent::Eof,
        Ok(_) => RawEvent::Other,
        Err(e) => RawEvent::Failed(e.to_string()),
    }
}

/// What `BytesText::unescape` makes of character data: the text with its entities resolved, or
/// the text of the error.
pub uninterp spec fn unescaped_text(raw: Seq<char>) -> Result<Seq<char>, Seq<char>>;

/// `quick_xml::events::BytesText::unescape`: replaces the entities in character data.
#[verifier::external_body]
fn unescape_text(raw: &str) -> (r: Result<String, String>)
    ensures
        outcome_view(r) == unescaped_text(raw@),
{
    match BytesText::from_escaped(raw).unescape() {
        Ok(text) => Ok(text.into_owned()),
        Err(e) => Err(e.to_string()),
    }
}

/// What `Attribute::unescape_value` makes of the value of an attribute; `None` is an error.
pub uninterp spec fn unescaped_value(raw: Seq<char>) -> Option<Seq<char>>;

/// `quick_xml::events::attributes::Attribute::unescape_value`: replaces the entities in the value
/// of an attribute. The key plays no part in it.
#[verifier::external_body]
fn unescape_value(raw: &str) -> (r: Option<String>)
    ensures
        text_view(r) == unescaped_value(raw@),
{
    match Attribute::from((raw.as_bytes(), raw.as_bytes())).unescape_value() {
        Ok(value) => Some(value.into_owned()),
        Err(_) => None,
    }
}

/// What `Attributes` makes of the part of a tag behind its name: for each attribute its key and
/// its value as it stands, or `None` if it is malformed or its key came before.
pub uninterp spec fn attribute_pairs(raw: Seq<char>) -> Seq<Option<(Seq<char>, Seq<char>)>>;

/// `quick_xml::events::attributes::Attributes`: splits the part of a tag behind its name into
/// attributes.
#[verifier::external_body]
fn split_attributes(raw: &str) -> (r: Vec<Option<(String, String)>>)
    ensures
        r@.map_values(|pair: Option<(String, String)>| pair_view(pair)) == attribute_pairs(raw@),
{
    Attributes::new(raw, 0)
        .map(|attribute| match attribute {
            Ok(a) => Some((
                String::from_utf8_lossy(a.key.as_ref()).into_owned(),
                String::from_utf8_lossy(&a.value).into_owned(),
            )),
            Err(_) => None,
        })
        .collect()
}

// ---------------------------------------------------------------------------------------------
// Reading
// ---------------------------------------------------------------------------------------------

/// The well-formed attributes among `pairs`, with the entities in their values resolved.
pub open spec fn resolved_attributes(
    pairs: Seq<Option<(Seq<char>, Seq<char>)>>,
) -> Seq<XmlAttributeView>
    decreases pairs.len(),
{
    if pairs.len() == 0 {
        Seq::empty()
    } else {
        let before = resolved_attributes(pairs.drop_last());
        match pairs.last() {
            Some(pair) => before.push(
                XmlAttributeView { key: pair.0, value: unescaped_value(pair.1) },
            ),
            None => before,
        }
    }
}

/// An event with its entities resolved.
pub open spec fn resolved(raw: RawEventView) -> XmlEventView {
    match raw {
        RawEventView::Start { name, attributes } => XmlEventView::Start {
            name,
            attributes: resolved_attributes(attribute_pairs(attributes)),
        },
        RawEventView::Text(text) => XmlEventView::Text(unescaped_text(text)),
        RawEventView::End(name) => XmlEventView::End(name),
        RawEventView::Failed(message) => XmlEventView::Failed(message),
        RawEventView::Eof => XmlEventView::Other,
        RawEventView::Other => XmlEventView::Other,
    }
}

/// The events of a document as the buffered reader finds them, entities resolved.
pub open spec fn buffered_events(xml: Seq<char>) -> Seq<XmlEventView> {
    buffered_document(xml).map_values(|e: RawEventView| resolved(e))
}

/// The events of a document as the borrowing reader finds them, entities resolved.
pub open spec fn borrowed_events(xml: Seq<char>) -> Seq<XmlEventView> {
    borrowed_document(xml).map_values(|e: RawEventView| resolved(e))
}

/// Every attribute that is well formed is kept, in its place, with its name as it stands and the
/// entities in its value resolved; any other is passed over.
pub proof fn law_attributes_one_by_one(
    a: Seq<Option<(Seq<char>, Seq<char>)>>,
    b: Seq<Option<(Seq<char>, Seq<char>)>>,
    key: Seq<char>,
    value: Seq<char>,
)
    ensures
        resolved_attributes(a + b) == resolved_attributes(a) + resolved_attributes(b),
        resolved_attributes(seq![None]).len() == 0,
        resolved_attributes(seq![Some((key, value))]).len() == 1,
        resolved_attributes(seq![Some((key, value))])[0].key == key,
        resolved_attributes(seq![Some((key, value))])[0].value == unescaped_value(value),
    decreases b.len(),
{
    let none = seq![None::<(Seq<char>, Seq<char>)>];
    let one = seq![Some((key, value))];
    assert(none.drop_last() =~= Seq::empty() && none.last() is None);
    assert(one.drop_last() =~= Seq::empty() && one.last() == Some((key, value)));
    assert(resolved_attributes(none.drop_last()).len() == 0);
    assert(resolved_attributes(one.drop_last()).len() == 0);
    if b.len() > 0 {
        law_attributes_one_by_one(a, b.drop_last(), key, value);
        assert((a + b).drop_last() =~= a + b.drop_last());
        assert((a + b).last() == b.last());
    } else {
        assert(a + b =~= a);
    }
    assert(resolved_attributes(a + b) =~= resolved_attributes(a) + resolved_attributes(b));
}

/// Every event of a document is kept in its place: tags with their names, text with its entities
/// resolved.
pub proof fn law_events_one_by_one(xml: Seq<char>, k: int)
    ensures
        buffered_events(xml).len() == buffered_document(xml).len(),
        borrowed_events(xml).len() == borrowed_document(xml).len(),
        0 <= k < buffered_document(xml).len() ==> is_resolved(
            buffered_document(xml)[k],
            buffered_events(xml)[k],
        ),
        0 <= k < borrowed_document(xml).len() ==> is_resolved(
            borrowed_document(xml)[k],
            borrowed_events(xml)[k],
        ),
{
}

/// The event is the raw one with its entities resolved.
pub open spec fn is_resolved(raw: RawEventView, event: XmlEventView) -> bool {
    match raw {
        RawEventView::Start { name, attributes } => {
            &&& event is Start
            &&& event->Start_name == name
            &&& event->Start_attributes == resolved_attributes(attribute_pairs(attributes))
        },
        RawEventView::Text(text) => event is Text && event->Text_0 == unescaped_text(text),
        RawEventView::End(name) => event is End && event->End_0 == name,
        RawEventView::Failed(message) => event is Failed && event->Failed_0 == message,
        _ => event is Other,
    }
}

/// The attributes of a start tag.
fn resolve_attributes(raw: &str) -> (r: Vec<XmlAttribute>)
    ensures
        r@.map_values(|a: XmlAttribute| a@) == resolved_attributes(attribute_pairs(raw@)),
{
    let pairs = split_attributes(raw);
    let ghost views = attribute_pairs(raw@);
    let mut r: Vec<XmlAttribute> = Vec::new();
    let mut i: usize = 0;
    assert(r@.map_values(|a: XmlAttribute| a@) =~= resolved_attributes(views.take(0)));
    while i < pairs.len()
        invariant
            i <= pairs.len(),
            views == pairs@.map_values(|pair: Option<(String, String)>| pair_view(pair)),
            r@.map_values(|a: XmlAttribute| a@) == resolved_attributes(views.take(i as int)),
        decreases pairs.len() - i,
    {
        assert(views.take(i + 1).drop_last() =~= views.take(i as int));
        assert(views[i as int] == pair_view(pairs@[i as int]));
        if let Some(pair) = &pairs[i] {
            let ghost before = r@.map_values(|a: XmlAttribute| a@);
            let value = unescape_value(&pair.1);
            let attribute = XmlAttribute { key: pair.0.clone(), value };
            r.push(attribute);
            assert(r@.map_values(|a: XmlAttribute| a@) =~= before.push(attribute@));
        }
        i += 1;
    }
    assert(views.take(pairs@.len() as int) =~= views);
    r
}

/// Resolves the entities of one event.
fn resolve(raw: RawEvent) -> (event: XmlEvent)
    ensures
        event@ == resolved(raw@),
{
    match raw {
        RawEvent::Start { name, attributes } => {
            let attributes = resolve_attributes(&attributes);
            XmlEvent::Start { name, attributes }
        },
        RawEvent::Text(text) => XmlEvent::Text(unescape_text(&text)),
        RawEvent::End(name) => XmlEvent::End(name),
        RawEvent::Failed(message) => XmlEvent::Failed(message),
        RawEvent::Eof => XmlEvent::Other,
        RawEvent::Other => XmlEvent::Other,
    }
}

/// Reads all the events of a document with the buffered reader.
pub fn read_buffered(xml: &str) -> (r: Vec<XmlEvent>)
    ensures
        event_views(r@) == buffered_events(xml@),
{
    let mut reader = open_document(xml);
    let mut r: Vec<XmlEvent> = Vec::new();
    let ghost all = buffered_document(xml@);
    assert(event_views(r@) =~= all.take(0).map_values(|e: RawEventView| resolved(e)));
    assert(all.skip(0) =~= all);
    loop
        invariant
            r@.len() <= all.len(),
            buffered_ahead(reader) == all.skip(r@.len() as int),
            event_views(r@) == all.take(r@.len() as int).map_values(
                |e: RawEventView| resolved(e),
            ),
        ensures
            r@.len() == all.len(),
            event_views(r@) == all.take(r@.len() as int).map_values(
                |e: RawEventView| resolved(e),
            ),
        decreases all.len() - r@.len(),
    {
        let ghost n = r@.len() as int;
        let ghost before = event_views(r@);
        match next_buffered(&mut reader) {
            RawEvent::Eof => {
                break ;
            },
            raw => {
                assert(raw@ == all[n]);
                let event = resolve(raw);
                r.push(event);
                assert(all.skip(n).drop_first() =~= all.skip(n + 1));
                assert(event_views(r@) =~= before.push(event@));
                assert(event_views(r@) =~= all.take(n + 1).map_values(
                    |e: RawEventView| resolved(e),
                ));
            },
        }
    }
    assert(all.take(r@.len() as int) =~= all);
    r
}

/// Reads all the events of a document with the borrowing reader.
pub fn read_borrowed(xml: &str) -> (r: Vec<XmlEvent>)
    ensures
        event_views(r@) == borrowed_events(xml@),
{
    let mut reader = open_document(xml);
    let mut r: Vec<XmlEvent> = Vec::new();
    let ghost all = borrowed_document(xml@);
    assert(event_views(r@) =~= all.take(0).map_values(|e: RawEventView| resolved(e)));
    assert(all.skip(0) =~= all);
    loop
        invariant
            r@.len() <= all.len(),
            borrowed_ahead(reader) == all.skip(r@.len() as int),
            event_views(r@) == all.take(r@.len() as int).map_values(
                |e: RawEventView| resolved(e),
            ),
        ensures
            r@.len() == all.len(),
            event_views(r@) == all.take(r@.len() as int).map_values(
                |e: RawEventView| resolved(e),
            ),
        decreases all.len() - r@.len(),
    {
        let ghost n = r@.len() as int;
        let ghost before = event_views(r@);
        match next_borrowed(&mut reader) {
            RawEvent::Eof => {
                break ;
            },
            raw => {
                assert(raw@ == all[n]);
                let event = resolve(raw);
                r.push(event);
                assert(all.skip(n).drop_first() =~= all.skip(n + 1));
                assert(event_views(r@) =~= before.push(event@));
                assert(event_views(r@) =~= all.take(n + 1).map_values(
                    |e: RawEventView| resolved(e),
                ));
            },
        }
    }
    assert(all.take(r@.len() as int) =~= all);
    r
}

} // verus!
