//! The event source and sink: thin trusted wrappers around quick_xml's
//! reader and writer, and the verified loops that move whole documents
//! between quick_xml and the library's own event values.

use vstd::prelude::*;
use vstd::string::StringExecFns;
use quick_xml::Reader;
use quick_xml::Writer;
use quick_xml::events::{BytesDecl, BytesEnd, BytesRef, BytesStart, BytesText, Event};
use quick_xml::events::attributes::{Attribute, Attributes};
use quick_xml::name::QName;
use crate::events::{EvSpec, XmlEvent};
use crate::xbrl::AttrS;
use crate::xbrl::XbrlAttribute;

verus! {

#[verifier::external_type_specification]
#[verifier::external_body]
#[verifier::reject_recursive_types(R)]
pub struct ExReader<R>(Reader<R>);

#[verifier::external_type_specification]
#[verifier::external_body]
pub struct ExBytesStart<'a>(BytesStart<'a>);

#[verifier::external_type_specification]
#[verifier::external_body]
pub struct ExBytesEnd<'a>(BytesEnd<'a>);

#[verifier::external_type_specification]
#[verifier::external_body]
pub struct ExBytesText<'a>(BytesText<'a>);

#[verifier::external_type_specification]
#[verifier::external_body]
pub struct ExAttributes<'a>(Attributes<'a>);

#[verifier::external_type_specification]
#[verifier::external_body]
pub struct ExAttribute<'a>(Attribute<'a>);

#[verifier::external_type_specification]
#[verifier::external_body]
pub struct ExAttrError(quick_xml::events::attributes::AttrError);

#[verifier::external_type_specification]
#[verifier::external_body]
pub struct ExBytesRef<'a>(BytesRef<'a>);

/// A write failure on the event sink.
#[derive(Debug, PartialEq, Eq)]
pub enum SerializeError {
    /// The sink reported a write failure; carries its message.
    Sink(String),
}

/// One raw document event as quick_xml hands it out.  Character data
/// arrives split at every entity reference, which is delivered as its own
/// `Ref` event.
pub enum RawEvent<'i> {
    Start(BytesStart<'i>),
    End(BytesEnd<'i>),
    Empty(BytesStart<'i>),
    Text(BytesText<'i>),
    Ref(BytesRef<'i>),
    Decl,
    Other,
    Eof,
    Fault(String),
}

/// The event sink: quick_xml's writer over an in-memory buffer.  The writer
/// stays behind this struct, its only constructor being `writer_new`, so
/// every sink the library writes to carries the default configuration — no
/// indentation and no space before a closing slash — and the rendering of
/// an event then depends on the event alone.
#[verifier::external_body]
pub struct XmlWriter {
    inner: Writer<Vec<u8>>,
}

/// A measure of the document left in front of the reader.  A reader hands
/// out only finitely many events before the end of its input, so such a
/// measure exists and falls with each event handed out.
pub uninterp spec fn reader_remaining(r: Reader<&[u8]>) -> nat;

/// How many attributes the iterator has not yielded yet.
pub uninterp spec fn attrs_remaining(it: Attributes) -> nat;

/// The tag name a start or self-closing tag carries.
pub uninterp spec fn start_name_of(t: BytesStart) -> Seq<char>;

/// The attributes a start or self-closing tag carries, in document order,
/// when they are all well-formed.
pub uninterp spec fn start_attrs_of(t: BytesStart) -> Seq<AttrS>;

/// Whether every attribute of the tag is well-formed.
pub uninterp spec fn start_attrs_ok(t: BytesStart) -> bool;

/// The tag name an end tag carries.
pub uninterp spec fn end_name_of(t: BytesEnd) -> Seq<char>;

/// The content a text event carries, as it stands in the document.
pub uninterp spec fn text_of_content(t: BytesText) -> Seq<char>;

/// The `&name;` form an entity reference stands as in the document.
pub uninterp spec fn ref_of_content(t: BytesRef) -> Seq<char>;

/// The attribute a yielded iterator item carries.
pub uninterp spec fn attr_of(a: Attribute) -> AttrS;

/// The attributes the iterator has not yielded yet — its well-formed
/// prefix.
pub uninterp spec fn attrs_of_iter(it: Attributes) -> Seq<AttrS>;

/// Whether the attributes left in the iterator are all well-formed.
pub uninterp spec fn attrs_iter_ok(it: Attributes) -> bool;

/// The text written to the sink so far: the sink's byte buffer, as text.
pub uninterp spec fn written_text(w: XmlWriter) -> Seq<char>;

/// The text a start tag with these attributes is rendered as.
pub uninterp spec fn start_render(name: Seq<char>, attrs: Seq<AttrS>) -> Seq<char>;

/// The text a self-closing tag with these attributes is rendered as.
pub uninterp spec fn empty_render(name: Seq<char>, attrs: Seq<AttrS>) -> Seq<char>;

/// The text an end tag is rendered as.
pub uninterp spec fn end_render(name: Seq<char>) -> Seq<char>;

/// The text a declaration with this version and UTF-8 encoding is rendered
/// as.
pub uninterp spec fn decl_render(version: Seq<char>) -> Seq<char>;

/// Mathematical model of one raw event.
#[verifier::ext_equal]
pub ghost enum RawS {
    Start { name: Seq<char>, attrs: Seq<AttrS>, attrs_ok: bool },
    End { name: Seq<char> },
    Empty { name: Seq<char>, attrs: Seq<AttrS>, attrs_ok: bool },
    Text { text: Seq<char> },
    Ref { text: Seq<char> },
    Decl,
    Other,
}

/// The raw events of the document left in front of the reader, up to its
/// end or its first unreadable event.
pub uninterp spec fn reader_raw(r: Reader<&[u8]>) -> Seq<RawS>;

/// Whether an unreadable event ends the raw events in front of the reader.
pub uninterp spec fn reader_fault(r: Reader<&[u8]>) -> bool;

/// Append a gathered run of character data as one text event.
pub open spec fn flush_gathered(out: Seq<EvSpec>, pending: Option<Seq<char>>) -> Seq<EvSpec> {
    match pending {
        Some(t) => out.push(EvSpec::Text { text: t }),
        None => out,
    }
}

/// One step of gathering raw events into the library's events: character
/// data and entity references collect into one pending text; any other
/// event flushes it first; a tag with a malformed attribute stops the
/// gathering.
pub open spec fn gather_step(st: (Seq<EvSpec>, Option<Seq<char>>, bool), ev: RawS) -> (
    Seq<EvSpec>,
    Option<Seq<char>>,
    bool,
) {
    if st.2 {
        st
    } else {
        match ev {
            RawS::Start { name, attrs, attrs_ok } => if attrs_ok {
                (flush_gathered(st.0, st.1).push(EvSpec::Start { name, attrs }), None, false)
            } else {
                (flush_gathered(st.0, st.1), None, true)
            },
            RawS::Empty { name, attrs, attrs_ok } => if attrs_ok {
                (flush_gathered(st.0, st.1).push(EvSpec::Empty { name, attrs }), None, false)
            } else {
                (flush_gathered(st.0, st.1), None, true)
            },
            RawS::End { name } => (
                flush_gathered(st.0, st.1).push(EvSpec::End { name }),
                None,
                false,
            ),
            RawS::Text { text } => (
                st.0,
                match st.1 {
                    Some(t) => Some(t + text),
                    None => Some(text),
                },
                false,
            ),
            RawS::Ref { text } => (
                st.0,
                match st.1 {
                    Some(t) => Some(t + text),
                    None => Some(text),
                },
                false,
            ),
            RawS::Decl => (flush_gathered(st.0, st.1).push(EvSpec::Decl), None, false),
            RawS::Other => st,
        }
    }
}

/// The gathering fold over a run of raw events.
pub open spec fn gather_run(raw: Seq<RawS>) -> (Seq<EvSpec>, Option<Seq<char>>, bool)
    decreases raw.len(),
{
    if raw.len() == 0 {
        (Seq::empty(), None, false)
    } else {
        gather_step(gather_run(raw.drop_last()), raw.last())
    }
}

/// The library's events for a run of raw events: the gathering fold's
/// output, any pending text flushed.
pub open spec fn gathered_events(raw: Seq<RawS>) -> Seq<EvSpec> {
    let st = gather_run(raw);
    flush_gathered(st.0, st.1)
}

/// Whether the gathering stops early on a malformed attribute.
pub open spec fn gather_stopped(raw: Seq<RawS>) -> bool {
    gather_run(raw).2
}

/// The library's events for the document in front of the reader.
pub open spec fn reader_events(r: Reader<&[u8]>) -> Seq<EvSpec> {
    gathered_events(reader_raw(r))
}

/// Whether reading the document in front of the reader ends in a failure:
/// an unreadable event or a malformed attribute.
pub open spec fn reader_broke(r: Reader<&[u8]>) -> bool {
    reader_fault(r) || gather_stopped(reader_raw(r))
}

/// A stop, once entered, is the outcome of the whole gathering.
proof fn lemma_gather_stop_persists(raw: Seq<RawS>, i: int)
    requires
        0 <= i <= raw.len(),
        gather_run(raw.take(i)).2,
    ensures
        gather_run(raw) == gather_run(raw.take(i)),
    decreases raw.len() - i,
{
    if i < raw.len() {
        assert(raw.take(i + 1).drop_last() =~= raw.take(i));
        assert(raw.take(i + 1).last() == raw[i]);
        lemma_gather_stop_persists(raw, i + 1);
    } else {
        assert(raw.take(i) =~= raw);
    }
}

/// The text one event is rendered as.
pub open spec fn event_render(ev: EvSpec) -> Seq<char> {
    match ev {
        EvSpec::Start { name, attrs } => start_render(name, attrs),
        EvSpec::End { name } => end_render(name),
        EvSpec::Empty { name, attrs } => empty_render(name, attrs),
        EvSpec::Text { text } => text,
        EvSpec::Decl => decl_render("1.0"@),
    }
}

/// The text a run of events is rendered as, in order.
pub open spec fn events_render(evs: Seq<EvSpec>) -> Seq<char>
    decreases evs.len(),
{
    if evs.len() == 0 {
        Seq::empty()
    } else {
        events_render(evs.drop_last()) + event_render(evs.last())
    }
}

/// Relies on quick_xml's `Reader::read_event`: yields exactly the first of
/// the raw events in front of the reader, advancing over the input until
/// only end-of-file is left.
#[verifier::external_body]
fn read_raw_event<'i>(reader: &mut Reader<&'i [u8]>) -> (r: RawEvent<'i>)
    ensures
        !(r is Eof) && !(r is Fault) ==> reader_remaining(*final(reader)) < reader_remaining(
            *old(reader),
        ),
        !(r is Eof) && !(r is Fault) ==> reader_raw(*old(reader)).len() > 0 && reader_raw(
            *final(reader),
        ) == reader_raw(*old(reader)).drop_first() && reader_fault(*final(reader))
            == reader_fault(*old(reader)),
        (match r {
            RawEvent::Start(t) => reader_raw(*old(reader))[0] == (RawS::Start {
                name: start_name_of(t),
                attrs: start_attrs_of(t),
                attrs_ok: start_attrs_ok(t),
            }),
            RawEvent::End(t) => reader_raw(*old(reader))[0] == (RawS::End {
                name: end_name_of(t),
            }),
            RawEvent::Empty(t) => reader_raw(*old(reader))[0] == (RawS::Empty {
                name: start_name_of(t),
                attrs: start_attrs_of(t),
                attrs_ok: start_attrs_ok(t),
            }),
            RawEvent::Text(t) => reader_raw(*old(reader))[0] == (RawS::Text {
                text: text_of_content(t),
            }),
            RawEvent::Ref(t) => reader_raw(*old(reader))[0] == (RawS::Ref {
                text: ref_of_content(t),
            }),
            RawEvent::Decl => reader_raw(*old(reader))[0] == RawS::Decl,
            RawEvent::Other => reader_raw(*old(reader))[0] == RawS::Other,
            RawEvent::Eof => reader_raw(*old(reader)).len() == 0 && !reader_fault(*old(reader)),
            RawEvent::Fault(_) => reader_raw(*old(reader)).len() == 0 && reader_fault(
                *old(reader),
            ),
        }),
{
    match reader.read_event() {
        Ok(Event::Start(t)) => RawEvent::Start(t),
        Ok(Event::End(t)) => RawEvent::End(t),
        Ok(Event::Empty(t)) => RawEvent::Empty(t),
        Ok(Event::Text(t)) => RawEvent::Text(t),
        Ok(Event::GeneralRef(t)) => RawEvent::Ref(t),
        Ok(Event::Decl(_)) => RawEvent::Decl,
        Ok(Event::Eof) => RawEvent::Eof,
        Ok(_) => RawEvent::Other,
        Err(e) => RawEvent::Fault(e.to_string()),
    }
}

/// The raw events of a document text, as a fresh trimming reader yields
/// them.
pub uninterp spec fn raw_of_text(s: Seq<char>) -> Seq<RawS>;

/// Whether reading a document text ends in an unreadable event.
pub uninterp spec fn fault_of_text(s: Seq<char>) -> bool;

/// Relies on quick_xml's `Reader::from_str` and `Config::trim_text`: a
/// reader over the text with surrounding whitespace of text events trimmed
/// away, holding exactly the text's raw events.
#[verifier::external_body]
pub fn reader_from_str(s: &str) -> (r: Reader<&[u8]>)
    ensures
        reader_raw(r) == raw_of_text(s@),
        reader_fault(r) == fault_of_text(s@),
{
    let mut reader = Reader::from_str(s);
    reader.config_mut().trim_text(true);
    reader
}

/// Relies on `BytesStart::name`: the tag's qualified name.
#[verifier::external_body]
fn start_name(tag: &BytesStart) -> (r: String)
    ensures
        r@ == start_name_of(*tag),
{
    tag.name().into_inner().to_string()
}

/// Relies on `BytesEnd::name`: the tag's qualified name.
#[verifier::external_body]
fn end_name(tag: &BytesEnd) -> (r: String)
    ensures
        r@ == end_name_of(*tag),
{
    tag.name().into_inner().to_string()
}

/// Relies on `BytesText::into_inner`: the text content as it stands in the
/// document.
#[verifier::external_body]
fn text_content(t: BytesText<'_>) -> (r: String)
    ensures
        r@ == text_of_content(t),
{
    t.into_inner().into_owned()
}

/// Relies on `BytesRef::into_inner`: the entity reference's name, framed
/// back as the `&name;` form it stands as in the document.
#[verifier::external_body]
fn ref_text(t: BytesRef<'_>) -> (r: String)
    ensures
        r@ == ref_of_content(t),
{
    format!("&{};", t.into_inner())
}

/// Relies on `BytesStart::attributes`: the tag's attribute iterator, at its
/// first attribute, carrying exactly the tag's attributes.
#[verifier::external_body]
fn start_attributes<'a, 'i>(tag: &'a BytesStart<'i>) -> (r: Attributes<'a>)
    ensures
        attrs_of_iter(r) == start_attrs_of(*tag),
        attrs_iter_ok(r) == start_attrs_ok(*tag),
{
    tag.attributes()
}

/// Relies on `Attributes::next`: yields exactly the first remaining
/// attribute, `None` after the last one, or a failure message for a
/// malformed one; each yielded item consumes part of the tag.
#[verifier::external_body]
fn attributes_next<'a>(it: &mut Attributes<'a>) -> (r: Option<Result<Attribute<'a>, String>>)
    ensures
        r is Some ==> attrs_remaining(*final(it)) < attrs_remaining(*old(it)),
        (match r {
            Some(Ok(a)) => attrs_of_iter(*old(it)).len() > 0 && attr_of(a) == attrs_of_iter(
                *old(it),
            )[0] && attrs_of_iter(*final(it)) == attrs_of_iter(*old(it)).drop_first()
                && attrs_iter_ok(*final(it)) == attrs_iter_ok(*old(it)),
            Some(Err(_)) => attrs_of_iter(*old(it)).len() == 0 && !attrs_iter_ok(*old(it)),
            None => attrs_of_iter(*old(it)).len() == 0 && attrs_iter_ok(*old(it)),
        }),
{
    it.next().map(|a| a.map_err(|e| e.to_string()))
}

/// Relies on the fields of `Attribute`: its key and its value, exactly as
/// they stand in the document.
#[verifier::external_body]
fn attr_to_lib(a: &Attribute) -> (r: XbrlAttribute)
    ensures
        r@ == attr_of(*a),
{
    XbrlAttribute { key: a.key.into_inner().to_string(), value: a.value.as_ref().to_string() }
}

/// Gather the name and attributes of a start or self-closing tag; a
/// malformed attribute yields its failure message.
fn convert_start(tag: &BytesStart) -> (r: Result<(String, Vec<XbrlAttribute>), String>)
    ensures
        (match r {
            Ok((name, attrs)) => start_attrs_ok(*tag) && name@ == start_name_of(*tag)
                && attrs.deep_view() == start_attrs_of(*tag),
            Err(_) => !start_attrs_ok(*tag),
        }),
{
    let name = start_name(tag);
    let mut it = start_attributes(tag);
    let mut attrs: Vec<XbrlAttribute> = Vec::new();
    loop
        invariant
            name@ == start_name_of(*tag),
            attrs.deep_view() + attrs_of_iter(it) == start_attrs_of(*tag),
            attrs_iter_ok(it) == start_attrs_ok(*tag),
        decreases attrs_remaining(it),
    {
        match attributes_next(&mut it) {
            None => {
                proof {
                    assert(attrs.deep_view() =~= start_attrs_of(*tag));
                }
                return Ok((name, attrs));
            },
            Some(Ok(a)) => {
                attrs.push(attr_to_lib(&a));
                proof {
                    assert(attrs.deep_view() + attrs_of_iter(it) =~= start_attrs_of(*tag));
                }
            },
            Some(Err(e)) => {
                return Err(e);
            },
        }
    }
}

/// Push a gathered run of character data as one text event.
fn push_pending_text(events: &mut Vec<XmlEvent>, pending: Option<String>)
    ensures
        final(events).deep_view() == flush_gathered(
            old(events).deep_view(),
            pending.deep_view(),
        ),
{
    match pending {
        Some(s) => {
            events.push(XmlEvent::Text(s));
            proof {
                assert(events.deep_view() =~= flush_gathered(
                    old(events).deep_view(),
                    pending.deep_view(),
                ));
            }
        },
        None => {},
    }
}

/// Read the whole document into a list of events: exactly the gathering of
/// the raw events in front of the reader, a run of character data split at
/// entity references gathered back into one text event, the references
/// kept in their `&name;` form.  The list runs to the end of the document
/// or to the source's first failure — an unreadable event or a malformed
/// attribute — whose message is then returned beside the events gathered
/// so far.  Reading never fails outright.
pub fn read_events(reader: &mut Reader<&[u8]>) -> (r: (Vec<XmlEvent>, Option<String>))
    ensures
        r.0.deep_view() == reader_events(*old(reader)),
        r.1 is Some <==> reader_broke(*old(reader)),
{
    let ghost raw0 = reader_raw(*old(reader));
    let ghost mut raw_done: Seq<RawS> = Seq::empty();
    let mut events: Vec<XmlEvent> = Vec::new();
    let mut pending: Option<String> = None;
    proof {
        assert(raw0.take(0) =~= Seq::<RawS>::empty());
    }
    loop
        invariant
            raw0 == reader_raw(*old(reader)),
            0 <= raw_done.len() <= raw0.len(),
            raw_done == raw0.take(raw_done.len() as int),
            reader_raw(*reader) == raw0.skip(raw_done.len() as int),
            reader_fault(*reader) == reader_fault(*old(reader)),
            gather_run(raw_done) == (events.deep_view(), pending.deep_view(), false),
        decreases reader_remaining(*reader),
    {
        let ghost st0 = gather_run(raw_done);
        let ghost prev = raw_done;
        proof {
            if reader_raw(*reader).len() > 0 {
                assert(raw0[raw_done.len() as int] == reader_raw(*reader)[0]);
                assert(prev.push(raw0[raw_done.len() as int]) =~= raw0.take(
                    raw_done.len() as int + 1,
                ));
                assert(raw0.skip(raw_done.len() as int).drop_first() =~= raw0.skip(
                    raw_done.len() as int + 1,
                ));
            }
        }
        match read_raw_event(reader) {
            RawEvent::Start(tag) => {
                push_pending_text(&mut events, pending);
                pending = None;
                match convert_start(&tag) {
                    Ok((name, attrs)) => {
                        events.push(XmlEvent::Start(name, attrs));
                        proof {
                            let h = RawS::Start {
                                name: start_name_of(tag),
                                attrs: start_attrs_of(tag),
                                attrs_ok: start_attrs_ok(tag),
                            };
                            raw_done = prev.push(h);
                            assert(raw_done.drop_last() =~= prev);
                            assert(raw_done.last() == h);
                            assert(gather_run(raw_done) == gather_step(st0, h));
                            assert(events.deep_view() =~= gather_run(raw_done).0);
                        }
                    },
                    Err(msg) => {
                        proof {
                            let h = RawS::Start {
                                name: start_name_of(tag),
                                attrs: start_attrs_of(tag),
                                attrs_ok: start_attrs_ok(tag),
                            };
                            raw_done = prev.push(h);
                            assert(raw_done.drop_last() =~= prev);
                            assert(raw_done.last() == h);
                            assert(gather_run(raw_done) == gather_step(st0, h));
                            assert(gather_run(raw_done).2);
                            lemma_gather_stop_persists(raw0, raw_done.len() as int);
                            assert(events.deep_view() =~= gathered_events(raw_done));
                            assert(events.deep_view() =~= reader_events(*old(reader)));
                        }
                        return (events, Some(msg));
                    },
                }
            },
            RawEvent::Empty(tag) => {
                push_pending_text(&mut events, pending);
                pending = None;
                match convert_start(&tag) {
                    Ok((name, attrs)) => {
                        events.push(XmlEvent::Empty(name, attrs));
                        proof {
                            let h = RawS::Empty {
                                name: start_name_of(tag),
                                attrs: start_attrs_of(tag),
                                attrs_ok: start_attrs_ok(tag),
                            };
                            raw_done = prev.push(h);
                            assert(raw_done.drop_last() =~= prev);
                            assert(raw_done.last() == h);
                            assert(gather_run(raw_done) == gather_step(st0, h));
                            assert(events.deep_view() =~= gather_run(raw_done).0);
                        }
                    },
                    Err(msg) => {
                        proof {
                            let h = RawS::Empty {
                                name: start_name_of(tag),
                                attrs: start_attrs_of(tag),
                                attrs_ok: start_attrs_ok(tag),
                            };
                            raw_done = prev.push(h);
                            assert(raw_done.drop_last() =~= prev);
                            assert(raw_done.last() == h);
                            assert(gather_run(raw_done) == gather_step(st0, h));
                            assert(gather_run(raw_done).2);
                            lemma_gather_stop_persists(raw0, raw_done.len() as int);
                            assert(events.deep_view() =~= gathered_events(raw_done));
                            assert(events.deep_view() =~= reader_events(*old(reader)));
                        }
                        return (events, Some(msg));
                    },
                }
            },
            RawEvent::End(tag) => {
                push_pending_text(&mut events, pending);
                pending = None;
                events.push(XmlEvent::End(end_name(&tag)));
                proof {
                    let h = RawS::End { name: end_name_of(tag) };
                    raw_done = prev.push(h);
                    assert(raw_done.drop_last() =~= prev);
                    assert(raw_done.last() == h);
                    assert(gather_run(raw_done) == gather_step(st0, h));
                    assert(events.deep_view() =~= gather_run(raw_done).0);
                }
            },
            RawEvent::Text(t) => {
                let ghost h = RawS::Text { text: text_of_content(t) };
                let text = text_content(t);
                pending = match pending {
                    Some(s) => Some(s.concat(text.as_str())),
                    None => Some(text),
                };
                proof {
                    raw_done = prev.push(h);
                    assert(raw_done.drop_last() =~= prev);
                    assert(raw_done.last() == h);
                    assert(gather_run(raw_done) == gather_step(st0, h));
                }
            },
            RawEvent::Ref(t) => {
                let ghost h = RawS::Ref { text: ref_of_content(t) };
                let text = ref_text(t);
                pending = match pending {
                    Some(s) => Some(s.concat(text.as_str())),
                    None => Some(text),
                };
                proof {
                    raw_done = prev.push(h);
                    assert(raw_done.drop_last() =~= prev);
                    assert(raw_done.last() == h);
                    assert(gather_run(raw_done) == gather_step(st0, h));
                }
            },
            RawEvent::Decl => {
                push_pending_text(&mut events, pending);
                pending = None;
                events.push(XmlEvent::Decl);
                proof {
                    raw_done = prev.push(RawS::Decl);
                    assert(raw_done.drop_last() =~= prev);
                    assert(raw_done.last() == RawS::Decl);
                    assert(gather_run(raw_done) == gather_step(st0, RawS::Decl));
                    assert(events.deep_view() =~= gather_run(raw_done).0);
                }
            },
            RawEvent::Other => {
                proof {
                    raw_done = prev.push(RawS::Other);
                    assert(raw_done.drop_last() =~= prev);
                    assert(raw_done.last() == RawS::Other);
                    assert(gather_run(raw_done) == gather_step(st0, RawS::Other));
                }
            },
            RawEvent::Eof => {
                proof {
                    assert(raw0.skip(raw_done.len() as int).len() == 0);
                    assert(raw_done.len() == raw0.len());
                    assert(raw_done =~= raw0);
                }
                push_pending_text(&mut events, pending);
                proof {
                    assert(events.deep_view() =~= gathered_events(raw0));
                }
                return (events, None);
            },
            RawEvent::Fault(msg) => {
                proof {
                    assert(raw0.skip(raw_done.len() as int).len() == 0);
                    assert(raw_done.len() == raw0.len());
                    assert(raw_done =~= raw0);
                }
                push_pending_text(&mut events, pending);
                proof {
                    assert(events.deep_view() =~= gathered_events(raw0));
                }
                return (events, Some(msg));
            },
        }
    }
}

/// Relies on quick_xml's `Writer::write_event` with a start tag: appends
/// exactly that tag's rendering, its attributes in stored order.
#[verifier::external_body]
fn write_start(w: &mut XmlWriter, name: &str, attrs: &Vec<XbrlAttribute>) -> (r: Result<
    (),
    SerializeError,
>)
    ensures
        r is Ok,
        written_text(*final(w)) == written_text(*old(w)) + start_render(
            name@,
            attrs.deep_view(),
        ),
{
    let tag = BytesStart::new(name).with_attributes(
        attrs.iter().map(
            |a: &XbrlAttribute|
                Attribute {
                    key: QName(a.key.as_str()),
                    value: std::borrow::Cow::Borrowed(a.value.as_str()),
                },
        ),
    );
    w.inner.write_event(Event::Start(tag)).map_err(|e| SerializeError::Sink(e.to_string()))
}

/// Relies on quick_xml's `Writer::write_event` with a self-closing tag:
/// appends exactly that tag's rendering, its attributes in stored order.
#[verifier::external_body]
fn write_empty(w: &mut XmlWriter, name: &str, attrs: &Vec<XbrlAttribute>) -> (r: Result<
    (),
    SerializeError,
>)
    ensures
        r is Ok,
        written_text(*final(w)) == written_text(*old(w)) + empty_render(
            name@,
            attrs.deep_view(),
        ),
{
    let tag = BytesStart::new(name).with_attributes(
        attrs.iter().map(
            |a: &XbrlAttribute|
                Attribute {
                    key: QName(a.key.as_str()),
                    value: std::borrow::Cow::Borrowed(a.value.as_str()),
                },
        ),
    );
    w.inner.write_event(Event::Empty(tag)).map_err(|e| SerializeError::Sink(e.to_string()))
}

/// Relies on quick_xml's `Writer::write_event` with an end tag: appends
/// exactly that tag's rendering.
#[verifier::external_body]
fn write_end(w: &mut XmlWriter, name: &str) -> (r: Result<(), SerializeError>)
    ensures
        r is Ok,
        written_text(*final(w)) == written_text(*old(w)) + end_render(name@),
{
    w.inner.write_event(Event::End(BytesEnd::new(name))).map_err(
        |e| SerializeError::Sink(e.to_string()),
    )
}

/// Relies on quick_xml's `Writer::write_event` with a text event built by
/// `BytesText::from_escaped`: appends exactly the text as it stands —
/// character data read from a document keeps its escaped form verbatim.
#[verifier::external_body]
fn write_text(w: &mut XmlWriter, text: &str) -> (r: Result<(), SerializeError>)
    ensures
        r is Ok,
        written_text(*final(w)) == written_text(*old(w)) + text@,
{
    w.inner.write_event(Event::Text(BytesText::from_escaped(text))).map_err(
        |e| SerializeError::Sink(e.to_string()),
    )
}

/// Relies on quick_xml's `Writer::write_event` with a declaration: appends
/// the rendering of the XML declaration, version 1.0 and UTF-8.
#[verifier::external_body]
pub fn write_declaration(w: &mut XmlWriter) -> (r: Result<(), SerializeError>)
    ensures
        r is Ok,
        written_text(*final(w)) == written_text(*old(w)) + decl_render("1.0"@),
{
    w.inner.write_event(Event::Decl(BytesDecl::new("1.0", Some("UTF-8"), None))).map_err(
        |e| SerializeError::Sink(e.to_string()),
    )
}

/// Relies on quick_xml's `Writer::new`: a fresh default-configured writer
/// over an empty buffer with nothing written yet.
#[verifier::external_body]
pub fn writer_new() -> (r: XmlWriter)
    ensures
        written_text(r) == Seq::<char>::empty(),
{
    XmlWriter { inner: Writer::new(Vec::new()) }
}

/// Relies on quick_xml's `Writer::into_inner`: the written bytes, taken as
/// text.
#[verifier::external_body]
pub fn writer_into_string(w: XmlWriter) -> (r: Result<String, SerializeError>)
    ensures
        r matches Ok(s) ==> s@ == written_text(w),
{
    String::from_utf8(w.inner.into_inner()).map_err(|e| SerializeError::Sink(e.to_string()))
}

/// Write a list of events to the sink, in order: the write succeeds — the
/// in-memory sink cannot fail — and the sink gains exactly the events'
/// rendering.
pub fn write_events(writer: &mut XmlWriter, events: &Vec<XmlEvent>) -> (r: Result<
    (),
    SerializeError,
>)
    ensures
        r is Ok,
        written_text(*final(writer)) == written_text(*old(writer)) + events_render(
            events.deep_view(),
        ),
{
    let ghost base = written_text(*writer);
    let ghost evs = events.deep_view();
    let n = events.len();
    let mut i: usize = 0;
    proof {
        assert(base + events_render(evs.take(0)) =~= base);
    }
    while i < n
        invariant
            n == events@.len(),
            evs == events.deep_view(),
            evs.len() == n,
            i <= n,
            written_text(*writer) == base + events_render(evs.take(i as int)),
        decreases n - i,
    {
        proof {
            assert(events@[i as int].deep_view() == evs[i as int]);
        }
        let outcome = match &events[i] {
            XmlEvent::Start(name, attrs) => write_start(writer, name.as_str(), attrs),
            XmlEvent::End(name) => write_end(writer, name.as_str()),
            XmlEvent::Empty(name, attrs) => write_empty(writer, name.as_str(), attrs),
            XmlEvent::Text(text) => write_text(writer, text.as_str()),
            XmlEvent::Decl => write_declaration(writer),
        };
        match outcome {
            Ok(()) => {},
            Err(e) => {
                return Err(e);
            },
        }
        proof {
            assert(evs.take(i as int + 1).drop_last() =~= evs.take(i as int));
            assert(evs.take(i as int + 1).last() == evs[i as int]);
            assert(events_render(evs.take(i as int + 1)) == events_render(evs.take(i as int))
                + event_render(evs[i as int]));
            assert(written_text(*writer) =~= base + events_render(evs.take(i as int + 1)));
        }
        i += 1;
    }
    proof {
        assert(evs.take(n as int) =~= evs);
    }
    Ok(())
}

} // verus!
