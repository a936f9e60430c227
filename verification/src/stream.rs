//! The streaming updaters: single forward passes over a document's events
//! that replace target values, or clear every value, without building a
//! tree.  Each is specified as a fold over the events and implemented as a
//! verified loop that mirrors the fold.

use vstd::prelude::*;
use quick_xml::Reader;
use crate::events::{EvSpec, XmlEvent};
use crate::mutate::clone_attrs;
use crate::tags::Tags;
use crate::text::{contains_seq, str_contains, str_eq};
use crate::xbrl::AttrS;
use crate::xmlio::{
    decl_render, events_render, read_events, reader_events, write_declaration, write_events,
    written_text, SerializeError, XmlWriter,
};

verus! {

/// The list with every attribute of this key removed.
pub open spec fn without_key(attrs: Seq<AttrS>, k: Seq<char>) -> Seq<AttrS>
    decreases attrs.len(),
{
    if attrs.len() == 0 {
        Seq::empty()
    } else {
        let rest = without_key(attrs.drop_last(), k);
        if attrs.last().key == k {
            rest
        } else {
            rest.push(attrs.last())
        }
    }
}

/// Drop every attribute of the given key, keeping the others in order.
fn remove_all_attrs(attrs: &Vec<crate::xbrl::XbrlAttribute>, key: &str) -> (r: Vec<
    crate::xbrl::XbrlAttribute,
>)
    ensures
        r.deep_view() == without_key(attrs.deep_view(), key@),
{
    let ghost d = attrs.deep_view();
    let n = attrs.len();
    let mut out: Vec<crate::xbrl::XbrlAttribute> = Vec::new();
    let mut i: usize = 0;
    proof {
        assert(d.take(0) =~= Seq::<AttrS>::empty());
        assert(out.deep_view() =~= without_key(d.take(0), key@));
    }
    while i < n
        invariant
            n == attrs@.len(),
            d == attrs.deep_view(),
            d.len() == n,
            i <= n,
            out.deep_view() == without_key(d.take(i as int), key@),
        decreases n - i,
    {
        proof {
            assert(d.take(i as int + 1).drop_last() =~= d.take(i as int));
            assert(d.take(i as int + 1).last() == d[i as int]);
            assert(attrs@[i as int]@ == d[i as int]);
        }
        if !str_eq(attrs[i].key.as_str(), key) {
            out.push(
                crate::xbrl::XbrlAttribute::new(attrs[i].key.as_str(), attrs[i].value.as_str()),
            );
        }
        proof {
            assert(out.deep_view() =~= without_key(d.take(i as int + 1), key@));
        }
        i += 1;
    }
    proof {
        assert(d.take(n as int) =~= d);
    }
    out
}

/// The attribute rewrite the streaming value updater applies to a GAAP-CI
/// tag: every `xsi:nil` attribute removed, `decimals="2"` appended.
pub open spec fn stream_inject_attrs(attrs: Seq<AttrS>) -> Seq<AttrS> {
    without_key(attrs, "xsi:nil"@).push(AttrS { key: "decimals"@, value: "2"@ })
}

/// The attribute rewrite the streaming value remover applies to a non-GCD
/// tag inside the instance: every `decimals` attribute removed,
/// `xsi:nil="true"` appended.
pub open spec fn stream_strip_attrs(attrs: Seq<AttrS>) -> Seq<AttrS> {
    without_key(attrs, "decimals"@).push(AttrS { key: "xsi:nil"@, value: "true"@ })
}

/// Drop every `xsi:nil` attribute and append `decimals="2"`.
fn inject_attrs_stream(attrs: &Vec<crate::xbrl::XbrlAttribute>) -> (r: Vec<
    crate::xbrl::XbrlAttribute,
>)
    ensures
        r.deep_view() == stream_inject_attrs(attrs.deep_view()),
{
    let mut a = remove_all_attrs(attrs, "xsi:nil");
    a.push(crate::xbrl::XbrlAttribute::new("decimals", "2"));
    proof {
        assert(a.deep_view() =~= stream_inject_attrs(attrs.deep_view()));
    }
    a
}

/// Drop every `decimals` attribute and append `xsi:nil="true"`.
fn strip_attrs_stream(attrs: &Vec<crate::xbrl::XbrlAttribute>) -> (r: Vec<
    crate::xbrl::XbrlAttribute,
>)
    ensures
        r.deep_view() == stream_strip_attrs(attrs.deep_view()),
{
    let mut a = remove_all_attrs(attrs, "decimals");
    a.push(crate::xbrl::XbrlAttribute::new("xsi:nil", "true"));
    proof {
        assert(a.deep_view() =~= stream_strip_attrs(attrs.deep_view()));
    }
    a
}

/// State of the target-tag substitution pass: the open target tag, if any,
/// and the events written so far.
#[verifier::ext_equal]
pub ghost struct SubstState {
    pub cur: Option<(Seq<char>, Option<Seq<char>>)>,
    pub out: Seq<EvSpec>,
}

/// One step of the target-tag substitution: a start tag of a name the table
/// holds opens it as the target; text inside the target is replaced by the
/// target value, an absent value writing empty text; the matching end tag
/// closes the target; a declaration is dropped (the pass writes its own);
/// everything else passes through.
pub open spec fn subst_step(
    tab: Map<Seq<char>, Option<Seq<char>>>,
    st: SubstState,
    ev: EvSpec,
) -> SubstState {
    match ev {
        EvSpec::Start { name, attrs } => SubstState {
            cur: if tab.contains_key(name) {
                Some((name, tab[name]))
            } else {
                st.cur
            },
            out: st.out.push(ev),
        },
        EvSpec::End { name } => SubstState {
            cur: match st.cur {
                Some((n, _)) => if n == name {
                    None
                } else {
                    st.cur
                },
                None => None,
            },
            out: st.out.push(ev),
        },
        EvSpec::Empty { name, attrs } => SubstState { cur: st.cur, out: st.out.push(ev) },
        EvSpec::Text { text } => SubstState {
            cur: st.cur,
            out: st.out.push(
                EvSpec::Text {
                    text: match st.cur {
                        Some((_, Some(v))) => v,
                        Some((_, None)) => Seq::empty(),
                        None => text,
                    },
                },
            ),
        },
        EvSpec::Decl => st,
    }
}

/// The substitution pass over a whole event sequence.
pub open spec fn subst_run(tab: Map<Seq<char>, Option<Seq<char>>>, evs: Seq<EvSpec>) -> SubstState
    decreases evs.len(),
{
    if evs.len() == 0 {
        SubstState { cur: None, out: Seq::empty() }
    } else {
        subst_step(tab, subst_run(tab, evs.drop_last()), evs.last())
    }
}

/// Substitute target values into an event stream, name-scoped: the events
/// out are exactly the substitution fold's output.
pub fn update_target_tags_events(target_tags: &Tags, events: &Vec<XmlEvent>) -> (r: Vec<XmlEvent>)
    ensures
        r.deep_view() == subst_run(target_tags@, events.deep_view()).out,
{
    let ghost tab = target_tags@;
    let ghost evs = events.deep_view();
    let mut cur: Option<(String, Option<String>)> = None;
    let mut out: Vec<XmlEvent> = Vec::new();
    let n = events.len();
    let mut i: usize = 0;
    proof {
        assert(evs.take(0) =~= Seq::<EvSpec>::empty());
    }
    while i < n
        invariant
            n == events@.len(),
            tab == target_tags@,
            evs == events.deep_view(),
            evs.len() == n,
            i <= n,
            (match (cur, subst_run(tab, evs.take(i as int)).cur) {
                (Some((cn, cv)), Some((sn, sv))) => cn@ == sn && cv.deep_view() == sv,
                (None, None) => true,
                _ => false,
            }),
            out.deep_view() == subst_run(tab, evs.take(i as int)).out,
        decreases n - i,
    {
        let ghost st0 = subst_run(tab, evs.take(i as int));
        proof {
            assert(evs.take(i as int + 1).drop_last() =~= evs.take(i as int));
            assert(evs.take(i as int + 1).last() == evs[i as int]);
            assert(subst_run(tab, evs.take(i as int + 1)) == subst_step(tab, st0, evs[i as int]));
            assert(events@[i as int].deep_view() == evs[i as int]);
        }
        match &events[i] {
            XmlEvent::Start(name, attrs) => {
                match target_tags.get(name.as_str()) {
                    Some(v) => {
                        cur = Some((name.clone(), crate::mutate::clone_opt_string(v)));
                    },
                    None => {},
                }
                out.push(XmlEvent::Start(name.clone(), clone_attrs(attrs)));
                proof {
                    assert(out.deep_view() =~= subst_run(tab, evs.take(i as int + 1)).out);
                }
            },
            XmlEvent::End(name) => {
                let close = match &cur {
                    Some((cn, _)) => str_eq(cn.as_str(), name.as_str()),
                    None => false,
                };
                if close {
                    cur = None;
                }
                out.push(XmlEvent::End(name.clone()));
                proof {
                    assert(out.deep_view() =~= subst_run(tab, evs.take(i as int + 1)).out);
                }
            },
            XmlEvent::Empty(name, attrs) => {
                out.push(XmlEvent::Empty(name.clone(), clone_attrs(attrs)));
                proof {
                    assert(out.deep_view() =~= subst_run(tab, evs.take(i as int + 1)).out);
                }
            },
            XmlEvent::Text(text) => {
                let replacement: String = match &cur {
                    Some((_, Some(v))) => v.clone(),
                    Some((_, None)) => String::new(),
                    None => text.clone(),
                };
                out.push(XmlEvent::Text(replacement));
                proof {
                    reveal_strlit("");
                    assert(out.deep_view() =~= subst_run(tab, evs.take(i as int + 1)).out);
                }
            },
            XmlEvent::Decl => {
                proof {
                    assert(out.deep_view() =~= subst_run(tab, evs.take(i as int + 1)).out);
                }
            },
        }
        i += 1;
    }
    proof {
        assert(evs.take(n as int) =~= evs);
    }
    out
}

/// Update values in a document for the given target tags, streaming: an XML
/// declaration is written first, then the document's events with every
/// targeted value replaced.  On a source failure mid-document the events
/// read so far are still written: the pass is fail-soft, and only the sink
/// can make it fail.
pub fn update_target_tags(
    target_tags: Tags,
    reader: &mut Reader<&[u8]>,
    writer: &mut XmlWriter,
) -> (r: Result<(), SerializeError>)
    ensures
        r is Ok,
        written_text(*final(writer)) == written_text(*old(writer)) + decl_render("1.0"@)
            + events_render(subst_run(target_tags@, reader_events(*old(reader))).out),
{
    let (events, _fault) = read_events(reader);
    match write_declaration(writer) {
        Ok(()) => {},
        Err(e) => {
            return Err(e);
        },
    }
    let out = update_target_tags_events(&target_tags, &events);
    match write_events(writer, &out) {
        Ok(()) => {
            proof {
                assert(written_text(*writer) =~= written_text(*old(writer)) + decl_render(
                    "1.0"@,
                ) + events_render(subst_run(target_tags@, events.deep_view()).out));
            }
            Ok(())
        },
        Err(e) => Err(e),
    }
}

/// The name of the XBRL instance root tag, which switches the streaming
/// passes into instance mode.
pub open spec fn xbrl_root_name() -> Seq<char> {
    "xbrli:xbrl"@
}

/// State of the streaming value updater: the open target tag, whether the
/// pass is inside the XBRL instance, and the events written so far.
#[verifier::ext_equal]
pub ghost struct UpdateState {
    pub cur: Option<(Seq<char>, Option<Seq<char>>)>,
    pub xbrl: bool,
    pub out: Seq<EvSpec>,
}

/// One step of the streaming value updater.  The instance root switches to
/// instance mode (an end tag of that name does so too); inside the instance
/// a GAAP-CI start tag has its `xsi:nil` attributes dropped and
/// `decimals="2"` appended; a self-closing tag of a targeted name becomes
/// an explicit element holding the target value; text inside a targeted
/// element is replaced; everything else passes through unchanged.
pub open spec fn update_step(
    tab: Map<Seq<char>, Option<Seq<char>>>,
    st: UpdateState,
    ev: EvSpec,
) -> UpdateState {
    match ev {
        EvSpec::Start { name, attrs } => {
            let xbrl2 = st.xbrl || name == xbrl_root_name();
            let attrs2 = if xbrl2 && contains_seq(name, "gaap-ci"@) {
                stream_inject_attrs(attrs)
            } else {
                attrs
            };
            UpdateState {
                cur: if tab.contains_key(name) {
                    Some((name, tab[name]))
                } else {
                    st.cur
                },
                xbrl: xbrl2,
                out: st.out.push(EvSpec::Start { name, attrs: attrs2 }),
            }
        },
        EvSpec::End { name } => UpdateState {
            cur: match st.cur {
                Some((n, _)) => if n == name {
                    None
                } else {
                    st.cur
                },
                None => None,
            },
            xbrl: st.xbrl || name == xbrl_root_name(),
            out: st.out.push(ev),
        },
        EvSpec::Empty { name, attrs } => {
            let attrs2 = if st.xbrl && contains_seq(name, "gaap-ci"@) {
                stream_inject_attrs(attrs)
            } else {
                attrs
            };
            UpdateState {
                cur: st.cur,
                xbrl: st.xbrl,
                out: if tab.contains_key(name) {
                    st.out.push(EvSpec::Start { name, attrs: attrs2 }).push(
                        EvSpec::Text {
                            text: match tab[name] {
                                Some(v) => v,
                                None => Seq::empty(),
                            },
                        },
                    ).push(EvSpec::End { name })
                } else {
                    st.out.push(ev)
                },
            }
        },
        EvSpec::Text { text } => UpdateState {
            cur: st.cur,
            xbrl: st.xbrl,
            out: st.out.push(
                EvSpec::Text {
                    text: match st.cur {
                        Some((_, Some(v))) => v,
                        Some((_, None)) => Seq::empty(),
                        None => text,
                    },
                },
            ),
        },
        EvSpec::Decl => UpdateState { cur: st.cur, xbrl: st.xbrl, out: st.out.push(ev) },
    }
}

/// The streaming value updater over a whole event sequence.
pub open spec fn update_run(tab: Map<Seq<char>, Option<Seq<char>>>, evs: Seq<EvSpec>) -> UpdateState
    decreases evs.len(),
{
    if evs.len() == 0 {
        UpdateState { cur: None, xbrl: false, out: Seq::empty() }
    } else {
        update_step(tab, update_run(tab, evs.drop_last()), evs.last())
    }
}

/// Apply the streaming value updater to an event stream: the events out are
/// exactly the update fold's output.
pub fn update_tag_values_events(target_tags: &Tags, events: &Vec<XmlEvent>) -> (r: Vec<XmlEvent>)
    ensures
        r.deep_view() == update_run(target_tags@, events.deep_view()).out,
{
    let ghost tab = target_tags@;
    let ghost evs = events.deep_view();
    let mut cur: Option<(String, Option<String>)> = None;
    let mut xbrl = false;
    let mut out: Vec<XmlEvent> = Vec::new();
    let n = events.len();
    let mut i: usize = 0;
    proof {
        assert(evs.take(0) =~= Seq::<EvSpec>::empty());
    }
    while i < n
        invariant
            n == events@.len(),
            tab == target_tags@,
            evs == events.deep_view(),
            evs.len() == n,
            i <= n,
            (match (cur, update_run(tab, evs.take(i as int)).cur) {
                (Some((cn, cv)), Some((sn, sv))) => cn@ == sn && cv.deep_view() == sv,
                (None, None) => true,
                _ => false,
            }),
            xbrl == update_run(tab, evs.take(i as int)).xbrl,
            out.deep_view() == update_run(tab, evs.take(i as int)).out,
        decreases n - i,
    {
        let ghost st0 = update_run(tab, evs.take(i as int));
        proof {
            assert(evs.take(i as int + 1).drop_last() =~= evs.take(i as int));
            assert(evs.take(i as int + 1).last() == evs[i as int]);
            assert(update_run(tab, evs.take(i as int + 1)) == update_step(tab, st0, evs[i as int]));
            assert(events@[i as int].deep_view() == evs[i as int]);
        }
        match &events[i] {
            XmlEvent::Start(name, attrs) => {
                if str_eq(name.as_str(), "xbrli:xbrl") {
                    xbrl = true;
                }
                let attrs2 = if xbrl && str_contains(name.as_str(), "gaap-ci") {
                    inject_attrs_stream(attrs)
                } else {
                    clone_attrs(attrs)
                };
                match target_tags.get(name.as_str()) {
                    Some(v) => {
                        cur = Some((name.clone(), crate::mutate::clone_opt_string(v)));
                    },
                    None => {},
                }
                out.push(XmlEvent::Start(name.clone(), attrs2));
                proof {
                    assert(out.deep_view() =~= update_run(tab, evs.take(i as int + 1)).out);
                }
            },
            XmlEvent::End(name) => {
                if str_eq(name.as_str(), "xbrli:xbrl") {
                    xbrl = true;
                }
                let close = match &cur {
                    Some((cn, _)) => str_eq(cn.as_str(), name.as_str()),
                    None => false,
                };
                if close {
                    cur = None;
                }
                out.push(XmlEvent::End(name.clone()));
                proof {
                    assert(out.deep_view() =~= update_run(tab, evs.take(i as int + 1)).out);
                }
            },
            XmlEvent::Empty(name, attrs) => {
                match target_tags.get(name.as_str()) {
                    Some(v) => {
                        let attrs2 = if xbrl && str_contains(name.as_str(), "gaap-ci") {
                            inject_attrs_stream(attrs)
                        } else {
                            clone_attrs(attrs)
                        };
                        let text: String = match v {
                            Some(v) => v.clone(),
                            None => String::new(),
                        };
                        out.push(XmlEvent::Start(name.clone(), attrs2));
                        out.push(XmlEvent::Text(text));
                        out.push(XmlEvent::End(name.clone()));
                        proof {
                            reveal_strlit("");
                            assert(out.deep_view() =~= update_run(
                                tab,
                                evs.take(i as int + 1),
                            ).out);
                        }
                    },
                    None => {
                        out.push(XmlEvent::Empty(name.clone(), clone_attrs(attrs)));
                        proof {
                            assert(out.deep_view() =~= update_run(
                                tab,
                                evs.take(i as int + 1),
                            ).out);
                        }
                    },
                }
            },
            XmlEvent::Text(text) => {
                let replacement: String = match &cur {
                    Some((_, Some(v))) => v.clone(),
                    Some((_, None)) => String::new(),
                    None => text.clone(),
                };
                out.push(XmlEvent::Text(replacement));
                proof {
                    reveal_strlit("");
                    assert(out.deep_view() =~= update_run(tab, evs.take(i as int + 1)).out);
                }
            },
            XmlEvent::Decl => {
                out.push(XmlEvent::Decl);
                proof {
                    assert(out.deep_view() =~= update_run(tab, evs.take(i as int + 1)).out);
                }
            },
        }
        i += 1;
    }
    proof {
        assert(evs.take(n as int) =~= evs);
    }
    out
}

/// Update values for given tags in a document, streaming: targeted leaf
/// values are replaced in place, targeted self-closing tags become explicit
/// elements, and GAAP-CI start tags inside the instance take the
/// `decimals="2"` convention.  On a source failure mid-document the events
/// read so far are still written: the pass is fail-soft, and only the sink
/// can make it fail.
pub fn update_tag_values(
    target_tags: Tags,
    reader: &mut Reader<&[u8]>,
    writer: &mut XmlWriter,
) -> (r: Result<(), SerializeError>)
    ensures
        r is Ok,
        written_text(*final(writer)) == written_text(*old(writer)) + events_render(
            update_run(target_tags@, reader_events(*old(reader))).out,
        ),
{
    let (events, _fault) = read_events(reader);
    let out = update_tag_values_events(&target_tags, &events);
    match write_events(writer, &out) {
        Ok(()) => {
            proof {
                assert(written_text(*writer) =~= written_text(*old(writer)) + events_render(
                    update_run(target_tags@, events.deep_view()).out,
                ));
            }
            Ok(())
        },
        Err(e) => Err(e),
    }
}

/// State of the streaming value remover: the pending start, end, text and
/// self-closing slots, the instance mode, and the events written so far.
#[verifier::ext_equal]
pub ghost struct RemoveState {
    pub start: Option<(Seq<char>, Seq<AttrS>)>,
    pub end: Option<Seq<char>>,
    pub text: Option<Seq<char>>,
    pub empty: Option<(Seq<char>, Seq<AttrS>)>,
    pub xbrl: bool,
    pub out: Seq<EvSpec>,
}

/// Record one event into the remover's slots.  A start tag flushes a
/// pending outer start tag first; the instance root switches instance mode
/// on and its end tag switches it off; a declaration passes through.
pub open spec fn remove_record(st: RemoveState, ev: EvSpec) -> RemoveState {
    match ev {
        EvSpec::Start { name, attrs } => RemoveState {
            start: Some((name, attrs)),
            end: st.end,
            text: st.text,
            empty: st.empty,
            xbrl: st.xbrl || name == xbrl_root_name(),
            out: match st.start {
                Some((n, a)) => st.out.push(EvSpec::Start { name: n, attrs: a }),
                None => st.out,
            },
        },
        EvSpec::End { name } => RemoveState {
            start: st.start,
            end: Some(name),
            text: st.text,
            empty: st.empty,
            xbrl: if name == xbrl_root_name() {
                false
            } else {
                st.xbrl
            },
            out: st.out,
        },
        EvSpec::Text { text } => RemoveState {
            start: st.start,
            end: st.end,
            text: Some(text),
            empty: st.empty,
            xbrl: st.xbrl,
            out: st.out,
        },
        EvSpec::Empty { name, attrs } => RemoveState {
            start: st.start,
            end: st.end,
            text: st.text,
            empty: Some((name, attrs)),
            xbrl: st.xbrl,
            out: st.out,
        },
        EvSpec::Decl => RemoveState {
            start: st.start,
            end: st.end,
            text: st.text,
            empty: st.empty,
            xbrl: st.xbrl,
            out: st.out.push(EvSpec::Decl),
        },
    }
}

/// Write a matched leaf as a self-closing tag and clear its slots: fires
/// when the pending start and end tags carry the same name; inside the
/// instance a non-GCD leaf additionally loses its `decimals` attributes and
/// gains `xsi:nil="true"`.
pub open spec fn remove_flush_leaf(st: RemoveState) -> RemoveState {
    match (st.start, st.end) {
        (Some((sn, sa)), Some(en)) => if sn == en {
            let attrs2 = if st.xbrl && !contains_seq(sn, "gcd"@) {
                stream_strip_attrs(sa)
            } else {
                sa
            };
            RemoveState {
                start: None,
                end: None,
                text: None,
                empty: st.empty,
                xbrl: st.xbrl,
                out: st.out.push(EvSpec::Empty { name: sn, attrs: attrs2 }),
            }
        } else {
            st
        },
        _ => st,
    }
}

/// Flush a pending self-closing tag, behind its pending outer start tag.
pub open spec fn remove_flush_empty(st: RemoveState) -> RemoveState {
    match st.empty {
        Some((n, a)) => {
            let out2 = match st.start {
                Some((sn, sa)) => st.out.push(EvSpec::Start { name: sn, attrs: sa }),
                None => st.out,
            };
            RemoveState {
                start: None,
                end: st.end,
                text: st.text,
                empty: None,
                xbrl: st.xbrl,
                out: out2.push(EvSpec::Empty { name: n, attrs: a }),
            }
        },
        None => st,
    }
}

/// Flush a pending end tag.
pub open spec fn remove_flush_end(st: RemoveState) -> RemoveState {
    match st.end {
        Some(n) => RemoveState {
            start: st.start,
            end: None,
            text: st.text,
            empty: st.empty,
            xbrl: st.xbrl,
            out: st.out.push(EvSpec::End { name: n }),
        },
        None => st,
    }
}

/// One step of the streaming value remover: record the event, write a
/// matched leaf, flush a pending self-closing tag, flush a pending end tag.
pub open spec fn remove_step(st: RemoveState, ev: EvSpec) -> RemoveState {
    remove_flush_end(remove_flush_empty(remove_flush_leaf(remove_record(st, ev))))
}

/// The streaming value remover over a whole event sequence.
pub open spec fn remove_run(evs: Seq<EvSpec>) -> RemoveState
    decreases evs.len(),
{
    if evs.len() == 0 {
        RemoveState {
            start: None,
            end: None,
            text: None,
            empty: None,
            xbrl: false,
            out: Seq::empty(),
        }
    } else {
        remove_step(remove_run(evs.drop_last()), evs.last())
    }
}

/// Apply the streaming value remover to an event stream: the events out are
/// exactly the removal fold's output.
pub fn remove_tag_values_events(events: &Vec<XmlEvent>) -> (r: Vec<XmlEvent>)
    ensures
        r.deep_view() == remove_run(events.deep_view()).out,
{
    let ghost evs = events.deep_view();
    let mut start: Option<(String, Vec<crate::xbrl::XbrlAttribute>)> = None;
    let mut end: Option<String> = None;
    let mut text: Option<String> = None;
    let mut empty: Option<(String, Vec<crate::xbrl::XbrlAttribute>)> = None;
    let mut xbrl = false;
    let mut out: Vec<XmlEvent> = Vec::new();
    let n = events.len();
    let mut i: usize = 0;
    proof {
        assert(evs.take(0) =~= Seq::<EvSpec>::empty());
    }
    while i < n
        invariant
            n == events@.len(),
            evs == events.deep_view(),
            evs.len() == n,
            i <= n,
            (match (start, remove_run(evs.take(i as int)).start) {
                (Some((cn, ca)), Some((sn, sa))) => cn@ == sn && ca.deep_view() == sa,
                (None, None) => true,
                _ => false,
            }),
            (match (end, remove_run(evs.take(i as int)).end) {
                (Some(cn), Some(sn)) => cn@ == sn,
                (None, None) => true,
                _ => false,
            }),
            (match (text, remove_run(evs.take(i as int)).text) {
                (Some(ct), Some(stx)) => ct@ == stx,
                (None, None) => true,
                _ => false,
            }),
            (match (empty, remove_run(evs.take(i as int)).empty) {
                (Some((cn, ca)), Some((sn, sa))) => cn@ == sn && ca.deep_view() == sa,
                (None, None) => true,
                _ => false,
            }),
            xbrl == remove_run(evs.take(i as int)).xbrl,
            out.deep_view() == remove_run(evs.take(i as int)).out,
        decreases n - i,
    {
        let ghost st0 = remove_run(evs.take(i as int));
        proof {
            assert(evs.take(i as int + 1).drop_last() =~= evs.take(i as int));
            assert(evs.take(i as int + 1).last() == evs[i as int]);
            assert(remove_run(evs.take(i as int + 1)) == remove_step(st0, evs[i as int]));
            assert(events@[i as int].deep_view() == evs[i as int]);
        }
        // Record the event into its slot.
        match &events[i] {
            XmlEvent::Start(name, attrs) => {
                match &start {
                    Some((sn, sa)) => {
                        out.push(XmlEvent::Start(sn.clone(), clone_attrs(sa)));
                    },
                    None => {},
                }
                if str_eq(name.as_str(), "xbrli:xbrl") {
                    xbrl = true;
                }
                start = Some((name.clone(), clone_attrs(attrs)));
            },
            XmlEvent::End(name) => {
                if str_eq(name.as_str(), "xbrli:xbrl") {
                    xbrl = false;
                }
                end = Some(name.clone());
            },
            XmlEvent::Text(t) => {
                text = Some(t.clone());
            },
            XmlEvent::Empty(name, attrs) => {
                empty = Some((name.clone(), clone_attrs(attrs)));
            },
            XmlEvent::Decl => {
                out.push(XmlEvent::Decl);
            },
        }
        let ghost st1 = remove_record(st0, evs[i as int]);
        proof {
            assert(out.deep_view() =~= st1.out);
        }
        // Write a matched leaf as a self-closing tag.
        let fire = match (&start, &end) {
            (Some((sn, _)), Some(en)) => str_eq(sn.as_str(), en.as_str()),
            _ => false,
        };
        if fire {
            match start {
                Some((sn, sa)) => {
                    let attrs2 = if xbrl && !str_contains(sn.as_str(), "gcd") {
                        strip_attrs_stream(&sa)
                    } else {
                        sa
                    };
                    out.push(XmlEvent::Empty(sn, attrs2));
                },
                None => {},
            }
            start = None;
            end = None;
            text = None;
        }
        let ghost st2 = remove_flush_leaf(st1);
        proof {
            assert(out.deep_view() =~= st2.out);
        }
        // Flush a pending self-closing tag, behind its pending outer start.
        match empty {
            Some((n2, a2)) => {
                match start {
                    Some((sn, sa)) => {
                        out.push(XmlEvent::Start(sn, sa));
                        start = None;
                    },
                    None => {},
                }
                out.push(XmlEvent::Empty(n2, a2));
                empty = None;
            },
            None => {},
        }
        let ghost st3 = remove_flush_empty(st2);
        proof {
            assert(out.deep_view() =~= st3.out);
        }
        // Flush a pending end tag.
        match end {
            Some(n2) => {
                out.push(XmlEvent::End(n2));
                end = None;
            },
            None => {},
        }
        proof {
            assert(out.deep_view() =~= remove_flush_end(st3).out);
            assert(out.deep_view() =~= remove_run(evs.take(i as int + 1)).out);
        }
        i += 1;
    }
    proof {
        assert(evs.take(n as int) =~= evs);
    }
    out
}

/// Remove the values of all leaf tags in a document, streaming: each leaf
/// becomes a self-closing tag, non-GCD leaves inside the instance take the
/// `xsi:nil="true"` convention, and declarations pass through.  On a source
/// failure mid-document the events read so far are still written: the pass
/// is fail-soft, and only the sink can make it fail.
pub fn remove_tag_values(reader: &mut Reader<&[u8]>, writer: &mut XmlWriter) -> (r: Result<
    (),
    SerializeError,
>)
    ensures
        r is Ok,
        written_text(*final(writer)) == written_text(*old(writer)) + events_render(
            remove_run(reader_events(*old(reader))).out,
        ),
{
    let (events, _fault) = read_events(reader);
    let out = remove_tag_values_events(&events);
    match write_events(writer, &out) {
        Ok(()) => {
            proof {
                assert(written_text(*writer) =~= written_text(*old(writer)) + events_render(
                    remove_run(events.deep_view()).out,
                ));
            }
            Ok(())
        },
        Err(e) => Err(e),
    }
}

} // verus!
