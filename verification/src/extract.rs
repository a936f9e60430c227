//! The tag extractor: one forward pass over the event stream that collects
//! the name/value pairs of leaf elements of the shape `<tag>value</tag>`.
//! Self-closing elements and elements with nested children produce nothing.

use vstd::prelude::*;
use crate::events::{EvSpec, XmlEvent};
use crate::tags::{Tag, TagS};
use crate::text::str_eq;

verus! {

/// The extractor's transient state: the three pending slots and the records
/// emitted so far.
#[verifier::ext_equal]
pub ghost struct ExtState {
    pub pending_start: Option<Seq<char>>,
    pub pending_text: Option<Seq<char>>,
    pub pending_end: Option<Seq<char>>,
    pub out: Seq<TagS>,
}

/// The extractor's initial state: all slots empty, nothing emitted.
pub open spec fn extract_init() -> ExtState {
    ExtState { pending_start: None, pending_text: None, pending_end: None, out: Seq::empty() }
}

/// One extraction step: record the event into its slot, then emit a record
/// and clear the slots when all three are filled with matching names.
pub open spec fn extract_step(st: ExtState, ev: EvSpec) -> ExtState {
    let st1 = match ev {
        EvSpec::Start { name, attrs } => ExtState {
            pending_start: Some(name),
            pending_text: st.pending_text,
            pending_end: st.pending_end,
            out: st.out,
        },
        EvSpec::End { name } => ExtState {
            pending_start: st.pending_start,
            pending_text: st.pending_text,
            pending_end: Some(name),
            out: st.out,
        },
        EvSpec::Text { text } => ExtState {
            pending_start: st.pending_start,
            pending_text: Some(text),
            pending_end: st.pending_end,
            out: st.out,
        },
        EvSpec::Empty { name, attrs } => st,
        EvSpec::Decl => st,
    };
    match (st1.pending_start, st1.pending_text, st1.pending_end) {
        (Some(s), Some(t), Some(e)) => if s == e {
            ExtState {
                pending_start: None,
                pending_text: None,
                pending_end: None,
                out: st1.out.push(TagS { name: s, value: Some(t) }),
            }
        } else {
            st1
        },
        _ => st1,
    }
}

/// The extractor's state after the whole event sequence.
pub open spec fn extract_run(evs: Seq<EvSpec>) -> ExtState
    decreases evs.len(),
{
    if evs.len() == 0 {
        extract_init()
    } else {
        extract_step(extract_run(evs.drop_last()), evs.last())
    }
}

/// The records the extractor emits for an event sequence.
pub open spec fn spec_extract(evs: Seq<EvSpec>) -> Seq<TagS> {
    extract_run(evs).out
}

/// Extract the leaf tag/value records from an event stream, in document
/// order.
pub fn extract_from_events(events: &Vec<XmlEvent>) -> (r: Vec<Tag>)
    ensures
        r.deep_view() == spec_extract(events.deep_view()),
{
    let ghost evs = events.deep_view();
    let mut pending_start: Option<String> = None;
    let mut pending_text: Option<String> = None;
    let mut pending_end: Option<String> = None;
    let mut out: Vec<Tag> = Vec::new();
    let n = events.len();
    let mut i: usize = 0;
    proof {
        assert(evs.take(0) =~= Seq::<EvSpec>::empty());
    }
    while i < n
        invariant
            n == events@.len(),
            evs == events.deep_view(),
            evs.len() == n,
            i <= n,
            pending_start.deep_view() == extract_run(evs.take(i as int)).pending_start,
            pending_text.deep_view() == extract_run(evs.take(i as int)).pending_text,
            pending_end.deep_view() == extract_run(evs.take(i as int)).pending_end,
            out.deep_view() == extract_run(evs.take(i as int)).out,
        decreases n - i,
    {
        let ghost st0 = extract_run(evs.take(i as int));
        proof {
            assert(evs.take(i as int + 1).drop_last() =~= evs.take(i as int));
            assert(evs.take(i as int + 1).last() == evs[i as int]);
            assert(extract_run(evs.take(i as int + 1)) == extract_step(st0, evs[i as int]));
            assert(events@[i as int].deep_view() == evs[i as int]);
        }
        match &events[i] {
            XmlEvent::Start(name, _) => {
                pending_start = Some(name.clone());
            },
            XmlEvent::End(name) => {
                pending_end = Some(name.clone());
            },
            XmlEvent::Text(t) => {
                pending_text = Some(t.clone());
            },
            XmlEvent::Empty(_, _) => {},
            XmlEvent::Decl => {},
        }
        let fire = match (&pending_start, &pending_text, &pending_end) {
            (Some(s), Some(_), Some(e)) => str_eq(s.as_str(), e.as_str()),
            _ => false,
        };
        if fire {
            match (&pending_start, &pending_text) {
                (Some(s), Some(t)) => {
                    out.push(Tag { name: s.clone(), value: Some(t.clone()) });
                },
                _ => {},
            }
            pending_start = None;
            pending_text = None;
            pending_end = None;
            proof {
                assert(out.deep_view() =~= extract_run(evs.take(i as int + 1)).out);
            }
        }
        i += 1;
    }
    proof {
        assert(evs.take(n as int) =~= evs);
    }
    out
}

} // verus!
