//! The serialiser: re-emits an element tree as a pre-order event sequence.
//! A node with a value — even the empty string — becomes an explicit
//! start/text/end triple; a valueless leaf becomes a self-closing tag.

use vstd::prelude::*;
use crate::events::{EvSpec, XmlEvent};
use crate::mutate::clone_attrs;
use crate::xbrl::{ElemS, XbrlElement};

verus! {

/// The event sequence a single tree serialises to.
pub open spec fn events_of(m: ElemS) -> Seq<EvSpec>
    decreases m,
{
    match m.value {
        Some(v) => seq![
            EvSpec::Start { name: m.name, attrs: m.attrs },
            EvSpec::Text { text: v },
            EvSpec::End { name: m.name },
        ],
        None => if m.children.len() == 0 {
            seq![EvSpec::Empty { name: m.name, attrs: m.attrs }]
        } else {
            seq![EvSpec::Start { name: m.name, attrs: m.attrs }] + events_of_children(m.children)
                + seq![EvSpec::End { name: m.name }]
        },
    }
}

/// The concatenated event sequences of a run of sibling trees.
pub open spec fn events_of_children(cs: Seq<ElemS>) -> Seq<EvSpec>
    decreases cs,
{
    if cs.len() == 0 {
        Seq::empty()
    } else {
        events_of(cs[0]) + events_of_children(cs.drop_first())
    }
}

/// Serialising one more sibling appends its events.
pub proof fn lemma_events_of_children_push(cs: Seq<ElemS>, x: ElemS)
    ensures
        events_of_children(cs.push(x)) == events_of_children(cs) + events_of(x),
    decreases cs.len(),
{
    let s = cs.push(x);
    if cs.len() == 0 {
        assert(s[0] == x);
        assert(s.drop_first() =~= Seq::<ElemS>::empty());
        assert(events_of_children(s.drop_first()) == Seq::<EvSpec>::empty());
        assert(events_of_children(s) == events_of(x) + Seq::<EvSpec>::empty());
        assert(events_of_children(cs) == Seq::<EvSpec>::empty());
        assert(events_of_children(s) =~= events_of_children(cs) + events_of(x));
    } else {
        assert(s[0] == cs[0]);
        assert(s.drop_first() =~= cs.drop_first().push(x));
        lemma_events_of_children_push(cs.drop_first(), x);
        assert(events_of_children(s) == events_of(cs[0]) + events_of_children(s.drop_first()));
        assert(events_of_children(s.drop_first()) == events_of_children(cs.drop_first())
            + events_of(x));
        assert(events_of_children(cs) == events_of(cs[0]) + events_of_children(cs.drop_first()));
        assert(events_of_children(s) =~= events_of_children(cs) + events_of(x));
    }
}

impl XbrlElement {
    /// Append the subtree's events to `out`.
    fn serialize_into(e: &XbrlElement, out: &mut Vec<XmlEvent>)
        ensures
            final(out).deep_view() == old(out).deep_view() + events_of(e@),
        decreases *e,
    {
        let ghost base = out.deep_view();
        match &e.value {
            Some(v) => {
                out.push(XmlEvent::Start(e.name.clone(), clone_attrs(&e.attributes)));
                out.push(XmlEvent::Text(v.clone()));
                out.push(XmlEvent::End(e.name.clone()));
                proof {
                    assert(out.deep_view() =~= base + events_of(e@));
                }
            },
            None => {
                if e.children.len() == 0 {
                    out.push(XmlEvent::Empty(e.name.clone(), clone_attrs(&e.attributes)));
                    proof {
                        assert(e@.children.len() == 0);
                        assert(out.deep_view() =~= base + events_of(e@));
                    }
                } else {
                    out.push(XmlEvent::Start(e.name.clone(), clone_attrs(&e.attributes)));
                    let ghost after_start = out.deep_view();
                    let n = e.children.len();
                    let mut i: usize = 0;
                    proof {
                        assert(after_start =~= base + seq![
                            EvSpec::Start { name: e@.name, attrs: e@.attrs },
                        ]);
                        assert(e@.children.take(0) =~= Seq::<ElemS>::empty());
                        assert(out.deep_view() =~= after_start + events_of_children(
                            e@.children.take(0),
                        ));
                    }
                    while i < n
                        invariant
                            n == e.children@.len(),
                            n == e@.children.len(),
                            i <= n,
                            forall|j: int| 0 <= j < n ==> e@.children[j] == e.children@[j]@,
                            out.deep_view() == after_start + events_of_children(
                                e@.children.take(i as int),
                            ),
                        decreases n - i,
                    {
                        Self::serialize_into(&e.children[i], out);
                        proof {
                            lemma_events_of_children_push(
                                e@.children.take(i as int),
                                e@.children[i as int],
                            );
                            assert(e@.children.take(i + 1) =~= e@.children.take(
                                i as int,
                            ).push(e@.children[i as int]));
                            assert(out.deep_view() =~= after_start + events_of_children(
                                e@.children.take(i + 1),
                            ));
                        }
                        i += 1;
                    }
                    out.push(XmlEvent::End(e.name.clone()));
                    proof {
                        assert(e@.children.take(n as int) =~= e@.children);
                        assert(events_of_children(e@.children.take(n as int))
                            == events_of_children(e@.children));
                        assert(out.deep_view() =~= after_start + events_of_children(e@.children)
                            + seq![EvSpec::End { name: e@.name }]);
                        assert(events_of(e@) == seq![
                            EvSpec::Start { name: e@.name, attrs: e@.attrs },
                        ] + events_of_children(e@.children) + seq![
                            EvSpec::End { name: e@.name },
                        ]);
                        assert(out.deep_view() =~= base + events_of(e@));
                    }
                }
            },
        }
    }

    /// The pre-order event sequence of the tree: a valued node serialises as
    /// start/text/end even when the value is the empty string; a valueless
    /// leaf as a self-closing tag; a valueless branch as start, its children
    /// in order, end.  Attribute order is emitted exactly as stored.
    pub fn serialize_events(&self) -> (r: Vec<XmlEvent>)
        ensures
            r.deep_view() == events_of(self@),
    {
        let mut out: Vec<XmlEvent> = Vec::new();
        Self::serialize_into(self, &mut out);
        proof {
            assert(out.deep_view() =~= events_of(self@));
        }
        out
    }
}

} // verus!
