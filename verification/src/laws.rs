//! Laws of the strip/inject/serialise pipeline, each proved over the tree
//! model for every tree and table they speak of.

use vstd::prelude::*;
use crate::mutate::{
    first_attr_index, has_attr_key, inject_model, remove_first_attr, strip_model,
    lemma_first_attr_index,
};
use crate::events::EvSpec;
use crate::serialize::events_of;
use crate::xbrl::{AttrS, ElemS, Taxonomy, XmlType};

verus! {

/// A node is ready for a lossless strip-then-inject round trip: the table
/// maps its name to exactly its value, and, if it is a GAAP-CI fact, its
/// attributes end with `decimals="2"` and hold no other `decimals` and no
/// `xsi:nil` attribute.
pub open spec fn node_round_trip_ready(m: ElemS, tab: Map<Seq<char>, Option<Seq<char>>>) -> bool {
    tab.contains_key(m.name) && tab[m.name] == m.value && (m.tax == XmlType::Taxonomy(
        Taxonomy::GaapCi,
    ) ==> m.attrs.len() > 0 && m.attrs.last() == (AttrS { key: "decimals"@, value: "2"@ })
        && forall|j: int|
        0 <= j < m.attrs.len() - 1 ==> m.attrs[j].key != "decimals"@ && m.attrs[j].key
            != "xsi:nil"@)
}

/// Every node of the tree is ready for the round trip.
pub open spec fn round_trip_ready(t: ElemS, tab: Map<Seq<char>, Option<Seq<char>>>) -> bool
    decreases t,
{
    node_round_trip_ready(t, tab) && forall|i: int|
        0 <= i < t.children.len() ==> round_trip_ready(#[trigger] t.children[i], tab)
}

/// Round-trip identity: for any tree whose nodes the table maps back to
/// their own values, injecting after stripping restores the tree exactly,
/// and with it the serialised document.
pub proof fn lemma_round_trip(t: ElemS, tab: Map<Seq<char>, Option<Seq<char>>>)
    requires
        round_trip_ready(t, tab),
    ensures
        inject_model(strip_model(t), tab) == t,
        events_of(inject_model(strip_model(t), tab)) == events_of(t),
    decreases t,
{
    let s = strip_model(t);
    let r = inject_model(s, tab);
    if t.tax == XmlType::Taxonomy(Taxonomy::GaapCi) {
        let b = t.attrs.drop_last();
        assert(has_attr_key(t.attrs, "decimals"@)) by {
            assert(t.attrs[t.attrs.len() - 1].key == "decimals"@);
        }
        lemma_first_attr_index(t.attrs, "decimals"@);
        let f = first_attr_index(t.attrs, "decimals"@);
        assert(f == t.attrs.len() - 1) by {
            if f < t.attrs.len() - 1 {
                assert(t.attrs[f].key != "decimals"@);
            }
        }
        assert(remove_first_attr(t.attrs, "decimals"@) =~= b);
        let sa = s.attrs;
        assert(sa == b.push(AttrS { key: "xsi:nil"@, value: "true"@ }));
        assert(has_attr_key(sa, "xsi:nil"@)) by {
            assert(sa[sa.len() - 1].key == "xsi:nil"@);
        }
        lemma_first_attr_index(sa, "xsi:nil"@);
        let g = first_attr_index(sa, "xsi:nil"@);
        assert(g == sa.len() - 1) by {
            if g < sa.len() - 1 {
                assert(sa[g] == b[g]);
                assert(t.attrs[g] == b[g]);
                assert(sa[g].key != "xsi:nil"@);
            }
        }
        assert(remove_first_attr(sa, "xsi:nil"@) =~= b);
        assert(r.attrs =~= t.attrs);
    }
    assert forall|i: int| 0 <= i < t.children.len() implies r.children[i] == t.children[i] by {
        assert(round_trip_ready(t.children[i], tab));
        lemma_round_trip(t.children[i], tab);
        assert(s.children[i] == strip_model(t.children[i]));
        assert(r.children[i] == inject_model(strip_model(t.children[i]), tab));
    }
    assert(r.children =~= t.children);
    assert(r =~= t);
}

/// No node of the tree is a GAAP-CI fact.
pub open spec fn gaap_ci_free(t: ElemS) -> bool
    decreases t,
{
    t.tax != XmlType::Taxonomy(Taxonomy::GaapCi) && forall|i: int|
        0 <= i < t.children.len() ==> gaap_ci_free(#[trigger] t.children[i])
}

/// Idempotent strip: stripping a tree without GAAP-CI nodes twice is the
/// same as stripping it once.  (A GAAP-CI node is the known exception: each
/// strip appends one more `xsi:nil` attribute.)
pub proof fn lemma_strip_idempotent(t: ElemS)
    requires
        gaap_ci_free(t),
    ensures
        strip_model(strip_model(t)) == strip_model(t),
    decreases t,
{
    let s = strip_model(t);
    assert forall|i: int| 0 <= i < t.children.len() implies strip_model(s.children[i])
        == s.children[i] by {
        assert(gaap_ci_free(t.children[i]));
        lemma_strip_idempotent(t.children[i]);
    }
    assert(strip_model(s).children =~= s.children);
    assert(strip_model(s) =~= s);
}

/// The second tree keeps the first's shape, and every node that is not a
/// GAAP-CI fact keeps its attribute list.
pub open spec fn non_gaap_attrs_kept(a: ElemS, b: ElemS) -> bool
    decreases a,
{
    (a.tax != XmlType::Taxonomy(Taxonomy::GaapCi) ==> b.attrs == a.attrs) && b.children.len()
        == a.children.len() && forall|i: int|
        0 <= i < a.children.len() ==> non_gaap_attrs_kept(#[trigger] a.children[i], b.children[i])
}

/// Stripping never touches the attributes of GCD, plain or container
/// nodes: only their text value is cleared.
pub proof fn lemma_strip_keeps_non_gaap_attrs(t: ElemS)
    ensures
        non_gaap_attrs_kept(t, strip_model(t)),
    decreases t,
{
    assert forall|i: int| 0 <= i < t.children.len() implies non_gaap_attrs_kept(
        t.children[i],
        strip_model(t).children[i],
    ) by {
        lemma_strip_keeps_non_gaap_attrs(t.children[i]);
    }
}

/// Injection never touches the attributes of GCD, plain or container
/// nodes: only their text value can change.
pub proof fn lemma_inject_keeps_non_gaap_attrs(t: ElemS, tab: Map<Seq<char>, Option<Seq<char>>>)
    ensures
        non_gaap_attrs_kept(t, inject_model(t, tab)),
    decreases t,
{
    assert forall|i: int| 0 <= i < t.children.len() implies non_gaap_attrs_kept(
        t.children[i],
        inject_model(t, tab).children[i],
    ) by {
        lemma_inject_keeps_non_gaap_attrs(t.children[i], tab);
    }
}

/// Injection is scoped by name, not by position: two siblings carrying the
/// same name both receive the table's value for that name.
pub proof fn lemma_inject_name_scoped(
    t: ElemS,
    tab: Map<Seq<char>, Option<Seq<char>>>,
    i: int,
    j: int,
)
    requires
        0 <= i < t.children.len(),
        0 <= j < t.children.len(),
        t.children[i].name == t.children[j].name,
        tab.contains_key(t.children[i].name),
    ensures
        inject_model(t, tab).children[i].value == tab[t.children[i].name],
        inject_model(t, tab).children[j].value == tab[t.children[i].name],
{
    assert(inject_model(t, tab).children[i] == inject_model(t.children[i], tab));
    assert(inject_model(t, tab).children[j] == inject_model(t.children[j], tab));
    assert(tab.contains_key(t.children[j].name));
}

/// A leaf holding the empty string serialises as an explicit start/end
/// pair around empty text; a leaf holding no value serialises as a single
/// self-closing tag.  The two are distinct documents.
pub proof fn lemma_explicit_empty_vs_self_closed(m: ElemS)
    requires
        m.children.len() == 0,
    ensures
        m.value == Some(Seq::<char>::empty()) ==> events_of(m) == seq![
            EvSpec::Start { name: m.name, attrs: m.attrs },
            EvSpec::Text { text: Seq::empty() },
            EvSpec::End { name: m.name },
        ],
        m.value is None ==> events_of(m) == seq![
            EvSpec::Empty { name: m.name, attrs: m.attrs },
        ],
        m.value == Some(Seq::<char>::empty()) ==> events_of(m) != seq![
            EvSpec::Empty { name: m.name, attrs: m.attrs },
        ],
{
    if m.value == Some(Seq::<char>::empty()) {
        assert(events_of(m)[0] is Start);
        assert(events_of(m).len() == 3);
    }
}

} // verus!
