//! The two tree mutators: value stripping and value injection, both applied
//! pre-order and in place, honouring the taxonomy-specific attribute rules.

use vstd::prelude::*;
use crate::tags::Tags;
use crate::text::str_eq;
use crate::xbrl::{AttrS, ElemS, Taxonomy, XbrlAttribute, XbrlElement, XmlType, elem_model};

verus! {

/// An attribute with this key occurs in the list.
pub open spec fn has_attr_key(attrs: Seq<AttrS>, k: Seq<char>) -> bool {
    exists|i: int| 0 <= i < attrs.len() && attrs[i].key == k
}

/// Position of the first attribute carrying this key.
pub open spec fn first_attr_index(attrs: Seq<AttrS>, k: Seq<char>) -> int
    decreases attrs.len(),
{
    if attrs.len() == 0 {
        0
    } else if attrs[0].key == k {
        0
    } else {
        1 + first_attr_index(attrs.drop_first(), k)
    }
}

/// The list with the first attribute of this key removed, if one occurs.
pub open spec fn remove_first_attr(attrs: Seq<AttrS>, k: Seq<char>) -> Seq<AttrS> {
    if has_attr_key(attrs, k) {
        attrs.remove(first_attr_index(attrs, k))
    } else {
        attrs
    }
}

/// `first_attr_index` names the first occurrence of the key.
pub proof fn lemma_first_attr_index(attrs: Seq<AttrS>, k: Seq<char>)
    requires
        has_attr_key(attrs, k),
    ensures
        0 <= first_attr_index(attrs, k) < attrs.len(),
        attrs[first_attr_index(attrs, k)].key == k,
        forall|j: int| 0 <= j < first_attr_index(attrs, k) ==> attrs[j].key != k,
    decreases attrs.len(),
{
    if attrs.len() > 0 && attrs[0].key != k {
        let rest = attrs.drop_first();
        assert(has_attr_key(rest, k)) by {
            let w = choose|i: int| 0 <= i < attrs.len() && attrs[i].key == k;
            assert(rest[w - 1] == attrs[w]);
        }
        lemma_first_attr_index(rest, k);
        let i = first_attr_index(attrs, k);
        assert(attrs[i] == rest[i - 1]);
        assert forall|j: int| 0 <= j < i implies attrs[j].key != k by {
            if j > 0 {
                assert(attrs[j] == rest[j - 1]);
            }
        }
    }
}

/// What stripping does to a node's attributes: a GAAP-CI node loses its
/// `decimals` attribute and gains a trailing `xsi:nil="true"`; every other
/// node keeps its attributes untouched.
pub open spec fn strip_attrs(attrs: Seq<AttrS>, tax: XmlType) -> Seq<AttrS> {
    if tax == XmlType::Taxonomy(Taxonomy::GaapCi) {
        remove_first_attr(attrs, "decimals"@).push(AttrS { key: "xsi:nil"@, value: "true"@ })
    } else {
        attrs
    }
}

/// The stripped tree: every node's value cleared, attributes adjusted per
/// taxonomy.
pub open spec fn strip_model(m: ElemS) -> ElemS
    decreases m,
{
    ElemS {
        name: m.name,
        value: None,
        attrs: strip_attrs(m.attrs, m.tax),
        tax: m.tax,
        children: Seq::new(
            m.children.len(),
            |i: int|
                if 0 <= i < m.children.len() {
                    strip_model(m.children[i])
                } else {
                    arbitrary()
                },
        ),
    }
}

/// What injection does to a matched node's attributes: a GAAP-CI node loses
/// its `xsi:nil` attribute and gains a trailing `decimals="2"`; every other
/// node keeps its attributes untouched.
pub open spec fn inject_attrs(attrs: Seq<AttrS>, tax: XmlType) -> Seq<AttrS> {
    if tax == XmlType::Taxonomy(Taxonomy::GaapCi) {
        remove_first_attr(attrs, "xsi:nil"@).push(AttrS { key: "decimals"@, value: "2"@ })
    } else {
        attrs
    }
}

/// The injected tree: every node whose name the table holds takes the
/// table's value (possibly `None`) and, for GAAP-CI nodes, the adjusted
/// attributes; unmatched nodes are untouched.  Lookup is by name alone, so
/// repeated names receive the same value at every occurrence.
pub open spec fn inject_model(m: ElemS, tab: Map<Seq<char>, Option<Seq<char>>>) -> ElemS
    decreases m,
{
    ElemS {
        name: m.name,
        value: if tab.contains_key(m.name) {
            tab[m.name]
        } else {
            m.value
        },
        attrs: if tab.contains_key(m.name) {
            inject_attrs(m.attrs, m.tax)
        } else {
            m.attrs
        },
        tax: m.tax,
        children: Seq::new(
            m.children.len(),
            |i: int|
                if 0 <= i < m.children.len() {
                    inject_model(m.children[i], tab)
                } else {
                    arbitrary()
                },
        ),
    }
}

/// Position of the first attribute carrying `key`, if any.
fn find_attr(attrs: &Vec<XbrlAttribute>, key: &str) -> (r: Option<usize>)
    ensures
        match r {
            Some(i) => i < attrs@.len() && attrs@[i as int]@.key == key@ && forall|j: int|
                0 <= j < i ==> attrs@[j]@.key != key@,
            None => forall|j: int| 0 <= j < attrs@.len() ==> attrs@[j]@.key != key@,
        },
{
    let n = attrs.len();
    let mut i: usize = 0;
    while i < n
        invariant
            n == attrs@.len(),
            i <= n,
            forall|j: int| 0 <= j < i ==> attrs@[j]@.key != key@,
        decreases n - i,
    {
        if str_eq(attrs[i].key.as_str(), key) {
            return Some(i);
        }
        i += 1;
    }
    None
}

/// Copy an attribute list.
pub(crate) fn clone_attrs(attrs: &Vec<XbrlAttribute>) -> (r: Vec<XbrlAttribute>)
    ensures
        r.deep_view() == attrs.deep_view(),
{
    let n = attrs.len();
    let mut out: Vec<XbrlAttribute> = Vec::new();
    let mut i: usize = 0;
    while i < n
        invariant
            n == attrs@.len(),
            i <= n,
            out@.len() == i,
            forall|j: int| 0 <= j < i ==> #[trigger] out@[j]@ == attrs@[j]@,
        decreases n - i,
    {
        out.push(XbrlAttribute::new(attrs[i].key.as_str(), attrs[i].value.as_str()));
        i += 1;
    }
    proof {
        assert(out.deep_view() =~= attrs.deep_view());
    }
    out
}

/// Copy an optional string.
pub(crate) fn clone_opt_string(v: &Option<String>) -> (r: Option<String>)
    ensures
        r.deep_view() == v.deep_view(),
{
    match v {
        Some(s) => Some(s.clone()),
        None => None,
    }
}

/// Whether a classification is GAAP-CI.
fn is_gaap_ci(t: &XmlType) -> (r: bool)
    ensures
        r == (*t == XmlType::Taxonomy(Taxonomy::GaapCi)),
{
    matches!(t, XmlType::Taxonomy(Taxonomy::GaapCi))
}

/// Remove the first attribute named `key` from the list, in place.
fn remove_attr_exec(attrs: &mut Vec<XbrlAttribute>, key: &str)
    ensures
        final(attrs).deep_view() == remove_first_attr(old(attrs).deep_view(), key@),
{
    let ghost d0 = attrs.deep_view();
    match find_attr(&*attrs, key) {
        Some(i) => {
            let _ = attrs.remove(i);
            proof {
                assert(has_attr_key(d0, key@)) by {
                    assert(d0[i as int].key == key@);
                }
                lemma_first_attr_index(d0, key@);
                assert(first_attr_index(d0, key@) == i as int) by {
                    let f = first_attr_index(d0, key@);
                    if f < i as int {
                        assert(d0[f].key == key@);
                    }
                    if f > i as int {
                        assert(d0[i as int].key != key@);
                    }
                }
                assert(attrs.deep_view() =~= d0.remove(i as int));
            }
        },
        None => {
            proof {
                assert(!has_attr_key(d0, key@)) by {
                    if has_attr_key(d0, key@) {
                        let w = choose|w: int| 0 <= w < d0.len() && d0[w].key == key@;
                        assert(old(attrs)@[w]@.key == key@);
                    }
                }
            }
        },
    }
}

impl XbrlElement {
    /// The stripped copy of a subtree.
    fn strip_of(e: &XbrlElement) -> (r: XbrlElement)
        ensures
            r@ == strip_model(e@),
        decreases *e,
    {
        let mut attrs = clone_attrs(&e.attributes);
        if is_gaap_ci(&e.xml_type) {
            remove_attr_exec(&mut attrs, "decimals");
            attrs.push(XbrlAttribute::new("xsi:nil", "true"));
            proof {
                assert(attrs.deep_view() =~= strip_attrs(e@.attrs, e@.tax));
            }
        }
        let n = e.children.len();
        let mut kids: Vec<XbrlElement> = Vec::new();
        let mut i: usize = 0;
        while i < n
            invariant
                n == e.children@.len(),
                i <= n,
                kids@.len() == i,
                forall|j: int|
                    0 <= j < i ==> #[trigger] kids@[j]@ == strip_model(e@.children[j]),
                attrs.deep_view() == strip_attrs(e@.attrs, e@.tax),
            decreases n - i,
        {
            let c = Self::strip_of(&e.children[i]);
            kids.push(c);
            i += 1;
        }
        let r = XbrlElement {
            name: e.name.clone(),
            value: None,
            attributes: attrs,
            xml_type: e.xml_type,
            children: kids,
        };
        proof {
            assert forall|j: int| 0 <= j < n implies r@.children[j] == strip_model(
                e@,
            ).children[j] by {
                assert(r@.children[j] == elem_model(r.children@[j]));
                assert(r.children@[j] == kids@[j]);
                assert(kids@[j]@ == strip_model(e@.children[j]));
                assert(strip_model(e@).children[j] == strip_model(e@.children[j]));
            }
            assert(r@.children =~= strip_model(e@).children);
            assert(r@ =~= strip_model(e@));
        }
        r
    }

    /// Remove all values from the tree, pre-order and in place: every node's
    /// value is cleared; GAAP-CI nodes additionally lose their `decimals`
    /// attribute and gain a trailing `xsi:nil="true"` marker; GCD and plain
    /// nodes keep their attributes untouched.
    pub fn remove_values(&mut self)
        ensures
            final(self)@ == strip_model(old(self)@),
    {
        let r = Self::strip_of(&*self);
        *self = r;
    }

    /// The injected copy of a subtree.
    fn inject_of(e: &XbrlElement, target_tags: &Tags) -> (r: XbrlElement)
        ensures
            r@ == inject_model(e@, target_tags@),
        decreases *e,
    {
        let looked_up = target_tags.get(e.name.as_str());
        let (value, attrs) = match looked_up {
            Some(v) => {
                let mut attrs = clone_attrs(&e.attributes);
                if is_gaap_ci(&e.xml_type) {
                    remove_attr_exec(&mut attrs, "xsi:nil");
                    attrs.push(XbrlAttribute::new("decimals", "2"));
                    proof {
                        assert(attrs.deep_view() =~= inject_attrs(e@.attrs, e@.tax));
                    }
                }
                (clone_opt_string(v), attrs)
            },
            None => (clone_opt_string(&e.value), clone_attrs(&e.attributes)),
        };
        let n = e.children.len();
        let mut kids: Vec<XbrlElement> = Vec::new();
        let mut i: usize = 0;
        while i < n
            invariant
                n == e.children@.len(),
                i <= n,
                kids@.len() == i,
                forall|j: int|
                    0 <= j < i ==> #[trigger] kids@[j]@ == inject_model(
                        e@.children[j],
                        target_tags@,
                    ),
                value.deep_view() == inject_model(e@, target_tags@).value,
                attrs.deep_view() == inject_model(e@, target_tags@).attrs,
            decreases n - i,
        {
            let c = Self::inject_of(&e.children[i], target_tags);
            kids.push(c);
            i += 1;
        }
        let r = XbrlElement {
            name: e.name.clone(),
            value,
            attributes: attrs,
            xml_type: e.xml_type,
            children: kids,
        };
        proof {
            assert forall|j: int| 0 <= j < n implies r@.children[j] == inject_model(
                e@,
                target_tags@,
            ).children[j] by {
                assert(r@.children[j] == elem_model(r.children@[j]));
                assert(r.children@[j] == kids@[j]);
                assert(kids@[j]@ == inject_model(e@.children[j], target_tags@));
                assert(inject_model(e@, target_tags@).children[j] == inject_model(
                    e@.children[j],
                    target_tags@,
                ));
            }
            assert(r@.children =~= inject_model(e@, target_tags@).children);
            assert(r@ =~= inject_model(e@, target_tags@));
        }
        r
    }

    /// Add the given values to the tree, pre-order and in place: every node
    /// whose name the table holds takes the table's value; matched GAAP-CI
    /// nodes additionally lose their `xsi:nil` attribute and gain a trailing
    /// `decimals="2"`; every occurrence of a name is updated independently.
    pub fn add_values(&mut self, target_tags: &Tags)
        ensures
            final(self)@ == inject_model(old(self)@, target_tags@),
    {
        let r = Self::inject_of(&*self, target_tags);
        *self = r;
    }
}

} // verus!
