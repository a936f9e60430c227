//! The element tree: an XML document materialised as a tree of named nodes,
//! each annotated at construction time with its taxonomy classification.

use vstd::prelude::*;
use crate::text::{contains_seq, str_contains};

verus! {

/// The two XBRL taxonomies that receive special treatment.
#[derive(Debug, PartialEq, Eq, Clone, Copy)]
pub enum Taxonomy {
    Gcd,
    GaapCi,
}

/// Classification of a tag name: the XBRL instance container, one of the two
/// taxonomies, or a plain tag.
#[derive(Debug, PartialEq, Eq, Clone, Copy)]
pub enum XmlType {
    Plain,
    Xbrl,
    Taxonomy(Taxonomy),
}

/// One attribute of an element: a key/value pair of strings.
#[derive(Debug, PartialEq, Eq, Clone)]
pub struct XbrlAttribute {
    pub key: String,
    pub value: String,
}

/// Mathematical model of an attribute.
#[verifier::ext_equal]
pub ghost struct AttrS {
    pub key: Seq<char>,
    pub value: Seq<char>,
}

impl View for XbrlAttribute {
    type V = AttrS;

    open spec fn view(&self) -> AttrS {
        AttrS { key: self.key@, value: self.value@ }
    }
}

impl DeepView for XbrlAttribute {
    type V = AttrS;

    open spec fn deep_view(&self) -> AttrS {
        self.view()
    }
}

impl XbrlAttribute {
    /// Build an attribute from its key and value.
    pub fn new(key: &str, value: &str) -> (r: Self)
        ensures
            r@.key == key@,
            r@.value == value@,
    {
        Self { key: key.to_owned(), value: value.to_owned() }
    }

    /// The attribute's key.
    pub fn key(&self) -> (r: &str)
        ensures
            r@ == self@.key,
    {
        self.key.as_str()
    }

    /// The attribute's value.
    pub fn value(&self) -> (r: &str)
        ensures
            r@ == self@.value,
    {
        self.value.as_str()
    }
}

/// A node of the parsed document.
#[derive(Debug, PartialEq, Eq)]
pub struct XbrlElement {
    pub name: String,
    pub value: Option<String>,
    pub attributes: Vec<XbrlAttribute>,
    pub xml_type: XmlType,
    pub children: Vec<XbrlElement>,
}

/// Mathematical model of an element tree.
#[verifier::ext_equal]
pub ghost struct ElemS {
    pub name: Seq<char>,
    pub value: Option<Seq<char>>,
    pub attrs: Seq<AttrS>,
    pub tax: XmlType,
    pub children: Seq<ElemS>,
}

impl View for XbrlElement {
    type V = ElemS;

    open spec fn view(&self) -> ElemS {
        elem_model(*self)
    }
}

impl DeepView for XbrlElement {
    type V = ElemS;

    open spec fn deep_view(&self) -> ElemS {
        elem_model(*self)
    }
}

/// The model of an element: views of its fields, children modelled
/// recursively.
pub open spec fn elem_model(e: XbrlElement) -> ElemS
    decreases e,
{
    ElemS {
        name: e.name@,
        value: match e.value {
            Some(v) => Some(v@),
            None => None,
        },
        attrs: e.attributes.deep_view(),
        tax: e.xml_type,
        children: Seq::new(
            e.children@.len(),
            |i: int|
                if 0 <= i < e.children@.len() {
                    elem_model(e.children@[i])
                } else {
                    arbitrary()
                },
        ),
    }
}

/// Marker substring of the XBRL instance container.
pub open spec fn xbrl_marker() -> Seq<char> {
    "xbrl"@
}

/// Marker substring of the GCD taxonomy.
pub open spec fn gcd_marker() -> Seq<char> {
    "gcd"@
}

/// Marker substring of the GAAP-CI taxonomy.
pub open spec fn gaap_ci_marker() -> Seq<char> {
    "gaap-ci"@
}

/// Classification of a tag name by substring match, first match wins.
pub open spec fn spec_classify(name: Seq<char>) -> XmlType {
    if contains_seq(name, xbrl_marker()) {
        XmlType::Xbrl
    } else if contains_seq(name, gcd_marker()) {
        XmlType::Taxonomy(Taxonomy::Gcd)
    } else if contains_seq(name, gaap_ci_marker()) {
        XmlType::Taxonomy(Taxonomy::GaapCi)
    } else {
        XmlType::Plain
    }
}

impl Taxonomy {
    /// The marker substring identifying this taxonomy inside a tag name.
    pub fn as_str(&self) -> (r: &str)
        ensures
            *self == Taxonomy::Gcd ==> r@ == gcd_marker(),
            *self == Taxonomy::GaapCi ==> r@ == gaap_ci_marker(),
    {
        match self {
            Taxonomy::Gcd => "gcd",
            Taxonomy::GaapCi => "gaap-ci",
        }
    }
}

impl XmlType {
    /// The marker substring associated with this classification.
    pub fn as_str(&self) -> (r: &str)
        ensures
            *self == XmlType::Plain ==> r@ == "plain"@,
            *self == XmlType::Xbrl ==> r@ == xbrl_marker(),
            *self == XmlType::Taxonomy(Taxonomy::Gcd) ==> r@ == gcd_marker(),
            *self == XmlType::Taxonomy(Taxonomy::GaapCi) ==> r@ == gaap_ci_marker(),
    {
        match self {
            XmlType::Plain => "plain",
            XmlType::Xbrl => "xbrl",
            XmlType::Taxonomy(Taxonomy::Gcd) => "gcd",
            XmlType::Taxonomy(Taxonomy::GaapCi) => "gaap-ci",
        }
    }

    /// Classify a tag name, evaluating the markers in order.
    pub fn get_xml_type(name: &str) -> (r: XmlType)
        ensures
            r == spec_classify(name@),
    {
        if str_contains(name, "xbrl") {
            XmlType::Xbrl
        } else if str_contains(name, "gcd") {
            XmlType::Taxonomy(Taxonomy::Gcd)
        } else if str_contains(name, "gaap-ci") {
            XmlType::Taxonomy(Taxonomy::GaapCi)
        } else {
            XmlType::Plain
        }
    }
}

impl XbrlElement {
    /// Build an element from its parts.
    pub fn new(
        name: &str,
        value: Option<String>,
        attributes: Vec<XbrlAttribute>,
        xml_type: XmlType,
        children: Vec<XbrlElement>,
    ) -> (r: Self)
        ensures
            r@.name == name@,
            r@.value == value.deep_view(),
            r@.attrs == attributes.deep_view(),
            r@.tax == xml_type,
            r@.children == children.deep_view(),
    {
        let r = Self { name: name.to_owned(), value, attributes, xml_type, children };
        proof {
            assert(r@.children =~= r.children.deep_view());
        }
        r
    }

}

} // verus!
