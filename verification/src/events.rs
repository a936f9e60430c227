//! The event vocabulary of the streaming layer: the six-event shape of an
//! XML document, carried as plain values.

use vstd::prelude::*;
use crate::xbrl::{AttrS, XbrlAttribute};

verus! {

/// One document event.  End of document is the end of the event list.
#[derive(Debug, PartialEq, Eq)]
pub enum XmlEvent {
    /// Start tag with its attributes.
    Start(String, Vec<XbrlAttribute>),
    /// End tag.
    End(String),
    /// Self-closing tag with its attributes.
    Empty(String, Vec<XbrlAttribute>),
    /// Character data between tags.
    Text(String),
    /// The XML declaration.
    Decl,
}

/// Mathematical model of an event.
#[verifier::ext_equal]
pub ghost enum EvSpec {
    Start { name: Seq<char>, attrs: Seq<AttrS> },
    End { name: Seq<char> },
    Empty { name: Seq<char>, attrs: Seq<AttrS> },
    Text { text: Seq<char> },
    Decl,
}

impl View for XmlEvent {
    type V = EvSpec;

    open spec fn view(&self) -> EvSpec {
        match self {
            XmlEvent::Start(name, attrs) => EvSpec::Start {
                name: name@,
                attrs: attrs.deep_view(),
            },
            XmlEvent::End(name) => EvSpec::End { name: name@ },
            XmlEvent::Empty(name, attrs) => EvSpec::Empty {
                name: name@,
                attrs: attrs.deep_view(),
            },
            XmlEvent::Text(text) => EvSpec::Text { text: text@ },
            XmlEvent::Decl => EvSpec::Decl,
        }
    }
}

impl DeepView for XmlEvent {
    type V = EvSpec;

    open spec fn deep_view(&self) -> EvSpec {
        self.view()
    }
}

} // verus!
