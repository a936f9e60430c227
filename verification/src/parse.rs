//! The parser: builds an element tree from a document event sequence.
//! Specified as a fold over the events with a stack of open elements;
//! implemented as a single verified loop mirroring that fold.

use vstd::prelude::*;
use crate::events::{EvSpec, XmlEvent};
use crate::mutate::clone_attrs;
use crate::xbrl::{AttrS, ElemS, XbrlElement, XmlType, elem_model, spec_classify};

verus! {

/// A structural parse failure.
#[derive(Debug, PartialEq, Eq)]
pub enum ParseError {
    /// An end tag that does not close the innermost open element; carries
    /// the open element's name and the end tag's name.
    MismatchedEnd(String, String),
    /// An XML declaration inside an open element.
    UnexpectedDecl,
    /// The document ended before every open element was closed.
    UnexpectedEof,
    /// The document holds no root element.
    MissingRoot,
    /// The event source failed mid-document; carries its message.
    Source(String),
}

/// Mathematical model of a parse failure.
#[verifier::ext_equal]
pub ghost enum PErrS {
    MismatchedEnd(Seq<char>, Seq<char>),
    UnexpectedDecl,
    UnexpectedEof,
    MissingRoot,
    Source(Seq<char>),
}

impl View for ParseError {
    type V = PErrS;

    open spec fn view(&self) -> PErrS {
        match self {
            ParseError::MismatchedEnd(open, found) => PErrS::MismatchedEnd(open@, found@),
            ParseError::UnexpectedDecl => PErrS::UnexpectedDecl,
            ParseError::UnexpectedEof => PErrS::UnexpectedEof,
            ParseError::MissingRoot => PErrS::MissingRoot,
            ParseError::Source(msg) => PErrS::Source(msg@),
        }
    }
}

/// The parser's state: the stack of open elements, outermost first; the
/// last completed root; the first failure, if any.
#[verifier::ext_equal]
pub ghost struct PState {
    pub stack: Seq<ElemS>,
    pub root: Option<ElemS>,
    pub err: Option<PErrS>,
}

/// The parser's initial state.
pub open spec fn parse_init() -> PState {
    PState { stack: Seq::empty(), root: None, err: None }
}

/// A fresh node for a start or self-closing tag, classified by its name.
pub open spec fn new_node(name: Seq<char>, attrs: Seq<AttrS>) -> ElemS {
    ElemS { name, value: None, attrs, tax: spec_classify(name), children: Seq::empty() }
}

/// A node with one more child appended.
pub open spec fn with_child(m: ElemS, c: ElemS) -> ElemS {
    ElemS { name: m.name, value: m.value, attrs: m.attrs, tax: m.tax, children: m.children.push(c) }
}

/// A node with its text value set, overwriting any earlier text.
pub open spec fn with_value(m: ElemS, v: Seq<char>) -> ElemS {
    ElemS { name: m.name, value: Some(v), attrs: m.attrs, tax: m.tax, children: m.children }
}

/// Close the innermost open element: popped into its parent's children, or
/// into the root slot when it is outermost.  The first completed root is
/// kept: a later top-level element is still parsed — its structure checked
/// — but discarded.
pub open spec fn close_top(st: PState) -> PState {
    let top = st.stack.last();
    let rest = st.stack.drop_last();
    if rest.len() == 0 {
        PState {
            stack: rest,
            root: match st.root {
                Some(r) => Some(r),
                None => Some(top),
            },
            err: st.err,
        }
    } else {
        let parent = rest.last();
        PState {
            stack: rest.update(rest.len() - 1, with_child(parent, top)),
            root: st.root,
            err: st.err,
        }
    }
}

/// One parse step.  Events at top level other than a start tag are ignored;
/// inside an open element, a declaration is a failure, an end tag must match
/// the innermost open element, and text overwrites the element's value.
/// After a failure the state absorbs every further event.
pub open spec fn parse_step(st: PState, ev: EvSpec) -> PState {
    if st.err is Some {
        st
    } else {
        match ev {
            EvSpec::Start { name, attrs } => PState {
                stack: st.stack.push(new_node(name, attrs)),
                root: st.root,
                err: None,
            },
            EvSpec::Empty { name, attrs } => if st.stack.len() == 0 {
                st
            } else {
                let parent = st.stack.last();
                PState {
                    stack: st.stack.update(
                        st.stack.len() - 1,
                        with_child(parent, new_node(name, attrs)),
                    ),
                    root: st.root,
                    err: None,
                }
            },
            EvSpec::Text { text } => if st.stack.len() == 0 {
                st
            } else {
                PState {
                    stack: st.stack.update(
                        st.stack.len() - 1,
                        with_value(st.stack.last(), text),
                    ),
                    root: st.root,
                    err: None,
                }
            },
            EvSpec::End { name } => if st.stack.len() == 0 {
                st
            } else if st.stack.last().name == name {
                close_top(st)
            } else {
                PState {
                    stack: st.stack,
                    root: st.root,
                    err: Some(PErrS::MismatchedEnd(st.stack.last().name, name)),
                }
            },
            EvSpec::Decl => if st.stack.len() == 0 {
                st
            } else {
                PState { stack: st.stack, root: st.root, err: Some(PErrS::UnexpectedDecl) }
            },
        }
    }
}

/// The parser's state after the whole event sequence.
pub open spec fn parse_run(evs: Seq<EvSpec>) -> PState
    decreases evs.len(),
{
    if evs.len() == 0 {
        parse_init()
    } else {
        parse_step(parse_run(evs.drop_last()), evs.last())
    }
}

/// What parsing an event sequence yields: the completed root, or the first
/// structural failure; an element left open at the end of the events is a
/// premature end of document, and a document without a root is refused.
pub open spec fn spec_parse(evs: Seq<EvSpec>) -> Result<ElemS, PErrS> {
    let st = parse_run(evs);
    match st.err {
        Some(e) => Err(e),
        None => if st.stack.len() > 0 {
            Err(PErrS::UnexpectedEof)
        } else {
            match st.root {
                Some(r) => Ok(r),
                None => Err(PErrS::MissingRoot),
            }
        },
    }
}

/// The parse fold fails only structurally: a mismatched end tag or a
/// misplaced declaration while folding, a premature end or a missing root
/// at the end — never a source failure.
pub proof fn lemma_spec_parse_err_kinds(evs: Seq<EvSpec>)
    ensures
        (match spec_parse(evs) {
            Err(e) => !(e matches PErrS::Source(_)),
            Ok(_) => true,
        }),
    decreases evs.len(),
{
    if evs.len() > 0 {
        lemma_spec_parse_err_kinds_run(evs);
    }
}

/// The running fold's failure, if any, is a mismatched end tag or a
/// misplaced declaration.
proof fn lemma_spec_parse_err_kinds_run(evs: Seq<EvSpec>)
    ensures
        (match parse_run(evs).err {
            Some(e) => e matches PErrS::MismatchedEnd(_, _) || e matches PErrS::UnexpectedDecl,
            None => true,
        }),
    decreases evs.len(),
{
    if evs.len() > 0 {
        lemma_spec_parse_err_kinds_run(evs.drop_last());
    }
}

/// A failure, once entered, is the outcome of the whole run.
proof fn lemma_err_persists(evs: Seq<EvSpec>, i: int)
    requires
        0 <= i <= evs.len(),
        parse_run(evs.take(i)).err is Some,
    ensures
        parse_run(evs).err == parse_run(evs.take(i)).err,
    decreases evs.len() - i,
{
    if i < evs.len() {
        assert(evs.take(i + 1).drop_last() =~= evs.take(i));
        assert(evs.take(i + 1).last() == evs[i]);
        assert(parse_run(evs.take(i + 1)) == parse_step(parse_run(evs.take(i)), evs[i]));
        lemma_err_persists(evs, i + 1);
    } else {
        assert(evs.take(i) =~= evs);
    }
}

/// The model of an element whose children gained one more entry.
proof fn lemma_push_child(before: ElemS, after: XbrlElement, b: XbrlElement, node: XbrlElement)
    requires
        before == elem_model(b),
        after.name == b.name,
        after.value == b.value,
        after.attributes == b.attributes,
        after.xml_type == b.xml_type,
        after.children@ == b.children@.push(node),
    ensures
        elem_model(after) == with_child(before, elem_model(node)),
{
    assert forall|j: int| 0 <= j < after.children@.len() implies elem_model(after).children[j]
        == with_child(before, elem_model(node)).children[j] by {
        if j < b.children@.len() {
            assert(after.children@[j] == b.children@[j]);
        } else {
            assert(after.children@[j] == node);
        }
    }
    assert(elem_model(after).children =~= with_child(before, elem_model(node)).children);
    assert(elem_model(after) =~= with_child(before, elem_model(node)));
}

/// The model of an element whose value was overwritten.
proof fn lemma_set_value(before: ElemS, after: XbrlElement, b: XbrlElement, v: String)
    requires
        before == elem_model(b),
        after.name == b.name,
        after.value == Some(v),
        after.attributes == b.attributes,
        after.xml_type == b.xml_type,
        after.children@ == b.children@,
    ensures
        elem_model(after) == with_value(before, v@),
{
    assert forall|j: int| 0 <= j < after.children@.len() implies elem_model(after).children[j]
        == with_value(before, v@).children[j] by {
        assert(after.children@[j] == b.children@[j]);
    }
    assert(elem_model(after).children =~= with_value(before, v@).children);
    assert(elem_model(after) =~= with_value(before, v@));
}

impl XbrlElement {
    /// Parse an event sequence into an element tree.  The first start tag
    /// opens the root; the tree is exactly what the parse fold yields, and
    /// each structural failure comes exactly when the fold meets it.
    #[verifier::rlimit(60)]
    pub fn parse_events(events: &Vec<XmlEvent>) -> (r: Result<XbrlElement, ParseError>)
        ensures
            match r {
                Ok(t) => spec_parse(events.deep_view()) == Ok::<ElemS, PErrS>(t@),
                Err(e) => spec_parse(events.deep_view()) == Err::<ElemS, PErrS>(e@),
            },
    {
        let ghost evs = events.deep_view();
        let mut stack: Vec<XbrlElement> = Vec::new();
        let mut root: Option<XbrlElement> = None;
        let n = events.len();
        let mut i: usize = 0;
        proof {
            assert(evs.take(0) =~= Seq::<EvSpec>::empty());
        }
        while i < n
            invariant
                n == events@.len(),
                evs == events.deep_view(),
                evs.len() == n,
                i <= n,
                parse_run(evs.take(i as int)).err is None,
                stack.deep_view() == parse_run(evs.take(i as int)).stack,
                root.deep_view() == parse_run(evs.take(i as int)).root,
            decreases n - i,
        {
            let ghost st0 = parse_run(evs.take(i as int));
            proof {
                assert(evs.take(i as int + 1).drop_last() =~= evs.take(i as int));
                assert(evs.take(i as int + 1).last() == evs[i as int]);
                assert(parse_run(evs.take(i as int + 1)) == parse_step(st0, evs[i as int]));
                assert(events@[i as int].deep_view() == evs[i as int]);
            }
            let ghost st1 = parse_run(evs.take(i as int + 1));
            match &events[i] {
                XmlEvent::Start(name, attrs) => {
                    let node = XbrlElement {
                        name: name.clone(),
                        value: None,
                        attributes: clone_attrs(attrs),
                        xml_type: XmlType::get_xml_type(name.as_str()),
                        children: Vec::new(),
                    };
                    proof {
                        assert(node@.children =~= new_node(name@, attrs.deep_view()).children);
                        assert(node@.attrs =~= new_node(name@, attrs.deep_view()).attrs);
                        assert(node@ =~= new_node(name@, attrs.deep_view()));
                    }
                    stack.push(node);
                    proof {
                        assert(stack.deep_view() =~= st1.stack);
                    }
                },
                XmlEvent::Empty(name, attrs) => {
                    if stack.len() > 0 {
                        let node = XbrlElement {
                            name: name.clone(),
                            value: None,
                            attributes: clone_attrs(attrs),
                            xml_type: XmlType::get_xml_type(name.as_str()),
                            children: Vec::new(),
                        };
                        proof {
                            assert(node@.children =~= new_node(name@, attrs.deep_view()).children);
                        assert(node@.attrs =~= new_node(name@, attrs.deep_view()).attrs);
                        assert(node@ =~= new_node(name@, attrs.deep_view()));
                        }
                        let ghost nodeg = node;
                        let mut top = stack.pop().unwrap();
                        let ghost topg = top;
                        top.children.push(node);
                        proof {
                            lemma_push_child(elem_model(topg), top, topg, nodeg);
                            assert(elem_model(topg) == st0.stack.last());
                        }
                        stack.push(top);
                        proof {
                            assert(stack.deep_view() =~= st1.stack);
                        }
                    }
                },
                XmlEvent::Text(t) => {
                    if stack.len() > 0 {
                        let mut top = stack.pop().unwrap();
                        let ghost topg = top;
                        let tv = t.clone();
                        let ghost tvg = tv;
                        top.value = Some(tv);
                        proof {
                            lemma_set_value(elem_model(topg), top, topg, tvg);
                            assert(elem_model(topg) == st0.stack.last());
                        }
                        stack.push(top);
                        proof {
                            assert(stack.deep_view() =~= st1.stack);
                        }
                    }
                },
                XmlEvent::End(name) => {
                    if stack.len() > 0 {
                        let top = stack.pop().unwrap();
                        if str_eq_names(&top, name) {
                            if stack.len() == 0 {
                                if root.is_none() {
                                    root = Some(top);
                                }
                                proof {
                                    assert(stack.deep_view() =~= st1.stack);
                                    assert(root.deep_view() == st1.root);
                                }
                            } else {
                                let ghost topg = top;
                                let mut parent = stack.pop().unwrap();
                                let ghost parentg = parent;
                                parent.children.push(top);
                                proof {
                                    lemma_push_child(elem_model(parentg), parent, parentg, topg);
                                }
                                stack.push(parent);
                                proof {
                                    assert(stack.deep_view() =~= st1.stack);
                                }
                            }
                        } else {
                            proof {
                                assert(top@.name == st0.stack.last().name);
                                assert(st1.err == Some(
                                    PErrS::MismatchedEnd(st0.stack.last().name, name@),
                                ));
                                lemma_err_persists(evs, i as int + 1);
                            }
                            return Err(ParseError::MismatchedEnd(top.name, name.clone()));
                        }
                    }
                },
                XmlEvent::Decl => {
                    if stack.len() > 0 {
                        proof {
                            assert(st1.err == Some(PErrS::UnexpectedDecl));
                            lemma_err_persists(evs, i as int + 1);
                        }
                        return Err(ParseError::UnexpectedDecl);
                    }
                },
            }
            i += 1;
        }
        proof {
            assert(evs.take(n as int) =~= evs);
        }
        if stack.len() > 0 {
            return Err(ParseError::UnexpectedEof);
        }
        match root {
            Some(r) => Ok(r),
            None => Err(ParseError::MissingRoot),
        }
    }
}

/// Whether the element's name equals the given string.
fn str_eq_names(e: &XbrlElement, name: &String) -> (r: bool)
    ensures
        r == (e@.name == name@),
{
    crate::text::str_eq(e.name.as_str(), name.as_str())
}

} // verus!
