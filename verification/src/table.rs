//! The tabular view of an XBRL instance: one row per fact that carries a
//! context reference, collected in a single pass over the document events.

use vstd::prelude::*;
use crate::events::{EvSpec, XmlEvent};
use crate::parse::ParseError;
use crate::text::{ends_with_seq, str_ends_with, str_eq};
use crate::xbrl::{AttrS, XbrlAttribute};
use crate::xmlio::{
    fault_of_text, gather_stopped, gathered_events, raw_of_text, read_events, reader_from_str,
};

verus! {

/// One row of the table: a fact's concept name, its context, its optional
/// unit, and its value.
#[derive(Debug, PartialEq, Eq)]
pub struct TableRow {
    pub concept: String,
    pub context: String,
    pub unit: Option<String>,
    pub value: String,
}

/// Mathematical model of a table row.
#[verifier::ext_equal]
pub ghost struct RowS {
    pub concept: Seq<char>,
    pub context: Seq<char>,
    pub unit: Option<Seq<char>>,
    pub value: Seq<char>,
}

impl View for TableRow {
    type V = RowS;

    open spec fn view(&self) -> RowS {
        RowS {
            concept: self.concept@,
            context: self.context@,
            unit: self.unit.deep_view(),
            value: self.value@,
        }
    }
}

impl DeepView for TableRow {
    type V = RowS;

    open spec fn deep_view(&self) -> RowS {
        self.view()
    }
}

/// The table of an XBRL instance.
#[derive(Debug, PartialEq, Eq)]
pub struct XbrlTable {
    pub rows: Vec<TableRow>,
}

impl Default for XbrlTable {
    fn default() -> (r: Self)
        ensures
            r.rows@.len() == 0,
    {
        XbrlTable { rows: Vec::new() }
    }
}

/// The shell around the table, as the viewer holds it.
#[derive(Debug, PartialEq, Eq)]
pub struct XbrlApp {
    pub table: XbrlTable,
}

impl XbrlApp {
    /// Wrap a table for viewing.
    pub fn new(table: XbrlTable) -> (r: XbrlApp)
        ensures
            r.table == table,
    {
        Self { table }
    }
}

/// The value of the last attribute carrying this key, if any: a repeated
/// key is overwritten by its later occurrence.
pub open spec fn last_attr_value(attrs: Seq<AttrS>, k: Seq<char>) -> Option<Seq<char>>
    decreases attrs.len(),
{
    if attrs.len() == 0 {
        None
    } else if attrs.last().key == k {
        Some(attrs.last().value)
    } else {
        last_attr_value(attrs.drop_last(), k)
    }
}

/// The rows gathered from the events at and after position `i`.  A start
/// tag whose name ends in the instance marker opens the instance; inside
/// it, a start tag carrying a `contextRef` attribute consumes the following
/// event and yields a row when that event is text; an end tag whose name
/// ends in the instance marker stops the pass.
pub open spec fn xbrl_rows_from(evs: Seq<EvSpec>, i: int, inside: bool) -> Seq<RowS>
    decreases evs.len() - i
        when 0 <= i
{
    if i >= evs.len() {
        Seq::empty()
    } else {
        match evs[i] {
            EvSpec::Start { name, attrs } => {
                let inside2 = inside || ends_with_seq(name, "xbrl"@);
                if inside2 && last_attr_value(attrs, "contextRef"@) is Some {
                    if i + 1 < evs.len() {
                        match evs[i + 1] {
                            EvSpec::Text { text } => seq![
                                RowS {
                                    concept: name,
                                    context: last_attr_value(attrs, "contextRef"@).unwrap(),
                                    unit: last_attr_value(attrs, "unitRef"@),
                                    value: text,
                                },
                            ] + xbrl_rows_from(evs, i + 2, inside2),
                            _ => xbrl_rows_from(evs, i + 2, inside2),
                        }
                    } else {
                        Seq::empty()
                    }
                } else {
                    xbrl_rows_from(evs, i + 1, inside2)
                }
            },
            EvSpec::End { name } => if ends_with_seq(name, "xbrl"@) {
                Seq::empty()
            } else {
                xbrl_rows_from(evs, i + 1, inside)
            },
            _ => xbrl_rows_from(evs, i + 1, inside),
        }
    }
}

/// The value of the last attribute carrying `key`, if any.
fn last_attr(attrs: &Vec<XbrlAttribute>, key: &str) -> (r: Option<String>)
    ensures
        r.deep_view() == last_attr_value(attrs.deep_view(), key@),
{
    let ghost d = attrs.deep_view();
    let n = attrs.len();
    let mut cur: Option<String> = None;
    let mut i: usize = 0;
    proof {
        assert(d.take(0) =~= Seq::<AttrS>::empty());
    }
    while i < n
        invariant
            n == attrs@.len(),
            d == attrs.deep_view(),
            d.len() == n,
            i <= n,
            cur.deep_view() == last_attr_value(d.take(i as int), key@),
        decreases n - i,
    {
        proof {
            assert(d.take(i as int + 1).drop_last() =~= d.take(i as int));
            assert(d.take(i as int + 1).last() == d[i as int]);
            assert(attrs@[i as int]@ == d[i as int]);
        }
        if str_eq(attrs[i].key.as_str(), key) {
            cur = Some(attrs[i].value.clone());
        }
        i += 1;
    }
    proof {
        assert(d.take(n as int) =~= d);
    }
    cur
}

/// Gather the table rows of an XBRL instance from its event stream.
pub fn xbrl_table_from_events(events: &Vec<XmlEvent>) -> (r: XbrlTable)
    ensures
        r.rows.deep_view() == xbrl_rows_from(events.deep_view(), 0, false),
{
    let ghost evs = events.deep_view();
    let ghost total = xbrl_rows_from(evs, 0, false);
    let mut rows: Vec<TableRow> = Vec::new();
    let mut inside = false;
    let n = events.len();
    let mut i: usize = 0;
    while i < n
        invariant
            n == events@.len(),
            evs == events.deep_view(),
            evs.len() == n,
            total == xbrl_rows_from(evs, 0, false),
            i <= n,
            total == rows.deep_view() + xbrl_rows_from(evs, i as int, inside),
        decreases n - i,
    {
        proof {
            assert(events@[i as int].deep_view() == evs[i as int]);
        }
        match &events[i] {
            XmlEvent::Start(name, attrs) => {
                let inside2 = inside || str_ends_with(name.as_str(), "xbrl");
                let ctx = if inside2 {
                    last_attr(attrs, "contextRef")
                } else {
                    None
                };
                match ctx {
                    Some(context) => {
                        if i + 1 < n {
                            proof {
                                assert(events@[i as int + 1].deep_view() == evs[i as int + 1]);
                            }
                            match &events[i + 1] {
                                XmlEvent::Text(t) => {
                                    let unit = last_attr(attrs, "unitRef");
                                    rows.push(
                                        TableRow {
                                            concept: name.clone(),
                                            context,
                                            unit,
                                            value: t.clone(),
                                        },
                                    );
                                    proof {
                                        assert(total =~= rows.deep_view() + xbrl_rows_from(
                                            evs,
                                            i as int + 2,
                                            inside2,
                                        ));
                                    }
                                },
                                _ => {},
                            }
                            inside = inside2;
                            i += 2;
                        } else {
                            let r = XbrlTable { rows };
                            proof {
                                assert(r.rows.deep_view() =~= total);
                            }
                            return r;
                        }
                    },
                    None => {
                        inside = inside2;
                        i += 1;
                    },
                }
            },
            XmlEvent::End(name) => {
                if str_ends_with(name.as_str(), "xbrl") {
                    let r = XbrlTable { rows };
                    proof {
                        assert(r.rows.deep_view() =~= total);
                    }
                    return r;
                }
                i += 1;
            },
            _ => {
                i += 1;
            },
        }
    }
    let r = XbrlTable { rows };
    proof {
        assert(r.rows.deep_view() =~= total);
    }
    r
}

/// Read an XBRL document into its table form: exactly the rows of the
/// text's event stream, as `xbrl_rows_from` states them; a source failure
/// — an unreadable event or a malformed attribute — is refused.
pub fn read_xbrl(xml: &str) -> (r: Result<XbrlTable, ParseError>)
    ensures
        (match r {
            Ok(t) => !fault_of_text(xml@) && !gather_stopped(raw_of_text(xml@))
                && t.rows.deep_view() == xbrl_rows_from(
                gathered_events(raw_of_text(xml@)),
                0,
                false,
            ),
            Err(e) => (fault_of_text(xml@) || gather_stopped(raw_of_text(xml@))) && e
                matches ParseError::Source(_),
        }),
{
    let mut reader = reader_from_str(xml);
    match read_events(&mut reader) {
        (events, Some(msg)) => Err(ParseError::Source(msg)),
        (events, None) => {
            let t = xbrl_table_from_events(&events);
            Ok(t)
        },
    }
}

} // verus!
