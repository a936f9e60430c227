//! Whole-document operations: parsing from and serialising to quick_xml
//! readers and writers, tag extraction from a reader, and the update
//! pipeline that strips a template and injects target values.

use vstd::prelude::*;
use quick_xml::Reader;
use crate::events::EvSpec;
use crate::extract::{extract_from_events, spec_extract};
use crate::mutate::{inject_model, strip_model};
use crate::parse::{spec_parse, ParseError, PErrS};
use crate::serialize::events_of;
use crate::tags::{Tag, Tags};
use crate::xbrl::{ElemS, XbrlElement};
use crate::xmlio::{
    decl_render, events_render, fault_of_text, gather_stopped, gathered_events, raw_of_text,
    read_events, reader_broke, reader_events, write_declaration, write_events, written_text,
    SerializeError, XmlWriter,
};

verus! {

/// A failure of the update pipeline: either the template cannot be parsed,
/// or the sink refuses a write.
#[derive(Debug, PartialEq, Eq)]
pub enum UpdateError {
    Parse(ParseError),
    Write(SerializeError),
}

impl XbrlElement {
    /// Parse the document behind the reader into an element tree: exactly
    /// the parse fold of the reader's events.  A structural failure within
    /// the document is reported as itself; a source failure is reported as
    /// such unless a structural failure precedes it in the events already
    /// read.
    pub fn parse(reader: &mut Reader<&[u8]>) -> (r: Result<XbrlElement, ParseError>)
        ensures
            ({
                let evs = reader_events(*old(reader));
                let broke = reader_broke(*old(reader));
                match r {
                    Ok(t) => !broke && spec_parse(evs) == Ok::<ElemS, PErrS>(t@),
                    Err(ParseError::Source(_)) => broke && !(spec_parse(evs) matches Err(e2)
                        && (e2 matches PErrS::MismatchedEnd(_, _) || e2
                            matches PErrS::UnexpectedDecl)),
                    Err(e) => spec_parse(evs) == Err::<ElemS, PErrS>(e@),
                }
            }),
    {
        let (events, fault) = read_events(reader);
        let parsed = Self::parse_events(&events);
        proof {
            crate::parse::lemma_spec_parse_err_kinds(events.deep_view());
        }
        match (parsed, fault) {
            (Err(e), Some(msg)) => {
                // An end of the gathered events is the fault's doing, not
                // the document's; a mismatch or declaration is structural.
                match e {
                    ParseError::MismatchedEnd(open, found) => Err(
                        ParseError::MismatchedEnd(open, found),
                    ),
                    ParseError::UnexpectedDecl => Err(ParseError::UnexpectedDecl),
                    _ => Err(ParseError::Source(msg)),
                }
            },
            (Err(e), None) => Err(e),
            (Ok(_), Some(msg)) => Err(ParseError::Source(msg)),
            (Ok(t), None) => {
                proof {
                    assert(spec_parse(events.deep_view()) == Ok::<ElemS, PErrS>(t@));
                }
                Ok(t)
            },
        }
    }

    /// Serialise the tree to the writer: the write succeeds — the
    /// in-memory sink cannot fail — and exactly the rendering of the tree's
    /// event sequence is appended to what the writer already holds.
    pub fn serialize(&self, writer: &mut XmlWriter) -> (r: Result<(), SerializeError>)
        ensures
            r is Ok,
            written_text(*final(writer)) == written_text(*old(writer)) + events_render(
                events_of(self@),
            ),
    {
        let events = self.serialize_events();
        write_events(writer, &events)
    }
}

/// Extract the leaf tag/value records of the document behind the reader.
/// Extraction is fail-soft and never returns an error: on a source failure
/// mid-document — an unreadable event or a malformed attribute — the pass
/// stops and the records gathered up to that point are returned.
pub fn extract_tag_values(reader: &mut Reader<&[u8]>) -> (r: Result<Vec<Tag>, ParseError>)
    ensures
        r is Ok,
        (match r {
            Ok(tags) => tags.deep_view() == spec_extract(reader_events(*old(reader))),
            Err(_) => false,
        }),
{
    let (events, _fault) = read_events(reader);
    let tags = extract_from_events(&events);
    Ok(tags)
}

/// Re-emit a document without its insignificant whitespace: the events of
/// the text, read with trimming, written back out unchanged.
pub fn remove_formatting(xml: &str) -> (r: Result<String, ParseError>)
    ensures
        (match r {
            Ok(s) => s@ == events_render(gathered_events(raw_of_text(xml@))),
            Err(_) => true,
        }),
{
    let mut reader = crate::xmlio::reader_from_str(xml);
    let (events, _fault) = read_events(&mut reader);
    let mut writer = crate::xmlio::writer_new();
    match write_events(&mut writer, &events) {
        Ok(()) => match crate::xmlio::writer_into_string(writer) {
            Ok(s) => {
                proof {
                    assert(s@ =~= events_render(events.deep_view()));
                }
                Ok(s)
            },
            Err(SerializeError::Sink(msg)) => Err(ParseError::Source(msg)),
        },
        Err(SerializeError::Sink(msg)) => Err(ParseError::Source(msg)),
    }
}

/// The target table as the update pipeline prepares it: the required
/// processing tags added, the unsupported dropdown tags removed.
pub open spec fn prepared_tags(m: Map<Seq<char>, Option<Seq<char>>>) -> Map<
    Seq<char>,
    Option<Seq<char>>,
> {
    m.insert("Verfahren"@, Some("ElsterBilanz"@)).insert("DatenArt"@, Some("Bilanz"@)).insert(
        "Vorgang"@,
        Some("send-Auth"@),
    ).insert("HerstellerID"@, Some("00000"@)).insert("Kompression"@, Some("GZIP"@)).insert(
        "Verschluesselung"@,
        Some("CMSEncryptedData"@),
    ).insert("VersionClient"@, Some("1"@)).insert("ProduktName"@, Some("Taxel"@)).insert(
        "ProduktVersion"@,
        Some("0.1.0"@),
    ).insert("Testmerker"@, Some("700000004"@)).remove(
        "de-gcd:genInfo.report.id.reportType.reportType.JA"@,
    ).remove("de-gcd:genInfo.report.id.reportStatus.reportStatus.E"@).remove(
        "de-gcd:genInfo.report.id.revisionStatus.revisionStatus.E"@,
    ).remove("de-gcd:genInfo.report.id.reportElement.reportElements.B"@).remove(
        "de-gcd:genInfo.report.id.reportElement.reportElements.GuVMicroBilG"@,
    ).remove("de-gcd:genInfo.report.id.reportElement.reportElements.BVV"@).remove(
        "de-gcd:genInfo.report.id.statementType.statementType.E"@,
    ).remove("de-gcd:genInfo.report.id.incomeStatementendswithBalProfit "@).remove(
        "de-gcd:genInfo.report.id.accountingStandard.accountingStandard.AO"@,
    ).remove("de-gcd:genInfo.report.id.incomeStatementFormat.incomeStatementFormat.GKV"@).remove(
        "de-gcd:genInfo.report.id.consolidationRange.consolidationRange.EA"@,
    ).remove("de-gcd:genInfo.company.id.incomeClassification.trade"@).remove(
        "de-gcd:genInfo.company.id.shareholder.legalStatus.legalStatus.KOER"@,
    )
}

/// The events of a tree after stripping and injecting, the shape the
/// update pipeline emits.
pub open spec fn inject_then_render(t: ElemS, tab: Map<Seq<char>, Option<Seq<char>>>) -> Seq<
    EvSpec,
> {
    events_of(inject_model(strip_model(t), tab))
}

/// Update the values of the template document behind the reader: the
/// required tags are added to the table and the unsupported ones removed,
/// the template is parsed, all its values stripped, the table's values
/// injected, and the result written behind an XML declaration.  On success
/// the writer gained exactly the declaration and the events of the
/// stripped-then-injected template tree.
pub fn update_values(
    target_tags: Tags,
    xml_reader: &mut Reader<&[u8]>,
    xml_writer: &mut XmlWriter,
) -> (r: Result<(), UpdateError>)
    ensures
        ({
            let evs = reader_events(*old(xml_reader));
            let broke = reader_broke(*old(xml_reader));
            &&& (r is Ok <==> (!broke && spec_parse(evs) is Ok))
            &&& (match (r, spec_parse(evs)) {
                (Ok(_), Ok(t)) => written_text(*final(xml_writer)) == written_text(
                    *old(xml_writer),
                ) + decl_render("1.0"@) + events_render(
                    inject_then_render(t, prepared_tags(target_tags@)),
                ),
                _ => true,
            })
            &&& (r matches Err(e) ==> e matches UpdateError::Parse(_))
        }),
{
    let ghost tab0 = target_tags@;
    let mut target_tags = target_tags;
    target_tags.add_required_tags();
    target_tags.remove_unsupported_tags();
    proof {
        assert(target_tags@ == prepared_tags(tab0));
    }
    let mut element = match XbrlElement::parse(xml_reader) {
        Ok(e) => e,
        Err(e) => {
            return Err(UpdateError::Parse(e));
        },
    };
    let ghost parsed = element@;
    element.remove_values();
    element.add_values(&target_tags);
    match write_declaration(xml_writer) {
        Ok(()) => {},
        Err(e) => {
            return Err(UpdateError::Write(e));
        },
    }
    match element.serialize(xml_writer) {
        Ok(()) => {
            proof {
                assert(element@ == inject_model(strip_model(parsed), prepared_tags(tab0)));
                assert(events_of(element@) == inject_then_render(parsed, prepared_tags(tab0)));
                assert(written_text(*xml_writer) =~= written_text(*old(xml_writer)) + decl_render(
                    "1.0"@,
                ) + events_render(inject_then_render(parsed, prepared_tags(tab0))));
            }
            Ok(())
        },
        Err(e) => Err(UpdateError::Write(e)),
    }
}

} // verus!
