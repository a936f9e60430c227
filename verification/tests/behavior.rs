//! Behaviour of the engine on concrete documents: round trips, idempotence,
//! taxonomy rules, name-scoped injection, the empty/self-closed distinction,
//! structural errors, and the table helpers.

use quick_xml::Reader;
use spreadsheet_ods::{Sheet, WorkBook};
use taxel::csvio::{write_tags, TagWriter};
use taxel::document::{extract_tag_values, remove_formatting, update_values};
use taxel::events::XmlEvent;
use taxel::ods::{find_source_cell, read_target_tags_ods, Cell, OdsError, SourceCell};
use taxel::parse::ParseError;
use taxel::response::{EricResponse, Preview, ProcessingFlag};
use taxel::table::{read_xbrl, XbrlApp, XbrlTable};
use taxel::tags::{Tag, Tags};
use taxel::xbrl::{Taxonomy, XbrlAttribute, XbrlElement, XmlType};
use taxel::xmlio::{writer_new, writer_into_string};

fn parse_str(xml: &str) -> XbrlElement {
    let mut reader = Reader::from_str(xml);
    reader.config_mut().trim_text(true);
    XbrlElement::parse(&mut reader).unwrap()
}

fn to_xml(element: &XbrlElement) -> String {
    let mut writer = writer_new();
    element.serialize(&mut writer).unwrap();
    writer_into_string(writer).unwrap()
}

#[test]
fn round_trip_restores_document() {
    let xml = r#"<root><plain>alpha</plain><de-gcd:fact contextRef="C">beta</de-gcd:fact><de-gaap-ci:fact contextRef="C" unitRef="EUR" decimals="2">550.50</de-gaap-ci:fact><branch><leaf>x</leaf></branch></root>"#;
    let original = parse_str(xml);
    let mut element = parse_str(xml);

    let mut table = Tags::new();
    table.insert("root", None);
    table.insert("plain", Some("alpha"));
    table.insert("de-gcd:fact", Some("beta"));
    table.insert("de-gaap-ci:fact", Some("550.50"));
    table.insert("branch", None);
    table.insert("leaf", Some("x"));

    element.remove_values();
    element.add_values(&table);

    assert_eq!(element, original);
    assert_eq!(to_xml(&element), xml);
}

#[test]
fn strip_is_idempotent_without_gaap_ci() {
    let xml = r#"<root><a>1</a><de-gcd:fact contextRef="C">2</de-gcd:fact></root>"#;
    let mut once = parse_str(xml);
    once.remove_values();
    let mut twice = parse_str(xml);
    twice.remove_values();
    twice.remove_values();

    assert_eq!(once, twice);
}

#[test]
fn strip_duplicates_nil_on_gaap_ci() {
    let mut element = XbrlElement::new(
        "de-gaap-ci:fact",
        Some(String::from("1.00")),
        vec![XbrlAttribute::new("decimals", "2")],
        XmlType::Taxonomy(Taxonomy::GaapCi),
        vec![],
    );
    element.remove_values();
    element.remove_values();

    assert_eq!(
        element,
        XbrlElement::new(
            "de-gaap-ci:fact",
            None,
            vec![
                XbrlAttribute::new("xsi:nil", "true"),
                XbrlAttribute::new("xsi:nil", "true"),
            ],
            XmlType::Taxonomy(Taxonomy::GaapCi),
            vec![],
        )
    );
}

#[test]
fn extraction_ignores_self_closing_and_branch_nodes() {
    let xml = r#"<root><a/><b>x</b><c><d/></c></root>"#;
    let mut reader = Reader::from_str(xml);
    reader.config_mut().trim_text(true);
    let tags = extract_tag_values(&mut reader).unwrap();

    assert_eq!(tags, vec![Tag::new("b", Some("x"))]);
}

#[test]
fn strip_marks_gaap_ci_leaf_nil() {
    let xml =
        r#"<de-gaap-ci:fact ctx="X" unit="EUR" decimals="2">550.50</de-gaap-ci:fact>"#;
    let mut element = parse_str(xml);
    element.remove_values();

    assert_eq!(
        to_xml(&element),
        r#"<de-gaap-ci:fact ctx="X" unit="EUR" xsi:nil="true"/>"#
    );
}

#[test]
fn inject_replaces_gaap_ci_nil_with_decimals() {
    let xml =
        r#"<de-gaap-ci:fact ctx="X" unit="EUR" decimals="2">550.50</de-gaap-ci:fact>"#;
    let mut element = parse_str(xml);
    element.remove_values();
    assert_eq!(
        to_xml(&element),
        r#"<de-gaap-ci:fact ctx="X" unit="EUR" xsi:nil="true"/>"#
    );

    let mut table = Tags::new();
    table.insert("de-gaap-ci:fact", Some("550.50"));
    element.add_values(&table);

    assert_eq!(to_xml(&element), xml);
}

#[test]
fn test_decrypt() {
    // Decryption itself runs inside the native submission library; the crate
    // carries only the response values that the call hands back.
    let response = EricResponse::new(0, String::new(), String::new());
    assert_eq!(response.error_code, 0);
    assert_eq!(response.validation_response, "");
    assert_eq!(response.server_response, "");
}

#[test]
fn gcd_facts_never_gain_decimals_or_nil() {
    let xml = r#"<de-gcd:fact contextRef="C">old</de-gcd:fact>"#;
    let mut element = parse_str(xml);
    element.remove_values();
    assert_eq!(to_xml(&element), r#"<de-gcd:fact contextRef="C"/>"#);

    let mut table = Tags::new();
    table.insert("de-gcd:fact", Some("new"));
    element.add_values(&table);
    assert_eq!(
        to_xml(&element),
        r#"<de-gcd:fact contextRef="C">new</de-gcd:fact>"#
    );
}

#[test]
fn injection_is_name_scoped_not_path_scoped() {
    let xml = r#"<root><Empfaenger>a</Empfaenger><Empfaenger>b</Empfaenger></root>"#;
    let mut element = parse_str(xml);
    let mut table = Tags::new();
    table.insert("Empfaenger", Some("9999"));
    element.add_values(&table);

    assert_eq!(
        to_xml(&element),
        r#"<root><Empfaenger>9999</Empfaenger><Empfaenger>9999</Empfaenger></root>"#
    );
}

#[test]
fn explicit_empty_differs_from_self_closed() {
    let mut filled = XbrlElement::new("tag", None, vec![], XmlType::Plain, vec![]);
    let mut table = Tags::new();
    table.insert("tag", Some(""));
    filled.add_values(&table);
    assert_eq!(to_xml(&filled), r#"<tag></tag>"#);

    let untouched = XbrlElement::new("tag", None, vec![], XmlType::Plain, vec![]);
    assert_eq!(to_xml(&untouched), r#"<tag/>"#);
}

#[test]
fn parse_reports_mismatched_end_tag() {
    let events = vec![
        XmlEvent::Start(String::from("a"), vec![]),
        XmlEvent::Start(String::from("b"), vec![]),
        XmlEvent::End(String::from("a")),
    ];
    assert_eq!(
        XbrlElement::parse_events(&events),
        Err(ParseError::MismatchedEnd(String::from("b"), String::from("a")))
    );
}

#[test]
fn parse_reports_premature_end_of_document() {
    let events = vec![XmlEvent::Start(String::from("a"), vec![])];
    assert_eq!(
        XbrlElement::parse_events(&events),
        Err(ParseError::UnexpectedEof)
    );
}

#[test]
fn parse_reports_missing_root() {
    let events: Vec<XmlEvent> = vec![XmlEvent::Decl];
    assert_eq!(
        XbrlElement::parse_events(&events),
        Err(ParseError::MissingRoot)
    );

    let mut reader = Reader::from_str("   ");
    reader.config_mut().trim_text(true);
    assert_eq!(
        XbrlElement::parse(&mut reader),
        Err(ParseError::MissingRoot)
    );
}

#[test]
fn parse_reports_declaration_inside_document() {
    let events = vec![
        XmlEvent::Start(String::from("a"), vec![]),
        XmlEvent::Decl,
        XmlEvent::End(String::from("a")),
    ];
    assert_eq!(
        XbrlElement::parse_events(&events),
        Err(ParseError::UnexpectedDecl)
    );
}

#[test]
fn parse_keeps_last_text() {
    let events = vec![
        XmlEvent::Start(String::from("a"), vec![]),
        XmlEvent::Text(String::from("first")),
        XmlEvent::Text(String::from("second")),
        XmlEvent::End(String::from("a")),
    ];
    assert_eq!(
        XbrlElement::parse_events(&events).unwrap(),
        XbrlElement::new("a", Some(String::from("second")), vec![], XmlType::Plain, vec![])
    );
}

#[test]
fn serialize_events_roundtrip_through_parse() {
    let element = XbrlElement::new(
        "root",
        None,
        vec![XbrlAttribute::new("k", "v")],
        XmlType::Plain,
        vec![XbrlElement::new(
            "leaf",
            Some(String::from("x")),
            vec![],
            XmlType::Plain,
            vec![],
        )],
    );
    let events = element.serialize_events();
    assert_eq!(
        events,
        vec![
            XmlEvent::Start(String::from("root"), vec![XbrlAttribute::new("k", "v")]),
            XmlEvent::Start(String::from("leaf"), vec![]),
            XmlEvent::Text(String::from("x")),
            XmlEvent::End(String::from("leaf")),
            XmlEvent::End(String::from("root")),
        ]
    );
    let reparsed = XbrlElement::parse_events(&events).unwrap();
    assert_eq!(reparsed, element);
}

#[test]
fn classification_follows_markers_in_order() {
    assert_eq!(XmlType::get_xml_type("xbrli:xbrl"), XmlType::Xbrl);
    assert_eq!(
        XmlType::get_xml_type("de-gcd:genInfo.report.audit.city"),
        XmlType::Taxonomy(Taxonomy::Gcd)
    );
    assert_eq!(
        XmlType::get_xml_type("de-gaap-ci:is.netIncome"),
        XmlType::Taxonomy(Taxonomy::GaapCi)
    );
    assert_eq!(XmlType::get_xml_type("Empfaenger"), XmlType::Plain);
    assert_eq!(XmlType::get_xml_type("gcd-and-xbrl"), XmlType::Xbrl);
    assert_eq!(XmlType::as_str(&XmlType::Plain), "plain");
    assert_eq!(XmlType::as_str(&XmlType::Xbrl), "xbrl");
    assert_eq!(Taxonomy::as_str(&Taxonomy::Gcd), "gcd");
    assert_eq!(Taxonomy::as_str(&Taxonomy::GaapCi), "gaap-ci");
}

#[test]
fn tags_insert_overwrites_and_remove_drops() {
    let mut tags = Tags::new();
    assert_eq!(tags.get("a"), None);
    tags.insert("a", Some("1"));
    assert_eq!(tags.get("a"), Some(&Some(String::from("1"))));
    tags.insert("a", Some("2"));
    assert_eq!(tags.get("a"), Some(&Some(String::from("2"))));
    tags.insert("b", None);
    assert_eq!(tags.get("b"), Some(&None));
    tags.remove("a");
    assert_eq!(tags.get("a"), None);
    assert_eq!(tags.get("b"), Some(&None));
    tags.remove("never-there");
}

#[test]
fn required_tags_are_added_and_unsupported_removed() {
    let mut tags = Tags::new();
    tags.insert(
        "de-gcd:genInfo.report.id.reportType.reportType.JA",
        Some("x"),
    );
    tags.add_required_tags();
    tags.remove_unsupported_tags();

    assert_eq!(tags.get("Verfahren"), Some(&Some(String::from("ElsterBilanz"))));
    assert_eq!(tags.get("DatenArt"), Some(&Some(String::from("Bilanz"))));
    assert_eq!(tags.get("Vorgang"), Some(&Some(String::from("send-Auth"))));
    assert_eq!(tags.get("HerstellerID"), Some(&Some(String::from("00000"))));
    assert_eq!(tags.get("Kompression"), Some(&Some(String::from("GZIP"))));
    assert_eq!(
        tags.get("Verschluesselung"),
        Some(&Some(String::from("CMSEncryptedData")))
    );
    assert_eq!(tags.get("VersionClient"), Some(&Some(String::from("1"))));
    assert_eq!(tags.get("ProduktName"), Some(&Some(String::from("Taxel"))));
    assert_eq!(tags.get("ProduktVersion"), Some(&Some(String::from("0.1.0"))));
    assert_eq!(tags.get("Testmerker"), Some(&Some(String::from("700000004"))));
    assert_eq!(
        tags.get("de-gcd:genInfo.report.id.reportType.reportType.JA"),
        None
    );
}

#[test]
fn write_tags_emits_header_and_rows() {
    let mut writer = TagWriter::new();
    write_tags(
        &mut writer,
        vec![
            Tag::new("tag", Some("value")),
            Tag::new("empty", None),
        ],
    )
    .unwrap();
    let text = writer.into_string().unwrap();
    assert_eq!(text, "ebilanz_key,ebilanz_value\ntag,value\nempty,\n");
}

#[test]
fn remove_formatting_flattens_whitespace() {
    let xml = "\n  <root>\n    <tag>value</tag>\n  </root>\n";
    assert_eq!(
        remove_formatting(xml).unwrap(),
        "<root><tag>value</tag></root>"
    );
}

#[test]
fn update_values_rejects_broken_template() {
    let mut reader = Reader::from_str("<root><open></root>");
    reader.config_mut().trim_text(true);
    let mut writer = writer_new();
    let res = update_values(Tags::new(), &mut reader, &mut writer);
    assert!(res.is_err());
}

#[test]
fn parse_keeps_first_root() {
    let events = vec![
        XmlEvent::Start(String::from("a"), vec![]),
        XmlEvent::End(String::from("a")),
        XmlEvent::Start(String::from("b"), vec![]),
        XmlEvent::End(String::from("b")),
    ];
    assert_eq!(
        XbrlElement::parse_events(&events).unwrap(),
        XbrlElement::new("a", None, vec![], XmlType::Plain, vec![])
    );
}

#[test]
fn entity_references_stay_in_text() {
    let xml = r#"<root><tag>M&amp;M</tag></root>"#;
    let mut reader = Reader::from_str(xml);
    reader.config_mut().trim_text(true);
    let tags = extract_tag_values(&mut reader).unwrap();
    assert_eq!(tags, vec![Tag::new("tag", Some("M&amp;M"))]);

    assert_eq!(remove_formatting(xml).unwrap(), xml);

    let element = parse_str(xml);
    assert_eq!(to_xml(&element), xml);
}

#[test]
fn read_xbrl_collects_context_facts() {
    let xml = r#"<xbrli:xbrl><de-gaap-ci:fact contextRef="D-AKTJAHR" unitRef="EUR">550.50</de-gaap-ci:fact><de-gcd:city contextRef="D-AKTJAHR">Berlin</de-gcd:city><xbrli:unit id="EUR"><xbrli:measure>iso4217:EUR</xbrli:measure></xbrli:unit></xbrli:xbrl>"#;
    let table = read_xbrl(xml).unwrap();

    assert_eq!(table.rows.len(), 2);
    assert_eq!(table.rows[0].concept, "de-gaap-ci:fact");
    assert_eq!(table.rows[0].context, "D-AKTJAHR");
    assert_eq!(table.rows[0].unit, Some(String::from("EUR")));
    assert_eq!(table.rows[0].value, "550.50");
    assert_eq!(table.rows[1].concept, "de-gcd:city");
    assert_eq!(table.rows[1].context, "D-AKTJAHR");
    assert_eq!(table.rows[1].unit, None);
    assert_eq!(table.rows[1].value, "Berlin");

    let app = XbrlApp::new(table);
    assert_eq!(app.table.rows.len(), 2);
    let empty = XbrlTable::default();
    assert_eq!(empty.rows.len(), 0);
}

#[test]
fn find_source_cell_locates_headers() {
    let mut sheet = Sheet::new("data");
    sheet.set_value(2, 1, "ebilanz_key");
    sheet.set_value(2, 3, "ebilanz_value");
    let found = find_source_cell(&sheet).unwrap();
    assert_eq!(found, SourceCell::new(Cell::new(2, 1), Cell::new(2, 3)));

    let mut mismatched = Sheet::new("data");
    mismatched.set_value(0, 0, "ebilanz_key");
    mismatched.set_value(1, 1, "ebilanz_value");
    assert_eq!(find_source_cell(&mismatched), Err(OdsError::RowMismatch));

    let bare = Sheet::new("data");
    assert_eq!(find_source_cell(&bare), Err(OdsError::MissingBothColumns));

    let mut key_only = Sheet::new("data");
    key_only.set_value(0, 0, "ebilanz_key");
    assert_eq!(find_source_cell(&key_only), Err(OdsError::MissingValueColumn));

    let mut value_only = Sheet::new("data");
    value_only.set_value(0, 0, "ebilanz_value");
    assert_eq!(find_source_cell(&value_only), Err(OdsError::MissingKeyColumn));
}

#[test]
fn read_target_tags_ods_collects_rows() {
    let mut sheet = Sheet::new("data");
    sheet.set_value(0, 0, "ebilanz_key");
    sheet.set_value(0, 1, "ebilanz_value");
    sheet.set_value(1, 0, "Empfaenger");
    sheet.set_value(1, 1, "1111");
    sheet.set_value(3, 0, "ebilanz:stichtag");
    sheet.set_value(3, 1, "20201231");
    let mut workbook = WorkBook::new_empty();
    workbook.push_sheet(sheet);

    let tags = read_target_tags_ods(&workbook).unwrap();
    assert_eq!(tags.len(), 2);
    assert_eq!(tags.get("Empfaenger").and_then(|v| v.as_str_opt()), Some("1111"));
    assert_eq!(
        tags.get("ebilanz:stichtag").and_then(|v| v.as_str_opt()),
        Some("20201231")
    );
}

#[test]
fn processing_flags_carry_wire_values() {
    assert_eq!(ProcessingFlag::Validate.flag_value(), 2);
    assert_eq!(ProcessingFlag::Send.flag_value(), 4);
    assert_eq!(ProcessingFlag::Print.flag_value(), 32);
    assert_eq!(ProcessingFlag::SendAndPrint.flag_value(), 36);
    assert_eq!(ProcessingFlag::CheckHints.flag_value(), 128);
    assert_eq!(Preview::Yes.flag_value(), 1);
    assert_eq!(Preview::No.flag_value(), 0);

    let response = EricResponse::new(0, String::from("ok"), String::from("server"));
    assert_eq!(response.error_code, 0);
    assert_eq!(response.validation_response, "ok");
    assert_eq!(response.server_response, "server");
}
