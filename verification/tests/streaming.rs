//! The streaming passes on whole documents: value substitution, the
//! taxonomy-aware streaming updater, and the streaming value remover.

use quick_xml::Reader;
use taxel::document::remove_formatting;
use taxel::stream::{remove_tag_values, update_tag_values, update_target_tags};
use taxel::tags::Tags;
use taxel::xmlio::{writer_new, writer_into_string};

fn check_update_tag_values(xml: &str, expected_xml: &str, target_tags: Tags) {
    let mut reader = Reader::from_str(xml);
    reader.config_mut().trim_text(true);
    let mut writer = writer_new();

    update_tag_values(target_tags, &mut reader, &mut writer).unwrap();

    let actual = writer_into_string(writer).unwrap();
    let expected = remove_formatting(expected_xml).unwrap();

    assert_eq!(actual, expected);
}

fn check_update_target_tags(xml: &str, expected_xml: &str, target_tags: Tags) {
    let mut reader = Reader::from_str(xml);
    reader.config_mut().trim_text(true);
    let mut writer = writer_new();

    update_target_tags(target_tags, &mut reader, &mut writer).unwrap();

    let actual = writer_into_string(writer).unwrap();
    // The pass always writes its own declaration first.
    let mut expected = remove_formatting(expected_xml).unwrap();
    if !expected.starts_with("<?xml") {
        expected = format!("<?xml version=\"1.0\" encoding=\"UTF-8\"?>{}", expected);
    }

    assert_eq!(actual, expected);
}

fn check_remove_tag_values(actual_xml: &str, expected_xml: &str) {
    let mut reader = Reader::from_str(actual_xml);
    reader.config_mut().trim_text(true);
    let mut writer = writer_new();

    remove_tag_values(&mut reader, &mut writer).unwrap();

    let actual = writer_into_string(writer).unwrap();
    let expected = remove_formatting(expected_xml).unwrap();

    assert_eq!(actual, expected);
}

#[test]
fn test_update_tag_values_start_end() {
    let xml = r#"
            <root>
                <tag/>
            </root>
        "#;
    let expected_xml = r#"
            <root>
                <tag>value</tag>
            </root>
        "#;

    let mut target_tags = Tags::new();
    target_tags.insert("tag", Some("value"));
    check_update_tag_values(xml, expected_xml, target_tags);
}

#[test]
fn test_update_tag_values_start_end_empty() {
    let xml = r#"
            <root>
                <tag/>
            </root>
        "#;
    let expected_xml = r#"
            <root>
                <tag></tag>
            </root>
        "#;

    let mut target_tags = Tags::new();
    target_tags.insert("tag", Some(""));
    check_update_tag_values(xml, expected_xml, target_tags);
}

#[test]
fn test_update_tag_values_empty() {
    let xml = r#"
            <root>
                <tag>value</tag>
            </root>
        "#;
    let expected_xml = r#"
            <root>
                <tag>updated value</tag>
            </root>
        "#;

    let mut target_tags = Tags::new();
    target_tags.insert("tag", Some("updated value"));
    check_update_tag_values(xml, expected_xml, target_tags);
}

#[test]
fn test_update_tag_values_multiple_tags() {
    let xml = r#"
            <root>
                <tag1/>
                <tag2/>
                <tag3>
                    <tag31/>
                </tag3>
                <tag4/>
                <tag5/>
                <tag6/>
            </root>
        "#;
    let expected_xml = r#"
            <root>
                <tag1/>
                <tag2>value 2</tag2>
                <tag3>
                    <tag31/>
                </tag3>
                <tag4/>
                <tag5>value 5</tag5>
                <tag6/>
            </root>
        "#;

    let mut target_tags = Tags::new();
    target_tags.insert("tag2", Some("value 2"));
    target_tags.insert("tag5", Some("value 5"));
    check_update_tag_values(xml, expected_xml, target_tags);
}

#[test]
fn test_update_xbrl_tag_gcd() {
    let xml = r#"
            <xbrli:xbrl>
                <de-gcd:genInfo.report.audit.city contextRef="D-AKTJAHR"/>
            </xbrli:xbrl>
        "#;
    let expected_xml = r#"
            <xbrli:xbrl>
                <de-gcd:genInfo.report.audit.city contextRef="D-AKTJAHR">Berlin</de-gcd:genInfo.report.audit.city>
            </xbrli:xbrl>
        "#;

    let mut target_tags = Tags::new();
    target_tags.insert("de-gcd:genInfo.report.audit.city", Some("Berlin"));
    check_update_tag_values(xml, expected_xml, target_tags);
}

#[test]
fn test_update_xbrl_tag_gaap() {
    let xml = r#"
            <xbrli:xbrl>
                <de-gaap-ci:is.netIncome.regular.operatingTC.otherCost.marketing contextRef="D-AKTJAHR" unitRef="EUR" xsi:nil="true"/>
            </xbrli:xbrl>
        "#;
    let expected_xml = r#"
            <xbrli:xbrl>
                <de-gaap-ci:is.netIncome.regular.operatingTC.otherCost.marketing contextRef="D-AKTJAHR" unitRef="EUR" decimals="2">550.50</de-gaap-ci:is.netIncome.regular.operatingTC.otherCost.marketing>
            </xbrli:xbrl>
        "#;

    let mut target_tags = Tags::new();
    target_tags.insert(
        "de-gaap-ci:is.netIncome.regular.operatingTC.otherCost.marketing",
        Some("550.50"),
    );
    check_update_tag_values(xml, expected_xml, target_tags);
}

const ACTUAL_XML: &str = r#"
    <?xml version="1.0" encoding="UTF-8"?>
    <Elster xmlns="http://www.elster.de/elsterxml/schema/v11">
        <TransferHeader version="11">
            <Verfahren>ElsterBilanz</Verfahren>
            <DatenArt>Bilanz</DatenArt>
            <Vorgang>send-Auth</Vorgang>
            <Testmerker>700000004</Testmerker>
            <HerstellerID>00000</HerstellerID>
            <Datei>
                <Verschluesselung>CMSEncryptedData</Verschluesselung>
                <Kompression>GZIP</Kompression>
                <TransportSchluessel></TransportSchluessel>
            </Datei>
            <VersionClient>1</VersionClient>
        </TransferHeader>
        <DatenTeil>
            <Nutzdatenblock>
                <NutzdatenHeader version="11">
                    <NutzdatenTicket>0001</NutzdatenTicket>
                    <Empfaenger id="F">0000</Empfaenger>
                    <Hersteller>
                        <ProduktName>Taxel</ProduktName>
                        <ProduktVersion>0.1.0</ProduktVersion>
                    </Hersteller>
                </NutzdatenHeader>
                <Nutzdaten>
                    <ebilanz:EBilanz xmlns:ebilanz="http://rzf.fin-nrw.de/RMS/EBilanz/2016/XMLSchema"
                        version="000001">
                        <ebilanz:stichtag>00000000</ebilanz:stichtag>
                    </ebilanz:EBilanz>
                </Nutzdaten>
            </Nutzdatenblock>
        </DatenTeil>
    </Elster>"#;

const EXPECTED_XML: &str = r#"
    <?xml version="1.0" encoding="UTF-8"?>
    <Elster xmlns="http://www.elster.de/elsterxml/schema/v11">
        <TransferHeader version="11">
            <Verfahren>ElsterBilanz</Verfahren>
            <DatenArt>Bilanz</DatenArt>
            <Vorgang>send-Auth</Vorgang>
            <Testmerker>700000004</Testmerker>
            <HerstellerID>99999</HerstellerID>
            <Datei>
                <Verschluesselung>CMSEncryptedData</Verschluesselung>
                <Kompression>GZIP</Kompression>
                <TransportSchluessel></TransportSchluessel>
            </Datei>
            <VersionClient>1</VersionClient>
        </TransferHeader>
        <DatenTeil>
            <Nutzdatenblock>
                <NutzdatenHeader version="11">
                    <NutzdatenTicket>0001</NutzdatenTicket>
                    <Empfaenger id="F">9999</Empfaenger>
                    <Hersteller>
                        <ProduktName>Taxel</ProduktName>
                        <ProduktVersion>0.2.0</ProduktVersion>
                    </Hersteller>
                </NutzdatenHeader>
                <Nutzdaten>
                    <ebilanz:EBilanz xmlns:ebilanz="http://rzf.fin-nrw.de/RMS/EBilanz/2016/XMLSchema"
                        version="000001">
                        <ebilanz:stichtag>20201231</ebilanz:stichtag>
                    </ebilanz:EBilanz>
                </Nutzdaten>
            </Nutzdatenblock>
        </DatenTeil>
    </Elster>"#;

#[test]
fn update_tag_values_test_update_xml() {
    let mut target_tags = Tags::new();
    target_tags.insert("HerstellerID", Some("99999"));
    target_tags.insert("Empfaenger", Some("9999"));
    target_tags.insert("ProduktName", Some("Taxel"));
    target_tags.insert("ProduktVersion", Some("0.2.0"));
    target_tags.insert("ebilanz:stichtag", Some("20201231"));

    check_update_tag_values(ACTUAL_XML, EXPECTED_XML, target_tags);
}

const ACTUAL_XBRL: &str = r#"
            <xbrli:xbrl xmlns:de-gaap-ci="http://www.xbrl.de/taxonomies/de-gaap-ci-2020-04-01"
                xmlns:de-gcd="http://www.xbrl.de/taxonomies/de-gcd-2020-04-01"
                xmlns:hgbref="http://www.xbrl.de/2008/ref" xmlns:iso4217="http://www.xbrl.org/2003/iso4217"
                xmlns:link="http://www.xbrl.org/2003/linkbase" xmlns:ref="http://www.xbrl.org/2024/ref"
                xmlns:xbrldi="http://xbrl.org/2006/xbrldi" xmlns:xbrli="http://www.xbrl.org/2003/instance"
                xmlns:xhtml="http://www.w3.org/1999/xhtml" xmlns:xlink="http://www.w3.org/1999/xlink"
                xmlns:xsi="http://www.w3.org/2001/XMLSchema-instance">
                <link:schemaRef
                    xlink:href="http://www.xbrl.de/taxonomies/de-gcd-2020-04-01/de-gcd-2020-04-01-shell.xsd"
                    xlink:type="simple" />
                <link:schemaRef
                    xlink:href="http://www.xbrl.de/taxonomies/de-gaap-ci-2020-04-01/de-gaap-ci-2020-04-01-shell-fiscal-microbilg.xsd"
                    xlink:type="simple" />
                <xbrli:context id="I-2020">
                    <xbrli:entity>
                        <xbrli:identifier
                            scheme="http://www.rzf-nrw.de/Steuernummer">0000000000000</xbrli:identifier>
                    </xbrli:entity>
                    <xbrli:period>
                        <xbrli:instant>0000-00-00</xbrli:instant>
                    </xbrli:period>
                </xbrli:context>
            </xbrli:xbrl>"#;

const EXPECTED_XBRL: &str = r#"
            <xbrli:xbrl xmlns:de-gaap-ci="http://www.xbrl.de/taxonomies/de-gaap-ci-2020-04-01"
                xmlns:de-gcd="http://www.xbrl.de/taxonomies/de-gcd-2020-04-01"
                xmlns:hgbref="http://www.xbrl.de/2008/ref" xmlns:iso4217="http://www.xbrl.org/2003/iso4217"
                xmlns:link="http://www.xbrl.org/2003/linkbase" xmlns:ref="http://www.xbrl.org/2024/ref"
                xmlns:xbrldi="http://xbrl.org/2006/xbrldi" xmlns:xbrli="http://www.xbrl.org/2003/instance"
                xmlns:xhtml="http://www.w3.org/1999/xhtml" xmlns:xlink="http://www.w3.org/1999/xlink"
                xmlns:xsi="http://www.w3.org/2001/XMLSchema-instance">
                <link:schemaRef
                    xlink:href="http://www.xbrl.de/taxonomies/de-gcd-2020-04-01/de-gcd-2020-04-01-shell.xsd"
                    xlink:type="simple" />
                <link:schemaRef
                    xlink:href="http://www.xbrl.de/taxonomies/de-gaap-ci-2020-04-01/de-gaap-ci-2020-04-01-shell-fiscal-microbilg.xsd"
                    xlink:type="simple" />
                <xbrli:context id="I-2020">
                    <xbrli:entity>
                        <xbrli:identifier
                            scheme="http://www.rzf-nrw.de/Steuernummer">9999999999999</xbrli:identifier>
                    </xbrli:entity>
                    <xbrli:period>
                        <xbrli:instant>2020-12-31</xbrli:instant>
                    </xbrli:period>
                </xbrli:context>
            </xbrli:xbrl>"#;

#[test]
fn update_tag_values_test_update_xrbl() {
    let mut target_tags = Tags::new();
    target_tags.insert("ProduktName", Some("Taxel"));
    target_tags.insert("xbrli:identifier", Some("9999999999999"));
    target_tags.insert("xbrli:instant", Some("2020-12-31"));

    check_update_tag_values(ACTUAL_XBRL, EXPECTED_XBRL, target_tags);
}

#[test]
fn test_remove_tag_values_start_end() {
    let actual_xml = r#"
            <root>
                <tag>value</tag>
            </root>
        "#;
    let expected_xml = r#"
            <root>
                <tag/>
            </root>
        "#;

    check_remove_tag_values(actual_xml, expected_xml);
}

#[test]
fn test_remove_tag_values_start_end_empty() {
    let actual_xml = r#"
            <root>
                <tag></tag>
            </root>
        "#;
    let expected_xml = r#"
            <root>
                <tag/>
            </root>
        "#;

    check_remove_tag_values(actual_xml, expected_xml);
}

#[test]
fn test_remove_tag_values_empty() {
    let actual_xml = r#"
            <root>
                <tag/>
            </root>
        "#;
    let expected_xml = r#"
            <root>
                <tag/>
            </root>
        "#;

    check_remove_tag_values(actual_xml, expected_xml);
}

#[test]
fn test_remove_tag_values_multiple_tags() {
    let actual_xml = r#"
            <root>
                <tag1/>
                <tag2>Value 2</tag2>
                <tag3>
                    <tag31/>
                </tag3>
                <tag4/>
                <tag5>Value 5</tag5>
                <tag6/>
            </root>
        "#;
    let expected_xml = r#"
            <root>
                <tag1/>
                <tag2/>
                <tag3>
                    <tag31/>
                </tag3>
                <tag4/>
                <tag5/>
                <tag6/>
            </root>
        "#;

    check_remove_tag_values(actual_xml, expected_xml);
}

#[test]
fn test_remove_xbrl_tag_gcd() {
    let actual_xml = r#"
            <xbrli:xbrl>
                <de-gcd:genInfo.report.audit.city contextRef="D-AKTJAHR">Berlin</de-gcd:genInfo.report.audit.city>
            </xbrli:xbrl>
        "#;
    let expected_xml = r#"
            <xbrli:xbrl>
                <de-gcd:genInfo.report.audit.city contextRef="D-AKTJAHR"/>
            </xbrli:xbrl>
        "#;

    check_remove_tag_values(actual_xml, expected_xml);
}

#[test]
fn test_remove_xbrl_tag_gaap() {
    let actual_xml = r#"
            <xbrli:xbrl>
                <de-gaap-ci:is.netIncome.regular.operatingTC.otherCost.marketing contextRef="D-AKTJAHR" unitRef="EUR" decimals="2">550.50</de-gaap-ci:is.netIncome.regular.operatingTC.otherCost.marketing>
            </xbrli:xbrl>
        "#;
    let expected_xml = r#"
            <xbrli:xbrl>
                <de-gaap-ci:is.netIncome.regular.operatingTC.otherCost.marketing contextRef="D-AKTJAHR" unitRef="EUR" xsi:nil="true"/>
            </xbrli:xbrl>
        "#;

    check_remove_tag_values(actual_xml, expected_xml);
}

const INPUT_XML: &str = r#"<?xml version="1.0" encoding="UTF-8"?>
    <Elster xmlns="http://www.elster.de/elsterxml/schema/v11">
        <TransferHeader>
            <Verfahren>ElsterBilanz</Verfahren>
            <DatenArt>Bilanz</DatenArt>
            <Vorgang>send-Auth</Vorgang>
            <Testmerker>700000004</Testmerker>
            <HerstellerID>11111</HerstellerID>
            <Datei>
                <Verschluesselung>CMSEncryptedData</Verschluesselung>
                <Kompression>GZIP</Kompression>
                <TransportSchluessel></TransportSchluessel>
            </Datei>
            <VersionClient>ABC</VersionClient>
        </TransferHeader>
        <DatenTeil>
            <Nutzdatenblock>
                <NutzdatenHeader>
                    <NutzdatenTicket>0001</NutzdatenTicket>
                    <Empfaenger id="F">1234</Empfaenger>
                    <Hersteller>
                        <ProduktName>ABC</ProduktName>
                        <ProduktVersion>CDE</ProduktVersion>
                    </Hersteller>
                </NutzdatenHeader>
                <Nutzdaten></Nutzdaten>
            </Nutzdatenblock>
        </DatenTeil>
    </Elster>"#;

const OUTPUT_XML: &str = r#"<?xml version="1.0" encoding="UTF-8"?>
    <Elster xmlns="http://www.elster.de/elsterxml/schema/v11">
        <TransferHeader>
            <Verfahren>ElsterBilanz</Verfahren>
            <DatenArt>Bilanz</DatenArt>
            <Vorgang>send-Auth</Vorgang>
            <Testmerker>700000004</Testmerker>
            <HerstellerID>99999</HerstellerID>
            <Datei>
                <Verschluesselung>CMSEncryptedData</Verschluesselung>
                <Kompression>GZIP</Kompression>
                <TransportSchluessel></TransportSchluessel>
            </Datei>
            <VersionClient>ABC</VersionClient>
        </TransferHeader>
        <DatenTeil>
            <Nutzdatenblock>
                <NutzdatenHeader>
                    <NutzdatenTicket>0001</NutzdatenTicket>
                    <Empfaenger id="F">1234</Empfaenger>
                    <Hersteller>
                        <ProduktName>XYZ</ProduktName>
                        <ProduktVersion>UVW</ProduktVersion>
                    </Hersteller>
                </NutzdatenHeader>
                <Nutzdaten></Nutzdaten>
            </Nutzdatenblock>
        </DatenTeil>
    </Elster>"#;

#[test]
fn test_update_target_tags() {
    let mut target_tags = Tags::new();
    target_tags.insert("HerstellerID", Some("99999"));
    target_tags.insert("ProduktName", Some("XYZ"));
    target_tags.insert("ProduktVersion", Some("UVW"));

    check_update_target_tags(INPUT_XML, OUTPUT_XML, target_tags);
}

#[test]
fn update_target_tags_test_update_xml() {
    let mut target_tags = Tags::new();
    target_tags.insert("HerstellerID", Some("99999"));
    target_tags.insert("Empfaenger", Some("9999"));
    target_tags.insert("ProduktName", Some("Taxel"));
    target_tags.insert("ProduktVersion", Some("0.2.0"));
    target_tags.insert("ebilanz:stichtag", Some("20201231"));

    check_update_target_tags(ACTUAL_XML, EXPECTED_XML, target_tags);
}

#[test]
fn update_target_tags_test_update_xrbl() {
    let mut target_tags = Tags::new();
    target_tags.insert("ProduktName", Some("Taxel"));
    target_tags.insert("xbrli:identifier", Some("9999999999999"));
    target_tags.insert("xbrli:instant", Some("2020-12-31"));

    check_update_target_tags(ACTUAL_XBRL, EXPECTED_XBRL, target_tags);
}
