//! The update pipeline end to end: parse a template, strip every value,
//! inject the target values, serialise behind a declaration.

use quick_xml::Reader;
use taxel::document::{remove_formatting, update_values};
use taxel::tags::Tags;
use taxel::xmlio::{writer_new, writer_into_string};

fn check_update_target_tags(xml: &str, expected_xml: &str, target_tags: Tags) {
    let mut reader = Reader::from_str(xml);
    reader.config_mut().trim_text(true);
    let mut writer = writer_new();

    update_values(target_tags, &mut reader, &mut writer).unwrap();

    let actual = writer_into_string(writer).unwrap();
    let expected = remove_formatting(expected_xml).unwrap();

    assert_eq!(actual, expected);
}

#[test]
fn generate_test_update_xml() {
    const ACTUAL_XML: &str = r#"
            <?xml version="1.0" encoding="UTF-8"?>
            <Elster xmlns="http://www.elster.de/elsterxml/schema/v11">
                <TransferHeader version="11">
                    <Verfahren>ElsterBilanz</Verfahren>
                    <DatenArt>Bilanz</DatenArt>
                    <Vorgang>send-Auth</Vorgang>
                    <Testmerker>700000004</Testmerker>
                    <HerstellerID>00000</HerstellerID>
                    <Datei>
                        <Verschluesselung>CMSEncryptedData</Verschluesselung>
                        <Kompression>GZIP</Kompression>
                        <TransportSchluessel></TransportSchluessel>
                    </Datei>
                    <VersionClient>1</VersionClient>
                </TransferHeader>
                <DatenTeil>
                    <Nutzdatenblock>
                        <NutzdatenHeader version="11">
                            <NutzdatenTicket>0001</NutzdatenTicket>
                            <Empfaenger id="F">0000</Empfaenger>
                            <Hersteller>
                                <ProduktName>Taxel</ProduktName>
                                <ProduktVersion>0.1.0</ProduktVersion>
                            </Hersteller>
                        </NutzdatenHeader>
                        <Nutzdaten>
                            <ebilanz:EBilanz xmlns:ebilanz="http://rzf.fin-nrw.de/RMS/EBilanz/2016/XMLSchema"
                                version="000001">
                                <ebilanz:stichtag>00000000</ebilanz:stichtag>
                            </ebilanz:EBilanz>
                        </Nutzdaten>
                    </Nutzdatenblock>
                </DatenTeil>
            </Elster>"#;

    const EXPECTED_XML: &str = r#"
            <?xml version="1.0" encoding="UTF-8"?>
            <Elster xmlns="http://www.elster.de/elsterxml/schema/v11">
                <TransferHeader version="11">
                    <Verfahren>ElsterBilanz</Verfahren>
                    <DatenArt>Bilanz</DatenArt>
                    <Vorgang>send-Auth</Vorgang>
                    <Testmerker>700000004</Testmerker>
                    <HerstellerID>00000</HerstellerID>
                    <Datei>
                        <Verschluesselung>CMSEncryptedData</Verschluesselung>
                        <Kompression>GZIP</Kompression>
                        <TransportSchluessel/>
                    </Datei>
                    <VersionClient>1</VersionClient>
                </TransferHeader>
                <DatenTeil>
                    <Nutzdatenblock>
                        <NutzdatenHeader version="11">
                            <NutzdatenTicket>0001</NutzdatenTicket>
                            <Empfaenger id="F">9999</Empfaenger>
                            <Hersteller>
                                <ProduktName>Taxel</ProduktName>
                                <ProduktVersion>0.1.0</ProduktVersion>
                            </Hersteller>
                        </NutzdatenHeader>
                        <Nutzdaten>
                            <ebilanz:EBilanz xmlns:ebilanz="http://rzf.fin-nrw.de/RMS/EBilanz/2016/XMLSchema" version="000001">
                                <ebilanz:stichtag>20201231</ebilanz:stichtag>
                            </ebilanz:EBilanz>
                        </Nutzdaten>
                    </Nutzdatenblock>
                </DatenTeil>
            </Elster>"#;

    let mut target_tags = Tags::new();
    target_tags.insert("Testmerker", Some("700000004"));
    target_tags.insert("NutzdatenTicket", Some("0001"));
    target_tags.insert("Empfaenger", Some("9999"));
    target_tags.insert("ebilanz:stichtag", Some("20201231"));

    check_update_target_tags(ACTUAL_XML, EXPECTED_XML, target_tags);
}

#[test]
fn generate_test_update_xrbl() {
    let actual_xbrl = r#"
            <?xml version="1.0" encoding="UTF-8"?>
            <xbrli:xbrl xmlns:de-gaap-ci="http://www.xbrl.de/taxonomies/de-gaap-ci-2020-04-01"
                xmlns:de-gcd="http://www.xbrl.de/taxonomies/de-gcd-2020-04-01"
                xmlns:hgbref="http://www.xbrl.de/2008/ref" xmlns:iso4217="http://www.xbrl.org/2003/iso4217"
                xmlns:link="http://www.xbrl.org/2003/linkbase" xmlns:ref="http://www.xbrl.org/2024/ref"
                xmlns:xbrldi="http://xbrl.org/2006/xbrldi" xmlns:xbrli="http://www.xbrl.org/2003/instance"
                xmlns:xhtml="http://www.w3.org/1999/xhtml" xmlns:xlink="http://www.w3.org/1999/xlink"
                xmlns:xsi="http://www.w3.org/2001/XMLSchema-instance">
                <link:schemaRef
                    xlink:href="http://www.xbrl.de/taxonomies/de-gcd-2020-04-01/de-gcd-2020-04-01-shell.xsd"
                    xlink:type="simple"/>
                <link:schemaRef
                    xlink:href="http://www.xbrl.de/taxonomies/de-gaap-ci-2020-04-01/de-gaap-ci-2020-04-01-shell-fiscal-microbilg.xsd"
                    xlink:type="simple"/>
                <xbrli:context id="I-2020">
                    <xbrli:entity>
                        <xbrli:identifier
                            scheme="http://www.rzf-nrw.de/Steuernummer">0000000000000</xbrli:identifier>
                    </xbrli:entity>
                    <xbrli:period>
                        <xbrli:instant>0000-00-00</xbrli:instant>
                    </xbrli:period>
                </xbrli:context>
            </xbrli:xbrl>"#;

    let expected_xbrl = r#"
            <?xml version="1.0" encoding="UTF-8"?>
            <xbrli:xbrl xmlns:de-gaap-ci="http://www.xbrl.de/taxonomies/de-gaap-ci-2020-04-01" xmlns:de-gcd="http://www.xbrl.de/taxonomies/de-gcd-2020-04-01" xmlns:hgbref="http://www.xbrl.de/2008/ref" xmlns:iso4217="http://www.xbrl.org/2003/iso4217" xmlns:link="http://www.xbrl.org/2003/linkbase" xmlns:ref="http://www.xbrl.org/2024/ref" xmlns:xbrldi="http://xbrl.org/2006/xbrldi" xmlns:xbrli="http://www.xbrl.org/2003/instance" xmlns:xhtml="http://www.w3.org/1999/xhtml" xmlns:xlink="http://www.w3.org/1999/xlink" xmlns:xsi="http://www.w3.org/2001/XMLSchema-instance">
                <link:schemaRef xlink:href="http://www.xbrl.de/taxonomies/de-gcd-2020-04-01/de-gcd-2020-04-01-shell.xsd" xlink:type="simple"/>
                <link:schemaRef xlink:href="http://www.xbrl.de/taxonomies/de-gaap-ci-2020-04-01/de-gaap-ci-2020-04-01-shell-fiscal-microbilg.xsd" xlink:type="simple"/>
                <xbrli:context id="I-2020">
                    <xbrli:entity>
                        <xbrli:identifier scheme="http://www.rzf-nrw.de/Steuernummer">9999999999999</xbrli:identifier>
                    </xbrli:entity>
                    <xbrli:period>
                        <xbrli:instant>2020-12-31</xbrli:instant>
                    </xbrli:period>
                </xbrli:context>
            </xbrli:xbrl>"#;

    let mut target_tags = Tags::new();
    target_tags.insert("xbrli:identifier", Some("9999999999999"));
    target_tags.insert("xbrli:instant", Some("2020-12-31"));

    check_update_target_tags(actual_xbrl, expected_xbrl, target_tags);
}
