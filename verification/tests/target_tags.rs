//! Reading the target-tag table from tabular data.

use csv::{ReaderBuilder, Trim};
use taxel::csvio::{read_tags, read_target_tags, tags_from_records, CsvError};

const DATA: &str = r#"ebilanz_key,ebilanz_value
        Empfaenger,1111
        ebilanz:stichtag,20201231
        de-gcd:genInfo.report.period.fiscalYearBegin,2020-01-01
        de-gcd:genInfo.report.period.fiscalYearEnd,2020-12-31
        de-gcd:genInfo.report.period.balSheetClosingDate,2020-12-31
        de-gcd:genInfo.company.id.location.country,Deutschland
        de-gcd:genInfo.company.id.location.country.isoCode,DE"#;

fn check_expected(target_tags: &taxel::tags::Tags) {
    assert_eq!(
        target_tags.get("Empfaenger"),
        Some(&Some(String::from("1111")))
    );
    assert_eq!(
        target_tags.get("ebilanz:stichtag"),
        Some(&Some(String::from("20201231")))
    );
    assert_eq!(
        target_tags.get("de-gcd:genInfo.report.period.fiscalYearBegin"),
        Some(&Some(String::from("2020-01-01")))
    );
    assert_eq!(
        target_tags.get("de-gcd:genInfo.report.period.fiscalYearEnd"),
        Some(&Some(String::from("2020-12-31")))
    );
    assert_eq!(
        target_tags.get("de-gcd:genInfo.report.period.balSheetClosingDate"),
        Some(&Some(String::from("2020-12-31")))
    );
    assert_eq!(
        target_tags.get("de-gcd:genInfo.company.id.location.country"),
        Some(&Some(String::from("Deutschland")))
    );
    assert_eq!(
        target_tags.get("de-gcd:genInfo.company.id.location.country.isoCode"),
        Some(&Some(String::from("DE")))
    );
    assert_eq!(target_tags.get("HerstellerID"), None);
}

#[test]
fn test_read_target_tags() {
    let mut reader = ReaderBuilder::new()
        .delimiter(b',')
        .has_headers(true)
        .trim(Trim::All)
        .from_reader(DATA.as_bytes());

    let res = read_target_tags(Some(&mut reader));
    assert!(res.is_ok(), "Can't read target tags: {:?}", res.unwrap_err());

    let target_tags = res.unwrap();
    check_expected(&target_tags);
}

#[test]
fn csv_test_read_target_tags() {
    let mut reader = ReaderBuilder::new()
        .delimiter(b',')
        .has_headers(true)
        .trim(Trim::All)
        .from_reader(DATA.as_bytes());

    let res = read_tags(Some(&mut reader));
    assert!(res.is_ok(), "Can't read target tags: {:?}", res.unwrap_err());

    let target_tags = res.unwrap();
    check_expected(&target_tags);
}

#[test]
fn read_tags_without_reader_is_empty() {
    let target_tags = read_tags(None).unwrap();
    assert_eq!(target_tags.get("Empfaenger"), None);
}

#[test]
fn read_tags_rejects_missing_key_column() {
    let data = "wrong_key,ebilanz_value\nEmpfaenger,1111";
    let mut reader = ReaderBuilder::new()
        .delimiter(b',')
        .has_headers(true)
        .trim(Trim::All)
        .from_reader(data.as_bytes());
    assert_eq!(read_tags(Some(&mut reader)), Err(CsvError::MissingKeyColumn));
}

#[test]
fn read_tags_rejects_missing_value_column() {
    let data = "ebilanz_key,wrong_value\nEmpfaenger,1111";
    let mut reader = ReaderBuilder::new()
        .delimiter(b',')
        .has_headers(true)
        .trim(Trim::All)
        .from_reader(data.as_bytes());
    assert_eq!(
        read_tags(Some(&mut reader)),
        Err(CsvError::MissingValueColumn)
    );
}

#[test]
fn read_tags_reports_broken_table() {
    let data = "ebilanz_key,ebilanz_value\nEmpfaenger,1111,extra";
    let mut reader = ReaderBuilder::new()
        .delimiter(b',')
        .has_headers(true)
        .trim(Trim::All)
        .from_reader(data.as_bytes());
    assert!(matches!(
        read_tags(Some(&mut reader)),
        Err(CsvError::Table(_))
    ));
}

#[test]
fn read_tags_turns_empty_values_into_none() {
    let data = "ebilanz_key,ebilanz_value\nEmpfaenger,";
    let mut reader = ReaderBuilder::new()
        .delimiter(b',')
        .has_headers(true)
        .trim(Trim::All)
        .from_reader(data.as_bytes());
    let target_tags = read_tags(Some(&mut reader)).unwrap();
    assert_eq!(target_tags.get("Empfaenger"), Some(&None));
}

#[test]
fn read_tags_last_duplicate_key_wins() {
    let data = "ebilanz_key,ebilanz_value\nEmpfaenger,1111\nEmpfaenger,2222";
    let mut reader = ReaderBuilder::new()
        .delimiter(b',')
        .has_headers(true)
        .trim(Trim::All)
        .from_reader(data.as_bytes());
    let target_tags = read_tags(Some(&mut reader)).unwrap();
    assert_eq!(target_tags.get("Empfaenger"), Some(&Some(String::from("2222"))));
}

#[test]
fn tags_from_records_finds_columns_by_header() {
    let headers = vec![
        String::from("note"),
        String::from("ebilanz_value"),
        String::from("ebilanz_key"),
    ];
    let records = vec![
        vec![
            String::from("x"),
            String::from("1111"),
            String::from("Empfaenger"),
        ],
        vec![String::from("y"), String::new(), String::from("Leer")],
        vec![String::from("too-short")],
    ];
    let table = tags_from_records(&headers, &records).unwrap();
    assert_eq!(table.get("Empfaenger"), Some(&Some(String::from("1111"))));
    assert_eq!(table.get("Leer"), Some(&None));
    assert_eq!(table.get("too-short"), None);
}
