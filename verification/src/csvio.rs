//! Reading target tags from and writing extracted tags to tabular data,
//! through thin trusted wrappers around the csv crate.  The columns are
//! found by the `ebilanz_key` / `ebilanz_value` headers; a value left empty
//! in the table becomes an absent value.

use vstd::prelude::*;
use csv::Reader;
use csv::StringRecord;
use csv::Writer;
use crate::tags::{Tag, TagS, Tags};
use crate::text::str_eq;

verus! {

#[verifier::external_type_specification]
#[verifier::external_body]
#[verifier::reject_recursive_types(R)]
pub struct ExCsvReader<R>(Reader<R>);

#[verifier::external_type_specification]
#[verifier::external_body]
pub struct ExStringRecord(StringRecord);

/// A failure while reading or writing tabular data.
#[derive(Debug, PartialEq, Eq)]
pub enum CsvError {
    /// The underlying table could not be read or written; carries its
    /// message.
    Table(String),
    /// The `ebilanz_key` header column is missing.
    MissingKeyColumn,
    /// The `ebilanz_value` header column is missing.
    MissingValueColumn,
}

/// How many records the reader has not yielded yet.
pub uninterp spec fn records_remaining(r: Reader<&[u8]>) -> nat;

/// The header row of the table behind the reader.
pub uninterp spec fn csv_header_of(r: Reader<&[u8]>) -> Seq<Seq<char>>;

/// Whether the header row of the table behind the reader can be read.
pub uninterp spec fn csv_header_ok(r: Reader<&[u8]>) -> bool;

/// The data records still in front of the reader, in order, up to its
/// first failure.
pub uninterp spec fn csv_rows_of(r: Reader<&[u8]>) -> Seq<Seq<Seq<char>>>;

/// Whether the records in front of the reader run to the end of the table
/// without a failure.
pub uninterp spec fn csv_ok(r: Reader<&[u8]>) -> bool;

/// Relies on csv's `Reader::headers`: the header row's fields, in order,
/// succeeding exactly when the header row can be read; the data records
/// are untouched.  A failure is reported as a table failure.
#[verifier::external_body]
fn csv_headers(reader: &mut Reader<&[u8]>) -> (r: Result<Vec<String>, CsvError>)
    ensures
        r is Ok <==> csv_header_ok(*old(reader)),
        r matches Ok(h) ==> h.deep_view() == csv_header_of(*old(reader)) && csv_rows_of(
            *final(reader),
        ) == csv_rows_of(*old(reader)) && csv_ok(*final(reader)) == csv_ok(*old(reader)),
        r matches Err(e) ==> e matches CsvError::Table(_),
{
    match reader.headers() {
        Ok(h) => Ok(h.iter().map(|f| f.to_string()).collect()),
        Err(e) => Err(CsvError::Table(e.to_string())),
    }
}

/// Relies on csv's `Reader::read_record`: yields exactly the first of the
/// remaining data records, `None` at the end of the table, or the reader's
/// failure, reported as a table failure; every record consumes input.
#[verifier::external_body]
fn csv_next_record(reader: &mut Reader<&[u8]>) -> (r: Result<Option<Vec<String>>, CsvError>)
    ensures
        (r matches Ok(rec) && rec is Some) ==> records_remaining(*final(reader))
            < records_remaining(*old(reader)),
        r matches Err(e) ==> e matches CsvError::Table(_),
        (match r {
            Ok(Some(rec)) => csv_rows_of(*old(reader)).len() > 0 && rec.deep_view()
                == csv_rows_of(*old(reader))[0] && csv_rows_of(*final(reader)) == csv_rows_of(
                *old(reader),
            ).drop_first() && csv_ok(*final(reader)) == csv_ok(*old(reader)),
            Ok(None) => csv_rows_of(*old(reader)).len() == 0 && csv_ok(*old(reader)),
            Err(_) => csv_rows_of(*old(reader)).len() == 0 && !csv_ok(*old(reader)),
        }),
{
    let mut record = StringRecord::new();
    match reader.read_record(&mut record) {
        Ok(true) => Ok(Some(record.iter().map(|f| f.to_string()).collect())),
        Ok(false) => Ok(None),
        Err(e) => Err(CsvError::Table(e.to_string())),
    }
}

/// A sink for tabular records.  It holds the csv crate's writer over an
/// in-memory buffer; the writer's own type cannot be named in verified
/// code, so the field stays behind this struct.
#[verifier::external_body]
pub struct TagWriter {
    inner: Writer<Vec<u8>>,
}

/// The records written to the sink so far, each as its key and value field.
pub uninterp spec fn rows_written(w: TagWriter) -> Seq<(Seq<char>, Seq<char>)>;

impl TagWriter {
    /// Relies on csv's `Writer::from_writer`: a fresh writer over an empty
    /// buffer with nothing written.
    #[verifier::external_body]
    pub fn new() -> (r: Self)
        ensures
            rows_written(r) == Seq::<(Seq<char>, Seq<char>)>::empty(),
    {
        Self { inner: Writer::from_writer(Vec::new()) }
    }

    /// Relies on csv's `Writer::write_record`: appends one record with
    /// exactly the two given fields.  Every record this sink receives has
    /// two fields and the in-memory buffer cannot fail, so the write
    /// succeeds.
    #[verifier::external_body]
    fn write_record(&mut self, key: &str, value: &str) -> (r: Result<(), CsvError>)
        ensures
            r is Ok,
            rows_written(*final(self)) == rows_written(*old(self)).push((key@, value@)),
    {
        self.inner.write_record([key, value]).map_err(|e| CsvError::Table(e.to_string()))
    }

    /// Relies on csv's `Writer::flush`: what was written stays written; the
    /// in-memory buffer cannot fail, so the flush succeeds.
    #[verifier::external_body]
    fn flush(&mut self) -> (r: Result<(), CsvError>)
        ensures
            r is Ok,
            rows_written(*final(self)) == rows_written(*old(self)),
    {
        self.inner.flush().map_err(|e| CsvError::Table(e.to_string()))
    }

    /// Relies on csv's `Writer::into_inner`: the written bytes, taken as
    /// text.
    #[verifier::external_body]
    pub fn into_string(self) -> (r: Result<String, CsvError>)
    {
        match self.inner.into_inner() {
            Ok(bytes) => String::from_utf8(bytes).map_err(|e| CsvError::Table(e.to_string())),
            Err(e) => Err(CsvError::Table(e.to_string())),
        }
    }
}

/// A field with this text occurs in the row.
pub open spec fn has_field(fields: Seq<Seq<char>>, name: Seq<char>) -> bool {
    exists|i: int| 0 <= i < fields.len() && fields[i] == name
}

/// Position of the first field carrying this text.
pub open spec fn first_field_index(fields: Seq<Seq<char>>, name: Seq<char>) -> int
    decreases fields.len(),
{
    if fields.len() == 0 {
        0
    } else if fields[0] == name {
        0
    } else {
        1 + first_field_index(fields.drop_first(), name)
    }
}

/// `first_field_index` names the first occurrence of the text.
proof fn lemma_first_field_index(fields: Seq<Seq<char>>, name: Seq<char>)
    requires
        has_field(fields, name),
    ensures
        0 <= first_field_index(fields, name) < fields.len(),
        fields[first_field_index(fields, name)] == name,
        forall|j: int| 0 <= j < first_field_index(fields, name) ==> fields[j] != name,
    decreases fields.len(),
{
    if fields.len() > 0 && fields[0] != name {
        let rest = fields.drop_first();
        assert(has_field(rest, name)) by {
            let w = choose|i: int| 0 <= i < fields.len() && fields[i] == name;
            assert(rest[w - 1] == fields[w]);
        }
        lemma_first_field_index(rest, name);
        let i = first_field_index(fields, name);
        assert(fields[i] == rest[i - 1]);
        assert forall|j: int| 0 <= j < i implies fields[j] != name by {
            if j > 0 {
                assert(fields[j] == rest[j - 1]);
            }
        }
    }
}

/// Position of the first field equal to `name`, if any.
fn field_index(fields: &Vec<String>, name: &str) -> (r: Option<usize>)
    ensures
        (match r {
            Some(i) => has_field(fields.deep_view(), name@) && i as int == first_field_index(
                fields.deep_view(),
                name@,
            ),
            None => !has_field(fields.deep_view(), name@),
        }),
{
    let ghost d = fields.deep_view();
    let n = fields.len();
    let mut i: usize = 0;
    while i < n
        invariant
            n == fields@.len(),
            d == fields.deep_view(),
            d.len() == n,
            i <= n,
            forall|j: int| 0 <= j < i ==> d[j] != name@,
        decreases n - i,
    {
        proof {
            assert(fields@[i as int]@ == d[i as int]);
        }
        if str_eq(fields[i].as_str(), name) {
            proof {
                assert(has_field(d, name@)) by {
                    assert(d[i as int] == name@);
                }
                lemma_first_field_index(d, name@);
                let f = first_field_index(d, name@);
                if f < i as int {
                    assert(d[f] != name@);
                }
                if f > i as int {
                    assert(d[i as int] != name@);
                }
            }
            return Some(i);
        }
        i += 1;
    }
    proof {
        if has_field(d, name@) {
            let w = choose|w: int| 0 <= w < d.len() && d[w] == name@;
            assert(d[w] != name@);
        }
    }
    None
}

/// The value a record contributes: its value field, an empty field
/// standing for no value.
pub open spec fn record_value(row: Seq<Seq<char>>, vc: int) -> Option<Seq<char>> {
    if 0 <= vc < row.len() && row[vc].len() > 0 {
        Some(row[vc])
    } else {
        None
    }
}

/// The table a run of records builds, keyed by the two column positions: a
/// record too short to hold the key column adds nothing; a later record
/// with the same key overwrites an earlier one.
pub open spec fn tags_of_records_model(
    rows: Seq<Seq<Seq<char>>>,
    kc: int,
    vc: int,
) -> Map<Seq<char>, Option<Seq<char>>>
    decreases rows.len(),
{
    if rows.len() == 0 {
        Map::empty()
    } else {
        let m = tags_of_records_model(rows.drop_last(), kc, vc);
        let row = rows.last();
        if 0 <= kc < row.len() {
            m.insert(row[kc], record_value(row, vc))
        } else {
            m
        }
    }
}

/// Build the target-tag table from already-read records: the key and value
/// columns are found by their headers — each missing header is refused —
/// and the table is exactly the fold of the records, later duplicate keys
/// overwriting earlier ones, an empty value field standing for no value.
pub fn tags_from_records(headers: &Vec<String>, records: &Vec<Vec<String>>) -> (r: Result<
    Tags,
    CsvError,
>)
    ensures
        !has_field(headers.deep_view(), "ebilanz_key"@) <==> r == Err::<Tags, CsvError>(
            CsvError::MissingKeyColumn,
        ),
        has_field(headers.deep_view(), "ebilanz_key"@) && !has_field(
            headers.deep_view(),
            "ebilanz_value"@,
        ) <==> r == Err::<Tags, CsvError>(CsvError::MissingValueColumn),
        has_field(headers.deep_view(), "ebilanz_key"@) && has_field(
            headers.deep_view(),
            "ebilanz_value"@,
        ) ==> (match r {
            Ok(t) => t@ == tags_of_records_model(
                records.deep_view(),
                first_field_index(headers.deep_view(), "ebilanz_key"@),
                first_field_index(headers.deep_view(), "ebilanz_value"@),
            ),
            Err(_) => false,
        }),
{
    let ghost rows = records.deep_view();
    let key_col = match field_index(headers, "ebilanz_key") {
        Some(i) => i,
        None => {
            return Err(CsvError::MissingKeyColumn);
        },
    };
    let value_col = match field_index(headers, "ebilanz_value") {
        Some(i) => i,
        None => {
            return Err(CsvError::MissingValueColumn);
        },
    };
    let ghost kc = key_col as int;
    let ghost vc = value_col as int;
    let mut target_tags = Tags::new();
    let n = records.len();
    let mut i: usize = 0;
    proof {
        assert(rows.take(0) =~= Seq::<Seq<Seq<char>>>::empty());
        assert(target_tags@ =~= tags_of_records_model(rows.take(0), kc, vc));
    }
    while i < n
        invariant
            n == records@.len(),
            rows == records.deep_view(),
            rows.len() == n,
            i <= n,
            kc == key_col as int,
            vc == value_col as int,
            target_tags@ == tags_of_records_model(rows.take(i as int), kc, vc),
        decreases n - i,
    {
        let ghost row = rows[i as int];
        proof {
            assert(rows.take(i as int + 1).drop_last() =~= rows.take(i as int));
            assert(rows.take(i as int + 1).last() == rows[i as int]);
            assert(records@[i as int].deep_view() == rows[i as int]);
        }
        let fields = &records[i];
        if key_col < fields.len() {
            proof {
                assert(fields@[kc]@ == row[kc]);
            }
            let key = &fields[key_col];
            let value: Option<&str> = if value_col < fields.len()
                && !fields[value_col].as_str().is_empty() {
                proof {
                    assert(fields@[vc]@ == row[vc]);
                }
                Some(fields[value_col].as_str())
            } else {
                None
            };
            target_tags.insert(key.as_str(), value);
            proof {
                if vc < row.len() {
                    assert(fields@[vc]@ == row[vc]);
                }
                assert(target_tags@ =~= tags_of_records_model(rows.take(i as int + 1), kc, vc));
            }
        } else {
            proof {
                assert(target_tags@ =~= tags_of_records_model(rows.take(i as int + 1), kc, vc));
            }
        }
        i += 1;
    }
    proof {
        assert(rows.take(n as int) =~= rows);
    }
    Ok(target_tags)
}

/// What a table read yields, stated over the named header row and data
/// records of the reader: the header read and every record read succeed —
/// else a table failure; the key and value columns are found by their
/// headers — each missing one refused; and the result is exactly the
/// record fold.
pub open spec fn loaded_from_reader(r0: Reader<&[u8]>, r: Result<Tags, CsvError>) -> bool {
    let hs = csv_header_of(r0);
    &&& ((r matches Err(e) && e matches CsvError::Table(_)) <==> (!csv_header_ok(r0) || !csv_ok(
        r0,
    )))
    &&& (r == Err::<Tags, CsvError>(CsvError::MissingKeyColumn) <==> (csv_header_ok(r0) && csv_ok(
        r0,
    ) && !has_field(hs, "ebilanz_key"@)))
    &&& (r == Err::<Tags, CsvError>(CsvError::MissingValueColumn) <==> (csv_header_ok(r0)
        && csv_ok(r0) && has_field(hs, "ebilanz_key"@) && !has_field(hs, "ebilanz_value"@)))
    &&& (match r {
        Ok(t) => t@ == tags_of_records_model(
            csv_rows_of(r0),
            first_field_index(hs, "ebilanz_key"@),
            first_field_index(hs, "ebilanz_value"@),
        ),
        Err(_) => true,
    })
}

/// Read target tags from the table behind the reader: exactly as
/// `loaded_from_reader` states over the reader's named header row and
/// records.
pub fn read_tags_from(reader: &mut Reader<&[u8]>) -> (r: Result<Tags, CsvError>)
    ensures
        loaded_from_reader(*old(reader), r),
{
    let ghost r0 = *reader;
    let headers = match csv_headers(reader) {
        Ok(h) => h,
        Err(e) => {
            return Err(e);
        },
    };
    let mut records: Vec<Vec<String>> = Vec::new();
    loop
        invariant
            r0 == *old(reader),
            csv_header_ok(r0),
            headers.deep_view() == csv_header_of(r0),
            csv_rows_of(r0) == records.deep_view() + csv_rows_of(*reader),
            csv_ok(*reader) == csv_ok(r0),
        decreases records_remaining(*reader),
    {
        let ghost pre = *reader;
        match csv_next_record(reader) {
            Err(e) => {
                proof {
                    assert(!csv_ok(r0));
                }
                return Err(e);
            },
            Ok(None) => {
                proof {
                    assert(records.deep_view() =~= csv_rows_of(r0));
                }
                let out = tags_from_records(&headers, &records);
                proof {
                    match &out {
                        Ok(t) => {
                            assert(has_field(csv_header_of(r0), "ebilanz_key"@));
                            assert(has_field(csv_header_of(r0), "ebilanz_value"@));
                        },
                        Err(_) => {},
                    }
                }
                return out;
            },
            Ok(Some(fields)) => {
                records.push(fields);
                proof {
                    assert(records.deep_view() + csv_rows_of(*reader) =~= csv_rows_of(r0));
                }
            },
        }
    }
}

/// What `read_tags` promises of its result, over the headers and records
/// the reader yielded: with no reader the table is empty; otherwise the
/// table is the record fold under headers that carry both columns.
pub open spec fn loaded_tags_shape(
    had_reader: bool,
    r: Result<Tags, CsvError>,
) -> bool {
    match r {
        Ok(t) => if had_reader {
            exists|hs: Seq<Seq<char>>, rows: Seq<Seq<Seq<char>>>|
                has_field(hs, "ebilanz_key"@) && has_field(hs, "ebilanz_value"@) && t@
                    == tags_of_records_model(
                    rows,
                    first_field_index(hs, "ebilanz_key"@),
                    first_field_index(hs, "ebilanz_value"@),
                )
        } else {
            t@ == Map::<Seq<char>, Option<Seq<char>>>::empty()
        },
        Err(e) => had_reader && (e == CsvError::MissingKeyColumn || e
            == CsvError::MissingValueColumn || e matches CsvError::Table(_)),
    }
}

/// Read target tags from tabular data: each record's key column names a
/// tag, its value column the value to inject, an empty value standing for
/// no value, a later duplicate key overwriting an earlier one.  Without a
/// reader the table is empty.
pub fn read_tags(reader: Option<&mut Reader<&[u8]>>) -> (r: Result<Tags, CsvError>)
    ensures
        loaded_tags_shape(reader is Some, r),
{
    match reader {
        None => {
            let t = Tags::new();
            proof {
                assert(t@ =~= Map::<Seq<char>, Option<Seq<char>>>::empty());
            }
            Ok(t)
        },
        Some(rd) => {
            proof {
                assert(reader is Some);
            }
            let out = read_tags_from(rd);
            proof {
                match &out {
                    Ok(t) => {},
                    Err(_) => {},
                }
            }
            out
        },
    }
}

/// Read target tags from tabular data, exactly as `read_tags` does.
pub fn read_target_tags(reader: Option<&mut Reader<&[u8]>>) -> (r: Result<Tags, CsvError>)
    ensures
        loaded_tags_shape(reader is Some, r),
{
    read_tags(reader)
}

/// The record a tag becomes in the table: its name and its value, an
/// absent value standing as the empty field.
pub open spec fn row_of_tag(t: TagS) -> (Seq<char>, Seq<char>) {
    (
        t.name,
        match t.value {
            Some(v) => v,
            None => Seq::empty(),
        },
    )
}

/// The records a run of tags becomes, in order.
pub open spec fn rows_of_tags(tags: Seq<TagS>) -> Seq<(Seq<char>, Seq<char>)> {
    Seq::new(tags.len(), |i: int| row_of_tag(tags[i]))
}

/// Write extracted tags as tabular data: a header row naming the key and
/// value columns, then one record per tag in order, an absent value written
/// as an empty field.
pub fn write_tags(writer: &mut TagWriter, extracted_tags: Vec<Tag>) -> (r: Result<(), CsvError>)
    ensures
        r is Ok,
        rows_written(*final(writer)) == rows_written(*old(writer)).push(
            ("ebilanz_key"@, "ebilanz_value"@),
        ) + rows_of_tags(extracted_tags.deep_view()),
{
    let ghost base = rows_written(*writer).push(("ebilanz_key"@, "ebilanz_value"@));
    let ghost tags = extracted_tags.deep_view();
    match writer.write_record("ebilanz_key", "ebilanz_value") {
        Ok(()) => {},
        Err(e) => {
            return Err(e);
        },
    }
    let n = extracted_tags.len();
    let mut i: usize = 0;
    proof {
        assert(rows_written(*writer) =~= base + rows_of_tags(tags).take(0));
    }
    while i < n
        invariant
            n == extracted_tags@.len(),
            tags == extracted_tags.deep_view(),
            tags.len() == n,
            i <= n,
            rows_written(*writer) == base + rows_of_tags(tags).take(i as int),
        decreases n - i,
    {
        let tag = &extracted_tags[i];
        let value: &str = match &tag.value {
            Some(v) => v.as_str(),
            None => "",
        };
        match writer.write_record(tag.name.as_str(), value) {
            Ok(()) => {},
            Err(e) => {
                return Err(e);
            },
        }
        proof {
            reveal_strlit("");
            assert(""@ =~= Seq::<char>::empty());
            assert(extracted_tags@[i as int]@ == tags[i as int]);
            assert(rows_of_tags(tags).take(i as int + 1) =~= rows_of_tags(tags).take(
                i as int,
            ).push(row_of_tag(tags[i as int])));
            assert(rows_written(*writer) =~= base + rows_of_tags(tags).take(i as int + 1));
        }
        i += 1;
    }
    proof {
        assert(rows_of_tags(tags).take(n as int) =~= rows_of_tags(tags));
    }
    match writer.flush() {
        Ok(()) => Ok(()),
        Err(e) => Err(e),
    }
}

/// One row of the tag table, as it stands in the tabular file.
#[derive(Debug, PartialEq, Eq, Clone)]
pub struct CsvRow {
    pub key: String,
    pub value: Option<String>,
}

impl CsvRow {
    /// Build a row from its key and optional value.
    pub fn new(key: String, value: Option<String>) -> (r: Self)
        ensures
            r.key == key,
            r.value == value,
    {
        Self { key, value }
    }
}

} // verus!
