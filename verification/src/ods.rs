//! Reading target tags out of a spreadsheet: locate the key and value
//! header cells, then walk the rows below them.  The spreadsheet is reached
//! through thin trusted wrappers; its cells are named by `cell_of`, so the
//! contracts pin the result to the sheet's contents.

use vstd::prelude::*;
use vstd::hash_map::StringHashMap;
use spreadsheet_ods::{Sheet, Value, WorkBook};
use crate::text::str_eq;

verus! {

#[verifier::external_type_specification]
#[verifier::external_body]
pub struct ExSheet(Sheet);

#[verifier::external_type_specification]
#[verifier::external_body]
pub struct ExValue(Value);

#[verifier::external_type_specification]
#[verifier::external_body]
pub struct ExWorkBook(WorkBook);

/// How many rows and columns of each sheet are scanned for headers and
/// data.
pub const NUM_ROWS: u32 = 500;

/// A failure while locating the header cells of a sheet.
#[derive(Debug, PartialEq, Eq)]
pub enum OdsError {
    /// The `ebilanz_key` header cell is missing.
    MissingKeyColumn,
    /// The `ebilanz_value` header cell is missing.
    MissingValueColumn,
    /// Both header cells are missing.
    MissingBothColumns,
    /// The two header cells stand in different rows.
    RowMismatch,
}

/// The number of sheets in the workbook.
pub uninterp spec fn sheet_count(w: WorkBook) -> nat;

/// The sheet at a position in the workbook.
pub uninterp spec fn sheet_at(w: WorkBook, n: int) -> Sheet;

/// The value a sheet holds at a cell; an absent cell holds the empty value.
pub uninterp spec fn cell_of(s: Sheet, row: u32, col: u32) -> Value;

/// The text a value holds, if it is a text value.
pub uninterp spec fn text_of(v: Value) -> Option<Seq<char>>;

/// Whether a value is the empty value.
pub uninterp spec fn is_empty_value(v: Value) -> bool;

/// The text a sheet holds at a cell, if any.
pub open spec fn cell_text(s: Sheet, row: u32, col: u32) -> Option<Seq<char>> {
    text_of(cell_of(s, row, col))
}

/// Relies on spreadsheet_ods' `WorkBook::num_sheets`.
#[verifier::external_body]
fn workbook_num_sheets(w: &WorkBook) -> (r: usize)
    ensures
        r == sheet_count(*w),
{
    w.num_sheets()
}

/// Relies on spreadsheet_ods' `WorkBook::sheet`, which panics on an index
/// at or past the sheet count.
#[verifier::external_body]
fn workbook_sheet(w: &WorkBook, n: usize) -> (r: &Sheet)
    requires
        n < sheet_count(*w),
    ensures
        *r == sheet_at(*w, n as int),
{
    w.sheet(n)
}

/// Relies on spreadsheet_ods' `Sheet::value`, total over all coordinates
/// with the empty value for absent cells, and on `Value::clone` yielding an
/// equal value.
#[verifier::external_body]
fn sheet_cell_value(sheet: &Sheet, row: u32, col: u32) -> (r: Value)
    ensures
        r == cell_of(*sheet, row, col),
{
    sheet.value(row, col).clone()
}

/// Relies on spreadsheet_ods' `Value::as_str_opt`: the value's text when it
/// holds text, `None` otherwise.
#[verifier::external_body]
fn value_as_str_opt(v: &Value) -> (r: Option<String>)
    ensures
        r.deep_view() == text_of(*v),
{
    v.as_str_opt().map(|s| s.to_string())
}

/// Relies on the `Value::Empty` variant: whether the value is empty.
#[verifier::external_body]
fn value_is_empty(v: &Value) -> (r: bool)
    ensures
        r == is_empty_value(*v),
{
    matches!(v, Value::Empty)
}

/// A cell position: row and column.
#[derive(Debug, PartialEq, Eq, Clone, Copy)]
pub struct Cell {
    pub row: u32,
    pub col: u32,
}

impl Cell {
    /// Build a cell position.
    pub fn new(row: u32, col: u32) -> (r: Self)
        ensures
            r.row == row,
            r.col == col,
    {
        Self { row, col }
    }
}

/// The positions of the key and value header cells of one sheet.
#[derive(Debug, PartialEq, Eq, Clone, Copy)]
pub struct SourceCell {
    pub key: Cell,
    pub value: Cell,
}

impl SourceCell {
    /// Build a header-cell pair.
    pub fn new(key: Cell, value: Cell) -> (r: Self)
        ensures
            r.key == key,
            r.value == value,
    {
        Self { key, value }
    }
}

/// The last cell among columns `0..j` of one row whose text is `t`.
pub open spec fn row_scan(s: Sheet, t: Seq<char>, row: u32, j: int) -> Option<Cell>
    decreases j
        when j >= 0
{
    if j <= 0 {
        None
    } else if cell_text(s, row, (j - 1) as u32) == Some(t) {
        Some(Cell { row, col: (j - 1) as u32 })
    } else {
        row_scan(s, t, row, j - 1)
    }
}

/// The last cell in row-major scan order among rows `0..i` (each scanned
/// over the first `NUM_ROWS` columns) whose text is `t`.
pub open spec fn grid_scan(s: Sheet, t: Seq<char>, i: int) -> Option<Cell>
    decreases i
        when i >= 0
{
    if i <= 0 {
        None
    } else {
        match row_scan(s, t, (i - 1) as u32, NUM_ROWS as int) {
            Some(c) => Some(c),
            None => grid_scan(s, t, i - 1),
        }
    }
}

/// What the header search yields for given key and value cells: both must
/// be found and share a row.
pub open spec fn source_cells_of(kc: Option<Cell>, vc: Option<Cell>) -> Result<
    SourceCell,
    OdsError,
> {
    match (kc, vc) {
        (Some(k), Some(v)) => if k.row != v.row {
            Err(OdsError::RowMismatch)
        } else {
            Ok(SourceCell { key: k, value: v })
        },
        (Some(k), None) => Err(OdsError::MissingValueColumn),
        (None, Some(v)) => Err(OdsError::MissingKeyColumn),
        (None, None) => Err(OdsError::MissingBothColumns),
    }
}

/// What the header search yields on a sheet: the last `ebilanz_key` and
/// `ebilanz_value` cells of the scanned grid, which must share a row.
pub open spec fn header_scan(s: Sheet) -> Result<SourceCell, OdsError> {
    source_cells_of(
        grid_scan(s, "ebilanz_key"@, NUM_ROWS as int),
        grid_scan(s, "ebilanz_value"@, NUM_ROWS as int),
    )
}

/// Whether the cell holds exactly this text.
fn cell_has_text(sheet: &Sheet, row: u32, col: u32, text: &str) -> (r: bool)
    ensures
        r == (cell_text(*sheet, row, col) == Some(text@)),
{
    let v = sheet_cell_value(sheet, row, col);
    match value_as_str_opt(&v) {
        Some(s) => str_eq(s.as_str(), text),
        None => false,
    }
}

/// Scan the sheet for the `ebilanz_key` and `ebilanz_value` header cells:
/// the result is exactly what `header_scan` states — the last occurrence of
/// each header wins, each missing header is refused, and the two must share
/// a row.
pub fn find_source_cell(sheet: &Sheet) -> (r: Result<SourceCell, OdsError>)
    ensures
        r == header_scan(*sheet),
{
    let ghost s = *sheet;
    let mut key_cell: Option<Cell> = None;
    let mut value_cell: Option<Cell> = None;
    let mut i: u32 = 0;
    while i < NUM_ROWS
        invariant
            i <= NUM_ROWS,
            s == *sheet,
            key_cell == grid_scan(s, "ebilanz_key"@, i as int),
            value_cell == grid_scan(s, "ebilanz_value"@, i as int),
        decreases NUM_ROWS - i,
    {
        let mut j: u32 = 0;
        while j < NUM_ROWS
            invariant
                j <= NUM_ROWS,
                i < NUM_ROWS,
                s == *sheet,
                key_cell == (match row_scan(s, "ebilanz_key"@, i, j as int) {
                    Some(c) => Some(c),
                    None => grid_scan(s, "ebilanz_key"@, i as int),
                }),
                value_cell == (match row_scan(s, "ebilanz_value"@, i, j as int) {
                    Some(c) => Some(c),
                    None => grid_scan(s, "ebilanz_value"@, i as int),
                }),
            decreases NUM_ROWS - j,
        {
            if cell_has_text(sheet, i, j, "ebilanz_key") {
                key_cell = Some(Cell::new(i, j));
            }
            if cell_has_text(sheet, i, j, "ebilanz_value") {
                value_cell = Some(Cell::new(i, j));
            }
            j += 1;
            proof {
                assert((j as int - 1) as u32 == j - 1);
            }
        }
        i += 1;
        proof {
            assert((i as int - 1) as u32 == i - 1);
        }
    }
    match (key_cell, value_cell) {
        (Some(key), Some(value)) => {
            if key.row != value.row {
                Err(OdsError::RowMismatch)
            } else {
                Ok(SourceCell::new(key, value))
            }
        },
        (Some(_), None) => Err(OdsError::MissingValueColumn),
        (None, Some(_)) => Err(OdsError::MissingKeyColumn),
        (None, None) => Err(OdsError::MissingBothColumns),
    }
}

/// The table after walking rows `1..row` of a sheet under the given key and
/// value columns: a row whose key and value cells are both empty adds
/// nothing, as does one whose key cell holds no text; every other row maps
/// its key cell's text to its value cell's value, a later duplicate key
/// overwriting an earlier one.
pub open spec fn sheet_rows_table(
    s: Sheet,
    kc: u32,
    vc: u32,
    row: int,
    m0: Map<Seq<char>, Value>,
) -> Map<Seq<char>, Value>
    decreases row
        when row >= 1
{
    if row <= 1 {
        m0
    } else {
        let m = sheet_rows_table(s, kc, vc, row - 1, m0);
        let rr = (row - 1) as u32;
        let key = cell_of(s, rr, kc);
        let val = cell_of(s, rr, vc);
        if is_empty_value(key) && is_empty_value(val) {
            m
        } else {
            match text_of(key) {
                Some(k) => m.insert(k, val),
                None => m,
            }
        }
    }
}

/// The table after the first `n` sheets of the workbook, or the first
/// sheet's header failure.
pub open spec fn workbook_table(w: WorkBook, n: int) -> Result<Map<Seq<char>, Value>, OdsError>
    decreases n
        when n >= 0
{
    if n <= 0 {
        Ok(Map::empty())
    } else {
        match workbook_table(w, n - 1) {
            Err(e) => Err(e),
            Ok(m) => {
                let s = sheet_at(w, n - 1);
                match header_scan(s) {
                    Err(e) => Err(e),
                    Ok(sc) => Ok(sheet_rows_table(s, sc.key.col, sc.value.col, NUM_ROWS as int, m)),
                }
            },
        }
    }
}

/// A header failure on some sheet is the outcome of the whole workbook.
proof fn lemma_workbook_table_err(w: WorkBook, i: int, n: int)
    requires
        0 <= i <= n,
        workbook_table(w, i) matches Err(_),
    ensures
        workbook_table(w, n) == workbook_table(w, i),
    decreases n - i,
{
    if i < n {
        lemma_workbook_table_err(w, i + 1, n);
    }
}

/// Read target tags from an already-opened spreadsheet: on each sheet in
/// order, locate the header cells — aborting with the first sheet's header
/// failure — then collect every row below them as `workbook_table` states,
/// a later duplicate key overwriting an earlier one.
pub fn read_target_tags_ods(workbook: &WorkBook) -> (r: Result<StringHashMap<Value>, OdsError>)
    ensures
        (match (r, workbook_table(*workbook, sheet_count(*workbook) as int)) {
            (Ok(m), Ok(t)) => m@ == t,
            (Err(e), Err(e2)) => e == e2,
            _ => false,
        }),
{
    let ghost w = *workbook;
    let mut target_tags: StringHashMap<Value> = StringHashMap::new();
    let num_sheets = workbook_num_sheets(workbook);
    let mut s: usize = 0;
    proof {
        assert(target_tags@ =~= Map::<Seq<char>, Value>::empty());
    }
    while s < num_sheets
        invariant
            w == *workbook,
            num_sheets == sheet_count(w),
            s <= num_sheets,
            (match workbook_table(w, s as int) {
                Ok(t) => target_tags@ == t,
                Err(_) => false,
            }),
        decreases num_sheets - s,
    {
        let sheet = workbook_sheet(workbook, s);
        let source_cell = match find_source_cell(sheet) {
            Ok(sc) => sc,
            Err(e) => {
                proof {
                    assert(workbook_table(w, s as int + 1) == Err::<Map<Seq<char>, Value>,
                        OdsError,
                    >(e));
                    lemma_workbook_table_err(w, s as int + 1, sheet_count(w) as int);
                }
                return Err(e);
            },
        };
        let key_column = source_cell.key.col;
        let value_column = source_cell.value.col;
        let ghost m0 = target_tags@;
        let mut row: u32 = 1;
        proof {
            assert(target_tags@ =~= sheet_rows_table(*sheet, key_column, value_column, 1, m0));
        }
        while row < NUM_ROWS
            invariant
                1 <= row <= NUM_ROWS,
                w == *workbook,
                num_sheets == sheet_count(w),
                s < num_sheets,
                *sheet == sheet_at(w, s as int),
                target_tags@ == sheet_rows_table(
                    sheet_at(w, s as int),
                    key_column,
                    value_column,
                    row as int,
                    m0,
                ),
            decreases NUM_ROWS - row,
        {
            let key = sheet_cell_value(sheet, row, key_column);
            let value = sheet_cell_value(sheet, row, value_column);
            if !(value_is_empty(&key) && value_is_empty(&value)) {
                match value_as_str_opt(&key) {
                    Some(k) => {
                        target_tags.insert(k, value);
                    },
                    None => {},
                }
            }
            row += 1;
            proof {
                assert((row as int - 1) as u32 == row - 1);
            }
        }
        proof {
            assert(workbook_table(w, s as int + 1) == Ok::<Map<Seq<char>, Value>, OdsError>(
                sheet_rows_table(
                    sheet_at(w, s as int),
                    key_column,
                    value_column,
                    NUM_ROWS as int,
                    m0,
                ),
            ));
        }
        s += 1;
    }
    Ok(target_tags)
}

} // verus!
