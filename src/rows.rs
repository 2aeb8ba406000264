//! Row encoding: the cells of a result set, read by the kind that each
//! column's declared type gives, become one CBOR payload, an array of rows
//! each an array of cells; a column of a type outside the engine's table
//! fails the whole result.

use vstd::prelude::*;

use crate::cbor::{
    be_bytes, bool_bytes, byte_string_bytes, f32_bytes, f64_bytes, head, int_bytes, null_bytes,
    put_array, put_bool, put_bytes, put_int, put_null, put_str, text_bytes,
};
use crate::columns::{column_kind, kind_of, ColumnKind};
use crate::error::Error;
use crate::model::{Column, Engine, QueryResult};
use crate::temporal::{
    date_text, datetime_text, format_date, format_datetime, format_time, format_uuid, format_zoned,
    time_text, uuid_text, zoned_text, DateValue, TimeValue, ZonedValue,
};

verus! {

/// One value of a result row. Floats are carried by their bits.
#[derive(Clone, Debug, PartialEq, Eq)]
pub enum Cell {
    Null,
    Bool(bool),
    I8(i8),
    I16(i16),
    I32(i32),
    I64(i64),
    U8(u8),
    U16(u16),
    U32(u32),
    U64(u64),
    F32(u32),
    F64(u64),
    Text(String),
    Bytes(Vec<u8>),
    Timestamp(DateValue, TimeValue),
    TimestampTz(ZonedValue),
    Date(DateValue),
    Time(TimeValue),
    Uuid(u128),
}

/// The mathematical content of a [`Cell`].
pub enum CellView {
    Null,
    Bool(bool),
    Int(int),
    F32(u32),
    F64(u64),
    Text(Seq<char>),
    Bytes(Seq<u8>),
    Timestamp(DateValue, TimeValue),
    TimestampTz(ZonedValue),
    Date(DateValue),
    Time(TimeValue),
    Uuid(u128),
}

impl View for Cell {
    type V = CellView;

    open spec fn view(&self) -> CellView {
        match self {
            Cell::Null => CellView::Null,
            Cell::Bool(x) => CellView::Bool(*x),
            Cell::I8(x) => CellView::Int(*x as int),
            Cell::I16(x) => CellView::Int(*x as int),
            Cell::I32(x) => CellView::Int(*x as int),
            Cell::I64(x) => CellView::Int(*x as int),
            Cell::U8(x) => CellView::Int(*x as int),
            Cell::U16(x) => CellView::Int(*x as int),
            Cell::U32(x) => CellView::Int(*x as int),
            Cell::U64(x) => CellView::Int(*x as int),
            Cell::F32(x) => CellView::F32(*x),
            Cell::F64(x) => CellView::F64(*x),
            Cell::Text(s) => CellView::Text(s@),
            Cell::Bytes(b) => CellView::Bytes(b@),
            Cell::Timestamp(d, t) => CellView::Timestamp(*d, *t),
            Cell::TimestampTz(z) => CellView::TimestampTz(*z),
            Cell::Date(d) => CellView::Date(*d),
            Cell::Time(t) => CellView::Time(*t),
            Cell::Uuid(v) => CellView::Uuid(*v),
        }
    }
}

/// Encoding of one cell; `None` where a date or time cannot be written.
pub open spec fn cell_bytes(c: CellView) -> Option<Seq<u8>> {
    match c {
        CellView::Null => Some(null_bytes()),
        CellView::Bool(x) => Some(bool_bytes(x)),
        CellView::Int(v) => Some(int_bytes(v)),
        CellView::F32(bits) => Some(f32_bytes(bits)),
        CellView::F64(bits) => Some(f64_bytes(bits)),
        CellView::Text(s) => Some(text_bytes(s)),
        CellView::Bytes(b) => Some(byte_string_bytes(b)),
        CellView::Timestamp(d, t) => if d.wf() && t.wf() {
            Some(text_bytes(datetime_text(d, t)))
        } else {
            None
        },
        CellView::TimestampTz(z) => match zoned_text(z) {
            Some(s) => Some(text_bytes(s)),
            None => None,
        },
        CellView::Date(d) => if d.wf() {
            Some(text_bytes(date_text(d)))
        } else {
            None
        },
        CellView::Time(t) => if t.wf() {
            Some(text_bytes(time_text(t)))
        } else {
            None
        },
        CellView::Uuid(v) => Some(text_bytes(uuid_text(v))),
    }
}

/// Encodings of a sequence of cells, one after the other.
pub open spec fn cells_bytes(cs: Seq<CellView>) -> Option<Seq<u8>>
    decreases cs.len(),
{
    if cs.len() == 0 {
        Some(Seq::empty())
    } else {
        match (cells_bytes(cs.drop_last()), cell_bytes(cs.last())) {
            (Some(a), Some(b)) => Some(a + b),
            _ => None,
        }
    }
}

/// Encoding of a row: an array of its cells.
pub open spec fn row_bytes(cs: Seq<CellView>) -> Option<Seq<u8>> {
    match cells_bytes(cs) {
        Some(b) => Some(head(4, cs.len()) + b),
        None => None,
    }
}

/// Encodings of a sequence of rows, one after the other.
pub open spec fn rows_bytes(rs: Seq<Seq<CellView>>) -> Option<Seq<u8>>
    decreases rs.len(),
{
    if rs.len() == 0 {
        Some(Seq::empty())
    } else {
        match (rows_bytes(rs.drop_last()), row_bytes(rs.last())) {
            (Some(a), Some(b)) => Some(a + b),
            _ => None,
        }
    }
}

/// The payload of a result: an array of its rows.
pub open spec fn payload(rs: Seq<Seq<CellView>>) -> Option<Seq<u8>> {
    match rows_bytes(rs) {
        Some(b) => Some(head(4, rs.len()) + b),
        None => None,
    }
}

/// The cells of a result set, row by row.
pub open spec fn rows_view(rows: Seq<Vec<Cell>>) -> Seq<Seq<CellView>> {
    rows.map_values(|r: Vec<Cell>| r@.map_values(|c: Cell| c@))
}

fn put_be(buf: &mut Vec<u8>, v: u64, n: usize)
    requires
        n <= 8,
    ensures
        final(buf)@ == old(buf)@ + be_bytes(v as nat, n as nat),
    decreases n,
{
    if n > 0 {
        put_be(buf, v / 256, n - 1);
        buf.push((v % 256) as u8);
        assert(buf@ =~= old(buf)@ + be_bytes(v as nat, n as nat));
    } else {
        assert(buf@ =~= old(buf)@ + be_bytes(v as nat, n as nat));
    }
}

fn bad_time() -> (r: Error)
    ensures
        r is TimeFormat,
{
    Error::TimeFormat("date or time component out of range".to_string())
}

/// Appends the encoding of one cell.
pub fn encode_cell(buf: &mut Vec<u8>, c: &Cell) -> (r: Result<(), Error>)
    ensures
        match cell_bytes(c@) {
            Some(b) => r is Ok && final(buf)@ == old(buf)@ + b,
            None => r is Err && r->Err_0 is TimeFormat,
        },
{
    match c {
        Cell::Null => put_null(buf),
        Cell::Bool(x) => put_bool(buf, *x),
        Cell::I8(x) => put_int(buf, *x as i128),
        Cell::I16(x) => put_int(buf, *x as i128),
        Cell::I32(x) => put_int(buf, *x as i128),
        Cell::I64(x) => put_int(buf, *x as i128),
        Cell::U8(x) => put_int(buf, *x as i128),
        Cell::U16(x) => put_int(buf, *x as i128),
        Cell::U32(x) => put_int(buf, *x as i128),
        Cell::U64(x) => put_int(buf, *x as i128),
        Cell::F32(bits) => {
            buf.push(0xfa);
            put_be(buf, *bits as u64, 4);
            assert(buf@ =~= old(buf)@ + f32_bytes(*bits));
        },
        Cell::F64(bits) => {
            buf.push(0xfb);
            put_be(buf, *bits, 8);
            assert(buf@ =~= old(buf)@ + f64_bytes(*bits));
        },
        Cell::Text(s) => put_str(buf, s.as_str()),
        Cell::Bytes(b) => put_bytes(buf, b.as_slice()),
        Cell::Timestamp(d, t) => {
            if !(-9999 <= d.year && d.year <= 9999 && 1 <= d.month && d.month <= 12 && 1 <= d.day
                && d.day <= 31 && t.hour < 24 && t.minute < 60 && t.second < 60) {
                return Err(bad_time());
            }
            let s = format_datetime(*d, *t);
            put_str(buf, s.as_str());
        },
        Cell::TimestampTz(z) => match format_zoned(*z) {
            Some(s) => put_str(buf, s.as_str()),
            None => return Err(bad_time()),
        },
        Cell::Date(d) => {
            if !(-9999 <= d.year && d.year <= 9999 && 1 <= d.month && d.month <= 12 && 1 <= d.day
                && d.day <= 31) {
                return Err(bad_time());
            }
            let s = format_date(*d);
            put_str(buf, s.as_str());
        },
        Cell::Time(t) => {
            if !(t.hour < 24 && t.minute < 60 && t.second < 60) {
                return Err(bad_time());
            }
            let s = format_time(*t);
            put_str(buf, s.as_str());
        },
        Cell::Uuid(v) => {
            let s = format_uuid(*v);
            put_str(buf, s.as_str());
        },
    }
    Ok(())
}

/// A failure in a prefix of a cell sequence fails the whole sequence.
proof fn lemma_cells_none(cs: Seq<CellView>, n: int)
    requires
        0 <= n <= cs.len(),
        cells_bytes(cs.subrange(0, n)) is None,
    ensures
        cells_bytes(cs) is None,
    decreases cs.len() - n,
{
    if n < cs.len() {
        assert(cs.subrange(0, n + 1).drop_last() =~= cs.subrange(0, n));
        lemma_cells_none(cs, n + 1);
    } else {
        assert(cs.subrange(0, n) =~= cs);
    }
}

/// A failure in a prefix of a row sequence fails the whole sequence.
proof fn lemma_rows_none(rs: Seq<Seq<CellView>>, n: int)
    requires
        0 <= n <= rs.len(),
        rows_bytes(rs.subrange(0, n)) is None,
    ensures
        rows_bytes(rs) is None,
    decreases rs.len() - n,
{
    if n < rs.len() {
        assert(rs.subrange(0, n + 1).drop_last() =~= rs.subrange(0, n));
        lemma_rows_none(rs, n + 1);
    } else {
        assert(rs.subrange(0, n) =~= rs);
    }
}

/// Appends the encoding of one row.
fn encode_row(buf: &mut Vec<u8>, row: &Vec<Cell>) -> (r: Result<(), Error>)
    ensures
        match row_bytes(row@.map_values(|c: Cell| c@)) {
            Some(b) => r is Ok && final(buf)@ == old(buf)@ + b,
            None => r is Err && r->Err_0 is TimeFormat,
        },
{
    let ghost cs = row@.map_values(|c: Cell| c@);
    put_array(buf, row.len() as u64);
    let ghost start = buf@;
    let mut i: usize = 0;
    assert(cs.subrange(0, 0) =~= Seq::<CellView>::empty());
    while i < row.len()
        invariant
            0 <= i <= row@.len(),
            cs == row@.map_values(|c: Cell| c@),
            start == old(buf)@ + head(4, row@.len() as nat),
            cells_bytes(cs.subrange(0, i as int)) is Some,
            buf@ == start + cells_bytes(cs.subrange(0, i as int))->Some_0,
        decreases row@.len() - i,
    {
        let ghost prefix = cs.subrange(0, i + 1);
        assert(prefix.drop_last() =~= cs.subrange(0, i as int));
        assert(prefix.last() == row@[i as int]@);
        match encode_cell(buf, &row[i]) {
            Ok(()) => {
                assert(buf@ =~= start + cells_bytes(prefix)->Some_0);
            },
            Err(e) => {
                proof {
                    lemma_cells_none(cs, i + 1);
                }
                return Err(e);
            },
        }
        i = i + 1;
    }
    assert(cs.subrange(0, row@.len() as int) =~= cs);
    assert(buf@ =~= old(buf)@ + row_bytes(cs)->Some_0);
    Ok(())
}

/// Encodes all rows of a result set into one payload.
pub fn encode_rows(rows: &Vec<Vec<Cell>>) -> (r: Result<Vec<u8>, Error>)
    ensures
        match payload(rows_view(rows@)) {
            Some(b) => r is Ok && r->Ok_0@ == b,
            None => r is Err && r->Err_0 is TimeFormat,
        },
{
    let ghost rs = rows_view(rows@);
    let mut buf: Vec<u8> = Vec::new();
    put_array(&mut buf, rows.len() as u64);
    let ghost start = buf@;
    assert(start =~= head(4, rows@.len() as nat));
    let mut i: usize = 0;
    assert(rs.subrange(0, 0) =~= Seq::<Seq<CellView>>::empty());
    while i < rows.len()
        invariant
            0 <= i <= rows@.len(),
            rs == rows_view(rows@),
            start == head(4, rows@.len() as nat),
            rows_bytes(rs.subrange(0, i as int)) is Some,
            buf@ == start + rows_bytes(rs.subrange(0, i as int))->Some_0,
        decreases rows@.len() - i,
    {
        let ghost prefix = rs.subrange(0, i + 1);
        assert(prefix.drop_last() =~= rs.subrange(0, i as int));
        assert(prefix.last() == rows@[i as int]@.map_values(|c: Cell| c@));
        match encode_row(&mut buf, &rows[i]) {
            Ok(()) => {
                assert(buf@ =~= start + rows_bytes(prefix)->Some_0);
            },
            Err(e) => {
                proof {
                    lemma_rows_none(rs, i + 1);
                }
                return Err(e);
            },
        }
        i = i + 1;
    }
    assert(rs.subrange(0, rows@.len() as int) =~= rs);
    Ok(buf)
}

#[verifier::external_type_specification]
#[verifier::external_body]
pub struct ExJsonValue(serde_json::Value);

/// The compact JSON text that serde_json writes for a value.
pub uninterp spec fn json_text_of(v: serde_json::Value) -> Seq<char>;

/// Relies on serde_json::to_string: the compact JSON text of a value. It
/// fails only for a map key that is not a string or a failing `Serialize`
/// impl, and a `Value` has neither.
#[verifier::external_body]
fn json_to_string(v: &serde_json::Value) -> (r: Result<String, String>)
    ensures
        r is Ok && r->Ok_0@ == json_text_of(*v),
{
    serde_json::to_string(v).map_err(|e| e.to_string())
}

/// A JSON value as a cell: its compact text.
pub fn json_cell(v: &serde_json::Value) -> (r: Result<Cell, Error>)
    ensures
        r is Ok && r->Ok_0 is Text && r->Ok_0->Text_0@ == json_text_of(*v),
{
    match json_to_string(v) {
        Ok(s) => Ok(Cell::Text(s)),
        Err(m) => Err(Error::SerdeJson(m)),
    }
}

/// Whether every column's declared type is in the engine's table.
pub open spec fn all_mapped(e: Engine, columns: Seq<Column>) -> bool {
    forall|i: int| 0 <= i < columns.len() ==> (#[trigger] kind_of(e, columns[i].db_type@)) is Some
}

/// The kinds of all columns in order, or, for the first column whose
/// declared type is outside the engine's table, the unsupported-type error
/// naming that type.
pub fn column_kinds(e: Engine, columns: &Vec<Column>) -> (r: Result<Vec<ColumnKind>, Error>)
    ensures
        r is Ok <==> all_mapped(e, columns@),
        r is Ok ==> r->Ok_0@.len() == columns@.len() && forall|i: int|
            0 <= i < columns@.len() ==> Some(#[trigger] r->Ok_0@[i]) == kind_of(e, columns@[i].db_type@),
        r is Err ==> exists|i: int|
            0 <= i < columns@.len() && kind_of(e, columns@[i].db_type@) is None && (forall|j: int|
                0 <= j < i ==> (#[trigger] kind_of(e, columns@[j].db_type@)) is Some) && r->Err_0
                is DbType && r->Err_0->DbType_0@ == columns@[i].db_type@,
{
    let mut kinds: Vec<ColumnKind> = Vec::new();
    let mut i: usize = 0;
    while i < columns.len()
        invariant
            0 <= i <= columns@.len(),
            kinds@.len() == i,
            forall|j: int| 0 <= j < i ==> Some(#[trigger] kinds@[j]) == kind_of(e, columns@[j].db_type@),
        decreases columns@.len() - i,
    {
        match column_kind(e, columns[i].db_type.as_str()) {
            Some(k) => kinds.push(k),
            None => {
                assert(forall|j: int| 0 <= j < i ==> (#[trigger] kind_of(e, columns@[j].db_type@)) is Some) by {
                    assert forall|j: int| 0 <= j < i implies (#[trigger] kind_of(e, columns@[j].db_type@)) is Some by {
                        assert(Some(kinds@[j]) == kind_of(e, columns@[j].db_type@));
                    }
                }
                return Err(Error::DbType(columns[i].db_type.clone()));
            },
        }
        i = i + 1;
    }
    assert forall|j: int| 0 <= j < columns@.len() implies (#[trigger] kind_of(e, columns@[j].db_type@)) is Some by {
        assert(Some(kinds@[j]) == kind_of(e, columns@[j].db_type@));
    }
    Ok(kinds)
}

/// Assembles the result of a query from its columns (as the first row
/// reports them) and its cells: no rows give the empty result; a column
/// outside the engine's table, or a cell that cannot be written, fails the
/// whole result; otherwise the row count, the columns and the payload.
pub fn fetch_result(e: Engine, columns: Vec<Column>, rows: &Vec<Vec<Cell>>) -> (r: Result<QueryResult, Error>)
    requires
        forall|i: int| 0 <= i < columns@.len() ==> (#[trigger] columns@[i]).ordinal == i,
        forall|i: int| 0 <= i < rows@.len() ==> (#[trigger] rows@[i])@.len() == columns@.len(),
    ensures
        rows@.len() == 0 ==> r is Ok && r->Ok_0.num_rows == 0 && r->Ok_0.columns@.len() == 0
            && r->Ok_0.rows@.len() == 0 && r->Ok_0.error is None,
        rows@.len() > 0 && !all_mapped(e, columns@) ==> r is Err && exists|i: int|
            0 <= i < columns@.len() && kind_of(e, columns@[i].db_type@) is None && (forall|j: int|
                0 <= j < i ==> (#[trigger] kind_of(e, columns@[j].db_type@)) is Some) && r->Err_0
                is DbType && r->Err_0->DbType_0@ == columns@[i].db_type@,
        rows@.len() > 0 && all_mapped(e, columns@) ==> match payload(rows_view(rows@)) {
            Some(b) => r is Ok && r->Ok_0.num_rows == rows@.len() && r->Ok_0.columns == columns
                && r->Ok_0.rows@ == b && r->Ok_0.error is None,
            None => r is Err && r->Err_0 is TimeFormat,
        },
{
    if rows.len() == 0 {
        return Ok(QueryResult::empty());
    }
    match column_kinds(e, &columns) {
        Ok(_) => {},
        Err(err) => return Err(err),
    }
    match encode_rows(rows) {
        Ok(payload) => Ok(QueryResult { num_rows: rows.len() as u64, columns, rows: payload, error: None }),
        Err(err) => Err(err),
    }
}

} // verus!
