use sqldb_sqlx::bind::{bind_value, BoundValue};
use sqldb_sqlx::columns::{column_kind, ColumnKind};
use sqldb_sqlx::error::Error;
use sqldb_sqlx::model::{Column, Engine};
use sqldb_sqlx::rows::{column_kinds, encode_cell, encode_rows, fetch_result, json_cell, Cell};
use sqldb_sqlx::temporal::{
    format_date, format_datetime, format_time, format_zoned, DateValue, TimeValue, ZonedValue,
};

fn col(ordinal: u32, name: &str, db_type: &str) -> Column {
    Column { ordinal, name: name.to_string(), db_type: db_type.to_string() }
}

fn text_cbor(s: &str) -> Vec<u8> {
    let mut buf: Vec<u8> = Vec::new();
    minicbor::Encoder::new(&mut buf).str(s).unwrap();
    buf
}

#[test]
fn postgres_table() {
    assert_eq!(column_kind(Engine::Postgres, "OID"), Some(ColumnKind::U32));
    assert_eq!(column_kind(Engine::Postgres, "\"CHAR\""), Some(ColumnKind::I8));
    assert_eq!(column_kind(Engine::Postgres, "INT4"), Some(ColumnKind::I32));
    assert_eq!(column_kind(Engine::Postgres, "DOUBLE PRECISION"), Some(ColumnKind::F64));
    assert_eq!(column_kind(Engine::Postgres, "JSONB"), Some(ColumnKind::Json));
    assert_eq!(column_kind(Engine::Postgres, "TIMESTAMPTZ"), Some(ColumnKind::TimestampTz));
    assert_eq!(column_kind(Engine::Postgres, "VOID"), Some(ColumnKind::Null));
    assert_eq!(column_kind(Engine::Postgres, "NUMERIC"), None);
    assert_eq!(column_kind(Engine::Postgres, "int4"), None);
}

#[test]
fn mysql_table() {
    assert_eq!(column_kind(Engine::MySql, "BIGINT UNSIGNED"), Some(ColumnKind::U64));
    assert_eq!(column_kind(Engine::MySql, "TIMESTAMP"), Some(ColumnKind::TimestampTz));
    assert_eq!(column_kind(Engine::MySql, "DATETIME"), Some(ColumnKind::Timestamp));
    assert_eq!(column_kind(Engine::MySql, "LONGBLOB"), Some(ColumnKind::Bytes));
    assert_eq!(column_kind(Engine::MySql, "DECIMAL"), None);
}

#[test]
fn mssql_table() {
    assert_eq!(column_kind(Engine::Mssql, "NVARCHAR"), Some(ColumnKind::Text));
    assert_eq!(column_kind(Engine::Mssql, "FLOAT"), Some(ColumnKind::F64));
    assert_eq!(column_kind(Engine::Mssql, "UUID"), None);
    assert_eq!(column_kind(Engine::Mssql, "DATE"), None);
    assert_eq!(column_kind(Engine::Mssql, "VARBINARY"), None);
}

#[test]
fn rows_encode_as_arrays_of_cells() {
    let rows = vec![vec![Cell::I32(42), Cell::Text("ab".to_string()), Cell::Bool(true)]];
    assert_eq!(encode_rows(&rows), Ok(vec![0x81, 0x83, 0x18, 0x2a, 0x62, 0x61, 0x62, 0xf5]));
    assert_eq!(encode_rows(&vec![]), Ok(vec![0x80]));
}

#[test]
fn integers_encode_shortest() {
    let rows = vec![vec![Cell::U64(u64::MAX), Cell::I64(i64::MIN), Cell::I16(-500), Cell::U32(0)]];
    let mut expected = vec![0x81, 0x84, 0x1b];
    expected.extend_from_slice(&[0xff; 8]);
    expected.extend_from_slice(&[0x3b, 0x7f, 0xff, 0xff, 0xff, 0xff, 0xff, 0xff, 0xff]);
    expected.extend_from_slice(&[0x39, 0x01, 0xf3, 0x00]);
    assert_eq!(encode_rows(&rows), Ok(expected));
}

#[test]
fn null_cell_is_the_null_marker() {
    let mut buf = Vec::new();
    assert_eq!(encode_cell(&mut buf, &Cell::Null), Ok(()));
    assert_eq!(buf, vec![0xf6]);
    let mut zero = Vec::new();
    encode_cell(&mut zero, &Cell::I32(0)).unwrap();
    assert_ne!(buf, zero);
}

#[test]
fn floats_and_bytes_encode() {
    let mut buf = Vec::new();
    encode_cell(&mut buf, &Cell::F32(1.5f32.to_bits())).unwrap();
    assert_eq!(buf, vec![0xfa, 0x3f, 0xc0, 0x00, 0x00]);
    let mut buf = Vec::new();
    encode_cell(&mut buf, &Cell::F64(1.0f64.to_bits())).unwrap();
    assert_eq!(buf, vec![0xfb, 0x3f, 0xf0, 0, 0, 0, 0, 0, 0]);
    let mut buf = Vec::new();
    encode_cell(&mut buf, &Cell::Bytes(vec![1, 2, 3])).unwrap();
    assert_eq!(buf, vec![0x43, 1, 2, 3]);
}

#[test]
fn dates_and_times_have_fixed_text() {
    let d = DateValue { year: 2024, month: 1, day: 5 };
    let t = TimeValue { hour: 7, minute: 8, second: 9 };
    assert_eq!(format_date(d), "2024-01-05");
    assert_eq!(format_time(t), "07:08:09");
    assert_eq!(format_datetime(d, t), "2024-01-05T07:08:09");
    assert_eq!(format_date(DateValue { year: -44, month: 3, day: 15 }), "-0044-03-15");
    let mut buf = Vec::new();
    encode_cell(&mut buf, &Cell::Timestamp(d, t)).unwrap();
    assert_eq!(buf, text_cbor("2024-01-05T07:08:09"));
}

#[test]
fn zoned_timestamps_are_rfc3339() {
    let z = ZonedValue {
        date: DateValue { year: 2024, month: 1, day: 5 },
        time: TimeValue { hour: 10, minute: 20, second: 30 },
        nanosecond: 0,
        offset_seconds: 0,
    };
    assert_eq!(format_zoned(z), Some("2024-01-05T10:20:30Z".to_string()));
    let z2 = ZonedValue { nanosecond: 500_000_000, offset_seconds: 3600, ..z };
    assert_eq!(format_zoned(z2), Some("2024-01-05T10:20:30.5+01:00".to_string()));
    let mut buf = Vec::new();
    encode_cell(&mut buf, &Cell::TimestampTz(z)).unwrap();
    assert_eq!(buf, text_cbor("2024-01-05T10:20:30Z"));
}

#[test]
fn invalid_time_components_fail() {
    let mut buf = Vec::new();
    let bad = TimeValue { hour: 25, minute: 0, second: 0 };
    assert!(matches!(encode_cell(&mut buf, &Cell::Time(bad)), Err(Error::TimeFormat(_))));
    let z = ZonedValue {
        date: DateValue { year: 2024, month: 2, day: 30 },
        time: TimeValue { hour: 0, minute: 0, second: 0 },
        nanosecond: 0,
        offset_seconds: 0,
    };
    assert_eq!(format_zoned(z), None);
    let rows = vec![vec![Cell::I32(1)], vec![Cell::TimestampTz(z)]];
    assert!(matches!(encode_rows(&rows), Err(Error::TimeFormat(_))));
}

#[test]
fn uuids_are_lowercase_hyphenated() {
    let mut buf = Vec::new();
    encode_cell(&mut buf, &Cell::Uuid(0x67e5_5044_10b1_426f_9247_bb68_0e5f_e0c8)).unwrap();
    assert_eq!(buf, text_cbor("67e55044-10b1-426f-9247-bb680e5fe0c8"));
}

#[test]
fn json_values_become_compact_text() {
    let v: serde_json::Value = serde_json::from_str("{ \"a\" : [1, 2],  \"b\": null }").unwrap();
    assert_eq!(json_cell(&v), Ok(Cell::Text("{\"a\":[1,2],\"b\":null}".to_string())));
}

#[test]
fn empty_result_has_no_rows_and_no_columns() {
    let r = fetch_result(Engine::Postgres, vec![col(0, "x", "NUMERIC")], &vec![]).unwrap();
    assert_eq!(r.num_rows, 0);
    assert!(r.columns.is_empty());
    assert!(r.rows.is_empty());
    assert_eq!(r.error, None);
}

#[test]
fn unmapped_column_fails_the_whole_result() {
    let columns = vec![col(0, "n", "INT4"), col(1, "m", "MONEY")];
    let rows = vec![vec![Cell::I32(1), Cell::Null]];
    assert_eq!(fetch_result(Engine::Postgres, columns.clone(), &rows), Err(Error::DbType("MONEY".to_string())));
    assert_eq!(column_kinds(Engine::Postgres, &columns), Err(Error::DbType("MONEY".to_string())));
    assert_eq!(Error::DbType("MONEY".to_string()).code(), "encoding");
}

#[test]
fn column_kinds_follow_the_table() {
    let columns = vec![col(0, "a", "BOOLEAN"), col(1, "b", "INT UNSIGNED")];
    assert_eq!(column_kinds(Engine::MySql, &columns), Ok(vec![ColumnKind::Bool, ColumnKind::U32]));
}

#[test]
fn query_null_integer_column() {
    let columns = vec![col(0, "n", "INT4")];
    let r = fetch_result(Engine::Postgres, columns.clone(), &vec![vec![Cell::Null]]).unwrap();
    assert_eq!(r.num_rows, 1);
    assert_eq!(r.columns, columns);
    assert_eq!(r.rows, vec![0x81, 0x81, 0xf6]);
    assert_eq!(r.error, None);
}

#[test]
fn bound_values_read_back_encode_to_the_same_bytes() {
    let cases: Vec<Vec<u8>> = vec![
        vec![0x1a, 0xb2, 0xd0, 0x5e, 0x00],
        vec![0x39, 0x01, 0xf3],
        vec![0x18, 0x2a],
        vec![0x63, 0x61, 0x62, 0x63],
        vec![0xfa, 0x3f, 0xc0, 0x00, 0x00],
        vec![0xf5],
    ];
    for input in cases {
        let cell = match bind_value(Engine::Postgres, &input).unwrap() {
            BoundValue::I16(x) => Cell::I16(x),
            BoundValue::I32(x) => Cell::I32(x),
            BoundValue::I64(x) => Cell::I64(x),
            BoundValue::Text(s) => Cell::Text(s),
            BoundValue::F32(bits) => Cell::F32(bits),
            BoundValue::Bool(x) => Cell::Bool(x),
            other => panic!("unexpected binding {:?}", other),
        };
        let mut buf = Vec::new();
        encode_cell(&mut buf, &cell).unwrap();
        assert_eq!(buf, input);
    }
}

#[test]
fn null_cells_keep_their_place_in_the_payload() {
    let columns = vec![col(0, "a", "INT4"), col(1, "b", "TEXT")];
    let rows = vec![vec![Cell::Null, Cell::Text("x".to_string())], vec![Cell::I32(0), Cell::Null]];
    let r = fetch_result(Engine::Postgres, columns, &rows).unwrap();
    assert_eq!(r.rows, vec![0x82, 0x82, 0xf6, 0x61, 0x78, 0x82, 0x00, 0xf6]);
}
