use sqldb_sqlx::bind::{bind_query, bind_value, promote_int, BindCbor, BoundQuery, BoundValue};
use sqldb_sqlx::cbor::{datatype, read_be, CborType};
use sqldb_sqlx::error::Error;
use sqldb_sqlx::model::{Engine, Statement};

const ALL: [Engine; 3] = [Engine::Postgres, Engine::MySql, Engine::Mssql];

#[test]
fn small_unsigned_binds_per_engine() {
    let b = [0x18u8, 0x2a];
    assert_eq!(bind_value(Engine::Postgres, &b), Ok(BoundValue::I16(42)));
    assert_eq!(bind_value(Engine::Mssql, &b), Ok(BoundValue::I8(42)));
    assert_eq!(bind_value(Engine::MySql, &b), Ok(BoundValue::U8(42)));
}

#[test]
fn u8_beyond_i8_widens_on_mssql() {
    let b = [0x18u8, 0xc8];
    assert_eq!(bind_value(Engine::Mssql, &b), Ok(BoundValue::I16(200)));
    assert_eq!(bind_value(Engine::Postgres, &b), Ok(BoundValue::I16(200)));
    assert_eq!(bind_value(Engine::MySql, &b), Ok(BoundValue::U8(200)));
}

#[test]
fn u16_beyond_i16_widens_to_i32() {
    let b = [0x19u8, 0x9c, 0x40];
    assert_eq!(bind_value(Engine::Postgres, &b), Ok(BoundValue::I32(40000)));
    assert_eq!(bind_value(Engine::Mssql, &b), Ok(BoundValue::I32(40000)));
    assert_eq!(bind_value(Engine::MySql, &b), Ok(BoundValue::U16(40000)));
    assert_eq!(bind_value(Engine::Postgres, &[0x19, 0x01, 0x2c]), Ok(BoundValue::I16(300)));
}

#[test]
fn u32_beyond_i32_widens_to_i64() {
    let b = [0x1au8, 0xb2, 0xd0, 0x5e, 0x00];
    assert_eq!(bind_value(Engine::Postgres, &b), Ok(BoundValue::I64(3_000_000_000)));
    assert_eq!(bind_value(Engine::Mssql, &b), Ok(BoundValue::I64(3_000_000_000)));
    assert_eq!(bind_value(Engine::MySql, &b), Ok(BoundValue::U32(3_000_000_000)));
    let small = [0x1au8, 0x00, 0x01, 0x11, 0x70];
    assert_eq!(bind_value(Engine::Postgres, &small), Ok(BoundValue::I32(70000)));
}

#[test]
fn u64_beyond_i64_is_refused_not_truncated() {
    let b = [0x1bu8, 0x80, 0, 0, 0, 0, 0, 0, 0];
    let v: u64 = 1 << 63;
    assert_eq!(bind_value(Engine::Postgres, &b), Err(Error::CborDeU64OutOfRange(v)));
    assert_eq!(bind_value(Engine::Mssql, &b), Err(Error::CborDeU64OutOfRange(v)));
    assert_eq!(bind_value(Engine::MySql, &b), Ok(BoundValue::U64(v)));
    let fits = [0x1bu8, 0x7f, 0xff, 0xff, 0xff, 0xff, 0xff, 0xff, 0xff];
    assert_eq!(bind_value(Engine::Postgres, &fits), Ok(BoundValue::I64(i64::MAX)));
}

#[test]
fn negative_integers_bind() {
    assert_eq!(bind_value(Engine::Postgres, &[0x20]), Ok(BoundValue::I16(-1)));
    assert_eq!(bind_value(Engine::Mssql, &[0x20]), Ok(BoundValue::I8(-1)));
    assert_eq!(bind_value(Engine::MySql, &[0x20]), Ok(BoundValue::I8(-1)));
    assert_eq!(bind_value(Engine::Postgres, &[0x38, 0xc7]), Ok(BoundValue::I16(-200)));
    assert_eq!(bind_value(Engine::Postgres, &[0x39, 0x01, 0xf3]), Ok(BoundValue::I16(-500)));
    assert_eq!(bind_value(Engine::MySql, &[0x39, 0x01, 0xf3]), Ok(BoundValue::I16(-500)));
}

#[test]
fn integer_below_i64_is_out_of_range() {
    let b = [0x3bu8, 0x80, 0, 0, 0, 0, 0, 0, 0];
    assert_eq!(datatype(&b), Some(CborType::Int));
    let v: i128 = -1 - (1i128 << 63);
    for e in ALL {
        assert_eq!(bind_value(e, &b), Err(Error::CborDeIntOutOfRange(v)));
    }
}

#[test]
fn promote_arbitrary_integer_to_smallest_signed_width() {
    assert_eq!(promote_int(Engine::Postgres, CborType::Int, 5), Ok(BoundValue::I16(5)));
    assert_eq!(promote_int(Engine::Postgres, CborType::Int, 70000), Ok(BoundValue::I32(70000)));
    assert_eq!(promote_int(Engine::Mssql, CborType::Int, -3_000_000_000), Ok(BoundValue::I64(-3_000_000_000)));
    assert_eq!(promote_int(Engine::MySql, CborType::Int, 300), Ok(BoundValue::U16(300)));
    assert_eq!(promote_int(Engine::MySql, CborType::Int, -300), Ok(BoundValue::I16(-300)));
    assert_eq!(
        promote_int(Engine::MySql, CborType::Int, 1i128 << 64),
        Err(Error::CborDeIntOutOfRange(1i128 << 64))
    );
}

#[test]
fn null_and_undefined_bind_as_null() {
    for e in ALL {
        assert_eq!(bind_value(e, &[0xf6]), Ok(BoundValue::Null));
        assert_eq!(bind_value(e, &[0xf7]), Ok(BoundValue::Null));
        assert_ne!(bind_value(e, &[0xf6]), bind_value(e, &[0x00]));
    }
}

#[test]
fn booleans_text_and_bytes_bind() {
    for e in ALL {
        assert_eq!(bind_value(e, &[0xf5]), Ok(BoundValue::Bool(true)));
        assert_eq!(bind_value(e, &[0xf4]), Ok(BoundValue::Bool(false)));
        assert_eq!(bind_value(e, &[0x62, 0x68, 0x69]), Ok(BoundValue::Text("hi".to_string())));
    }
    assert_eq!(bind_value(Engine::Postgres, &[0x42, 1, 2]), Ok(BoundValue::Bytes(vec![1, 2])));
    assert_eq!(bind_value(Engine::MySql, &[0x42, 1, 2]), Ok(BoundValue::Bytes(vec![1, 2])));
}

#[test]
fn byte_strings_are_refused_by_mssql() {
    assert_eq!(bind_value(Engine::Mssql, &[0x42, 1, 2]), Err(Error::CborDeType(CborType::Bytes)));
}

#[test]
fn floats_bind_by_bits() {
    let f = 1.5f32;
    let mut b = vec![0xfau8];
    b.extend_from_slice(&f.to_be_bytes());
    assert_eq!(bind_value(Engine::Postgres, &b), Ok(BoundValue::F32(f.to_bits())));
    let d = -2.25f64;
    let mut b = vec![0xfbu8];
    b.extend_from_slice(&d.to_be_bytes());
    assert_eq!(bind_value(Engine::MySql, &b), Ok(BoundValue::F64(d.to_bits())));
    assert_eq!(bind_value(Engine::Mssql, &[0xf9, 0x3c, 0x00]), Ok(BoundValue::F16(0x3c00)));
}

#[test]
fn composite_and_malformed_values_are_refused() {
    assert_eq!(bind_value(Engine::Postgres, &[0x80]), Err(Error::CborDeType(CborType::Array)));
    assert_eq!(bind_value(Engine::MySql, &[0xa0]), Err(Error::CborDeType(CborType::Mapping)));
    assert_eq!(bind_value(Engine::Mssql, &[0xc1, 0x00]), Err(Error::CborDeType(CborType::Tag)));
    assert!(matches!(bind_value(Engine::Postgres, &[]), Err(Error::CborDe(_))));
    assert!(matches!(bind_value(Engine::Postgres, &[0x19, 0x01]), Err(Error::CborDe(_))));
    assert!(matches!(bind_value(Engine::Postgres, &[0x63, 0x61]), Err(Error::CborDe(_))));
    assert!(matches!(bind_value(Engine::Postgres, &[0x62, 0xff, 0xfe]), Err(Error::CborDe(_))));
}

#[test]
fn values_written_by_minicbor_bind() {
    let mut buf: Vec<u8> = Vec::new();
    minicbor::Encoder::new(&mut buf).u32(3_000_000_000).unwrap();
    assert_eq!(bind_value(Engine::Postgres, &buf), Ok(BoundValue::I64(3_000_000_000)));
    let mut buf: Vec<u8> = Vec::new();
    minicbor::Encoder::new(&mut buf).str("héllo").unwrap();
    assert_eq!(bind_value(Engine::Mssql, &buf), Ok(BoundValue::Text("héllo".to_string())));
}

#[test]
fn read_be_reads_big_endian() {
    assert_eq!(read_be(&[0xfa, 0x3f, 0xc0, 0x00, 0x00], 1, 4), 0x3fc0_0000);
    assert_eq!(read_be(&[1, 2, 3], 0, 0), 0);
}

#[test]
fn statement_parameters_bind_in_order() {
    let stmt = Statement {
        sql: "INSERT INTO t VALUES ($1, $2, $3)".to_string(),
        parameters: Some(vec![vec![0x18, 0x2a], vec![0xf6], vec![0x62, 0x68, 0x69]]),
    };
    let q = bind_query(Engine::Postgres, &stmt).unwrap();
    assert_eq!(q.engine, Engine::Postgres);
    assert_eq!(q.sql, stmt.sql);
    assert_eq!(q.params, vec![BoundValue::I16(42), BoundValue::Null, BoundValue::Text("hi".to_string())]);
}

#[test]
fn statement_without_parameters_binds_none() {
    let stmt = Statement { sql: "SELECT 1".to_string(), parameters: None };
    let q = bind_query(Engine::MySql, &stmt).unwrap();
    assert!(q.params.is_empty());
}

#[test]
fn first_failing_parameter_fails_the_statement() {
    let stmt = Statement {
        sql: "SELECT $1, $2, $3".to_string(),
        parameters: Some(vec![vec![0xf5], vec![0x80], vec![0x42, 1, 2]]),
    };
    assert_eq!(bind_query(Engine::Mssql, &stmt).unwrap_err(), Error::CborDeType(CborType::Array));
}

#[test]
fn bind_cbor_appends_one_parameter() {
    let q = BoundQuery::new(Engine::Mssql, "SELECT $1".to_string());
    let q = q.bind_cbor(&[0x18, 0xc8]).unwrap();
    assert_eq!(q.params, vec![BoundValue::I16(200)]);
    assert!(q.bind_cbor(&[0x42, 1]).is_err());
}
