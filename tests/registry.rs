use sqldb_sqlx::cbor::CborType;
use sqldb_sqlx::error::{to_sql_db_error, Error};
use sqldb_sqlx::registry::Registry;

#[test]
fn link_then_get() {
    let mut r: Registry<u32> = Registry::new();
    assert_eq!(r.link("t1".to_string(), 7), None);
    assert_eq!(r.get("t1"), Ok(&7));
    assert!(r.is_linked("t1"));
    assert!(!r.is_linked("t2"));
}

#[test]
fn relink_hands_back_the_superseded_pool() {
    let mut r: Registry<u32> = Registry::new();
    r.link("t1".to_string(), 1);
    r.link("t2".to_string(), 2);
    assert_eq!(r.link("t1".to_string(), 3), Some(1));
    assert_eq!(r.get("t1"), Ok(&3));
    assert_eq!(r.get("t2"), Ok(&2));
}

#[test]
fn unlinked_tenant_is_not_linked() {
    let mut r: Registry<u32> = Registry::new();
    r.link("t1".to_string(), 1);
    assert_eq!(r.unlink("t1"), Some(1));
    assert_eq!(r.get("t1"), Err(Error::NotLinked("t1".to_string())));
    assert_eq!(r.unlink("t1"), None);
    let e = r.get("t1").unwrap_err();
    assert_eq!(e.code(), "config");
}

#[test]
fn drain_hands_back_every_pool() {
    let mut r: Registry<u32> = Registry::new();
    r.link("a".to_string(), 1);
    r.link("b".to_string(), 2);
    r.link("c".to_string(), 3);
    let mut pools = r.drain();
    pools.sort();
    assert_eq!(pools, vec![1, 2, 3]);
    assert!(!r.is_linked("a"));
    assert!(r.drain().is_empty());
}

#[test]
fn error_categories() {
    assert_eq!(Error::CborDe("x".to_string()).code(), "decoding");
    assert_eq!(Error::CborDeU64OutOfRange(1).code(), "decoding");
    assert_eq!(Error::TimeFormat("x".to_string()).code(), "encoding");
    assert_eq!(Error::SerdeJson("x".to_string()).code(), "encoding");
    assert_eq!(Error::DbType("MONEY".to_string()).code(), "encoding");
    assert_eq!(Error::Sqlx("pool timed out".to_string()).code(), "db");
    assert_eq!(Error::ConfigDatabaseNotSupported.code(), "config");
    let s = to_sql_db_error(&Error::Db("gone".to_string()));
    assert_eq!(s.code, "db");
    assert_eq!(s.message, "gone");
}

#[test]
fn error_messages() {
    let e = Error::CborDeU64OutOfRange(u64::MAX);
    assert_eq!(e.message(), "CBOR u64 value out of range: `18446744073709551615`");
    let s = to_sql_db_error(&e);
    assert_eq!((s.code.as_str(), s.message.as_str()), ("decoding", "CBOR u64 value out of range: `18446744073709551615`"));
    let v: i128 = -1 - (1i128 << 63);
    assert_eq!(Error::CborDeIntOutOfRange(v).message(), "CBOR int value out of range: `-9223372036854775809`");
    assert_eq!(Error::CborDeIntOutOfRange(0).message(), "CBOR int value out of range: `0`");
    assert_eq!(Error::CborDeIntOutOfRange(i128::MIN).message(), format!("CBOR int value out of range: `{}`", i128::MIN));
    assert_eq!(Error::CborDeType(CborType::Bytes).message(), "unsupported CBOR type: `bytes`");
    assert_eq!(Error::CborDeType(CborType::MapIndef).message(), "unsupported CBOR type: `indefinite map`");
    assert_eq!(Error::CborDeType(CborType::Unknown(0x1c)).message(), "unsupported CBOR type: `0x1c`");
    assert_eq!(Error::DbType("NUMERIC".to_string()).message(), "unsupported database type: `NUMERIC`");
    assert_eq!(Error::ConfigDatabaseNotSupported.message(), "unsupported database");
    assert_eq!(Error::NotLinked("t1".to_string()).message(), "actor not linked:t1");
    assert_eq!(Error::Sqlx("pool timed out".to_string()).message(), "pool timed out");
}
