use sqldb_sqlx::bind::{bind_query, BoundValue};
use sqldb_sqlx::config::{finish_config, Config};
use sqldb_sqlx::error::{to_sql_db_error, Error};
use sqldb_sqlx::model::{Column, Engine, ExecuteResult, QueryResult, Statement};
use sqldb_sqlx::registry::Registry;
use sqldb_sqlx::rows::{fetch_result, Cell};

#[test]
fn link_and_insert_one_row() {
    let config = finish_config(Config::unset(), &Some("postgres://db/app".to_string())).unwrap();
    let settings = config.pool.settings();
    assert_eq!(settings.max_connections, 8);
    let mut registry: Registry<String> = Registry::new();
    registry.link("t1".to_string(), config.uri.clone());
    assert!(registry.get("t1").is_ok());
    let stmt = Statement {
        sql: "INSERT INTO t VALUES ($1)".to_string(),
        parameters: Some(vec![vec![0x18, 0x2a]]),
    };
    let q = bind_query(Engine::Postgres, &stmt).unwrap();
    assert_eq!(q.params, vec![BoundValue::I16(42)]);
    let r = ExecuteResult::done(1);
    assert_eq!(r.rows_affected, 1);
    assert_eq!(r.error, None);
}

#[test]
fn select_null_integer() {
    let columns = vec![Column { ordinal: 0, name: "n".to_string(), db_type: "INT4".to_string() }];
    let r = fetch_result(Engine::Postgres, columns, &vec![vec![Cell::Null]]).unwrap();
    assert_eq!(r.num_rows, 1);
    assert_eq!(r.columns.len(), 1);
    let mut d = minicbor::Decoder::new(&r.rows);
    assert_eq!(d.array().unwrap(), Some(1));
    assert_eq!(d.array().unwrap(), Some(1));
    d.null().unwrap();
}

#[test]
fn execute_after_unlink_fails() {
    let mut registry: Registry<String> = Registry::new();
    registry.link("t1".to_string(), "pool".to_string());
    registry.unlink("t1");
    let e = registry.get("t1").unwrap_err();
    assert_eq!(e, Error::NotLinked("t1".to_string()));
    let report = to_sql_db_error(&e);
    assert_eq!(report.message, "actor not linked:t1");
    let r = ExecuteResult::failed(report.clone());
    assert_eq!(r.rows_affected, 0);
    assert_eq!(r.error, Some(report));
}

#[test]
fn failed_query_carries_only_the_error() {
    let report = to_sql_db_error(&Error::Sqlx("pool timed out".to_string()));
    let r = QueryResult::failed(report);
    assert_eq!(r.num_rows, 0);
    assert!(r.columns.is_empty() && r.rows.is_empty());
    assert_eq!(r.error.unwrap().code, "db");
}
