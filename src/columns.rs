//! The declared-type tables: for each engine, which declared column type
//! names are understood and as which kind of value each is read.

use vstd::prelude::*;

use crate::model::Engine;

verus! {

/// The kind of value a column holds, as the engine's declared type says.
#[derive(Clone, Copy, Debug, PartialEq, Eq, Structural)]
pub enum ColumnKind {
    Null,
    Bool,
    I8,
    I16,
    I32,
    I64,
    U8,
    U16,
    U32,
    U64,
    F32,
    F64,
    Text,
    Bytes,
    Timestamp,
    TimestampTz,
    Date,
    Time,
    Uuid,
    Json,
}

/// Whether two strings hold the same characters.
pub(crate) fn same(a: &str, b: &str) -> (r: bool)
    ensures
        r == (a@ == b@),
{
    a.to_owned() == b.to_owned()
}

/// The Postgres table.
pub open spec fn postgres_kind(name: Seq<char>) -> Option<ColumnKind> {
    if name == "OID"@ {
        Some(ColumnKind::U32)
    } else if name == "BOOL"@ {
        Some(ColumnKind::Bool)
    } else if name == "\"CHAR\""@ {
        Some(ColumnKind::I8)
    } else if name == "SMALLINT"@ || name == "SMALLSERIAL"@ || name == "INT2"@ {
        Some(ColumnKind::I16)
    } else if name == "INT"@ || name == "SERIAL"@ || name == "INT4"@ {
        Some(ColumnKind::I32)
    } else if name == "BIGINT"@ || name == "BIGSERIAL"@ || name == "INT8"@ {
        Some(ColumnKind::I64)
    } else if name == "REAL"@ || name == "FLOAT4"@ {
        Some(ColumnKind::F32)
    } else if name == "DOUBLE PRECISION"@ || name == "FLOAT8"@ {
        Some(ColumnKind::F64)
    } else if name == "VARCHAR"@ || name == "CHAR"@ || name == "TEXT"@ || name == "NAME"@ {
        Some(ColumnKind::Text)
    } else if name == "BYTEA"@ {
        Some(ColumnKind::Bytes)
    } else if name == "TIMESTAMP"@ {
        Some(ColumnKind::Timestamp)
    } else if name == "TIMESTAMPTZ"@ {
        Some(ColumnKind::TimestampTz)
    } else if name == "DATE"@ {
        Some(ColumnKind::Date)
    } else if name == "TIME"@ {
        Some(ColumnKind::Time)
    } else if name == "UUID"@ {
        Some(ColumnKind::Uuid)
    } else if name == "JSON"@ || name == "JSONB"@ {
        Some(ColumnKind::Json)
    } else if name == "NULL"@ || name == "VOID"@ {
        Some(ColumnKind::Null)
    } else {
        None
    }
}

fn postgres_column_kind(name: &str) -> (r: Option<ColumnKind>)
    ensures
        r == postgres_kind(name@),
{
    if same(name, "OID") {
        Some(ColumnKind::U32)
    } else if same(name, "BOOL") {
        Some(ColumnKind::Bool)
    } else if same(name, "\"CHAR\"") {
        Some(ColumnKind::I8)
    } else if same(name, "SMALLINT") || same(name, "SMALLSERIAL") || same(name, "INT2") {
        Some(ColumnKind::I16)
    } else if same(name, "INT") || same(name, "SERIAL") || same(name, "INT4") {
        Some(ColumnKind::I32)
    } else if same(name, "BIGINT") || same(name, "BIGSERIAL") || same(name, "INT8") {
        Some(ColumnKind::I64)
    } else if same(name, "REAL") || same(name, "FLOAT4") {
        Some(ColumnKind::F32)
    } else if same(name, "DOUBLE PRECISION") || same(name, "FLOAT8") {
        Some(ColumnKind::F64)
    } else if same(name, "VARCHAR") || same(name, "CHAR") || same(name, "TEXT") || same(name, "NAME") {
        Some(ColumnKind::Text)
    } else if same(name, "BYTEA") {
        Some(ColumnKind::Bytes)
    } else if same(name, "TIMESTAMP") {
        Some(ColumnKind::Timestamp)
    } else if same(name, "TIMESTAMPTZ") {
        Some(ColumnKind::TimestampTz)
    } else if same(name, "DATE") {
        Some(ColumnKind::Date)
    } else if same(name, "TIME") {
        Some(ColumnKind::Time)
    } else if same(name, "UUID") {
        Some(ColumnKind::Uuid)
    } else if same(name, "JSON") || same(name, "JSONB") {
        Some(ColumnKind::Json)
    } else if same(name, "NULL") || same(name, "VOID") {
        Some(ColumnKind::Null)
    } else {
        None
    }
}

/// The MySql table.
pub open spec fn mysql_kind(name: Seq<char>) -> Option<ColumnKind> {
    if name == "BOOLEAN"@ {
        Some(ColumnKind::Bool)
    } else if name == "TINYINT"@ {
        Some(ColumnKind::I8)
    } else if name == "SMALLINT"@ {
        Some(ColumnKind::I16)
    } else if name == "INT"@ {
        Some(ColumnKind::I32)
    } else if name == "BIGINT"@ {
        Some(ColumnKind::I64)
    } else if name == "TINYINT UNSIGNED"@ {
        Some(ColumnKind::U8)
    } else if name == "SMALLINT UNSIGNED"@ {
        Some(ColumnKind::U16)
    } else if name == "INT UNSIGNED"@ {
        Some(ColumnKind::U32)
    } else if name == "BIGINT UNSIGNED"@ {
        Some(ColumnKind::U64)
    } else if name == "FLOAT"@ {
        Some(ColumnKind::F32)
    } else if name == "DOUBLE"@ {
        Some(ColumnKind::F64)
    } else if name == "CHAR"@ || name == "VARCHAR"@ || name == "TINYTEXT"@ || name == "TEXT"@ || name == "MEDIUMTEXT"@ || name == "LONGTEXT"@ {
        Some(ColumnKind::Text)
    } else if name == "BINARY"@ || name == "VARBINARY"@ || name == "TINYBLOB"@ || name == "BLOB"@ || name == "MEDIUMBLOB"@ || name == "LONGBLOB"@ {
        Some(ColumnKind::Bytes)
    } else if name == "DATETIME"@ {
        Some(ColumnKind::Timestamp)
    } else if name == "TIMESTAMP"@ {
        Some(ColumnKind::TimestampTz)
    } else if name == "DATE"@ {
        Some(ColumnKind::Date)
    } else if name == "TIME"@ {
        Some(ColumnKind::Time)
    } else if name == "UUID"@ {
        Some(ColumnKind::Uuid)
    } else if name == "JSON"@ {
        Some(ColumnKind::Json)
    } else if name == "NULL"@ || name == "VOID"@ {
        Some(ColumnKind::Null)
    } else {
        None
    }
}

fn mysql_column_kind(name: &str) -> (r: Option<ColumnKind>)
    ensures
        r == mysql_kind(name@),
{
    if same(name, "BOOLEAN") {
        Some(ColumnKind::Bool)
    } else if same(name, "TINYINT") {
        Some(ColumnKind::I8)
    } else if same(name, "SMALLINT") {
        Some(ColumnKind::I16)
    } else if same(name, "INT") {
        Some(ColumnKind::I32)
    } else if same(name, "BIGINT") {
        Some(ColumnKind::I64)
    } else if same(name, "TINYINT UNSIGNED") {
        Some(ColumnKind::U8)
    } else if same(name, "SMALLINT UNSIGNED") {
        Some(ColumnKind::U16)
    } else if same(name, "INT UNSIGNED") {
        Some(ColumnKind::U32)
    } else if same(name, "BIGINT UNSIGNED") {
        Some(ColumnKind::U64)
    } else if same(name, "FLOAT") {
        Some(ColumnKind::F32)
    } else if same(name, "DOUBLE") {
        Some(ColumnKind::F64)
    } else if same(name, "CHAR") || same(name, "VARCHAR") || same(name, "TINYTEXT") || same(name, "TEXT") || same(name, "MEDIUMTEXT") || same(name, "LONGTEXT") {
        Some(ColumnKind::Text)
    } else if same(name, "BINARY") || same(name, "VARBINARY") || same(name, "TINYBLOB") || same(name, "BLOB") || same(name, "MEDIUMBLOB") || same(name, "LONGBLOB") {
        Some(ColumnKind::Bytes)
    } else if same(name, "DATETIME") {
        Some(ColumnKind::Timestamp)
    } else if same(name, "TIMESTAMP") {
        Some(ColumnKind::TimestampTz)
    } else if same(name, "DATE") {
        Some(ColumnKind::Date)
    } else if same(name, "TIME") {
        Some(ColumnKind::Time)
    } else if same(name, "UUID") {
        Some(ColumnKind::Uuid)
    } else if same(name, "JSON") {
        Some(ColumnKind::Json)
    } else if same(name, "NULL") || same(name, "VOID") {
        Some(ColumnKind::Null)
    } else {
        None
    }
}

/// The Mssql table.
pub open spec fn mssql_kind(name: Seq<char>) -> Option<ColumnKind> {
    if name == "BOOLEAN"@ {
        Some(ColumnKind::Bool)
    } else if name == "TINYINT"@ {
        Some(ColumnKind::I8)
    } else if name == "SMALLINT"@ {
        Some(ColumnKind::I16)
    } else if name == "INT"@ {
        Some(ColumnKind::I32)
    } else if name == "BIGINT"@ {
        Some(ColumnKind::I64)
    } else if name == "REAL"@ {
        Some(ColumnKind::F32)
    } else if name == "FLOAT"@ {
        Some(ColumnKind::F64)
    } else if name == "CHAR"@ || name == "BIGCHAR"@ || name == "NCHAR"@ || name == "VARCHAR"@ || name == "NVARCHAR"@ || name == "BIGVARCHAR"@ {
        Some(ColumnKind::Text)
    } else {
        None
    }
}

fn mssql_column_kind(name: &str) -> (r: Option<ColumnKind>)
    ensures
        r == mssql_kind(name@),
{
    if same(name, "BOOLEAN") {
        Some(ColumnKind::Bool)
    } else if same(name, "TINYINT") {
        Some(ColumnKind::I8)
    } else if same(name, "SMALLINT") {
        Some(ColumnKind::I16)
    } else if same(name, "INT") {
        Some(ColumnKind::I32)
    } else if same(name, "BIGINT") {
        Some(ColumnKind::I64)
    } else if same(name, "REAL") {
        Some(ColumnKind::F32)
    } else if same(name, "FLOAT") {
        Some(ColumnKind::F64)
    } else if same(name, "CHAR") || same(name, "BIGCHAR") || same(name, "NCHAR") || same(name, "VARCHAR") || same(name, "NVARCHAR") || same(name, "BIGVARCHAR") {
        Some(ColumnKind::Text)
    } else {
        None
    }
}

/// The kind that a declared type name has on an engine; `None` where the
/// name is outside the engine's table.
pub open spec fn kind_of(e: Engine, name: Seq<char>) -> Option<ColumnKind> {
    match e {
        Engine::Postgres => postgres_kind(name),
        Engine::MySql => mysql_kind(name),
        Engine::Mssql => mssql_kind(name),
    }
}

/// Looks a declared type name up in the engine's table.
pub fn column_kind(e: Engine, declared: &str) -> (r: Option<ColumnKind>)
    ensures
        r == kind_of(e, declared@),
{
    match e {
        Engine::Postgres => postgres_column_kind(declared),
        Engine::MySql => mysql_column_kind(declared),
        Engine::Mssql => mssql_column_kind(declared),
    }
}

} // verus!
