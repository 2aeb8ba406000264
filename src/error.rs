//! Errors of the codecs and of the pool registry, and the coarse category
//! under which each reaches a caller.

use vstd::prelude::*;

use crate::cbor::CborType;
use crate::temporal::{digit, digit_char, hex_char, hex_digit, push_char};
use crate::model::SqlDbError;

verus! {

/// Failures of binding parameters, encoding rows, linking tenants and
/// checking out connections.
#[derive(Clone, Debug, PartialEq, Eq)]
pub enum Error {
    /// A parameter is not well-formed CBOR (with the decoder's message).
    CborDe(String),
    /// A parameter decodes to a kind that cannot be bound.
    CborDeType(CborType),
    /// An integer parameter fits none of the engine's integer widths.
    CborDeIntOutOfRange(i128),
    /// An unsigned 64-bit parameter exceeds the engine's widest signed width.
    CborDeU64OutOfRange(u64),
    /// The result payload could not be written.
    CborSer(String),
    /// The connection is to an engine that is not supported.
    ConfigDatabaseNotSupported,
    /// The engine rejected the statement or could not be reached.
    Db(String),
    /// A result column has a declared type outside the engine's table.
    DbType(String),
    /// A JSON value could not be serialized.
    SerdeJson(String),
    /// A value read from the engine could not be decoded.
    Sqlx(String),
    /// A date or time value could not be formatted.
    TimeFormat(String),
    /// The link configuration is missing or invalid.
    ProviderInit(String),
    /// No pool is linked for the tenant.
    NotLinked(String),
}

/// Category of each error, as reported to callers.
pub open spec fn error_code(e: Error) -> Seq<char> {
    match e {
        Error::ConfigDatabaseNotSupported | Error::ProviderInit(_) | Error::NotLinked(_) => "config"@,
        Error::CborDe(_)
        | Error::CborDeType(_)
        | Error::CborDeIntOutOfRange(_)
        | Error::CborDeU64OutOfRange(_) => "decoding"@,
        Error::CborSer(_) | Error::SerdeJson(_) | Error::TimeFormat(_) => "encoding"@,
        Error::DbType(_) => "encoding"@,
        Error::Db(_) | Error::Sqlx(_) => "db"@,
    }
}

impl Error {
    /// Category of this error: "config", "decoding", "encoding" or "db".
    pub fn code(&self) -> (r: &'static str)
        ensures
            r@ == error_code(*self),
    {
        match self {
            Error::ConfigDatabaseNotSupported | Error::ProviderInit(_) | Error::NotLinked(_) => "config",
            Error::CborDe(_)
            | Error::CborDeType(_)
            | Error::CborDeIntOutOfRange(_)
            | Error::CborDeU64OutOfRange(_) => "decoding",
            Error::CborSer(_) | Error::SerdeJson(_) | Error::TimeFormat(_) => "encoding",
            Error::DbType(_) => "encoding",
            Error::Db(_) | Error::Sqlx(_) => "db",
        }
    }
}

/// Decimal digits of `n`.
pub open spec fn decimal(n: nat) -> Seq<char>
    decreases n,
{
    if n < 10 {
        seq![digit_char(n as int)]
    } else {
        decimal(n / 10).push(digit_char((n % 10) as int))
    }
}

/// An integer in decimal, after a minus sign where it is negative.
pub open spec fn signed_decimal(v: int) -> Seq<char> {
    if v < 0 {
        seq!['-'] + decimal((-v) as nat)
    } else {
        decimal(v as nat)
    }
}

/// `0x` and the lowercase hexadecimal digits of a byte.
pub open spec fn hex_byte(n: u8) -> Seq<char> {
    if n < 16 {
        seq!['0', 'x', hex_char(n as int)]
    } else {
        seq!['0', 'x', hex_char(n as int / 16), hex_char(n as int % 16)]
    }
}

/// The name the decoder gives to each kind of data item.
pub open spec fn kind_name(t: CborType) -> Seq<char> {
    match t {
        CborType::Bool => "bool"@,
        CborType::Null => "null"@,
        CborType::Undefined => "undefined"@,
        CborType::U8 => "u8"@,
        CborType::U16 => "u16"@,
        CborType::U32 => "u32"@,
        CborType::U64 => "u64"@,
        CborType::I8 => "i8"@,
        CborType::I16 => "i16"@,
        CborType::I32 => "i32"@,
        CborType::I64 => "i64"@,
        CborType::Int => "int"@,
        CborType::F16 => "f16"@,
        CborType::F32 => "f32"@,
        CborType::F64 => "f64"@,
        CborType::Simple => "simple"@,
        CborType::Bytes => "bytes"@,
        CborType::BytesIndef => "indefinite bytes"@,
        CborType::String => "string"@,
        CborType::StringIndef => "indefinite string"@,
        CborType::Array => "array"@,
        CborType::ArrayIndef => "indefinite array"@,
        CborType::Mapping => "map"@,
        CborType::MapIndef => "indefinite map"@,
        CborType::Tag => "tag"@,
        CborType::Break => "break"@,
        CborType::Unknown(n) => hex_byte(n),
    }
}

/// The message of each error.
pub open spec fn error_message(e: Error) -> Seq<char> {
    match e {
        Error::CborDe(m) => m@,
        Error::CborDeType(t) => "unsupported CBOR type: `"@ + kind_name(t) + "`"@,
        Error::CborDeIntOutOfRange(v) => "CBOR int value out of range: `"@ + signed_decimal(v as int)
            + "`"@,
        Error::CborDeU64OutOfRange(v) => "CBOR u64 value out of range: `"@ + decimal(v as nat) + "`"@,
        Error::CborSer(m) => m@,
        Error::ConfigDatabaseNotSupported => "unsupported database"@,
        Error::Db(m) => m@,
        Error::DbType(t) => "unsupported database type: `"@ + t@ + "`"@,
        Error::SerdeJson(m) => m@,
        Error::Sqlx(m) => m@,
        Error::TimeFormat(m) => m@,
        Error::ProviderInit(m) => m@,
        Error::NotLinked(t) => "actor not linked:"@ + t@,
    }
}

fn push_decimal(s: &mut String, n: u128)
    ensures
        final(s)@ == old(s)@ + decimal(n as nat),
    decreases n,
{
    if n >= 10 {
        push_decimal(s, n / 10);
    }
    let c = digit((n % 10) as u32);
    push_char(s, c);
    assert(s@ =~= old(s)@ + decimal(n as nat));
}

fn push_signed_decimal(s: &mut String, v: i128)
    ensures
        final(s)@ == old(s)@ + signed_decimal(v as int),
{
    if v < 0 {
        push_char(s, '-');
        let magnitude: u128 = ((-(v + 1)) as u128) + 1;
        push_decimal(s, magnitude);
    } else {
        push_decimal(s, v as u128);
    }
    assert(s@ =~= old(s)@ + signed_decimal(v as int));
}

fn push_hex_byte(s: &mut String, n: u8)
    ensures
        final(s)@ == old(s)@ + hex_byte(n),
{
    push_char(s, '0');
    push_char(s, 'x');
    if n < 16 {
        push_char(s, hex_digit(n as u32));
    } else {
        push_char(s, hex_digit((n / 16) as u32));
        push_char(s, hex_digit((n % 16) as u32));
    }
    assert(s@ =~= old(s)@ + hex_byte(n));
}

fn text(lit: &str) -> (r: String)
    ensures
        r@ == lit@,
{
    String::from_str(lit)
}

fn push_kind_name(s: &mut String, t: CborType)
    ensures
        final(s)@ == old(s)@ + kind_name(t),
{
    let name: &str = match t {
        CborType::Bool => "bool",
        CborType::Null => "null",
        CborType::Undefined => "undefined",
        CborType::U8 => "u8",
        CborType::U16 => "u16",
        CborType::U32 => "u32",
        CborType::U64 => "u64",
        CborType::I8 => "i8",
        CborType::I16 => "i16",
        CborType::I32 => "i32",
        CborType::I64 => "i64",
        CborType::Int => "int",
        CborType::F16 => "f16",
        CborType::F32 => "f32",
        CborType::F64 => "f64",
        CborType::Simple => "simple",
        CborType::Bytes => "bytes",
        CborType::BytesIndef => "indefinite bytes",
        CborType::String => "string",
        CborType::StringIndef => "indefinite string",
        CborType::Array => "array",
        CborType::ArrayIndef => "indefinite array",
        CborType::Mapping => "map",
        CborType::MapIndef => "indefinite map",
        CborType::Tag => "tag",
        CborType::Break => "break",
        CborType::Unknown(n) => {
            push_hex_byte(s, n);
            return;
        },
    };
    s.append(name);
}

impl Error {
    /// The message of this error, as reported to callers.
    pub fn message(&self) -> (r: String)
        ensures
            r@ == error_message(*self),
    {
        match self {
            Error::CborDe(m) | Error::CborSer(m) | Error::Db(m) | Error::SerdeJson(m) | Error::Sqlx(m)
            | Error::TimeFormat(m) | Error::ProviderInit(m) => m.clone(),
            Error::CborDeType(t) => {
                let mut s = text("unsupported CBOR type: `");
                push_kind_name(&mut s, *t);
                s.append("`");
                s
            },
            Error::CborDeIntOutOfRange(v) => {
                let mut s = text("CBOR int value out of range: `");
                push_signed_decimal(&mut s, *v);
                s.append("`");
                s
            },
            Error::CborDeU64OutOfRange(v) => {
                let mut s = text("CBOR u64 value out of range: `");
                push_decimal(&mut s, *v as u128);
                s.append("`");
                s
            },
            Error::ConfigDatabaseNotSupported => text("unsupported database"),
            Error::DbType(t) => {
                let mut s = text("unsupported database type: `");
                s.append(t.as_str());
                s.append("`");
                s
            },
            Error::NotLinked(t) => {
                let mut s = text("actor not linked:");
                s.append(t.as_str());
                s
            },
        }
    }
}

/// The structured error reported to callers: the category and the message
/// of `e`.
pub fn to_sql_db_error(e: &Error) -> (r: SqlDbError)
    ensures
        r.code@ == error_code(*e),
        r.message@ == error_message(*e),
{
    SqlDbError { code: e.code().to_owned(), message: e.message() }
}

} // verus!
