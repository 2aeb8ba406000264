//! Parameter binding: each CBOR-encoded parameter becomes a value of one of
//! the engine's native types, integers widened to the narrowest native
//! width that holds them and never truncated.

use vstd::prelude::*;

use crate::cbor::{
    be_value, bool_of, bytes_of, cbor_type, datatype, int_of, read_be, read_bool, read_bytes,
    read_int, read_str, text_of, CborType,
};
use crate::error::Error;
use crate::model::{Engine, Statement};

verus! {

/// A parameter as bound to a statement. Floats are carried by their bits;
/// a half-precision float is bound as the single-precision value it denotes.
#[derive(Clone, Debug, PartialEq, Eq)]
pub enum BoundValue {
    Null,
    Bool(bool),
    I8(i8),
    I16(i16),
    I32(i32),
    I64(i64),
    U8(u8),
    U16(u16),
    U32(u32),
    U64(u64),
    F16(u16),
    F32(u32),
    F64(u64),
    Bytes(Vec<u8>),
    Text(String),
}

/// The mathematical content of a [`BoundValue`].
pub enum BoundView {
    Null,
    Bool(bool),
    I8(i8),
    I16(i16),
    I32(i32),
    I64(i64),
    U8(u8),
    U16(u16),
    U32(u32),
    U64(u64),
    F16(u16),
    F32(u32),
    F64(u64),
    Bytes(Seq<u8>),
    Text(Seq<char>),
}

impl View for BoundValue {
    type V = BoundView;

    open spec fn view(&self) -> BoundView {
        match self {
            BoundValue::Null => BoundView::Null,
            BoundValue::Bool(x) => BoundView::Bool(*x),
            BoundValue::I8(x) => BoundView::I8(*x),
            BoundValue::I16(x) => BoundView::I16(*x),
            BoundValue::I32(x) => BoundView::I32(*x),
            BoundValue::I64(x) => BoundView::I64(*x),
            BoundValue::U8(x) => BoundView::U8(*x),
            BoundValue::U16(x) => BoundView::U16(*x),
            BoundValue::U32(x) => BoundView::U32(*x),
            BoundValue::U64(x) => BoundView::U64(*x),
            BoundValue::F16(x) => BoundView::F16(*x),
            BoundValue::F32(x) => BoundView::F32(*x),
            BoundValue::F64(x) => BoundView::F64(*x),
            BoundValue::Bytes(b) => BoundView::Bytes(b@),
            BoundValue::Text(s) => BoundView::Text(s@),
        }
    }
}

/// Native integer widths.
#[derive(Clone, Copy, Debug, PartialEq, Eq, Structural)]
pub enum IntWidth {
    I8,
    I16,
    I32,
    I64,
    U8,
    U16,
    U32,
    U64,
}

/// Why a parameter could not be bound.
pub enum BindFault {
    /// Not well-formed CBOR.
    Decode,
    /// A kind that cannot be bound.
    Type(CborType),
    /// An integer that fits none of the candidate widths.
    IntRange(int),
    /// An unsigned 64-bit integer beyond the widest signed width.
    U64Range(u64),
}

/// Whether an error is the one that a fault describes.
pub open spec fn error_matches(e: Error, f: BindFault) -> bool {
    match f {
        BindFault::Decode => e is CborDe,
        BindFault::Type(t) => e == Error::CborDeType(t),
        BindFault::IntRange(v) => e == Error::CborDeIntOutOfRange(v as i128),
        BindFault::U64Range(v) => e == Error::CborDeU64OutOfRange(v),
    }
}

/// Whether `v` is representable in width `w`.
pub open spec fn fits(w: IntWidth, v: int) -> bool {
    match w {
        IntWidth::I8 => i8::MIN <= v <= i8::MAX,
        IntWidth::I16 => i16::MIN <= v <= i16::MAX,
        IntWidth::I32 => i32::MIN <= v <= i32::MAX,
        IntWidth::I64 => i64::MIN <= v <= i64::MAX,
        IntWidth::U8 => 0 <= v <= u8::MAX,
        IntWidth::U16 => 0 <= v <= u16::MAX,
        IntWidth::U32 => 0 <= v <= u32::MAX,
        IntWidth::U64 => 0 <= v <= u64::MAX,
    }
}

/// Whether a width is signed.
pub open spec fn is_signed(w: IntWidth) -> bool {
    w is I8 || w is I16 || w is I32 || w is I64
}

/// Number of bits of a width.
pub open spec fn bits_of(w: IntWidth) -> int {
    match w {
        IntWidth::I8 | IntWidth::U8 => 8,
        IntWidth::I16 | IntWidth::U16 => 16,
        IntWidth::I32 | IntWidth::U32 => 32,
        IntWidth::I64 | IntWidth::U64 => 64,
    }
}

/// The integer kinds of CBOR.
pub open spec fn is_int_type(t: CborType) -> bool {
    t is U8 || t is U16 || t is U32 || t is U64 || t is I8 || t is I16 || t is I32 || t is I64
        || t is Int
}

/// The unsigned integer kinds of CBOR.
pub open spec fn is_unsigned_type(t: CborType) -> bool {
    t is U8 || t is U16 || t is U32 || t is U64
}

/// The widths an integer of kind `t` and value `v` may be bound as on
/// engine `e`, narrowest first.
pub open spec fn candidates(e: Engine, t: CborType, v: int) -> Seq<IntWidth> {
    if e == Engine::MySql {
        match t {
            CborType::U8 => seq![IntWidth::U8],
            CborType::U16 => seq![IntWidth::U16],
            CborType::U32 => seq![IntWidth::U32],
            CborType::U64 => seq![IntWidth::U64],
            CborType::I8 => seq![IntWidth::I8],
            CborType::I16 => seq![IntWidth::I16],
            CborType::I32 => seq![IntWidth::I32],
            CborType::I64 => seq![IntWidth::I64],
            _ => if v < 0 {
                seq![IntWidth::I8, IntWidth::I16, IntWidth::I32, IntWidth::I64]
            } else {
                seq![IntWidth::U8, IntWidth::U16, IntWidth::U32, IntWidth::U64]
            },
        }
    } else {
        match t {
            CborType::U8 => if e == Engine::Mssql {
                seq![IntWidth::I8, IntWidth::I16]
            } else {
                seq![IntWidth::I16]
            },
            CborType::I8 => if e == Engine::Mssql {
                seq![IntWidth::I8]
            } else {
                seq![IntWidth::I16]
            },
            CborType::U16 => seq![IntWidth::I16, IntWidth::I32],
            CborType::I16 => seq![IntWidth::I16],
            CborType::U32 => seq![IntWidth::I32, IntWidth::I64],
            CborType::I32 => seq![IntWidth::I32],
            CborType::U64 | CborType::I64 => seq![IntWidth::I64],
            _ => seq![IntWidth::I16, IntWidth::I32, IntWidth::I64],
        }
    }
}

/// The first width of `ws` that holds `v`.
pub open spec fn first_fit(ws: Seq<IntWidth>, v: int) -> Option<IntWidth>
    decreases ws.len(),
{
    if ws.len() == 0 {
        None
    } else if fits(ws[0], v) {
        Some(ws[0])
    } else {
        first_fit(ws.drop_first(), v)
    }
}

/// The bound value of width `w` holding `v`.
pub open spec fn int_view(w: IntWidth, v: int) -> BoundView {
    match w {
        IntWidth::I8 => BoundView::I8(v as i8),
        IntWidth::I16 => BoundView::I16(v as i16),
        IntWidth::I32 => BoundView::I32(v as i32),
        IntWidth::I64 => BoundView::I64(v as i64),
        IntWidth::U8 => BoundView::U8(v as u8),
        IntWidth::U16 => BoundView::U16(v as u16),
        IntWidth::U32 => BoundView::U32(v as u32),
        IntWidth::U64 => BoundView::U64(v as u64),
    }
}

/// Binding of an integer of kind `t` and value `v` on engine `e`.
pub open spec fn bind_int(e: Engine, t: CborType, v: int) -> Result<BoundView, BindFault> {
    match first_fit(candidates(e, t, v), v) {
        Some(w) => Ok(int_view(w, v)),
        None => if t is U64 {
            Err(BindFault::U64Range(v as u64))
        } else {
            Err(BindFault::IntRange(v))
        },
    }
}

/// Binding of one encoded parameter on engine `e`.
pub open spec fn bind_spec(e: Engine, b: Seq<u8>) -> Result<BoundView, BindFault> {
    match cbor_type(b) {
        None => Err(BindFault::Decode),
        Some(t) => if t is Bool {
            match bool_of(b) {
                Some(x) => Ok(BoundView::Bool(x)),
                None => Err(BindFault::Decode),
            }
        } else if t is Null || t is Undefined {
            Ok(BoundView::Null)
        } else if is_int_type(t) {
            match int_of(b) {
                Some(v) => bind_int(e, t, v),
                None => Err(BindFault::Decode),
            }
        } else if t is F16 {
            if b.len() >= 3 {
                Ok(BoundView::F16(be_value(b.subrange(1, 3)) as u16))
            } else {
                Err(BindFault::Decode)
            }
        } else if t is F32 {
            if b.len() >= 5 {
                Ok(BoundView::F32(be_value(b.subrange(1, 5)) as u32))
            } else {
                Err(BindFault::Decode)
            }
        } else if t is F64 {
            if b.len() >= 9 {
                Ok(BoundView::F64(be_value(b.subrange(1, 9)) as u64))
            } else {
                Err(BindFault::Decode)
            }
        } else if t is Bytes && e != Engine::Mssql {
            match bytes_of(b) {
                Some(c) => Ok(BoundView::Bytes(c)),
                None => Err(BindFault::Decode),
            }
        } else if t is String {
            match text_of(b) {
                Some(s) => Ok(BoundView::Text(s)),
                None => Err(BindFault::Decode),
            }
        } else {
            Err(BindFault::Type(t))
        },
    }
}

/// Whether an outcome is the one that a specified binding describes.
pub open spec fn bind_matches(r: Result<BoundValue, Error>, s: Result<BoundView, BindFault>) -> bool {
    match s {
        Ok(v) => r is Ok && r->Ok_0@ == v,
        Err(f) => r is Err && error_matches(r->Err_0, f),
    }
}

fn fits_width(w: IntWidth, v: i128) -> (r: bool)
    ensures
        r == fits(w, v as int),
{
    match w {
        IntWidth::I8 => -128 <= v && v <= 127,
        IntWidth::I16 => -32768 <= v && v <= 32767,
        IntWidth::I32 => -2147483648 <= v && v <= 2147483647,
        IntWidth::I64 => -9223372036854775808 <= v && v <= 9223372036854775807,
        IntWidth::U8 => 0 <= v && v <= 255,
        IntWidth::U16 => 0 <= v && v <= 65535,
        IntWidth::U32 => 0 <= v && v <= 4294967295,
        IntWidth::U64 => 0 <= v && v <= 18446744073709551615,
    }
}

fn int_value(w: IntWidth, v: i128) -> (r: BoundValue)
    requires
        fits(w, v as int),
    ensures
        r@ == int_view(w, v as int),
{
    match w {
        IntWidth::I8 => BoundValue::I8(v as i8),
        IntWidth::I16 => BoundValue::I16(v as i16),
        IntWidth::I32 => BoundValue::I32(v as i32),
        IntWidth::I64 => BoundValue::I64(v as i64),
        IntWidth::U8 => BoundValue::U8(v as u8),
        IntWidth::U16 => BoundValue::U16(v as u16),
        IntWidth::U32 => BoundValue::U32(v as u32),
        IntWidth::U64 => BoundValue::U64(v as u64),
    }
}

fn candidate_widths(e: Engine, t: CborType, v: i128) -> (r: Vec<IntWidth>)
    ensures
        r@ == candidates(e, t, v as int),
{
    if e == Engine::MySql {
        match t {
            CborType::U8 => vec![IntWidth::U8],
            CborType::U16 => vec![IntWidth::U16],
            CborType::U32 => vec![IntWidth::U32],
            CborType::U64 => vec![IntWidth::U64],
            CborType::I8 => vec![IntWidth::I8],
            CborType::I16 => vec![IntWidth::I16],
            CborType::I32 => vec![IntWidth::I32],
            CborType::I64 => vec![IntWidth::I64],
            _ => if v < 0 {
                vec![IntWidth::I8, IntWidth::I16, IntWidth::I32, IntWidth::I64]
            } else {
                vec![IntWidth::U8, IntWidth::U16, IntWidth::U32, IntWidth::U64]
            },
        }
    } else {
        match t {
            CborType::U8 => if e == Engine::Mssql {
                vec![IntWidth::I8, IntWidth::I16]
            } else {
                vec![IntWidth::I16]
            },
            CborType::I8 => if e == Engine::Mssql {
                vec![IntWidth::I8]
            } else {
                vec![IntWidth::I16]
            },
            CborType::U16 => vec![IntWidth::I16, IntWidth::I32],
            CborType::I16 => vec![IntWidth::I16],
            CborType::U32 => vec![IntWidth::I32, IntWidth::I64],
            CborType::I32 => vec![IntWidth::I32],
            CborType::U64 | CborType::I64 => vec![IntWidth::I64],
            _ => vec![IntWidth::I16, IntWidth::I32, IntWidth::I64],
        }
    }
}

/// Binds an integer of kind `t` and value `v`: the first candidate width of
/// the engine that holds it, or the out-of-range error.
pub fn promote_int(e: Engine, t: CborType, v: i128) -> (r: Result<BoundValue, Error>)
    ensures
        bind_matches(r, bind_int(e, t, v as int)),
{
    let ws = candidate_widths(e, t, v);
    let mut i: usize = 0;
    assert(ws@.subrange(0, ws@.len() as int) =~= ws@);
    while i < ws.len()
        invariant
            0 <= i <= ws@.len(),
            ws@ == candidates(e, t, v as int),
            first_fit(ws@, v as int) == first_fit(ws@.subrange(i as int, ws@.len() as int), v as int),
        decreases ws@.len() - i,
    {
        let ghost rest = ws@.subrange(i as int, ws@.len() as int);
        assert(rest.drop_first() =~= ws@.subrange(i + 1, ws@.len() as int));
        assert(rest[0] == ws@[i as int]);
        if fits_width(ws[i], v) {
            assert(first_fit(rest, v as int) == Some(ws@[i as int]));
            return Ok(int_value(ws[i], v));
        }
        i = i + 1;
    }
    assert(ws@.subrange(ws@.len() as int, ws@.len() as int) =~= Seq::<IntWidth>::empty());
    if t == CborType::U64 {
        Err(Error::CborDeU64OutOfRange(#[verifier::truncate] (v as u64)))
    } else {
        Err(Error::CborDeIntOutOfRange(v))
    }
}

fn malformed() -> (r: Error)
    ensures
        r is CborDe,
{
    Error::CborDe("unexpected end of input".to_string())
}

/// Decodes one encoded parameter and binds it as the engine's native value.
pub fn bind_value(e: Engine, value: &[u8]) -> (r: Result<BoundValue, Error>)
    ensures
        bind_matches(r, bind_spec(e, value@)),
{
    let t = match datatype(value) {
        Some(t) => t,
        None => return Err(malformed()),
    };
    match t {
        CborType::Bool => match read_bool(value) {
            Ok(x) => Ok(BoundValue::Bool(x)),
            Err(m) => Err(Error::CborDe(m)),
        },
        CborType::Null | CborType::Undefined => Ok(BoundValue::Null),
        CborType::U8
        | CborType::U16
        | CborType::U32
        | CborType::U64
        | CborType::I8
        | CborType::I16
        | CborType::I32
        | CborType::I64
        | CborType::Int => match read_int(value) {
            Ok(v) => promote_int(e, t, v),
            Err(m) => Err(Error::CborDe(m)),
        },
        CborType::F16 => if value.len() >= 3 {
            Ok(BoundValue::F16(read_be(value, 1, 2) as u16))
        } else {
            Err(malformed())
        },
        CborType::F32 => if value.len() >= 5 {
            Ok(BoundValue::F32(read_be(value, 1, 4) as u32))
        } else {
            Err(malformed())
        },
        CborType::F64 => if value.len() >= 9 {
            Ok(BoundValue::F64(read_be(value, 1, 8)))
        } else {
            Err(malformed())
        },
        CborType::Bytes if e != Engine::Mssql => match read_bytes(value) {
            Ok(b) => Ok(BoundValue::Bytes(b)),
            Err(m) => Err(Error::CborDe(m)),
        },
        CborType::String => match read_str(value) {
            Ok(s) => Ok(BoundValue::Text(s)),
            Err(m) => Err(Error::CborDe(m)),
        },
        _ => Err(Error::CborDeType(t)),
    }
}

/// A statement with the parameters bound so far, for one engine.
#[derive(Clone, Debug, PartialEq, Eq)]
pub struct BoundQuery {
    pub engine: Engine,
    pub sql: String,
    pub params: Vec<BoundValue>,
}

impl BoundQuery {
    /// The bound parameters, in order.
    pub open spec fn bound_params(&self) -> Seq<BoundView> {
        self.params@.map_values(|p: BoundValue| p@)
    }

    /// A statement with no parameter bound yet.
    pub fn new(engine: Engine, sql: String) -> (r: BoundQuery)
        ensures
            r.engine == engine,
            r.sql@ == sql@,
            r.bound_params() == Seq::<BoundView>::empty(),
    {
        let r = BoundQuery { engine, sql, params: Vec::new() };
        assert(r.bound_params() =~= Seq::<BoundView>::empty());
        r
    }
}

/// Binding one more encoded parameter to a statement.
pub trait BindCbor where Self: Sized {
    fn bind_cbor(self, value: &[u8]) -> Result<Self, Error>;
}

impl BindCbor for BoundQuery {
    /// Appends the binding of `value`, or fails as [`bind_value`] does.
    fn bind_cbor(self, value: &[u8]) -> (r: Result<BoundQuery, Error>)
        ensures
            match bind_spec(self.engine, value@) {
                Ok(v) => r is Ok && r->Ok_0.engine == self.engine && r->Ok_0.sql@ == self.sql@
                    && r->Ok_0.bound_params() == self.bound_params().push(v),
                Err(f) => r is Err && error_matches(r->Err_0, f),
            },
    {
        let BoundQuery { engine, sql, params } = self;
        let mut params = params;
        match bind_value(engine, value) {
            Ok(b) => {
                params.push(b);
                let r = BoundQuery { engine, sql, params };
                assert(r.bound_params() =~= self.bound_params().push(b@));
                Ok(r)
            },
            Err(e) => Err(e),
        }
    }
}

/// Binding of a parameter list, in order; the first failure wins.
pub open spec fn bind_all(e: Engine, ps: Seq<Seq<u8>>) -> Result<Seq<BoundView>, BindFault>
    decreases ps.len(),
{
    if ps.len() == 0 {
        Ok(Seq::empty())
    } else {
        match bind_all(e, ps.drop_last()) {
            Err(f) => Err(f),
            Ok(vs) => match bind_spec(e, ps.last()) {
                Ok(v) => Ok(vs.push(v)),
                Err(f) => Err(f),
            },
        }
    }
}

/// Binds every parameter of a statement, in order, for engine `e`.
pub fn bind_query(e: Engine, stmt: &Statement) -> (r: Result<BoundQuery, Error>)
    ensures
        match bind_all(e, stmt.encoded_params()) {
            Ok(vs) => r is Ok && r->Ok_0.engine == e && r->Ok_0.sql@ == stmt.sql@
                && r->Ok_0.bound_params() == vs,
            Err(f) => r is Err && error_matches(r->Err_0, f),
        },
{
    let mut query = BoundQuery::new(e, stmt.sql.clone());
    match &stmt.parameters {
        None => {
            assert(stmt.encoded_params() =~= Seq::<Seq<u8>>::empty());
            Ok(query)
        },
        Some(ps) => {
            let ghost all = stmt.encoded_params();
            let mut i: usize = 0;
            while i < ps.len()
                invariant
                    0 <= i <= ps@.len(),
                    all == ps@.map_values(|p: Vec<u8>| p@),
                    all == stmt.encoded_params(),
                    query.engine == e,
                    query.sql@ == stmt.sql@,
                    bind_all(e, all.subrange(0, i as int)) == Ok::<Seq<BoundView>, BindFault>(
                        query.bound_params(),
                    ),
                decreases ps@.len() - i,
            {
                let ghost prefix = all.subrange(0, i + 1);
                assert(prefix.drop_last() =~= all.subrange(0, i as int));
                assert(prefix.last() == ps@[i as int]@);
                match query.bind_cbor(ps[i].as_slice()) {
                    Ok(q) => query = q,
                    Err(err) => {
                        proof {
                            let f = bind_spec(e, prefix.last())->Err_0;
                            assert(bind_all(e, prefix) == Err::<Seq<BoundView>, BindFault>(f));
                            lemma_bind_all_error(e, all, i + 1);
                        }
                        return Err(err);
                    },
                }
                i = i + 1;
            }
            assert(all.subrange(0, ps@.len() as int) =~= all);
            Ok(query)
        },
    }
}

/// A failure in a prefix of a parameter list is the failure of the whole list.
proof fn lemma_bind_all_error(e: Engine, ps: Seq<Seq<u8>>, n: int)
    requires
        0 <= n <= ps.len(),
        bind_all(e, ps.subrange(0, n)) is Err,
    ensures
        bind_all(e, ps) == bind_all(e, ps.subrange(0, n)),
    decreases ps.len() - n,
{
    if n < ps.len() {
        let next = ps.subrange(0, n + 1);
        assert(next.drop_last() =~= ps.subrange(0, n));
        lemma_bind_all_error(e, ps, n + 1);
    } else {
        assert(ps.subrange(0, n) =~= ps);
    }
}

} // verus!
