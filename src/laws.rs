//! Properties that relate the codecs to one another, proved over their
//! specifications.

use vstd::prelude::*;

use crate::bind::{
    bind_int, bind_spec, bits_of, candidates, first_fit, fits, int_view, is_int_type, is_signed,
    is_unsigned_type, BindFault, BoundView, IntWidth,
};
use crate::cbor::{
    be_bytes, be_value, head, head_arg, head_len, info_of, major_of, pow256, bool_bytes, bool_of, byte_string_bytes, bytes_of, cbor_type, f32_bytes, f64_bytes,
    int_bytes, int_of, null_bytes, text_bytes, text_of, CborType,
};
use crate::model::Engine;
use vstd::utf8::{decode_utf8, encode_utf8, encode_utf8_decode_utf8, encode_utf8_valid_utf8};
use crate::rows::{cell_bytes, cells_bytes, payload, row_bytes, rows_bytes, CellView};

verus! {

/// What the engine holds and gives back for a bound value, read as a cell
/// of the matching column type. Half-precision floats are stored as the
/// single-precision value they denote, which has no cell here.
pub open spec fn stored(v: BoundView) -> Option<CellView> {
    match v {
        BoundView::Null => Some(CellView::Null),
        BoundView::Bool(x) => Some(CellView::Bool(x)),
        BoundView::I8(x) => Some(CellView::Int(x as int)),
        BoundView::I16(x) => Some(CellView::Int(x as int)),
        BoundView::I32(x) => Some(CellView::Int(x as int)),
        BoundView::I64(x) => Some(CellView::Int(x as int)),
        BoundView::U8(x) => Some(CellView::Int(x as int)),
        BoundView::U16(x) => Some(CellView::Int(x as int)),
        BoundView::U32(x) => Some(CellView::Int(x as int)),
        BoundView::U64(x) => Some(CellView::Int(x as int)),
        BoundView::F16(_) => None,
        BoundView::F32(bits) => Some(CellView::F32(bits)),
        BoundView::F64(bits) => Some(CellView::F64(bits)),
        BoundView::Bytes(b) => Some(CellView::Bytes(b)),
        BoundView::Text(s) => Some(CellView::Text(s)),
    }
}

/// The integer a bound value holds, if it is an integer.
pub open spec fn int_value_of(v: BoundView) -> Option<int> {
    match v {
        BoundView::I8(x) => Some(x as int),
        BoundView::I16(x) => Some(x as int),
        BoundView::I32(x) => Some(x as int),
        BoundView::I64(x) => Some(x as int),
        BoundView::U8(x) => Some(x as int),
        BoundView::U16(x) => Some(x as int),
        BoundView::U32(x) => Some(x as int),
        BoundView::U64(x) => Some(x as int),
        _ => None,
    }
}

/// The width of a bound integer value.
pub open spec fn width_of(v: BoundView) -> Option<IntWidth> {
    match v {
        BoundView::I8(_) => Some(IntWidth::I8),
        BoundView::I16(_) => Some(IntWidth::I16),
        BoundView::I32(_) => Some(IntWidth::I32),
        BoundView::I64(_) => Some(IntWidth::I64),
        BoundView::U8(_) => Some(IntWidth::U8),
        BoundView::U16(_) => Some(IntWidth::U16),
        BoundView::U32(_) => Some(IntWidth::U32),
        BoundView::U64(_) => Some(IntWidth::U64),
        _ => None,
    }
}

/// The shortest encoding of the scalar that `b` starts with: what an
/// encoder writes for the decoded value.
pub open spec fn canonical(b: Seq<u8>) -> Option<Seq<u8>> {
    match cbor_type(b) {
        Some(CborType::Bool) => match bool_of(b) {
            Some(x) => Some(bool_bytes(x)),
            None => None,
        },
        Some(CborType::Null) | Some(CborType::Undefined) => Some(null_bytes()),
        Some(CborType::F32) => Some(f32_bytes(be_value(b.subrange(1, 5)) as u32)),
        Some(CborType::F64) => Some(f64_bytes(be_value(b.subrange(1, 9)) as u64)),
        Some(CborType::Bytes) => match bytes_of(b) {
            Some(c) => Some(byte_string_bytes(c)),
            None => None,
        },
        Some(CborType::String) => match text_of(b) {
            Some(s) => Some(text_bytes(s)),
            None => None,
        },
        Some(t) => if is_int_type(t) {
            match int_of(b) {
                Some(v) => Some(int_bytes(v)),
                None => None,
            }
        } else {
            None
        },
        None => None,
    }
}

/// The first width that fits is a candidate that holds the value, and no
/// earlier candidate holds it.
pub proof fn lemma_first_fit(ws: Seq<IntWidth>, v: int)
    requires
        first_fit(ws, v) is Some,
    ensures
        fits(first_fit(ws, v)->Some_0, v),
        exists|i: int|
            0 <= i < ws.len() && ws[i] == first_fit(ws, v)->Some_0 && forall|j: int|
                0 <= j < i ==> !fits(#[trigger] ws[j], v),
    decreases ws.len(),
{
    if fits(ws[0], v) {
        assert(ws[0] == first_fit(ws, v)->Some_0);
    } else {
        let rest = ws.drop_first();
        lemma_first_fit(rest, v);
        let i = choose|i: int|
            0 <= i < rest.len() && rest[i] == first_fit(rest, v)->Some_0 && forall|j: int|
                0 <= j < i ==> !fits(#[trigger] rest[j], v);
        assert forall|j: int| 0 <= j < i + 1 implies !fits(#[trigger] ws[j], v) by {
            if j > 0 {
                assert(ws[j] == rest[j - 1]);
            }
        }
        assert(ws[i + 1] == rest[i]);
    }
}

/// A value bound in a width that holds it keeps its value.
pub proof fn lemma_int_view_value(w: IntWidth, v: int)
    requires
        fits(w, v),
    ensures
        int_value_of(int_view(w, v)) == Some(v),
        width_of(int_view(w, v)) == Some(w),
        stored(int_view(w, v)) == Some(CellView::Int(v)),
{
}

/// Integer binding never truncates: a bound integer holds exactly the
/// decoded value, in a width that represents it.
pub proof fn lemma_int_lossless(e: Engine, b: Seq<u8>)
    requires
        cbor_type(b) is Some,
        is_int_type(cbor_type(b)->Some_0),
        bind_spec(e, b) is Ok,
    ensures
        int_of(b) is Some,
        int_value_of(bind_spec(e, b)->Ok_0) == int_of(b),
        fits(width_of(bind_spec(e, b)->Ok_0)->Some_0, int_of(b)->Some_0),
{
    let t = cbor_type(b)->Some_0;
    let v = int_of(b)->Some_0;
    lemma_first_fit(candidates(e, t, v), v);
    lemma_int_view_value(first_fit(candidates(e, t, v), v)->Some_0, v);
}

/// Round trip: every parameter that binds (but for half-precision floats)
/// is stored as a value whose cell encodes to the shortest encoding of the
/// decoded scalar; where the parameter was so encoded, the bytes come back
/// unchanged.
pub proof fn lemma_round_trip(e: Engine, b: Seq<u8>)
    requires
        bind_spec(e, b) is Ok,
        !(bind_spec(e, b)->Ok_0 is F16),
    ensures
        canonical(b) is Some,
        stored(bind_spec(e, b)->Ok_0) is Some,
        cell_bytes(stored(bind_spec(e, b)->Ok_0)->Some_0) == canonical(b),
        canonical(b) == Some(b) ==> cell_bytes(stored(bind_spec(e, b)->Ok_0)->Some_0) == Some(b),
{
    let t = cbor_type(b)->Some_0;
    if is_int_type(t) {
        lemma_int_lossless(e, b);
        let v = int_of(b)->Some_0;
        lemma_int_view_value(first_fit(candidates(e, t, v), v)->Some_0, v);
    }
}

/// Writing `n` big-endian bytes and reading them back gives the value.
pub proof fn lemma_be_round(a: nat, n: nat)
    requires
        a < pow256(n),
    ensures
        be_bytes(a, n).len() == n,
        be_value(be_bytes(a, n)) == a,
    decreases n,
{
    if n > 0 {
        assert(a / 256 < pow256((n - 1) as nat)) by (nonlinear_arith)
            requires
                a < 256 * pow256((n - 1) as nat),
        ;
        lemma_be_round(a / 256, (n - 1) as nat);
        assert(be_bytes(a, n).drop_last() =~= be_bytes(a / 256, (n - 1) as nat));
    } else {
        assert(a == 0) by {
            reveal_with_fuel(pow256, 1);
        }
    }
}

/// The first of `n` big-endian bytes is the value divided by `256^(n-1)`.
pub proof fn lemma_be_first(a: nat, n: nat)
    requires
        n >= 1,
        a < pow256(n),
    ensures
        be_bytes(a, n)[0] == a / pow256((n - 1) as nat),
    decreases n,
{
    lemma_be_round(a, n);
    if n == 1 {
        assert(pow256(0) == 1);
        assert(pow256(1) == 256) by {
            reveal_with_fuel(pow256, 2);
        }
    } else {
        let p = pow256((n - 2) as nat);
        assert(a / 256 < pow256((n - 1) as nat)) by (nonlinear_arith)
            requires
                a < 256 * pow256((n - 1) as nat),
        ;
        lemma_be_round(a / 256, (n - 1) as nat);
        lemma_be_first(a / 256, (n - 1) as nat);
        assert(be_bytes(a, n)[0] == be_bytes(a / 256, (n - 1) as nat)[0]);
        assert(pow256((n - 1) as nat) == 256 * p);
        assert((a / 256) / p == a / (256 * p)) by {
            vstd::arithmetic::div_mod::lemma_div_denominator(a as int, 256, p as int);
        }
    }
}

/// The shortest head of major types 0 to 3 reads back as that major type
/// and argument.
pub proof fn lemma_head_round(m: nat, a: nat)
    requires
        m <= 3,
        a < 0x1_0000_0000_0000_0000,
    ensures
        head(m, a).len() >= 1,
        major_of(head(m, a)[0]) == m,
        head_arg(head(m, a)) == Some(a),
        head(m, a).len() == head_len(head(m, a)),
{
    reveal_with_fuel(pow256, 9);
    let b = head(m, a);
    if a < 24 {
    } else if a < 0x100 {
        lemma_be_round(a, 1);
        assert(b.subrange(1, 2) =~= be_bytes(a, 1));
    } else if a < 0x1_0000 {
        lemma_be_round(a, 2);
        assert(b.subrange(1, 3) =~= be_bytes(a, 2));
    } else if a < 0x1_0000_0000 {
        lemma_be_round(a, 4);
        assert(b.subrange(1, 5) =~= be_bytes(a, 4));
    } else {
        lemma_be_round(a, 8);
        assert(b.subrange(1, 9) =~= be_bytes(a, 8));
    }
}

/// Round trip of integers: on every engine, each integer of the signed
/// 64-bit range, in its shortest encoding, binds, and the value stored for
/// it encodes to the same bytes.
#[verifier::rlimit(80)]
pub proof fn lemma_int_round_trip(e: Engine, v: int)
    requires
        -0x8000_0000_0000_0000 <= v < 0x8000_0000_0000_0000,
    ensures
        bind_spec(e, int_bytes(v)) is Ok,
        stored(bind_spec(e, int_bytes(v))->Ok_0) is Some,
        cell_bytes(stored(bind_spec(e, int_bytes(v))->Ok_0)->Some_0) == Some(int_bytes(v)),
{
    reveal_with_fuel(pow256, 9);
    let b = int_bytes(v);
    let m: nat = if v >= 0 { 0 } else { 1 };
    let a: nat = if v >= 0 { v as nat } else { (-1 - v) as nat };
    lemma_head_round(m, a);
    assert(int_of(b) == Some(v));
    let t = cbor_type(b)->Some_0;
    if v < 0 && 0x100 <= a < 0x1_0000 {
        lemma_be_first(a, 2);
        assert(b[1] == be_bytes(a, 2)[0]);
    } else if v < 0 && 0x1_0000 <= a < 0x1_0000_0000 {
        lemma_be_first(a, 4);
        assert(b[1] == be_bytes(a, 4)[0]);
    } else if v < 0 && 0x1_0000_0000 <= a {
        lemma_be_first(a, 8);
        assert(b[1] == be_bytes(a, 8)[0]);
    }
    assert(cbor_type(b) is Some && is_int_type(t));
    reveal_with_fuel(first_fit, 5);
    if v >= 0 {
        if a < 0x100 {
            assert(t == CborType::U8);
        } else if a < 0x1_0000 {
            assert(t == CborType::U16);
        } else if a < 0x1_0000_0000 {
            assert(t == CborType::U32);
        } else {
            assert(t == CborType::U64);
        }
    } else {
        if a < 24 {
            assert(t == CborType::I8);
        } else if a < 0x80 {
            assert(t == CborType::I8);
        } else if a < 0x100 {
            assert(t == CborType::I16);
        } else if a < 0x8000 {
            assert(t == CborType::I16);
        } else if a < 0x1_0000 {
            assert(t == CborType::I32);
        } else if a < 0x8000_0000 {
            assert(a / 0x100_0000 < 0x80) by (nonlinear_arith)
                requires
                    a < 0x8000_0000,
            ;
            assert(t == CborType::I32);
        } else if a < 0x1_0000_0000 {
            assert(t == CborType::I64);
        } else {
            assert(a / 0x100_0000_0000_0000 < 0x80) by (nonlinear_arith)
                requires
                    a < 0x8000_0000_0000_0000,
            ;
            assert(t == CborType::I64);
        }
    }
    assert(first_fit(candidates(e, t, v), v) is Some);
    assert(bind_spec(e, b) is Ok);
    lemma_round_trip(e, b);
}

/// A complete head followed by anything reads as the head alone.
proof fn lemma_head_prefix(m: nat, a: nat, rest: Seq<u8>)
    requires
        m <= 3,
        a < 0x1_0000_0000_0000_0000,
    ensures
        head_arg(head(m, a) + rest) == Some(a),
        head_len(head(m, a) + rest) == head(m, a).len(),
        (head(m, a) + rest)[0] == head(m, a)[0],
{
    lemma_head_round(m, a);
    let h = head(m, a);
    let b = h + rest;
    assert(b.subrange(1, head_len(h)) =~= h.subrange(1, head_len(h)));
}

/// Round trip of text: on every engine, a string in its shortest encoding
/// binds as that string, and the value stored for it encodes to the same
/// bytes.
pub proof fn lemma_text_round_trip(e: Engine, s: Seq<char>)
    requires
        encode_utf8(s).len() < 0x1_0000_0000_0000_0000,
    ensures
        bind_spec(e, text_bytes(s)) == Ok::<BoundView, BindFault>(BoundView::Text(s)),
        cell_bytes(stored(BoundView::Text(s))->Some_0) == Some(text_bytes(s)),
{
    let c = encode_utf8(s);
    let h = head(3, c.len());
    let b = h + c;
    lemma_head_prefix(3, c.len(), c);
    assert(b.subrange(h.len() as int, (h.len() + c.len()) as int) =~= c);
    encode_utf8_valid_utf8(s);
    encode_utf8_decode_utf8(s);
    assert(cbor_type(b) == Some(CborType::String));
}

/// Round trip of byte strings: on the engines that take them, a byte string
/// in its shortest encoding binds as those bytes, and the value stored for
/// it encodes to the same bytes.
pub proof fn lemma_bytes_round_trip(e: Engine, c: Seq<u8>)
    requires
        e != Engine::Mssql,
        c.len() < 0x1_0000_0000_0000_0000,
    ensures
        bind_spec(e, byte_string_bytes(c)) == Ok::<BoundView, BindFault>(BoundView::Bytes(c)),
        cell_bytes(stored(BoundView::Bytes(c))->Some_0) == Some(byte_string_bytes(c)),
{
    let h = head(2, c.len());
    let b = h + c;
    lemma_head_prefix(2, c.len(), c);
    assert(b.subrange(h.len() as int, (h.len() + c.len()) as int) =~= c);
    assert(cbor_type(b) == Some(CborType::Bytes));
}

/// Round trip of floats: on every engine, a single- or double-precision
/// float binds as its bits, and the value stored for it encodes to the same
/// bytes.
pub proof fn lemma_float_round_trip(e: Engine, single: u32, double: u64)
    ensures
        bind_spec(e, f32_bytes(single)) == Ok::<BoundView, BindFault>(BoundView::F32(single)),
        cell_bytes(stored(BoundView::F32(single))->Some_0) == Some(f32_bytes(single)),
        bind_spec(e, f64_bytes(double)) == Ok::<BoundView, BindFault>(BoundView::F64(double)),
        cell_bytes(stored(BoundView::F64(double))->Some_0) == Some(f64_bytes(double)),
{
    reveal_with_fuel(pow256, 9);
    lemma_be_round(single as nat, 4);
    lemma_be_round(double as nat, 8);
    assert(f32_bytes(single).subrange(1, 5) =~= be_bytes(single as nat, 4));
    assert(f64_bytes(double).subrange(1, 9) =~= be_bytes(double as nat, 8));
}

/// Encoding a concatenation of cells concatenates their encodings.
pub proof fn lemma_cells_concat(a: Seq<CellView>, b: Seq<CellView>)
    ensures
        cells_bytes(a + b) is Some <==> (cells_bytes(a) is Some && cells_bytes(b) is Some),
        cells_bytes(a + b) is Some ==> cells_bytes(a + b)->Some_0 == cells_bytes(a)->Some_0
            + cells_bytes(b)->Some_0,
    decreases b.len(),
{
    if b.len() == 0 {
        assert(a + b =~= a);
        assert(cells_bytes(a) is Some ==> cells_bytes(a)->Some_0 + Seq::<u8>::empty() =~= cells_bytes(a)->Some_0);
    } else {
        assert((a + b).drop_last() =~= a + b.drop_last());
        assert((a + b).last() == b.last());
        lemma_cells_concat(a, b.drop_last());
        if cells_bytes(a + b) is Some {
            let x = cells_bytes(a)->Some_0;
            let y = cells_bytes(b.drop_last())->Some_0;
            let z = cell_bytes(b.last())->Some_0;
            assert(x + y + z =~= x + (y + z));
        }
    }
}

/// Encoding a concatenation of rows concatenates their encodings.
pub proof fn lemma_rows_concat(a: Seq<Seq<CellView>>, b: Seq<Seq<CellView>>)
    ensures
        rows_bytes(a + b) is Some <==> (rows_bytes(a) is Some && rows_bytes(b) is Some),
        rows_bytes(a + b) is Some ==> rows_bytes(a + b)->Some_0 == rows_bytes(a)->Some_0
            + rows_bytes(b)->Some_0,
    decreases b.len(),
{
    if b.len() == 0 {
        assert(a + b =~= a);
        assert(rows_bytes(a) is Some ==> rows_bytes(a)->Some_0 + Seq::<u8>::empty() =~= rows_bytes(a)->Some_0);
    } else {
        assert((a + b).drop_last() =~= a + b.drop_last());
        assert((a + b).last() == b.last());
        lemma_rows_concat(a, b.drop_last());
        if rows_bytes(a + b) is Some {
            let x = rows_bytes(a)->Some_0;
            let y = rows_bytes(b.drop_last())->Some_0;
            let z = row_bytes(b.last())->Some_0;
            assert(x + y + z =~= x + (y + z));
        }
    }
}

/// Null fidelity in a whole result: wherever a cell is NULL, the payload
/// holds the null marker in that cell's place, between the encodings of the
/// cells before it and the cells after it.
pub proof fn lemma_null_cell_in_payload(rs: Seq<Seq<CellView>>, r: int, c: int)
    requires
        0 <= r < rs.len(),
        0 <= c < rs[r].len(),
        rs[r][c] is Null,
        payload(rs) is Some,
    ensures
        rows_bytes(rs.take(r)) is Some,
        cells_bytes(rs[r].take(c)) is Some,
        cells_bytes(rs[r].skip(c + 1)) is Some,
        rows_bytes(rs.skip(r + 1)) is Some,
        payload(rs)->Some_0 == head(4, rs.len()) + rows_bytes(rs.take(r))->Some_0 + head(4, rs[r].len())
            + cells_bytes(rs[r].take(c))->Some_0 + null_bytes() + cells_bytes(rs[r].skip(c + 1))->Some_0
            + rows_bytes(rs.skip(r + 1))->Some_0,
{
    let row = rs[r];
    let one_row = seq![row];
    assert(rs =~= rs.take(r) + one_row + rs.skip(r + 1));
    lemma_rows_concat(rs.take(r) + one_row, rs.skip(r + 1));
    lemma_rows_concat(rs.take(r), one_row);
    assert(one_row.drop_last() =~= Seq::<Seq<CellView>>::empty());
    let one_cell = seq![row[c]];
    assert(row =~= row.take(c) + one_cell + row.skip(c + 1));
    lemma_cells_concat(row.take(c) + one_cell, row.skip(c + 1));
    lemma_cells_concat(row.take(c), one_cell);
    assert(one_cell.drop_last() =~= Seq::<CellView>::empty());
    let p = rows_bytes(rs.take(r))->Some_0;
    let q = cells_bytes(row.take(c))->Some_0;
    let t = cells_bytes(row.skip(c + 1))->Some_0;
    let u = rows_bytes(rs.skip(r + 1))->Some_0;
    assert(cells_bytes(one_cell.drop_last()) == Some(Seq::<u8>::empty()));
    assert(one_cell.last() == CellView::Null);
    assert(Seq::<u8>::empty() + null_bytes() =~= null_bytes());
    assert(cells_bytes(one_cell)->Some_0 =~= null_bytes());
    assert(cells_bytes(row)->Some_0 =~= q + null_bytes() + t);
    assert(row_bytes(row)->Some_0 =~= head(4, row.len()) + (q + null_bytes() + t));
    assert(rows_bytes(one_row.drop_last()) == Some(Seq::<u8>::empty()));
    assert(one_row.last() == row);
    assert(Seq::<u8>::empty() + row_bytes(row)->Some_0 =~= row_bytes(row)->Some_0);
    assert(rows_bytes(one_row)->Some_0 =~= head(4, row.len()) + (q + null_bytes() + t));
    assert(payload(rs)->Some_0 =~= head(4, rs.len()) + p + head(4, row.len()) + q + null_bytes() + t + u);
}

/// Round trip through a result: a parameter in its shortest encoding that
/// binds (but for half-precision floats), stored and read back as the only
/// cell of the only row, gives the payload `0x81 0x81` followed by the
/// parameter's own bytes.
pub proof fn lemma_round_trip_in_payload(e: Engine, b: Seq<u8>)
    requires
        bind_spec(e, b) is Ok,
        !(bind_spec(e, b)->Ok_0 is F16),
        canonical(b) == Some(b),
    ensures
        payload(seq![seq![stored(bind_spec(e, b)->Ok_0)->Some_0]]) == Some(seq![0x81u8, 0x81u8] + b),
{
    lemma_round_trip(e, b);
    let c = stored(bind_spec(e, b)->Ok_0)->Some_0;
    let row = seq![c];
    let rs = seq![row];
    assert(row.drop_last() =~= Seq::<CellView>::empty());
    assert(cells_bytes(row.drop_last()) == Some(Seq::<u8>::empty()));
    assert(row.last() == c);
    assert(cell_bytes(c) == Some(b));
    assert(cells_bytes(row) == Some(Seq::<u8>::empty() + b));
    assert(Seq::<u8>::empty() + b =~= b);
    assert(rs.drop_last() =~= Seq::<Seq<CellView>>::empty());
    assert(head(4, 1) =~= seq![0x81u8]);
    assert(cells_bytes(row) == Some(b));
    assert(row_bytes(row) == Some(head(4, 1) + b));
    assert(rows_bytes(rs.drop_last()) == Some(Seq::<u8>::empty()));
    assert(rs.last() == row);
    assert(rows_bytes(rs) == Some(Seq::<u8>::empty() + (head(4, 1) + b)));
    assert(Seq::<u8>::empty() + (head(4, 1) + b) =~= head(4, 1) + b);
    assert(head(4, 1) + (head(4, 1) + b) =~= seq![0x81u8, 0x81u8] + b);
}

/// The candidate widths of engines without unsigned types are signed and
/// strictly widening.
proof fn lemma_signed_candidates(e: Engine, t: CborType, v: int)
    requires
        e != Engine::MySql,
    ensures
        forall|i: int|
            0 <= i < candidates(e, t, v).len() ==> is_signed(#[trigger] candidates(e, t, v)[i]),
        forall|i: int, j: int|
            0 <= i < j < candidates(e, t, v).len() ==> bits_of(#[trigger] candidates(e, t, v)[i])
                < bits_of(#[trigger] candidates(e, t, v)[j]),
{
}

/// Width promotion: on an engine without unsigned types, an unsigned
/// parameter binds as a signed integer of the same value, in the narrowest
/// of the engine's widths for its kind that holds it; one beyond every such
/// width is refused, never truncated.
pub proof fn lemma_width_promotion(e: Engine, b: Seq<u8>)
    requires
        e != Engine::MySql,
        cbor_type(b) is Some,
        is_unsigned_type(cbor_type(b)->Some_0),
        int_of(b) is Some,
    ensures
        ({
            let t = cbor_type(b)->Some_0;
            let v = int_of(b)->Some_0;
            match bind_spec(e, b) {
                Ok(bound) => {
                    &&& is_signed(width_of(bound)->Some_0)
                    &&& int_value_of(bound) == Some(v)
                    &&& candidates(e, t, v).contains(width_of(bound)->Some_0)
                    &&& forall|w: IntWidth|
                        #[trigger] candidates(e, t, v).contains(w) && bits_of(w) < bits_of(
                            width_of(bound)->Some_0,
                        ) ==> !fits(w, v)
                },
                Err(f) => forall|w: IntWidth| #[trigger] candidates(e, t, v).contains(w) ==> !fits(w, v),
            }
        }),
{
    let t = cbor_type(b)->Some_0;
    let v = int_of(b)->Some_0;
    let ws = candidates(e, t, v);
    lemma_signed_candidates(e, t, v);
    match first_fit(ws, v) {
        Some(w) => {
            lemma_first_fit(ws, v);
            lemma_int_view_value(w, v);
            let i = choose|i: int|
                0 <= i < ws.len() && ws[i] == w && forall|j: int| 0 <= j < i ==> !fits(#[trigger] ws[j], v);
            assert(ws.contains(w));
            assert forall|w2: IntWidth| #[trigger] ws.contains(w2) && bits_of(w2) < bits_of(w) implies !fits(w2, v) by {
                let j = choose|j: int| 0 <= j < ws.len() && ws[j] == w2;
                if j >= i {
                    if j > i {
                        assert(bits_of(ws[i]) < bits_of(ws[j]));
                    }
                }
            }
        },
        None => {
            lemma_no_fit(ws, v);
        },
    }
}

/// Where no width fits, none of the candidates holds the value.
proof fn lemma_no_fit(ws: Seq<IntWidth>, v: int)
    requires
        first_fit(ws, v) is None,
    ensures
        forall|w: IntWidth| #[trigger] ws.contains(w) ==> !fits(w, v),
    decreases ws.len(),
{
    if ws.len() > 0 {
        lemma_no_fit(ws.drop_first(), v);
        assert forall|w: IntWidth| #[trigger] ws.contains(w) implies !fits(w, v) by {
            let j = choose|j: int| 0 <= j < ws.len() && ws[j] == w;
            if j > 0 {
                assert(ws.drop_first()[j - 1] == w);
                assert(ws.drop_first().contains(w));
            } else {
                assert(!fits(ws[0], v));
            }
        }
    }
}

/// Null fidelity: a null or undefined parameter binds as SQL NULL on every
/// engine, and a NULL cell encodes as the null marker, which no integer
/// encoding equals.
pub proof fn lemma_null_fidelity(e: Engine, v: int)
    ensures
        bind_spec(e, seq![0xf6u8]) == Ok::<BoundView, BindFault>(BoundView::Null),
        bind_spec(e, seq![0xf7u8]) == Ok::<BoundView, BindFault>(BoundView::Null),
        stored(BoundView::Null) == Some(CellView::Null),
        cell_bytes(CellView::Null) == Some(null_bytes()),
        null_bytes() != int_bytes(v),
{
    if null_bytes() == int_bytes(v) {
        assert(null_bytes()[0] == int_bytes(v)[0]);
    }
}

} // verus!
