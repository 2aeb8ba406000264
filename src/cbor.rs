//! The CBOR wire format of single scalars, as used for statement parameters
//! and for result payloads: a mathematical description of initial bytes,
//! heads and scalar encodings, and the calls into minicbor that read and
//! write them.

use vstd::prelude::*;
use vstd::utf8::*;

verus! {

/// Number of argument bytes that follow an initial byte with the given
/// additional information (`-1` where the information does not give a length).
pub open spec fn arg_len(info: int) -> int {
    if info < 24 {
        0
    } else if info == 24 {
        1
    } else if info == 25 {
        2
    } else if info == 26 {
        4
    } else if info == 27 {
        8
    } else {
        -1
    }
}

/// Big-endian value of a byte sequence.
pub open spec fn be_value(s: Seq<u8>) -> nat
    decreases s.len(),
{
    if s.len() == 0 {
        0
    } else {
        (be_value(s.drop_last()) * 256 + s.last()) as nat
    }
}

/// The `n` low-order bytes of `v`, most significant first.
pub open spec fn be_bytes(v: nat, n: nat) -> Seq<u8>
    decreases n,
{
    if n == 0 {
        Seq::empty()
    } else {
        be_bytes(v / 256, (n - 1) as nat).push((v % 256) as u8)
    }
}

/// Major type of an initial byte.
pub open spec fn major_of(b0: u8) -> int {
    b0 as int / 32
}

/// Additional information of an initial byte.
pub open spec fn info_of(b0: u8) -> int {
    b0 as int % 32
}

/// Length of the head (initial byte and argument) that starts `b`.
pub open spec fn head_len(b: Seq<u8>) -> int {
    1 + arg_len(info_of(b[0]))
}

/// Argument of the head that starts `b`, where `b` holds a complete head
/// with a definite argument.
pub open spec fn head_arg(b: Seq<u8>) -> Option<nat> {
    if b.len() == 0 {
        None
    } else if info_of(b[0]) < 24 {
        Some(info_of(b[0]) as nat)
    } else if info_of(b[0]) <= 27 && b.len() >= head_len(b) {
        Some(be_value(b.subrange(1, head_len(b))))
    } else {
        None
    }
}

/// `256` to the power `k`.
pub open spec fn pow256(k: nat) -> nat
    decreases k,
{
    if k == 0 {
        1
    } else {
        256 * pow256((k - 1) as nat)
    }
}

/// A big-endian value is below `256` to the power of its length.
pub proof fn lemma_be_value_bound(s: Seq<u8>)
    ensures
        be_value(s) < pow256(s.len()),
    decreases s.len(),
{
    if s.len() > 0 {
        lemma_be_value_bound(s.drop_last());
        let p = pow256((s.len() - 1) as nat);
        let v = be_value(s.drop_last());
        let x = s.last() as int;
        assert(v * 256 + x < p * 256) by (nonlinear_arith)
            requires
                v < p,
                0 <= x < 256,
        ;
    }
}

/// Reads the `n` bytes of `b` from `start` as a big-endian integer.
pub fn read_be(b: &[u8], start: usize, n: usize) -> (r: u64)
    requires
        start + n <= b@.len(),
        n <= 8,
    ensures
        r as nat == be_value(b@.subrange(start as int, start + n)),
{
    let mut r: u64 = 0;
    let mut i: usize = start;
    let len: usize = b.len();
    let end: usize = start + n;
    assert(b@.subrange(start as int, start as int) =~= Seq::<u8>::empty());
    while i < end
        invariant
            start <= i <= end,
            end == start + n,
            end <= b@.len(),
            n <= 8,
            r as nat == be_value(b@.subrange(start as int, i as int)),
        decreases end - i,
    {
        let ghost s = b@.subrange(start as int, i as int);
        proof {
            lemma_be_value_bound(s);
            assert(pow256(s.len()) <= 0x100_0000_0000_0000) by {
                reveal_with_fuel(pow256, 8);
                assert(s.len() <= 7);
            }
        }
        let x = b[i];
        let ghost t = b@.subrange(start as int, i + 1);
        assert(t.drop_last() =~= s);
        r = r * 256 + x as u64;
        i = i + 1;
    }
    r
}

/// The shortest head of the given major type and argument.
pub open spec fn head(major: nat, arg: nat) -> Seq<u8> {
    let t = major * 32;
    if arg < 24 {
        seq![(t + arg) as u8]
    } else if arg < 0x100 {
        seq![(t + 24) as u8, arg as u8]
    } else if arg < 0x1_0000 {
        seq![(t + 25) as u8] + be_bytes(arg, 2)
    } else if arg < 0x1_0000_0000 {
        seq![(t + 26) as u8] + be_bytes(arg, 4)
    } else {
        seq![(t + 27) as u8] + be_bytes(arg, 8)
    }
}

/// Encoding of an integer in `[-2^64, 2^64)`.
pub open spec fn int_bytes(v: int) -> Seq<u8> {
    if v >= 0 {
        head(0, v as nat)
    } else {
        head(1, (-1 - v) as nat)
    }
}

/// Encoding of a text string, given as characters.
pub open spec fn text_bytes(s: Seq<char>) -> Seq<u8> {
    head(3, encode_utf8(s).len()) + encode_utf8(s)
}

/// Encoding of a byte string.
pub open spec fn byte_string_bytes(b: Seq<u8>) -> Seq<u8> {
    head(2, b.len()) + b
}

/// The null marker.
pub open spec fn null_bytes() -> Seq<u8> {
    seq![0xf6u8]
}

/// Encoding of a boolean.
pub open spec fn bool_bytes(x: bool) -> Seq<u8> {
    if x {
        seq![0xf5u8]
    } else {
        seq![0xf4u8]
    }
}

/// Encoding of a single-precision float given by its bits.
pub open spec fn f32_bytes(bits: u32) -> Seq<u8> {
    seq![0xfau8] + be_bytes(bits as nat, 4)
}

/// Encoding of a double-precision float given by its bits.
pub open spec fn f64_bytes(bits: u64) -> Seq<u8> {
    seq![0xfbu8] + be_bytes(bits as nat, 8)
}

/// The integer that `b` starts with, if it starts with one.
pub open spec fn int_of(b: Seq<u8>) -> Option<int> {
    if b.len() > 0 && major_of(b[0]) <= 1 {
        match head_arg(b) {
            Some(a) => Some(
                if major_of(b[0]) == 0 {
                    a as int
                } else {
                    -1 - a
                },
            ),
            None => None,
        }
    } else {
        None
    }
}

/// The boolean that `b` starts with, if it starts with one.
pub open spec fn bool_of(b: Seq<u8>) -> Option<bool> {
    if b.len() > 0 && b[0] == 0xf5 {
        Some(true)
    } else if b.len() > 0 && b[0] == 0xf4 {
        Some(false)
    } else {
        None
    }
}

/// Content of the definite-length string of major type `major` that starts `b`.
pub open spec fn string_content(b: Seq<u8>, major: int) -> Option<Seq<u8>> {
    if b.len() > 0 && major_of(b[0]) == major && info_of(b[0]) != 31 {
        match head_arg(b) {
            Some(n) => if b.len() >= head_len(b) + n {
                Some(b.subrange(head_len(b), head_len(b) + n))
            } else {
                None
            },
            None => None,
        }
    } else {
        None
    }
}

/// The byte string that `b` starts with, if it starts with one of definite length.
pub open spec fn bytes_of(b: Seq<u8>) -> Option<Seq<u8>> {
    string_content(b, 2)
}

/// The text string that `b` starts with, if it starts with one of definite
/// length whose content is valid UTF-8.
pub open spec fn text_of(b: Seq<u8>) -> Option<Seq<char>> {
    match string_content(b, 3) {
        Some(c) => if valid_utf8(c) {
            Some(decode_utf8(c))
        } else {
            None
        },
        None => None,
    }
}

/// The kind of data item at the start of an encoded value, told from its
/// initial byte (and, for negative integers, from the first argument byte).
#[derive(Clone, Copy, Debug, PartialEq, Eq, Structural)]
pub enum CborType {
    Bool,
    Null,
    Undefined,
    U8,
    U16,
    U32,
    U64,
    I8,
    I16,
    I32,
    I64,
    Int,
    F16,
    F32,
    F64,
    Simple,
    Bytes,
    BytesIndef,
    String,
    StringIndef,
    Array,
    ArrayIndef,
    Mapping,
    MapIndef,
    Tag,
    Break,
    Unknown(u8),
}

/// Negative integers with a 1, 2, 4 or 8 byte argument: the narrowest
/// signed kind, judged by the top bit of the first argument byte.
pub open spec fn negative_kind(n: u8, first: u8) -> CborType {
    let low = first < 0x80;
    if n == 0x38 {
        if low { CborType::I8 } else { CborType::I16 }
    } else if n == 0x39 {
        if low { CborType::I16 } else { CborType::I32 }
    } else if n == 0x3a {
        if low { CborType::I32 } else { CborType::I64 }
    } else {
        if low { CborType::I64 } else { CborType::Int }
    }
}

/// The kind of the data item that `b` starts with; `None` where `b` is too
/// short to tell.
pub open spec fn cbor_type(b: Seq<u8>) -> Option<CborType> {
    if b.len() == 0 {
        None
    } else {
        let n = b[0];
        if n <= 0x18 {
            Some(CborType::U8)
        } else if n == 0x19 {
            Some(CborType::U16)
        } else if n == 0x1a {
            Some(CborType::U32)
        } else if n == 0x1b {
            Some(CborType::U64)
        } else if 0x20 <= n <= 0x37 {
            Some(CborType::I8)
        } else if 0x38 <= n <= 0x3b {
            if b.len() < 2 {
                None
            } else {
                Some(negative_kind(n, b[1]))
            }
        } else if 0x40 <= n <= 0x5b {
            Some(CborType::Bytes)
        } else if n == 0x5f {
            Some(CborType::BytesIndef)
        } else if 0x60 <= n <= 0x7b {
            Some(CborType::String)
        } else if n == 0x7f {
            Some(CborType::StringIndef)
        } else if 0x80 <= n <= 0x9b {
            Some(CborType::Array)
        } else if n == 0x9f {
            Some(CborType::ArrayIndef)
        } else if 0xa0 <= n <= 0xbb {
            Some(CborType::Mapping)
        } else if n == 0xbf {
            Some(CborType::MapIndef)
        } else if 0xc0 <= n <= 0xdb {
            Some(CborType::Tag)
        } else if 0xe0 <= n <= 0xf3 || n == 0xf8 {
            Some(CborType::Simple)
        } else if n == 0xf4 || n == 0xf5 {
            Some(CborType::Bool)
        } else if n == 0xf6 {
            Some(CborType::Null)
        } else if n == 0xf7 {
            Some(CborType::Undefined)
        } else if n == 0xf9 {
            Some(CborType::F16)
        } else if n == 0xfa {
            Some(CborType::F32)
        } else if n == 0xfb {
            Some(CborType::F64)
        } else if n == 0xff {
            Some(CborType::Break)
        } else {
            Some(CborType::Unknown(n))
        }
    }
}

/// Tells the kind of the data item that `b` starts with.
pub fn datatype(b: &[u8]) -> (r: Option<CborType>)
    ensures
        r == cbor_type(b@),
{
    if b.len() == 0 {
        return None;
    }
    let n = b[0];
    if n <= 0x18 {
        Some(CborType::U8)
    } else if n == 0x19 {
        Some(CborType::U16)
    } else if n == 0x1a {
        Some(CborType::U32)
    } else if n == 0x1b {
        Some(CborType::U64)
    } else if 0x20 <= n && n <= 0x37 {
        Some(CborType::I8)
    } else if 0x38 <= n && n <= 0x3b {
        if b.len() < 2 {
            None
        } else {
            let low = b[1] < 0x80;
            let t = if n == 0x38 {
                if low { CborType::I8 } else { CborType::I16 }
            } else if n == 0x39 {
                if low { CborType::I16 } else { CborType::I32 }
            } else if n == 0x3a {
                if low { CborType::I32 } else { CborType::I64 }
            } else {
                if low { CborType::I64 } else { CborType::Int }
            };
            Some(t)
        }
    } else if 0x40 <= n && n <= 0x5b {
        Some(CborType::Bytes)
    } else if n == 0x5f {
        Some(CborType::BytesIndef)
    } else if 0x60 <= n && n <= 0x7b {
        Some(CborType::String)
    } else if n == 0x7f {
        Some(CborType::StringIndef)
    } else if 0x80 <= n && n <= 0x9b {
        Some(CborType::Array)
    } else if n == 0x9f {
        Some(CborType::ArrayIndef)
    } else if 0xa0 <= n && n <= 0xbb {
        Some(CborType::Mapping)
    } else if n == 0xbf {
        Some(CborType::MapIndef)
    } else if 0xc0 <= n && n <= 0xdb {
        Some(CborType::Tag)
    } else if (0xe0 <= n && n <= 0xf3) || n == 0xf8 {
        Some(CborType::Simple)
    } else if n == 0xf4 || n == 0xf5 {
        Some(CborType::Bool)
    } else if n == 0xf6 {
        Some(CborType::Null)
    } else if n == 0xf7 {
        Some(CborType::Undefined)
    } else if n == 0xf9 {
        Some(CborType::F16)
    } else if n == 0xfa {
        Some(CborType::F32)
    } else if n == 0xfb {
        Some(CborType::F64)
    } else if n == 0xff {
        Some(CborType::Break)
    } else {
        Some(CborType::Unknown(n))
    }
}

/// Relies on minicbor::Encoder::array: appends the shortest head of an
/// array of `n` items.
#[verifier::external_body]
pub(crate) fn put_array(buf: &mut Vec<u8>, n: u64)
    ensures
        final(buf)@ == old(buf)@ + head(4, n as nat),
{
    let _ = minicbor::Encoder::new(buf).array(n);
}

/// Relies on minicbor::Encoder::null: appends the null marker.
#[verifier::external_body]
pub(crate) fn put_null(buf: &mut Vec<u8>)
    ensures
        final(buf)@ == old(buf)@ + null_bytes(),
{
    let _ = minicbor::Encoder::new(buf).null();
}

/// Relies on minicbor::Encoder::bool: appends one byte, 0xf5 or 0xf4.
#[verifier::external_body]
pub(crate) fn put_bool(buf: &mut Vec<u8>, x: bool)
    ensures
        final(buf)@ == old(buf)@ + bool_bytes(x),
{
    let _ = minicbor::Encoder::new(buf).bool(x);
}

/// Relies on minicbor::Encoder::int (with minicbor::data::Int::try_from):
/// appends the shortest encoding of an integer in `[-2^64, 2^64)`.
#[verifier::external_body]
pub(crate) fn put_int(buf: &mut Vec<u8>, v: i128)
    requires
        -0x1_0000_0000_0000_0000 <= v < 0x1_0000_0000_0000_0000,
    ensures
        final(buf)@ == old(buf)@ + int_bytes(v as int),
{
    if let Ok(i) = minicbor::data::Int::try_from(v) {
        let _ = minicbor::Encoder::new(buf).int(i);
    }
}

/// Relies on minicbor::Encoder::str: appends the head of a text string of
/// the UTF-8 length of `s`, then its UTF-8 bytes.
#[verifier::external_body]
pub(crate) fn put_str(buf: &mut Vec<u8>, s: &str)
    ensures
        final(buf)@ == old(buf)@ + text_bytes(s@),
{
    let _ = minicbor::Encoder::new(buf).str(s);
}

/// Relies on minicbor::Encoder::bytes: appends the head of a byte string of
/// the length of `b`, then `b`.
#[verifier::external_body]
pub(crate) fn put_bytes(buf: &mut Vec<u8>, b: &[u8])
    ensures
        final(buf)@ == old(buf)@ + byte_string_bytes(b@),
{
    let _ = minicbor::Encoder::new(buf).bytes(b);
}

/// Relies on minicbor::Decoder::int (with `i128::from`): reads the integer
/// of major type 0 or 1 at the start of `b`, and fails on anything else.
#[verifier::external_body]
pub(crate) fn read_int(b: &[u8]) -> (r: Result<i128, String>)
    ensures
        match int_of(b@) {
            Some(v) => r is Ok && r->Ok_0 == v,
            None => r is Err,
        },
{
    minicbor::Decoder::new(b).int().map(i128::from).map_err(|e| e.to_string())
}

/// Relies on minicbor::Decoder::bool: reads 0xf5 as true, 0xf4 as false,
/// and fails on anything else.
#[verifier::external_body]
pub(crate) fn read_bool(b: &[u8]) -> (r: Result<bool, String>)
    ensures
        match bool_of(b@) {
            Some(x) => r is Ok && r->Ok_0 == x,
            None => r is Err,
        },
{
    minicbor::Decoder::new(b).bool().map_err(|e| e.to_string())
}

/// Relies on minicbor::Decoder::bytes: reads the definite-length byte
/// string at the start of `b`, and fails on anything else.
#[verifier::external_body]
pub(crate) fn read_bytes(b: &[u8]) -> (r: Result<Vec<u8>, String>)
    ensures
        match bytes_of(b@) {
            Some(c) => r is Ok && r->Ok_0@ == c,
            None => r is Err,
        },
{
    minicbor::Decoder::new(b).bytes().map(|s| s.to_vec()).map_err(|e| e.to_string())
}

/// Relies on minicbor::Decoder::str: reads the definite-length text string
/// at the start of `b`, and fails on anything else or on invalid UTF-8.
#[verifier::external_body]
pub(crate) fn read_str(b: &[u8]) -> (r: Result<String, String>)
    ensures
        match text_of(b@) {
            Some(s) => r is Ok && r->Ok_0@ == s,
            None => r is Err,
        },
{
    minicbor::Decoder::new(b).str().map(|s| s.to_string()).map_err(|e| e.to_string())
}

} // verus!
