//! Fixed-layout byte encoding of typed column values.

use vstd::prelude::*;
use crate::le::{
    le_decode, le_encode, lemma_le_decode_bound, lemma_le_round_trip, lemma_pow256_positive,
    lemma_pow256_values, pow256, push_le, read_le, to_signed, to_unsigned,
};
use crate::types::{DataValue, ValueView};

verus! {

/// Why bytes could not be turned into a value.
#[derive(Debug, Clone, Copy, PartialEq, Eq, Structural)]
pub enum CodecError {
    /// The type id has no decoder (GEOMETRIC, or no type at all).
    UnsupportedType(u8),
    /// Fewer bytes were given than the type occupies.
    ShortBuffer,
}

/// `b` cut or zero-padded to exactly `len` bytes.
pub open spec fn pad_bytes(b: Seq<u8>, len: nat) -> Seq<u8> {
    Seq::new(len, |i: int| if i < b.len() { b[i] } else { 0u8 })
}

/// `b` without its trailing zero bytes.
pub open spec fn strip_zeros(b: Seq<u8>) -> Seq<u8>
    decreases b.len(),
{
    if b.len() > 0 && b.last() == 0 {
        strip_zeros(b.drop_last())
    } else {
        b
    }
}

/// The bytes that represent `v` in a column of declared length `len`.
pub open spec fn encode_value(v: ValueView, len: nat) -> Seq<u8> {
    match v {
        ValueView::SmallInt(x) => le_encode(to_unsigned(x as int, 2), 2),
        ValueView::Int(x) => le_encode(to_unsigned(x as int, 4), 4),
        ValueView::BigInt(x) => le_encode(to_unsigned(x as int, 8), 8),
        ValueView::Double(bits) => le_encode(bits as nat, 8),
        ValueView::Char(b) => pad_bytes(b, len),
        ValueView::VarChar(b) => pad_bytes(b, len),
        ValueView::Bool(b) => seq![if b { 1u8 } else { 0u8 }],
        ValueView::Uuid(b) => b,
        ValueView::Date(x) => le_encode(to_unsigned(x as int, 4), 4),
        ValueView::Time(x) => le_encode(to_unsigned(x as int, 8), 8),
        ValueView::Timestamp(x) => le_encode(to_unsigned(x as int, 8), 8),
    }
}

/// Whether values of type `type_id` can be decoded (every type but GEOMETRIC).
pub open spec fn decodable_type(type_id: u8) -> bool {
    1 <= type_id <= 11
}

/// Number of bytes a value of type `type_id` occupies in a column of length `len`.
pub open spec fn type_width(type_id: u8, len: nat) -> nat {
    if type_id == 1 {
        2
    } else if type_id == 2 || type_id == 9 {
        4
    } else if type_id == 5 || type_id == 6 {
        len
    } else if type_id == 7 {
        1
    } else if type_id == 8 {
        16
    } else {
        8
    }
}

/// The value of type `type_id` that the front of `b` holds.
pub open spec fn decode_value(b: Seq<u8>, type_id: u8, len: nat) -> Result<ValueView, CodecError> {
    if !decodable_type(type_id) {
        Err(CodecError::UnsupportedType(type_id))
    } else if b.len() < type_width(type_id, len) {
        Err(CodecError::ShortBuffer)
    } else {
        Ok(
            if type_id == 1 {
                ValueView::SmallInt(to_signed(le_decode(b.take(2)), 2) as i16)
            } else if type_id == 2 {
                ValueView::Int(to_signed(le_decode(b.take(4)), 4) as i32)
            } else if type_id == 3 {
                ValueView::BigInt(to_signed(le_decode(b.take(8)), 8) as i64)
            } else if type_id == 4 {
                ValueView::Double(le_decode(b.take(8)) as u64)
            } else if type_id == 5 {
                ValueView::Char(strip_zeros(b.take(len as int)))
            } else if type_id == 6 {
                ValueView::VarChar(strip_zeros(b.take(len as int)))
            } else if type_id == 7 {
                ValueView::Bool(b[0] != 0)
            } else if type_id == 8 {
                ValueView::Uuid(b.take(16))
            } else if type_id == 9 {
                ValueView::Date(to_signed(le_decode(b.take(4)), 4) as i32)
            } else if type_id == 10 {
                ValueView::Time(to_signed(le_decode(b.take(8)), 8) as i64)
            } else {
                ValueView::Timestamp(to_signed(le_decode(b.take(8)), 8) as i64)
            },
        )
    }
}

/// Type id of the column type that holds values like `v`.
pub open spec fn type_id_of(v: ValueView) -> u8 {
    match v {
        ValueView::SmallInt(_) => 1,
        ValueView::Int(_) => 2,
        ValueView::BigInt(_) => 3,
        ValueView::Double(_) => 4,
        ValueView::Char(_) => 5,
        ValueView::VarChar(_) => 6,
        ValueView::Bool(_) => 7,
        ValueView::Uuid(_) => 8,
        ValueView::Date(_) => 9,
        ValueView::Time(_) => 10,
        ValueView::Timestamp(_) => 11,
    }
}

/// Whether `b` is a CHAR/VARCHAR payload that survives a column of length
/// `len`: it fits, and it does not end in a zero byte (the padding byte).
pub open spec fn fits_text(b: Seq<u8>, len: nat) -> bool {
    b.len() <= len && (b.len() == 0 || b.last() != 0)
}

proof fn lemma_strip_padding(b: Seq<u8>, len: nat)
    requires
        fits_text(b, len),
    ensures
        strip_zeros(pad_bytes(b, len)) == b,
    decreases len,
{
    if len == b.len() {
        assert(pad_bytes(b, len) =~= b);
    } else {
        let p = pad_bytes(b, len);
        assert(p.last() == 0);
        assert(p.drop_last() =~= pad_bytes(b, (len - 1) as nat));
        lemma_strip_padding(b, (len - 1) as nat);
    }
}

proof fn lemma_int_round_trip(x: int, n: nat)
    requires
        n == 2 || n == 4 || n == 8,
        -(pow256(n) as int) <= 2 * x < pow256(n),
    ensures
        le_encode(to_unsigned(x, n), n).len() == n,
        to_signed(le_decode(le_encode(to_unsigned(x, n), n)), n) == x,
{
    lemma_pow256_positive(n);
    let u = to_unsigned(x, n);
    lemma_le_round_trip(u, n);
    assert(u < pow256(n));
    assert(u % pow256(n) == u) by {
        vstd::arithmetic::div_mod::lemma_small_mod(u, pow256(n));
    }
}

/// Round trip of the row codec: decoding the bytes that a value encodes to,
/// under the value's own type id and the same declared length, gives the
/// value back. CHAR/VARCHAR payloads must fit the declared length and must
/// not end in a zero byte, which decoding takes for padding.
pub proof fn lemma_round_trip(v: ValueView, len: nat)
    requires
        v matches ValueView::Uuid(b) ==> b.len() == 16,
        v matches ValueView::Char(b) ==> fits_text(b, len),
        v matches ValueView::VarChar(b) ==> fits_text(b, len),
    ensures
        decode_value(encode_value(v, len), type_id_of(v), len) == Ok::<ValueView, CodecError>(v),
{
    lemma_pow256_values();
    let e = encode_value(v, len);
    match v {
        ValueView::SmallInt(x) => {
            lemma_int_round_trip(x as int, 2);
            assert(e.take(2) =~= e);
        },
        ValueView::Int(x) => {
            lemma_int_round_trip(x as int, 4);
            assert(e.take(4) =~= e);
        },
        ValueView::BigInt(x) => {
            lemma_int_round_trip(x as int, 8);
            assert(e.take(8) =~= e);
        },
        ValueView::Double(bits) => {
            lemma_le_round_trip(bits as nat, 8);
            vstd::arithmetic::div_mod::lemma_small_mod(bits as nat, pow256(8));
            assert(e.take(8) =~= e);
        },
        ValueView::Char(b) => {
            lemma_strip_padding(b, len);
            assert(e.take(len as int) =~= e);
        },
        ValueView::VarChar(b) => {
            lemma_strip_padding(b, len);
            assert(e.take(len as int) =~= e);
        },
        ValueView::Bool(b) => {},
        ValueView::Uuid(b) => {
            assert(e.take(16) =~= b);
        },
        ValueView::Date(x) => {
            lemma_int_round_trip(x as int, 4);
            assert(e.take(4) =~= e);
        },
        ValueView::Time(x) => {
            lemma_int_round_trip(x as int, 8);
            assert(e.take(8) =~= e);
        },
        ValueView::Timestamp(x) => {
            lemma_int_round_trip(x as int, 8);
            assert(e.take(8) =~= e);
        },
    }
}

/// A VARCHAR payload longer than the column's declared length is stored cut
/// to exactly that length, and decodes to the cut payload, not the full one
/// (the cut payload must not end in a zero byte, which reads as padding).
pub proof fn lemma_varchar_truncation(b: Seq<u8>, len: nat)
    requires
        b.len() > len,
        fits_text(b.take(len as int), len),
    ensures
        encode_value(ValueView::VarChar(b), len) == b.take(len as int),
        encode_value(ValueView::VarChar(b), len).len() == len,
        decode_value(encode_value(ValueView::VarChar(b), len), 6, len) == Ok::<
            ValueView,
            CodecError,
        >(ValueView::VarChar(b.take(len as int))),
{
    let cut = b.take(len as int);
    assert(pad_bytes(b, len) =~= cut);
    assert(pad_bytes(cut, len) =~= cut);
    lemma_round_trip(ValueView::VarChar(cut), len);
}

fn push_signed(out: &mut Vec<u8>, v: i64, n: usize)
    requires
        n == 2 || n == 4 || n == 8,
        -(pow256(n as nat) as int) <= 2 * v < pow256(n as nat),
    ensures
        final(out)@ == old(out)@ + le_encode(to_unsigned(v as int, n as nat), n as nat),
{
    proof {
        lemma_pow256_values();
    }
    let u: u64 = if v < 0 {
        if n == 8 {
            (v as i128 + 0x1_0000_0000_0000_0000i128) as u64
        } else if n == 4 {
            (v + 0x1_0000_0000i64) as u64
        } else {
            (v + 0x1_0000i64) as u64
        }
    } else {
        v as u64
    };
    push_le(out, u, n);
}

fn read_signed(b: &[u8], n: usize) -> (r: i64)
    requires
        n == 2 || n == 4 || n == 8,
        n <= b@.len(),
    ensures
        r as int == to_signed(le_decode(b@.take(n as int)), n as nat),
        -(pow256(n as nat) as int) <= 2 * r < pow256(n as nat),
{
    let u = read_le(b, 0, n);
    proof {
        lemma_pow256_values();
        lemma_le_decode_bound(b@.subrange(0, n as int));
        assert(b@.subrange(0, n as int) =~= b@.take(n as int));
    }
    if n == 8 {
        if u >= 0x8000_0000_0000_0000u64 {
            (u as i128 - 0x1_0000_0000_0000_0000i128) as i64
        } else {
            u as i64
        }
    } else if n == 4 {
        if u >= 0x8000_0000u64 {
            (u as i64) - 0x1_0000_0000i64
        } else {
            u as i64
        }
    } else {
        if u >= 0x8000u64 {
            (u as i64) - 0x1_0000i64
        } else {
            u as i64
        }
    }
}

impl DataValue {
    /// The bytes that represent this value in a column of declared length
    /// `att_len`: little-endian at the type's own width for fixed-width
    /// types, and for CHAR/VARCHAR exactly `att_len` bytes, cut or padded
    /// with zeros.
    pub fn to_bytes(&self, att_len: u32) -> (r: Vec<u8>)
        ensures
            r@ == encode_value(self@, att_len as nat),
    {
        let mut out: Vec<u8> = Vec::new();
        proof {
            lemma_pow256_values();
        }
        match self {
            DataValue::SmallInt(v) => push_signed(&mut out, *v as i64, 2),
            DataValue::Int(v) => push_signed(&mut out, *v as i64, 4),
            DataValue::BigInt(v) => push_signed(&mut out, *v, 8),
            DataValue::Double(bits) => push_le(&mut out, *bits, 8),
            DataValue::Bool(b) => out.push(if *b { 1u8 } else { 0u8 }),
            DataValue::Uuid(arr) => {
                let mut i: usize = 0;
                while i < 16
                    invariant
                        i <= 16,
                        out@ == arr@.take(i as int),
                    decreases 16 - i,
                {
                    out.push(arr[i]);
                    i = i + 1;
                    assert(out@ =~= arr@.take(i as int));
                }
                assert(arr@.take(16) =~= arr@);
            },
            DataValue::Date(d) => push_signed(&mut out, *d as i64, 4),
            DataValue::Time(t) => push_signed(&mut out, *t, 8),
            DataValue::Timestamp(t) => push_signed(&mut out, *t, 8),
            DataValue::Char(bytes) => {
                out = pad_to(bytes, att_len);
            },
            DataValue::VarChar(bytes) => {
                out = pad_to(bytes, att_len);
            },
        }
        assert(out@ =~= encode_value(self@, att_len as nat));
        out
    }

    /// The value of type `type_id` held by the front of `bytes`, in a column
    /// of declared length `len`. CHAR/VARCHAR values lose their zero padding.
    pub fn from_bytes(bytes: &[u8], type_id: u8, len: u32) -> (r: Result<DataValue, CodecError>)
        ensures
            match r {
                Ok(v) => decode_value(bytes@, type_id, len as nat) == Ok::<ValueView, CodecError>(v@),
                Err(e) => decode_value(bytes@, type_id, len as nat) == Err::<ValueView, CodecError>(e),
            },
    {
        if type_id < 1 || type_id > 11 {
            return Err(CodecError::UnsupportedType(type_id));
        }
        let avail = bytes.len();
        let width: usize = if type_id == 1 {
            2
        } else if type_id == 2 || type_id == 9 {
            4
        } else if type_id == 5 || type_id == 6 {
            if len as u64 > avail as u64 {
                return Err(CodecError::ShortBuffer);
            }
            len as usize
        } else if type_id == 7 {
            1
        } else if type_id == 8 {
            16
        } else {
            8
        };
        if avail < width {
            return Err(CodecError::ShortBuffer);
        }
        proof {
            lemma_pow256_values();
        }
        let v = if type_id == 1 {
            DataValue::SmallInt(read_signed(bytes, 2) as i16)
        } else if type_id == 2 {
            DataValue::Int(read_signed(bytes, 4) as i32)
        } else if type_id == 3 {
            DataValue::BigInt(read_signed(bytes, 8))
        } else if type_id == 4 {
            let bits = read_le(bytes, 0, 8);
            assert(bytes@.subrange(0, 8) =~= bytes@.take(8));
            DataValue::Double(bits)
        } else if type_id == 5 {
            DataValue::Char(unpad(bytes, width))
        } else if type_id == 6 {
            DataValue::VarChar(unpad(bytes, width))
        } else if type_id == 7 {
            DataValue::Bool(bytes[0] != 0)
        } else if type_id == 8 {
            let mut arr = [0u8; 16];
            let mut i: usize = 0;
            while i < 16
                invariant
                    i <= 16,
                    16 <= bytes@.len(),
                    forall|j: int| 0 <= j < i ==> arr@[j] == bytes@[j],
                decreases 16 - i,
            {
                arr[i] = bytes[i];
                i = i + 1;
            }
            assert(arr@ =~= bytes@.take(16));
            DataValue::Uuid(arr)
        } else if type_id == 9 {
            DataValue::Date(read_signed(bytes, 4) as i32)
        } else if type_id == 10 {
            DataValue::Time(read_signed(bytes, 8))
        } else {
            DataValue::Timestamp(read_signed(bytes, 8))
        };
        Ok(v)
    }
}

/// `bytes` cut or zero-padded to exactly `len` bytes.
fn pad_to(bytes: &Vec<u8>, len: u32) -> (r: Vec<u8>)
    ensures
        r@ == pad_bytes(bytes@, len as nat),
{
    let mut out: Vec<u8> = Vec::new();
    let mut i: u32 = 0;
    while i < len
        invariant
            i <= len,
            out@ == pad_bytes(bytes@, len as nat).take(i as int),
        decreases len - i,
    {
        if (i as usize) < bytes.len() {
            out.push(bytes[i as usize]);
        } else {
            out.push(0u8);
        }
        i = i + 1;
        assert(out@ =~= pad_bytes(bytes@, len as nat).take(i as int));
    }
    assert(pad_bytes(bytes@, len as nat).take(len as int) =~= pad_bytes(bytes@, len as nat));
    out
}

/// The first `len` bytes of `bytes` without their trailing zeros.
fn unpad(bytes: &[u8], len: usize) -> (r: Vec<u8>)
    requires
        len <= bytes@.len(),
    ensures
        r@ == strip_zeros(bytes@.take(len as int)),
{
    let mut end: usize = len;
    while end > 0 && bytes[end - 1] == 0
        invariant
            end <= len <= bytes@.len(),
            strip_zeros(bytes@.take(len as int)) == strip_zeros(bytes@.take(end as int)),
        decreases end,
    {
        assert(bytes@.take(end as int).drop_last() =~= bytes@.take(end - 1));
        end = end - 1;
    }
    let mut out: Vec<u8> = Vec::new();
    let mut i: usize = 0;
    while i < end
        invariant
            i <= end <= bytes@.len(),
            out@ == bytes@.take(i as int),
        decreases end - i,
    {
        out.push(bytes[i]);
        i = i + 1;
        assert(out@ =~= bytes@.take(i as int));
    }
    out
}

} // verus!
