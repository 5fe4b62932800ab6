//! Tag/length wire primitives for the error-detail attachment.
//!
//! The attachment is a record in a self-describing binary scheme: every field
//! carries a numbered tag and either a base-128 varint value or a
//! length-delimited byte string, so decoders can skip fields they do not
//! recognize.  This module gives the scheme a mathematical definition
//! (`enc_varint`, `take_field`), executable encoders and decoders proved
//! against it, and the inversion lemmas the round-trip proof rests on.

use vstd::prelude::*;

verus! {

use vstd::arithmetic::div_mod::{
    lemma_fundamental_div_mod,
    lemma_mod_multiples_vanish,
    lemma_small_mod,
};
use vstd::arithmetic::mul::lemma_mul_inequality;

/// Little-endian base-128 encoding of `n`: seven payload bits per byte, the
/// high bit of each byte set while more bytes follow.
pub open spec fn enc_varint(n: nat) -> Seq<u8>
    decreases n,
{
    if n < 0x80 {
        seq![n as u8]
    } else {
        seq![(0x80 + n % 0x80) as u8] + enc_varint(n / 0x80)
    }
}

/// Reads one varint off the front of `s`, returning its (unbounded) value and
/// the remaining bytes, or `None` when `s` ends inside the varint.
pub open spec fn take_varint(s: Seq<u8>) -> Option<(nat, Seq<u8>)>
    decreases s.len(),
{
    if s.len() == 0 {
        None
    } else if s[0] < 0x80 {
        Some((s[0] as nat, s.skip(1)))
    } else {
        match take_varint(s.skip(1)) {
            Some(p) => Some((((s[0] - 0x80) as nat) + 0x80 * p.0, p.1)),
            None => None,
        }
    }
}

/// The value one past `u64::MAX`; a varint whose value reaches it is rejected.
pub open spec fn u64_bound() -> nat {
    0x1_0000_0000_0000_0000
}

/// Reads one varint and insists that its value fits in 64 bits, as the record
/// decoder does.
pub open spec fn take_varint64(s: Seq<u8>) -> Option<(u64, Seq<u8>)> {
    match take_varint(s) {
        Some(p) => if p.0 < u64_bound() {
            Some((p.0 as u64, p.1))
        } else {
            None
        },
        None => None,
    }
}

/// A successful varint parse consumes at least one byte.
pub proof fn lemma_take_varint_shrinks(s: Seq<u8>)
    requires
        take_varint(s) is Some,
    ensures
        take_varint(s)->Some_0.1.len() < s.len(),
    decreases s.len(),
{
    if s.len() != 0 && s[0] >= 0x80 {
        lemma_take_varint_shrinks(s.skip(1));
    }
}

/// Parsing inverts encoding: a varint encoding followed by anything parses
/// back to the encoded value, leaving exactly the trailing bytes.
pub proof fn lemma_take_enc_varint(n: nat, rest: Seq<u8>)
    ensures
        take_varint(enc_varint(n) + rest) == Some((n, rest)),
    decreases n,
{
    let s = enc_varint(n) + rest;
    if n < 0x80 {
        assert(s[0] == n as u8);
        assert(s.skip(1) =~= rest);
    } else {
        assert(s[0] == (0x80 + n % 0x80) as u8);
        assert(s.skip(1) =~= enc_varint(n / 0x80) + rest);
        lemma_take_enc_varint(n / 0x80, rest);
        assert(((s[0] - 0x80) as nat) + 0x80 * (n / 0x80) == n) by {
            lemma_fundamental_div_mod(n as int, 0x80);
        };
    }
}

/// `lemma_take_enc_varint` restated for the 64-bit reading.
pub proof fn lemma_take_enc_varint64(n: nat, rest: Seq<u8>)
    requires
        n < u64_bound(),
    ensures
        take_varint64(enc_varint(n) + rest) == Some((n as u64, rest)),
{
    lemma_take_enc_varint(n, rest);
}

/// Appends the varint encoding of `n` to `out`.
pub fn encode_varint(out: &mut Vec<u8>, n: u64)
    ensures
        final(out)@ == old(out)@ + enc_varint(n as nat),
    decreases n,
{
    if n < 0x80 {
        out.push(n as u8);
        assert(out@ =~= old(out)@ + enc_varint(n as nat));
    } else {
        out.push((0x80 + (n % 0x80)) as u8);
        encode_varint(out, n / 0x80);
        assert(out@ =~= old(out)@ + enc_varint(n as nat));
    }
}

/// One decoded field of a record: its payload, interpreted by wire type.
pub enum FieldData {
    /// Wire type 0: a varint value.
    Varint(u64),
    /// Wire type 1: eight raw bytes.
    Fixed64(Seq<u8>),
    /// Wire type 2: a length-delimited byte string.
    Bytes(Seq<u8>),
    /// Wire type 5: four raw bytes.
    Fixed32(Seq<u8>),
}

/// Reads one complete field (tag plus payload) off the front of `s`,
/// returning its field number, its payload, and the remaining bytes.  Fails
/// on a truncated field, a field number of zero, or an unknown wire type.
pub open spec fn take_field(s: Seq<u8>) -> Option<((nat, FieldData), Seq<u8>)> {
    match take_varint64(s) {
        None => None,
        Some((tag, r1)) => {
            let fno = (tag / 8) as nat;
            let wt = tag % 8;
            if fno == 0 {
                None
            } else if wt == 0 {
                match take_varint64(r1) {
                    None => None,
                    Some((v, r2)) => Some(((fno, FieldData::Varint(v)), r2)),
                }
            } else if wt == 1 {
                if r1.len() >= 8 {
                    Some(((fno, FieldData::Fixed64(r1.take(8))), r1.skip(8)))
                } else {
                    None
                }
            } else if wt == 2 {
                match take_varint64(r1) {
                    None => None,
                    Some((len, r2)) => if len <= r2.len() {
                        Some(((fno, FieldData::Bytes(r2.take(len as int))), r2.skip(len as int)))
                    } else {
                        None
                    },
                }
            } else if wt == 5 {
                if r1.len() >= 4 {
                    Some(((fno, FieldData::Fixed32(r1.take(4))), r1.skip(4)))
                } else {
                    None
                }
            } else {
                None
            }
        },
    }
}

/// A successful field parse consumes at least one byte.
pub proof fn lemma_take_field_shrinks(s: Seq<u8>)
    requires
        take_field(s) is Some,
    ensures
        take_field(s)->Some_0.1.len() < s.len(),
{
    lemma_take_varint_shrinks(s);
    let (tag, r1) = take_varint64(s)->Some_0;
    let wt = tag % 8;
    if wt == 0 || wt == 2 {
        if take_varint64(r1) is Some {
            lemma_take_varint_shrinks(r1);
        }
    }
}

/// The encoding of a field's tag byte(s): field number and wire type packed
/// into one varint.
pub open spec fn enc_tag(fno: nat, wt: nat) -> Seq<u8> {
    enc_varint(fno * 8 + wt)
}

/// The encoding of a varint-valued field.
pub open spec fn enc_varint_field(fno: nat, v: nat) -> Seq<u8> {
    enc_tag(fno, 0) + enc_varint(v)
}

/// The encoding of a length-delimited field: tag, payload length, payload.
pub open spec fn enc_bytes_field(fno: nat, b: Seq<u8>) -> Seq<u8> {
    enc_tag(fno, 2) + enc_varint(b.len()) + b
}

/// Field numbers small enough that the packed tag fits in 64 bits.  The
/// record uses numbers 1 to 3 only.
pub open spec fn fno_ok(fno: nat) -> bool {
    1 <= fno < 0x1000_0000
}

proof fn lemma_tag_split(fno: nat, wt: nat)
    requires
        fno_ok(fno),
        wt < 8,
    ensures
        fno * 8 + wt < u64_bound(),
        (fno * 8 + wt) / 8 == fno,
        (fno * 8 + wt) % 8 == wt,
{
    assert(fno * 8 + wt < u64_bound() && (fno * 8 + wt) / 8 == fno && (fno * 8 + wt) % 8 == wt)
        by (nonlinear_arith)
        requires
            1 <= fno < 0x1000_0000,
            wt < 8,
    ;
}

/// Parsing inverts encoding for a varint-valued field.
pub proof fn lemma_take_enc_varint_field(fno: nat, v: nat, rest: Seq<u8>)
    requires
        fno_ok(fno),
        v < u64_bound(),
    ensures
        take_field(enc_varint_field(fno, v) + rest) == Some(
            ((fno, FieldData::Varint(v as u64)), rest),
        ),
{
    let s = enc_varint_field(fno, v) + rest;
    lemma_tag_split(fno, 0);
    assert(s =~= enc_varint(fno * 8) + (enc_varint(v) + rest));
    lemma_take_enc_varint64(fno * 8, enc_varint(v) + rest);
    lemma_take_enc_varint64(v, rest);
}

/// Parsing inverts encoding for a length-delimited field.
pub proof fn lemma_take_enc_bytes_field(fno: nat, b: Seq<u8>, rest: Seq<u8>)
    requires
        fno_ok(fno),
        b.len() < u64_bound(),
    ensures
        take_field(enc_bytes_field(fno, b) + rest) == Some(((fno, FieldData::Bytes(b)), rest)),
{
    let s = enc_bytes_field(fno, b) + rest;
    lemma_tag_split(fno, 2);
    assert(s =~= enc_varint(fno * 8 + 2) + (enc_varint(b.len()) + (b + rest)));
    lemma_take_enc_varint64(fno * 8 + 2, enc_varint(b.len()) + (b + rest));
    lemma_take_enc_varint64(b.len(), b + rest);
    assert((b + rest).take(b.len() as int) =~= b);
    assert((b + rest).skip(b.len() as int) =~= rest);
}

/// An eight-byte field's payload always has exactly eight bytes.
pub proof fn lemma_take_field_fixed64_len(s: Seq<u8>)
    requires
        take_field(s) matches Some(p) && p.0.1 is Fixed64,
    ensures
        take_field(s)->Some_0.0.1->Fixed64_0.len() == 8,
{
}

/// The encoding of an eight-byte field: tag, then the raw bytes.
pub open spec fn enc_fixed64_field(fno: nat, b: Seq<u8>) -> Seq<u8> {
    enc_tag(fno, 1) + b
}

/// Parsing inverts encoding for an eight-byte field.
pub proof fn lemma_take_enc_fixed64_field(fno: nat, b: Seq<u8>, rest: Seq<u8>)
    requires
        fno_ok(fno),
        b.len() == 8,
    ensures
        take_field(enc_fixed64_field(fno, b) + rest) == Some(((fno, FieldData::Fixed64(b)), rest)),
{
    lemma_tag_split(fno, 1);
    assert(enc_fixed64_field(fno, b) + rest =~= enc_varint(fno * 8 + 1) + (b + rest));
    lemma_take_enc_varint64(fno * 8 + 1, b + rest);
    assert((b + rest).take(8) =~= b);
    assert((b + rest).skip(8) =~= rest);
}

/// One decoded field of a record, in executable form; payload bytes are
/// copied out of the input.
pub enum FieldValue {
    /// Wire type 0: a varint value.
    Varint(u64),
    /// Wire type 1: eight raw bytes.
    Fixed64(Vec<u8>),
    /// Wire type 2: a length-delimited byte string.
    Bytes(Vec<u8>),
    /// Wire type 5: four raw bytes.
    Fixed32(Vec<u8>),
}

impl View for FieldValue {
    type V = FieldData;

    open spec fn view(&self) -> FieldData {
        match self {
            FieldValue::Varint(v) => FieldData::Varint(*v),
            FieldValue::Fixed64(b) => FieldData::Fixed64(b@),
            FieldValue::Bytes(b) => FieldData::Bytes(b@),
            FieldValue::Fixed32(b) => FieldData::Fixed32(b@),
        }
    }
}

/// Reads one complete field off the front of `s`.
pub fn decode_field(s: &[u8]) -> (r: Option<(u64, FieldValue, &[u8])>)
    ensures
        match r {
            Some((fno, data, rest)) => take_field(s@) == Some(
                ((fno as nat, data@), rest@),
            ),
            None => take_field(s@) is None,
        },
{
    let (tag, r1) = match decode_varint(s) {
        None => {
            return None;
        },
        Some(p) => p,
    };
    let fno = tag / 8;
    let wt = tag % 8;
    if fno == 0 {
        None
    } else if wt == 0 {
        match decode_varint(r1) {
            None => None,
            Some((v, r2)) => Some((fno, FieldValue::Varint(v), r2)),
        }
    } else if wt == 1 {
        if r1.len() >= 8 {
            let payload = vstd::slice::slice_to_vec(vstd::slice::slice_subrange(r1, 0, 8));
            let rest = vstd::slice::slice_subrange(r1, 8, r1.len());
            proof {
                assert(payload@ =~= r1@.take(8));
                assert(rest@ =~= r1@.skip(8));
            }
            Some((fno, FieldValue::Fixed64(payload), rest))
        } else {
            None
        }
    } else if wt == 2 {
        match decode_varint(r1) {
            None => None,
            Some((len, r2)) => if len <= r2.len() as u64 {
                let len = len as usize;
                let payload = vstd::slice::slice_to_vec(vstd::slice::slice_subrange(r2, 0, len));
                let rest = vstd::slice::slice_subrange(r2, len, r2.len());
                proof {
                    assert(payload@ =~= r2@.take(len as int));
                    assert(rest@ =~= r2@.skip(len as int));
                }
                Some((fno, FieldValue::Bytes(payload), rest))
            } else {
                None
            },
        }
    } else if wt == 5 {
        if r1.len() >= 4 {
            let payload = vstd::slice::slice_to_vec(vstd::slice::slice_subrange(r1, 0, 4));
            let rest = vstd::slice::slice_subrange(r1, 4, r1.len());
            proof {
                assert(payload@ =~= r1@.take(4));
                assert(rest@ =~= r1@.skip(4));
            }
            Some((fno, FieldValue::Fixed32(payload), rest))
        } else {
            None
        }
    } else {
        None
    }
}

/// The 64-bit two's-complement value a signed 32-bit code is carried as.
pub open spec fn i32_sign_extend(c: int) -> nat {
    if c >= 0 {
        c as nat
    } else {
        (c + 0x1_0000_0000_0000_0000) as nat
    }
}

/// The 64-bit two's-complement value a signed 64-bit integer is carried as.
pub open spec fn i64_sign_extend(v: int) -> nat {
    if v >= 0 {
        v as nat
    } else {
        (v + 0x1_0000_0000_0000_0000) as nat
    }
}

/// Carries a signed 64-bit integer as a 64-bit varint value.
pub fn int64_to_varint_value(v: i64) -> (r: u64)
    ensures
        r as nat == i64_sign_extend(v as int),
{
    if v >= 0 {
        v as u64
    } else {
        let neg: u64 = (-(v + 1)) as u64;
        u64::MAX - neg
    }
}

/// The signed 64-bit integer recovered from a varint value: the 64 bits
/// reinterpreted as two's complement.
pub open spec fn wrap_to_i64(v: u64) -> int {
    if v >= 0x8000_0000_0000_0000 {
        v - 0x1_0000_0000_0000_0000
    } else {
        v as int
    }
}

/// Recovering a signed 64-bit integer inverts carrying it.
pub proof fn lemma_int64_round_trip(c: int)
    requires
        -0x8000_0000_0000_0000 <= c < 0x8000_0000_0000_0000,
    ensures
        i64_sign_extend(c) < u64_bound(),
        wrap_to_i64(i64_sign_extend(c) as u64) == c,
{
}

/// Recovers a signed 64-bit integer from a varint value.
pub fn varint_value_to_int64(v: u64) -> (c: i64)
    ensures
        c as int == wrap_to_i64(v),
{
    if v >= 0x8000_0000_0000_0000 {
        let t: u64 = u64::MAX - v;
        -(t as i64) - 1
    } else {
        v as i64
    }
}

/// The little-endian bytes of a 64-bit value.
pub open spec fn u64_le_bytes(v: nat) -> Seq<u8> {
    seq![
        (v % 0x100) as u8,
        ((v / 0x100) % 0x100) as u8,
        ((v / 0x1_0000) % 0x100) as u8,
        ((v / 0x100_0000) % 0x100) as u8,
        ((v / 0x1_0000_0000) % 0x100) as u8,
        ((v / 0x100_0000_0000) % 0x100) as u8,
        ((v / 0x1_0000_0000_0000) % 0x100) as u8,
        ((v / 0x100_0000_0000_0000) % 0x100) as u8,
    ]
}

/// The 64-bit value eight little-endian bytes carry.
pub open spec fn le_bytes_to_u64(b: Seq<u8>) -> nat
    recommends
        b.len() == 8,
{
    (b[0] + b[1] * 0x100 + b[2] * 0x1_0000 + b[3] * 0x100_0000 + b[4] * 0x1_0000_0000 + b[5]
        * 0x100_0000_0000 + b[6] * 0x1_0000_0000_0000 + b[7] * 0x100_0000_0000_0000) as nat
}

/// Reading eight little-endian bytes back inverts writing them.
pub proof fn lemma_u64_le_round_trip(v: u64)
    ensures
        u64_le_bytes(v as nat).len() == 8,
        le_bytes_to_u64(u64_le_bytes(v as nat)) == v as nat,
{
    let n = v as int;
    vstd::arithmetic::div_mod::lemma_div_denominator(n, 0x100, 0x100);
    vstd::arithmetic::div_mod::lemma_div_denominator(n, 0x1_0000, 0x100);
    vstd::arithmetic::div_mod::lemma_div_denominator(n, 0x100_0000, 0x100);
    vstd::arithmetic::div_mod::lemma_div_denominator(n, 0x1_0000_0000, 0x100);
    vstd::arithmetic::div_mod::lemma_div_denominator(n, 0x100_0000_0000, 0x100);
    vstd::arithmetic::div_mod::lemma_div_denominator(n, 0x1_0000_0000_0000, 0x100);
    lemma_fundamental_div_mod(n, 0x100);
    lemma_fundamental_div_mod(n / 0x100, 0x100);
    lemma_fundamental_div_mod(n / 0x1_0000, 0x100);
    lemma_fundamental_div_mod(n / 0x100_0000, 0x100);
    lemma_fundamental_div_mod(n / 0x1_0000_0000, 0x100);
    lemma_fundamental_div_mod(n / 0x100_0000_0000, 0x100);
    lemma_fundamental_div_mod(n / 0x1_0000_0000_0000, 0x100);
    assert(n / 0x100_0000_0000_0000 < 0x100) by {
        vstd::arithmetic::div_mod::lemma_div_denominator(n, 0x100_0000_0000_0000, 0x100);
    };
}

/// Recovers a 64-bit value from its eight little-endian bytes.
pub fn decode_u64_le(b: &[u8]) -> (v: u64)
    requires
        b@.len() == 8,
    ensures
        v as nat == le_bytes_to_u64(b@),
{
    let b0 = *vstd::slice::slice_index_get(b, 0) as u64;
    let b1 = *vstd::slice::slice_index_get(b, 1) as u64;
    let b2 = *vstd::slice::slice_index_get(b, 2) as u64;
    let b3 = *vstd::slice::slice_index_get(b, 3) as u64;
    let b4 = *vstd::slice::slice_index_get(b, 4) as u64;
    let b5 = *vstd::slice::slice_index_get(b, 5) as u64;
    let b6 = *vstd::slice::slice_index_get(b, 6) as u64;
    let b7 = *vstd::slice::slice_index_get(b, 7) as u64;
    b0 + b1 * 0x100 + b2 * 0x1_0000 + b3 * 0x100_0000 + b4 * 0x1_0000_0000 + b5 * 0x100_0000_0000
        + b6 * 0x1_0000_0000_0000 + b7 * 0x100_0000_0000_0000
}

/// Appends the eight little-endian bytes of `v` to `out`.
pub fn encode_u64_le(out: &mut Vec<u8>, v: u64)
    ensures
        final(out)@ == old(out)@ + u64_le_bytes(v as nat),
{
    out.push((v % 0x100) as u8);
    out.push(((v / 0x100) % 0x100) as u8);
    out.push(((v / 0x1_0000) % 0x100) as u8);
    out.push(((v / 0x100_0000) % 0x100) as u8);
    out.push(((v / 0x1_0000_0000) % 0x100) as u8);
    out.push(((v / 0x100_0000_0000) % 0x100) as u8);
    out.push(((v / 0x1_0000_0000_0000) % 0x100) as u8);
    out.push(((v / 0x100_0000_0000_0000) % 0x100) as u8);
    assert(out@ =~= old(out)@ + u64_le_bytes(v as nat));
}

/// The signed 32-bit code recovered from a varint value: the low 32 bits,
/// reinterpreted as two's complement.
pub open spec fn wrap_to_i32(v: u64) -> int {
    let low = (v as nat) % 0x1_0000_0000;
    if low >= 0x8000_0000 {
        low - 0x1_0000_0000
    } else {
        low as int
    }
}

/// Recovering the code inverts carrying it, for every value a 32-bit code
/// can take.
pub proof fn lemma_code_round_trip(c: int)
    requires
        -0x8000_0000 <= c < 0x8000_0000,
    ensures
        i32_sign_extend(c) < u64_bound(),
        wrap_to_i32(i32_sign_extend(c) as u64) == c,
{
    if c >= 0 {
        lemma_small_mod(c as nat, 0x1_0000_0000);
    } else {
        let v = (c + 0x1_0000_0000_0000_0000) as nat;
        assert(v as int == 0x1_0000_0000 * 0xFFFF_FFFF + (c + 0x1_0000_0000));
        lemma_mod_multiples_vanish(0xFFFF_FFFF, c + 0x1_0000_0000, 0x1_0000_0000);
        lemma_small_mod((c + 0x1_0000_0000) as nat, 0x1_0000_0000);
    }
}

/// Carries a signed 32-bit code as a 64-bit varint value.
pub fn code_to_varint_value(c: i32) -> (v: u64)
    ensures
        v as nat == i32_sign_extend(c as int),
{
    if c >= 0 {
        c as u64
    } else {
        let neg: u64 = (-(c as i64)) as u64;
        u64::MAX - neg + 1
    }
}

/// Recovers a signed 32-bit code from a 64-bit varint value.
pub fn varint_value_to_code(v: u64) -> (c: i32)
    ensures
        c as int == wrap_to_i32(v),
{
    let low: u64 = v % 0x1_0000_0000;
    if low >= 0x8000_0000 {
        let t: i64 = (low as i64) - 0x1_0000_0000;
        t as i32
    } else {
        low as i32
    }
}

/// Appends all of `b` to `out`.
pub fn push_bytes(out: &mut Vec<u8>, b: &[u8])
    ensures
        final(out)@ == old(out)@ + b@,
{
    let mut i: usize = 0;
    while i < b.len()
        invariant
            i <= b@.len(),
            out@ == old(out)@ + b@.take(i as int),
        decreases b@.len() - i,
    {
        out.push(*vstd::slice::slice_index_get(b, i));
        proof {
            assert(out@ =~= old(out)@ + b@.take(i as int + 1));
        }
        i += 1;
    }
    proof {
        assert(b@.take(b@.len() as int) =~= b@);
    }
}

/// Reads one varint off the front of `s`, rejecting values that do not fit in
/// 64 bits.
pub fn decode_varint(s: &[u8]) -> (r: Option<(u64, &[u8])>)
    ensures
        match r {
            Some(p) => take_varint64(s@) == Some((p.0, p.1@)),
            None => take_varint64(s@) is None,
        },
    decreases s.len(),
{
    if s.len() == 0 {
        return None;
    }
    let b = *vstd::slice::slice_index_get(s, 0);
    let tail = vstd::slice::slice_subrange(s, 1, s.len());
    proof {
        assert(tail@ =~= s@.skip(1));
    }
    if b < 0x80 {
        Some((b as u64, tail))
    } else {
        let low: u64 = (b - 0x80) as u64;
        match decode_varint(tail) {
            None => None,
            Some((v, rest)) => {
                proof {
                    if take_varint(tail@) is Some {
                        let inner = take_varint(tail@)->Some_0.0;
                        if inner >= u64_bound() {
                            // the full value only grows, so it is rejected too
                            assert((low as nat) + 0x80 * inner >= u64_bound()) by {
                                lemma_mul_inequality(
                                    u64_bound() as int,
                                    inner as int,
                                    0x80,
                                );
                            };
                        }
                    }
                }
                if v <= (u64::MAX - low) / 0x80 {
                    proof {
                        lemma_fundamental_div_mod((u64::MAX - low) as int, 0x80);
                        lemma_mul_inequality(v as int, ((u64::MAX - low) / 0x80) as int, 0x80);
                    }
                    Some((low + 0x80 * v, rest))
                } else {
                    proof {
                        lemma_fundamental_div_mod((u64::MAX - low) as int, 0x80);
                        lemma_mul_inequality(((u64::MAX - low) / 0x80 + 1) as int, v as int, 0x80);
                        assert((low as nat) + 0x80 * (v as nat) >= u64_bound());
                    }
                    None
                }
            },
        }
    }
}

} // verus!
