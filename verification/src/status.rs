//! The error-detail codec.
//!
//! An error status is a record of a signed 32-bit code, a text message and an
//! ordered sequence of typed details, each detail a pair of a type-identifier
//! string and opaque payload bytes.  The record travels as one binary blob in
//! the wire scheme of [`crate::wire`]: code in field 1 (varint), message in
//! field 2 (length-delimited), each detail in field 3 as a nested record with
//! the identifier in field 1 and the payload in field 2.  Encoding is
//! canonical (fields in number order, defaults omitted); decoding accepts
//! fields in any order, skips unrecognized field numbers, and treats any
//! malformed blob as carrying no details.

use vstd::prelude::*;

verus! {

use vstd::string::{StrSliceExecFns, StringSliceAdditionalSpecFns};
use crate::wire::{
    decode_field,
    enc_bytes_field,
    enc_varint,
    enc_varint_field,
    take_field,
    FieldData,
    FieldValue,
    code_to_varint_value,
    decode_u64_le,
    enc_fixed64_field,
    encode_u64_le,
    encode_varint,
    fno_ok,
    i32_sign_extend,
    i64_sign_extend,
    int64_to_varint_value,
    le_bytes_to_u64,
    lemma_code_round_trip,
    lemma_int64_round_trip,
    lemma_take_enc_bytes_field,
    lemma_take_enc_fixed64_field,
    lemma_take_enc_varint_field,
    lemma_take_field_fixed64_len,
    lemma_take_field_shrinks,
    lemma_u64_le_round_trip,
    push_bytes,
    u64_bound,
    u64_le_bytes,
    varint_value_to_code,
    varint_value_to_int64,
    wrap_to_i32,
    wrap_to_i64,
};

/// The mathematical value of one typed detail.
#[verifier::ext_equal]
pub struct DetailModel {
    /// The type-identifier string, as its bytes.
    pub type_url: Seq<u8>,
    /// The payload bytes, opaque to the codec.
    pub value: Seq<u8>,
}

/// The mathematical value of an error status record.
#[verifier::ext_equal]
pub struct StatusModel {
    /// The signed 32-bit status code.
    pub code: int,
    /// The human-readable message, as its bytes.
    pub message: Seq<u8>,
    /// The details, in encode order.
    pub details: Seq<DetailModel>,
}

/// The record a decoder starts from: all fields at their defaults.
pub open spec fn empty_detail() -> DetailModel {
    DetailModel { type_url: Seq::empty(), value: Seq::empty() }
}

/// The record a decoder starts from: all fields at their defaults.
pub open spec fn empty_status() -> StatusModel {
    StatusModel { code: 0, message: Seq::empty(), details: Seq::empty() }
}

/// Folds one decoded field into a detail record.  Fields 1 and 2 must be
/// length-delimited; other field numbers are skipped.
pub open spec fn detail_apply(acc: DetailModel, fno: nat, data: FieldData) -> Option<DetailModel> {
    if fno == 1 {
        match data {
            FieldData::Bytes(b) => Some(DetailModel { type_url: b, ..acc }),
            _ => None,
        }
    } else if fno == 2 {
        match data {
            FieldData::Bytes(b) => Some(DetailModel { value: b, ..acc }),
            _ => None,
        }
    } else {
        Some(acc)
    }
}

/// Parses the fields of a detail record, folding them into `acc`.
pub open spec fn parse_detail_fields(s: Seq<u8>, acc: DetailModel) -> Option<DetailModel>
    decreases s.len(),
    via parse_detail_fields_dec
{
    if s.len() == 0 {
        Some(acc)
    } else {
        match take_field(s) {
            None => None,
            Some(((fno, data), rest)) => match detail_apply(acc, fno, data) {
                None => None,
                Some(acc2) => parse_detail_fields(rest, acc2),
            },
        }
    }
}

#[via_fn]
proof fn parse_detail_fields_dec(s: Seq<u8>, acc: DetailModel) {
    if s.len() != 0 && take_field(s) is Some {
        lemma_take_field_shrinks(s);
    }
}

/// Parses one detail record.
pub open spec fn parse_detail(s: Seq<u8>) -> Option<DetailModel> {
    parse_detail_fields(s, empty_detail())
}

/// Folds one decoded field into a status record.  Field 1 must be a varint
/// (the code, truncated to 32 bits), fields 2 and 3 length-delimited; a
/// detail that itself fails to parse makes the whole record malformed; other
/// field numbers are skipped.
pub open spec fn status_apply(acc: StatusModel, fno: nat, data: FieldData) -> Option<StatusModel> {
    if fno == 1 {
        match data {
            FieldData::Varint(v) => Some(StatusModel { code: wrap_to_i32(v), ..acc }),
            _ => None,
        }
    } else if fno == 2 {
        match data {
            FieldData::Bytes(b) => Some(StatusModel { message: b, ..acc }),
            _ => None,
        }
    } else if fno == 3 {
        match data {
            FieldData::Bytes(b) => match parse_detail(b) {
                Some(d) => Some(StatusModel { details: acc.details.push(d), ..acc }),
                None => None,
            },
            _ => None,
        }
    } else {
        Some(acc)
    }
}

/// Parses the fields of a status record, folding them into `acc`.
pub open spec fn parse_status_fields(s: Seq<u8>, acc: StatusModel) -> Option<StatusModel>
    decreases s.len(),
    via parse_status_fields_dec
{
    if s.len() == 0 {
        Some(acc)
    } else {
        match take_field(s) {
            None => None,
            Some(((fno, data), rest)) => match status_apply(acc, fno, data) {
                None => None,
                Some(acc2) => parse_status_fields(rest, acc2),
            },
        }
    }
}

#[via_fn]
proof fn parse_status_fields_dec(s: Seq<u8>, acc: StatusModel) {
    if s.len() != 0 && take_field(s) is Some {
        lemma_take_field_shrinks(s);
    }
}

/// Parses a status record from a blob.
pub open spec fn parse_status(s: Seq<u8>) -> Option<StatusModel> {
    parse_status_fields(s, empty_status())
}

/// The canonical encoding of one detail record: identifier then payload,
/// defaults omitted.
pub open spec fn enc_detail(d: DetailModel) -> Seq<u8> {
    (if d.type_url.len() > 0 {
        enc_bytes_field(1, d.type_url)
    } else {
        Seq::empty()
    }) + (if d.value.len() > 0 {
        enc_bytes_field(2, d.value)
    } else {
        Seq::empty()
    })
}

/// The encodings of a sequence of details, each wrapped in field 3, in order.
pub open spec fn enc_details(ds: Seq<DetailModel>) -> Seq<u8>
    decreases ds.len(),
{
    if ds.len() == 0 {
        Seq::empty()
    } else {
        enc_bytes_field(3, enc_detail(ds[0])) + enc_details(ds.skip(1))
    }
}

/// The canonical encoding of a status record: code, message, details, with
/// default code and empty message omitted.
pub open spec fn enc_status(st: StatusModel) -> Seq<u8> {
    (if st.code != 0 {
        enc_varint_field(1, i32_sign_extend(st.code))
    } else {
        Seq::empty()
    }) + (if st.message.len() > 0 {
        enc_bytes_field(2, st.message)
    } else {
        Seq::empty()
    }) + enc_details(st.details)
}

/// A detail whose parts are small enough to encode: both byte strings under
/// four gibibytes, far beyond anything a process holds in one blob.
pub open spec fn detail_wf(d: DetailModel) -> bool {
    d.type_url.len() < 0x1_0000_0000 && d.value.len() < 0x1_0000_0000
}

/// A status record small enough to encode: the code a 32-bit value, the
/// message and every detail bounded as in [`detail_wf`].
pub open spec fn status_wf(st: StatusModel) -> bool {
    &&& -0x8000_0000 <= st.code < 0x8000_0000
    &&& st.message.len() < 0x1_0000_0000
    &&& forall|i: int| 0 <= i < st.details.len() ==> detail_wf(#[trigger] st.details[i])
}

/// A varint encoding never takes more than five bytes for values under
/// `0x80^5`.
proof fn lemma_enc_varint_len5(n: nat)
    requires
        n < 0x8_0000_0000,
    ensures
        enc_varint(n).len() <= 5,
{
    let n1 = n / 0x80;
    let n2 = n1 / 0x80;
    let n3 = n2 / 0x80;
    let n4 = n3 / 0x80;
    assert(n4 < 0x80);
    assert(enc_varint(n4).len() == 1);
    assert(enc_varint(n3).len() <= 2);
    assert(enc_varint(n2).len() <= 3);
    assert(enc_varint(n1).len() <= 4);
    assert(enc_varint(n).len() <= 5);
}

/// The encoding of a well-formed detail fits comfortably in a field.
proof fn lemma_enc_detail_len(d: DetailModel)
    requires
        detail_wf(d),
    ensures
        enc_detail(d).len() < u64_bound(),
{
    if d.type_url.len() > 0 {
        lemma_enc_varint_len5(10);
        lemma_enc_varint_len5(d.type_url.len());
    }
    if d.value.len() > 0 {
        lemma_enc_varint_len5(18);
        lemma_enc_varint_len5(d.value.len());
    }
}

/// Parsing inverts encoding for one detail record.
proof fn lemma_parse_enc_detail(d: DetailModel)
    requires
        detail_wf(d),
    ensures
        parse_detail(enc_detail(d)) == Some(d),
{
    reveal_with_fuel(parse_detail_fields, 4);
    let e_url = enc_bytes_field(1, d.type_url);
    let e_val = enc_bytes_field(2, d.value);
    let empty = Seq::<u8>::empty();
    if d.type_url.len() > 0 && d.value.len() > 0 {
        let acc1 = DetailModel { type_url: d.type_url, ..empty_detail() };
        assert(enc_detail(d) =~= e_url + e_val);
        lemma_take_enc_bytes_field(1, d.type_url, e_val);
        assert(parse_detail_fields(enc_detail(d), empty_detail()) == parse_detail_fields(
            e_val,
            acc1,
        ));
        assert(e_val =~= e_val + empty);
        lemma_take_enc_bytes_field(2, d.value, empty);
        assert(parse_detail_fields(e_val, acc1) == parse_detail_fields(
            empty,
            DetailModel { value: d.value, ..acc1 },
        ));
        assert(d =~= DetailModel { value: d.value, ..acc1 });
    } else if d.type_url.len() > 0 {
        assert(enc_detail(d) =~= e_url + empty);
        lemma_take_enc_bytes_field(1, d.type_url, empty);
        assert(d =~= DetailModel { type_url: d.type_url, ..empty_detail() });
    } else if d.value.len() > 0 {
        assert(enc_detail(d) =~= e_val + empty);
        lemma_take_enc_bytes_field(2, d.value, empty);
        assert(d =~= DetailModel { value: d.value, ..empty_detail() });
    } else {
        assert(enc_detail(d) =~= empty);
        assert(d =~= empty_detail());
    }
}

/// Parsing the encoded details appends exactly those details, in order, to
/// whatever record was already accumulated.
proof fn lemma_parse_enc_details(ds: Seq<DetailModel>, acc: StatusModel)
    requires
        forall|i: int| 0 <= i < ds.len() ==> detail_wf(#[trigger] ds[i]),
    ensures
        parse_status_fields(enc_details(ds), acc) == Some(
            StatusModel { details: acc.details + ds, ..acc },
        ),
    decreases ds.len(),
{
    reveal_with_fuel(parse_status_fields, 2);
    if ds.len() == 0 {
        assert(acc.details + ds =~= acc.details);
        assert(StatusModel { details: acc.details + ds, ..acc } =~= acc);
    } else {
        let d = ds[0];
        let tail = enc_details(ds.skip(1));
        lemma_enc_detail_len(d);
        lemma_take_enc_bytes_field(3, enc_detail(d), tail);
        assert(enc_details(ds) =~= enc_bytes_field(3, enc_detail(d)) + tail);
        lemma_parse_enc_detail(d);
        let acc2 = StatusModel { details: acc.details.push(d), ..acc };
        lemma_parse_enc_details(ds.skip(1), acc2);
        assert(acc2.details + ds.skip(1) =~= acc.details + ds);
        assert(StatusModel { details: acc2.details + ds.skip(1), ..acc2 } =~= StatusModel {
            details: acc.details + ds,
            ..acc
        });
    }
}

/// One typed detail: a type-identifier string (as bytes) naming how to
/// interpret the opaque payload bytes.
#[derive(Clone, Debug)]
pub struct Detail {
    /// The type-identifier, a namespaced name in UTF-8 bytes.
    pub type_url: Vec<u8>,
    /// The payload bytes, opaque to the codec.
    pub value: Vec<u8>,
}

impl View for Detail {
    type V = DetailModel;

    open spec fn view(&self) -> DetailModel {
        DetailModel { type_url: self.type_url@, value: self.value@ }
    }
}

/// The details a sequence of [`Detail`] values stands for, in order.
pub open spec fn details_view(s: Seq<Detail>) -> Seq<DetailModel> {
    Seq::new(s.len(), |i: int| s[i]@)
}

/// An error status: code, message and ordered details.
#[derive(Clone, Debug)]
pub struct StatusRecord {
    /// The signed 32-bit status code.
    pub code: i32,
    /// The human-readable message, in UTF-8 bytes.
    pub message: Vec<u8>,
    /// The details, in encode order.
    pub details: Vec<Detail>,
}

impl View for StatusRecord {
    type V = StatusModel;

    open spec fn view(&self) -> StatusModel {
        StatusModel {
            code: self.code as int,
            message: self.message@,
            details: details_view(self.details@),
        }
    }
}

/// Appends one length-delimited field (tag, length, payload) to `out`.
fn encode_bytes_field(out: &mut Vec<u8>, fno: u64, b: &[u8])
    requires
        fno_ok(fno as nat),
    ensures
        final(out)@ == old(out)@ + enc_bytes_field(fno as nat, b@),
{
    encode_varint(out, fno * 8 + 2);
    encode_varint(out, b.len() as u64);
    push_bytes(out, b);
    proof {
        assert(out@ =~= old(out)@ + enc_bytes_field(fno as nat, b@));
    }
}

/// Encodes one detail record.
pub fn encode_detail(d: &Detail) -> (r: Vec<u8>)
    ensures
        r@ == enc_detail(d@),
{
    let mut out: Vec<u8> = Vec::new();
    if d.type_url.len() > 0 {
        encode_bytes_field(&mut out, 1, d.type_url.as_slice());
    }
    if d.value.len() > 0 {
        encode_bytes_field(&mut out, 2, d.value.as_slice());
    }
    proof {
        assert(out@ =~= enc_detail(d@));
    }
    out
}

/// Appending one more detail extends the encoding on the right.
proof fn lemma_enc_details_snoc(ds: Seq<DetailModel>, d: DetailModel)
    ensures
        enc_details(ds.push(d)) == enc_details(ds) + enc_bytes_field(3, enc_detail(d)),
    decreases ds.len(),
{
    if ds.len() == 0 {
        assert(ds.push(d).skip(1) =~= ds);
        assert(enc_details(ds.push(d)) =~= enc_details(ds) + enc_bytes_field(3, enc_detail(d)));
    } else {
        assert(ds.push(d).skip(1) =~= ds.skip(1).push(d));
        lemma_enc_details_snoc(ds.skip(1), d);
        assert(enc_details(ds.push(d)) =~= enc_details(ds) + enc_bytes_field(3, enc_detail(d)));
    }
}

/// Encodes a status record into its canonical blob.
pub fn encode_status(st: &StatusRecord) -> (r: Vec<u8>)
    ensures
        r@ == enc_status(st@),
{
    let mut out: Vec<u8> = Vec::new();
    if st.code != 0 {
        encode_varint(&mut out, 8);
        encode_varint(&mut out, code_to_varint_value(st.code));
        proof {
            assert(out@ =~= enc_varint_field(1, i32_sign_extend(st.code as int)));
        }
    }
    if st.message.len() > 0 {
        encode_bytes_field(&mut out, 2, st.message.as_slice());
    }
    let ghost head2 = out@;
    let mut i: usize = 0;
    while i < st.details.len()
        invariant
            i <= st.details@.len(),
            out@ == head2 + enc_details(details_view(st.details@).take(i as int)),
        decreases st.details@.len() - i,
    {
        let any = encode_detail(&st.details[i]);
        encode_bytes_field(&mut out, 3, any.as_slice());
        proof {
            let dv = details_view(st.details@);
            assert(dv.take(i as int).push(dv[i as int]) =~= dv.take(i as int + 1));
            lemma_enc_details_snoc(dv.take(i as int), dv[i as int]);
        }
        i += 1;
    }
    proof {
        let dv = details_view(st.details@);
        assert(dv.take(dv.len() as int) =~= dv);
        assert(out@ =~= enc_status(st@));
    }
    out
}

/// Decodes one detail record; `None` when the bytes are malformed.
fn decode_detail_record(data: &[u8]) -> (r: Option<Detail>)
    ensures
        match r {
            Some(d) => parse_detail(data@) == Some(d@),
            None => parse_detail(data@) is None,
        },
{
    let mut rest: &[u8] = data;
    let mut type_url: Vec<u8> = Vec::new();
    let mut value: Vec<u8> = Vec::new();
    loop
        invariant
            parse_detail_fields(rest@, DetailModel { type_url: type_url@, value: value@ })
                == parse_detail(data@),
        decreases rest@.len(),
    {
        if rest.len() == 0 {
            return Some(Detail { type_url, value });
        }
        match decode_field(rest) {
            None => {
                return None;
            },
            Some((fno, val, r2)) => {
                proof {
                    lemma_take_field_shrinks(rest@);
                }
                if fno == 1 {
                    match val {
                        FieldValue::Bytes(b) => {
                            type_url = b;
                        },
                        _ => {
                            return None;
                        },
                    }
                } else if fno == 2 {
                    match val {
                        FieldValue::Bytes(b) => {
                            value = b;
                        },
                        _ => {
                            return None;
                        },
                    }
                }
                rest = r2;
            },
        }
    }
}

/// Decodes a status record from a blob; `None` when the blob is malformed.
pub fn decode_status(data: &[u8]) -> (r: Option<StatusRecord>)
    ensures
        match r {
            Some(st) => parse_status(data@) == Some(st@),
            None => parse_status(data@) is None,
        },
{
    let mut rest: &[u8] = data;
    let mut code: i32 = 0;
    let mut message: Vec<u8> = Vec::new();
    let mut details: Vec<Detail> = Vec::new();
    proof {
        assert(details_view(details@) =~= Seq::<DetailModel>::empty());
        assert(StatusModel {
            code: code as int,
            message: message@,
            details: details_view(details@),
        } =~= empty_status());
    }
    loop
        invariant
            parse_status_fields(
                rest@,
                StatusModel {
                    code: code as int,
                    message: message@,
                    details: details_view(details@),
                },
            ) == parse_status(data@),
        decreases rest@.len(),
    {
        if rest.len() == 0 {
            return Some(StatusRecord { code, message, details });
        }
        match decode_field(rest) {
            None => {
                return None;
            },
            Some((fno, val, r2)) => {
                proof {
                    lemma_take_field_shrinks(rest@);
                }
                if fno == 1 {
                    match val {
                        FieldValue::Varint(v) => {
                            code = varint_value_to_code(v);
                        },
                        _ => {
                            return None;
                        },
                    }
                } else if fno == 2 {
                    match val {
                        FieldValue::Bytes(b) => {
                            message = b;
                        },
                        _ => {
                            return None;
                        },
                    }
                } else if fno == 3 {
                    match val {
                        FieldValue::Bytes(b) => {
                            match decode_detail_record(b.as_slice()) {
                                None => {
                                    return None;
                                },
                                Some(d) => {
                                    let ghost before = details_view(details@);
                                    details.push(d);
                                    proof {
                                        assert(details_view(details@) =~= before.push(d@));
                                    }
                                },
                            }
                        },
                        _ => {
                            return None;
                        },
                    }
                }
                rest = r2;
            },
        }
    }
}

/// The details carried by an error attachment blob.  A malformed or
/// truncated blob yields the empty sequence: decoding never fails outward,
/// this is a best-effort diagnostic path.
pub fn decode_details(details: &[u8]) -> (r: Vec<Detail>)
    ensures
        match parse_status(details@) {
            Some(st) => details_view(r@) == st.details,
            None => r@.len() == 0,
        },
{
    match decode_status(details) {
        Some(st) => st.details,
        None => Vec::new(),
    }
}

/// The fixed namespace prefix every type-identifier starts with; it must be
/// reproduced exactly for cross-implementation compatibility.
pub open spec fn type_url_prefix() -> Seq<u8> {
    "type.googleapis.com/".spec_bytes()
}

/// Builds the type-identifier for a package-qualified message name: the
/// namespace prefix followed by the name.
fn make_type_url(name: &str) -> (r: Vec<u8>)
    ensures
        r@ == type_url_prefix() + name.spec_bytes(),
{
    let mut v = "type.googleapis.com/".as_bytes_vec();
    push_bytes(&mut v, name.as_bytes());
    v
}

/// A sample detail payload carrying one signed 64-bit integer in field 1.
#[derive(Clone, Copy, Debug)]
pub struct Example1 {
    /// The carried integer.
    pub int64_value: i64,
}

impl Example1 {
    /// The type-identifier of this payload type.
    pub open spec fn spec_type_url() -> Seq<u8> {
        type_url_prefix() + "echopb.Example1".spec_bytes()
    }

    /// The type-identifier of this payload type.
    pub fn type_url() -> (r: Vec<u8>)
        ensures
            r@ == Self::spec_type_url(),
    {
        make_type_url("echopb.Example1")
    }

    /// The canonical encoding of this payload: a varint field 1, omitted at
    /// its default.
    pub open spec fn spec_encoding(self) -> Seq<u8> {
        if self.int64_value == 0 {
            Seq::empty()
        } else {
            enc_varint_field(1, i64_sign_extend(self.int64_value as int))
        }
    }

    /// Encodes this payload.
    pub fn encode(&self) -> (r: Vec<u8>)
        ensures
            r@ == self.spec_encoding(),
    {
        let mut out: Vec<u8> = Vec::new();
        if self.int64_value != 0 {
            encode_varint(&mut out, 8);
            encode_varint(&mut out, int64_to_varint_value(self.int64_value));
            proof {
                assert(out@ =~= enc_varint_field(1, i64_sign_extend(self.int64_value as int)));
            }
        }
        out
    }
}

/// A sample detail payload carrying one double-precision number in field 1,
/// held as its IEEE-754 bits.
#[derive(Clone, Copy, Debug)]
pub struct Example2 {
    /// The bits of the carried number.
    pub float64_bits: u64,
}

impl Example2 {
    /// The type-identifier of this payload type.
    pub open spec fn spec_type_url() -> Seq<u8> {
        type_url_prefix() + "echopb.Example2".spec_bytes()
    }

    /// The type-identifier of this payload type.
    pub fn type_url() -> (r: Vec<u8>)
        ensures
            r@ == Self::spec_type_url(),
    {
        make_type_url("echopb.Example2")
    }

    /// The canonical encoding of this payload: an eight-byte field 1,
    /// omitted at its default.
    pub open spec fn spec_encoding(self) -> Seq<u8> {
        if self.float64_bits == 0 {
            Seq::empty()
        } else {
            enc_varint(9) + u64_le_bytes(self.float64_bits as nat)
        }
    }

    /// Encodes this payload.
    pub fn encode(&self) -> (r: Vec<u8>)
        ensures
            r@ == self.spec_encoding(),
    {
        let mut out: Vec<u8> = Vec::new();
        if self.float64_bits != 0 {
            encode_varint(&mut out, 9);
            encode_u64_le(&mut out, self.float64_bits);
            proof {
                assert(out@ =~= enc_varint(9) + u64_le_bytes(self.float64_bits as nat));
            }
        }
        out
    }
}

/// Folds one decoded field into an integer payload value.  Field 1 must be
/// a varint, read as a signed 64-bit value; other field numbers are skipped.
pub open spec fn example1_apply(acc: int, fno: nat, data: FieldData) -> Option<int> {
    if fno == 1 {
        match data {
            FieldData::Varint(v) => Some(wrap_to_i64(v)),
            _ => None,
        }
    } else {
        Some(acc)
    }
}

/// Parses the fields of an integer payload, folding them into `acc`.
pub open spec fn parse_example1_fields(s: Seq<u8>, acc: int) -> Option<int>
    decreases s.len(),
    via parse_example1_fields_dec
{
    if s.len() == 0 {
        Some(acc)
    } else {
        match take_field(s) {
            None => None,
            Some(((fno, data), rest)) => match example1_apply(acc, fno, data) {
                None => None,
                Some(acc2) => parse_example1_fields(rest, acc2),
            },
        }
    }
}

#[via_fn]
proof fn parse_example1_fields_dec(s: Seq<u8>, acc: int) {
    if s.len() != 0 && take_field(s) is Some {
        lemma_take_field_shrinks(s);
    }
}

/// Parses an [`Example1`] payload: the carried integer, zero by default.
pub open spec fn parse_example1(s: Seq<u8>) -> Option<int> {
    parse_example1_fields(s, 0)
}

/// Folds one decoded field into a number payload's bits.  Field 1 must be
/// an eight-byte value; other field numbers are skipped.
pub open spec fn example2_apply(acc: nat, fno: nat, data: FieldData) -> Option<nat> {
    if fno == 1 {
        match data {
            FieldData::Fixed64(b) => Some(le_bytes_to_u64(b)),
            _ => None,
        }
    } else {
        Some(acc)
    }
}

/// Parses the fields of a number payload, folding them into `acc`.
pub open spec fn parse_example2_fields(s: Seq<u8>, acc: nat) -> Option<nat>
    decreases s.len(),
    via parse_example2_fields_dec
{
    if s.len() == 0 {
        Some(acc)
    } else {
        match take_field(s) {
            None => None,
            Some(((fno, data), rest)) => match example2_apply(acc, fno, data) {
                None => None,
                Some(acc2) => parse_example2_fields(rest, acc2),
            },
        }
    }
}

#[via_fn]
proof fn parse_example2_fields_dec(s: Seq<u8>, acc: nat) {
    if s.len() != 0 && take_field(s) is Some {
        lemma_take_field_shrinks(s);
    }
}

/// Parses an [`Example2`] payload: the bits of the carried number, zero by
/// default.
pub open spec fn parse_example2(s: Seq<u8>) -> Option<nat> {
    parse_example2_fields(s, 0)
}

impl Example1 {
    /// Decodes an integer payload; `None` when the bytes are malformed.
    pub fn decode(data: &[u8]) -> (r: Option<Example1>)
        ensures
            match r {
                Some(e) => parse_example1(data@) == Some(e.int64_value as int),
                None => parse_example1(data@) is None,
            },
    {
        let mut rest: &[u8] = data;
        let mut int64_value: i64 = 0;
        loop
            invariant
                parse_example1_fields(rest@, int64_value as int) == parse_example1(data@),
            decreases rest@.len(),
        {
            if rest.len() == 0 {
                return Some(Example1 { int64_value });
            }
            match decode_field(rest) {
                None => {
                    return None;
                },
                Some((fno, val, r2)) => {
                    proof {
                        lemma_take_field_shrinks(rest@);
                    }
                    if fno == 1 {
                        match val {
                            FieldValue::Varint(v) => {
                                int64_value = varint_value_to_int64(v);
                            },
                            _ => {
                                return None;
                            },
                        }
                    }
                    rest = r2;
                },
            }
        }
    }
}

impl Example2 {
    /// Decodes a number payload; `None` when the bytes are malformed.
    pub fn decode(data: &[u8]) -> (r: Option<Example2>)
        ensures
            match r {
                Some(e) => parse_example2(data@) == Some(e.float64_bits as nat),
                None => parse_example2(data@) is None,
            },
    {
        let mut rest: &[u8] = data;
        let mut float64_bits: u64 = 0;
        loop
            invariant
                parse_example2_fields(rest@, float64_bits as nat) == parse_example2(data@),
            decreases rest@.len(),
        {
            if rest.len() == 0 {
                return Some(Example2 { float64_bits });
            }
            match decode_field(rest) {
                None => {
                    return None;
                },
                Some((fno, val, r2)) => {
                    proof {
                        lemma_take_field_shrinks(rest@);
                    }
                    if fno == 1 {
                        match val {
                            FieldValue::Fixed64(b) => {
                                proof {
                                    lemma_take_field_fixed64_len(rest@);
                                }
                                float64_bits = decode_u64_le(b.as_slice());
                            },
                            _ => {
                                return None;
                            },
                        }
                    }
                    rest = r2;
                },
            }
        }
    }
}

/// Round trip: decoding the canonical encoding of an integer payload yields
/// the encoded integer, for every signed 64-bit value.
pub proof fn lemma_example1_round_trip(e: Example1)
    ensures
        parse_example1(e.spec_encoding()) == Some(e.int64_value as int),
{
    reveal_with_fuel(parse_example1_fields, 2);
    if e.int64_value != 0 {
        let v = i64_sign_extend(e.int64_value as int);
        lemma_int64_round_trip(e.int64_value as int);
        lemma_take_enc_varint_field(1, v, Seq::<u8>::empty());
        assert(e.spec_encoding() =~= enc_varint_field(1, v) + Seq::<u8>::empty());
    }
}

/// Round trip: decoding the canonical encoding of a number payload yields
/// the encoded bits, for every 64-bit value.
pub proof fn lemma_example2_round_trip(e: Example2)
    ensures
        parse_example2(e.spec_encoding()) == Some(e.float64_bits as nat),
{
    reveal_with_fuel(parse_example2_fields, 2);
    if e.float64_bits != 0 {
        let b = u64_le_bytes(e.float64_bits as nat);
        lemma_u64_le_round_trip(e.float64_bits);
        lemma_take_enc_fixed64_field(1, b, Seq::<u8>::empty());
        assert(e.spec_encoding() =~= enc_fixed64_field(1, b) + Seq::<u8>::empty());
    }
}

/// Round trip: decoding the canonical encoding of any well-formed status
/// record yields that record exactly — same code, same message, and the
/// details in encode order with identical identifiers and payload bytes.
pub proof fn lemma_status_round_trip(st: StatusModel)
    requires
        status_wf(st),
    ensures
        parse_status(enc_status(st)) == Some(st),
{
    reveal_with_fuel(parse_status_fields, 2);
    let e_code = if st.code != 0 {
        enc_varint_field(1, i32_sign_extend(st.code))
    } else {
        Seq::<u8>::empty()
    };
    let e_msg = if st.message.len() > 0 {
        enc_bytes_field(2, st.message)
    } else {
        Seq::<u8>::empty()
    };
    let e_details = enc_details(st.details);
    let acc1 = StatusModel { code: st.code, ..empty_status() };
    let acc2 = StatusModel { message: st.message, ..acc1 };
    assert(enc_status(st) =~= e_code + (e_msg + e_details));
    if st.code != 0 {
        lemma_code_round_trip(st.code);
        lemma_take_enc_varint_field(1, i32_sign_extend(st.code), e_msg + e_details);
        assert(parse_status_fields(enc_status(st), empty_status()) == parse_status_fields(
            e_msg + e_details,
            acc1,
        ));
    } else {
        assert(enc_status(st) =~= e_msg + e_details);
        assert(acc1 =~= empty_status());
        assert(parse_status_fields(enc_status(st), empty_status()) == parse_status_fields(
            e_msg + e_details,
            acc1,
        ));
    }
    if st.message.len() > 0 {
        lemma_take_enc_bytes_field(2, st.message, e_details);
        assert(parse_status_fields(e_msg + e_details, acc1) == parse_status_fields(
            e_details,
            acc2,
        ));
    } else {
        assert(e_msg + e_details =~= e_details);
        assert(acc2 =~= acc1);
        assert(parse_status_fields(e_msg + e_details, acc1) == parse_status_fields(
            e_details,
            acc2,
        ));
    }
    lemma_parse_enc_details(st.details, acc2);
    assert(acc2.details + st.details =~= st.details);
    assert(StatusModel { details: acc2.details + st.details, ..acc2 } =~= st);
}

} // verus!
