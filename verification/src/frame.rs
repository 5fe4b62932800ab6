//! The frame codec: serializes a request or response message to and from
//! its byte payload.
//!
//! Both message types carry one text field, so one codec serves both: the
//! text travels as length-delimited field 1 of the same self-describing
//! scheme the error attachment uses, the empty text is encoded as the empty
//! payload, and a decoder skips field numbers it does not recognize.

use vstd::prelude::*;

verus! {

use crate::service::{EchoRequest, EchoResponse};
use crate::status::{parse_detail, parse_detail_fields, empty_detail};
use crate::wire::{
    decode_field,
    enc_bytes_field,
    lemma_take_enc_bytes_field,
    lemma_take_field_shrinks,
    push_bytes,
    FieldValue,
};

/// The encoding of a message with the given text: field 1, omitted when the
/// text is empty.
pub open spec fn enc_text_message(text: Seq<u8>) -> Seq<u8> {
    if text.len() > 0 {
        enc_bytes_field(1, text)
    } else {
        Seq::empty()
    }
}

/// The text a message payload parses to.  The field layout agrees with a
/// detail record's first field, so the detail parser defines it.
pub open spec fn parse_text_message(s: Seq<u8>) -> Option<Seq<u8>> {
    match parse_detail(s) {
        Some(d) => Some(d.type_url),
        None => None,
    }
}

/// Encodes the text of a message.
fn encode_text_message(text: &Vec<u8>) -> (r: Vec<u8>)
    ensures
        r@ == enc_text_message(text@),
{
    let mut out: Vec<u8> = Vec::new();
    if text.len() > 0 {
        crate::wire::encode_varint(&mut out, 10);
        crate::wire::encode_varint(&mut out, text.len() as u64);
        push_bytes(&mut out, text.as_slice());
        proof {
            assert(out@ =~= enc_bytes_field(1, text@));
        }
    }
    out
}

/// Decodes the text of a message; `None` when the bytes are malformed.
fn decode_text_message(data: &[u8]) -> (r: Option<Vec<u8>>)
    ensures
        match r {
            Some(text) => parse_text_message(data@) == Some(text@),
            None => parse_text_message(data@) is None,
        },
{
    let mut rest: &[u8] = data;
    let mut text: Vec<u8> = Vec::new();
    let mut other: Vec<u8> = Vec::new();
    loop
        invariant
            parse_detail_fields(
                rest@,
                crate::status::DetailModel { type_url: text@, value: other@ },
            ) == parse_detail(data@),
        decreases rest@.len(),
    {
        if rest.len() == 0 {
            return Some(text);
        }
        match decode_field(rest) {
            None => {
                return None;
            },
            Some((fno, val, r2)) => {
                proof {
                    lemma_take_field_shrinks(rest@);
                }
                if fno == 1 {
                    match val {
                        FieldValue::Bytes(b) => {
                            text = b;
                        },
                        _ => {
                            return None;
                        },
                    }
                } else if fno == 2 {
                    match val {
                        FieldValue::Bytes(b) => {
                            other = b;
                        },
                        _ => {
                            return None;
                        },
                    }
                }
                rest = r2;
            },
        }
    }
}

/// Encodes a request message.
pub fn encode_echo_request(request: &EchoRequest) -> (r: Vec<u8>)
    ensures
        r@ == enc_text_message(request.input@),
{
    encode_text_message(&request.input)
}

/// Decodes a request message; `None` when the bytes are malformed.
pub fn decode_echo_request(data: &[u8]) -> (r: Option<EchoRequest>)
    ensures
        match r {
            Some(request) => parse_text_message(data@) == Some(request.input@),
            None => parse_text_message(data@) is None,
        },
{
    match decode_text_message(data) {
        Some(input) => Some(EchoRequest { input }),
        None => None,
    }
}

/// Encodes a response message.
pub fn encode_echo_response(response: &EchoResponse) -> (r: Vec<u8>)
    ensures
        r@ == enc_text_message(response.output@),
{
    encode_text_message(&response.output)
}

/// Decodes a response message; `None` when the bytes are malformed.
pub fn decode_echo_response(data: &[u8]) -> (r: Option<EchoResponse>)
    ensures
        match r {
            Some(response) => parse_text_message(data@) == Some(response.output@),
            None => parse_text_message(data@) is None,
        },
{
    match decode_text_message(data) {
        Some(output) => Some(EchoResponse { output }),
        None => None,
    }
}

/// Round trip: decoding the encoding of any message yields its text
/// exactly, for every text that fits a frame.
pub proof fn lemma_text_message_round_trip(text: Seq<u8>)
    requires
        text.len() < 0x1_0000_0000,
    ensures
        parse_text_message(enc_text_message(text)) == Some(text),
{
    reveal_with_fuel(parse_detail_fields, 2);
    if text.len() > 0 {
        lemma_take_enc_bytes_field(1, text, Seq::<u8>::empty());
        assert(enc_text_message(text) =~= enc_bytes_field(1, text) + Seq::<u8>::empty());
        assert(crate::status::DetailModel { type_url: text, ..empty_detail() }.type_url == text);
    }
}

} // verus!
