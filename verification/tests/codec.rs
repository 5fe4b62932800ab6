//! Tests for the error-detail codec: decoding real blobs, round trips, and
//! byte-for-byte interoperability with the ecosystem's canonical
//! serialization library.

use prost::Message;
use rustgrpcdemo::frame::{
    decode_echo_request, decode_echo_response, encode_echo_request, encode_echo_response,
};
use rustgrpcdemo::service::{EchoRequest, EchoResponse};
use rustgrpcdemo::status::{decode_details, decode_status, encode_status, Detail, Example1, Example2, StatusRecord};

/// A details blob captured from a conforming implementation in another
/// language: code 13, message "error with 2 details", and two typed details.
const DETAILS_BYTES_HEX: &[u8] = &[
    0x08, 0x0D, 0x12, 0x14, 0x65, 0x72, 0x72, 0x6F, 0x72, 0x20, 0x77, 0x69, 0x74, 0x68, 0x20,
    0x32, 0x20, 0x64, 0x65, 0x74, 0x61, 0x69, 0x6C, 0x73, 0x1A, 0x29, 0x0A, 0x23, 0x74, 0x79,
    0x70, 0x65, 0x2E, 0x67, 0x6F, 0x6F, 0x67, 0x6C, 0x65, 0x61, 0x70, 0x69, 0x73, 0x2E, 0x63,
    0x6F, 0x6D, 0x2F, 0x65, 0x63, 0x68, 0x6F, 0x70, 0x62, 0x2E, 0x45, 0x78, 0x61, 0x6D, 0x70,
    0x6C, 0x65, 0x31, 0x12, 0x02, 0x08, 0x63, 0x1A, 0x30, 0x0A, 0x23, 0x74, 0x79, 0x70, 0x65,
    0x2E, 0x67, 0x6F, 0x6F, 0x67, 0x6C, 0x65, 0x61, 0x70, 0x69, 0x73, 0x2E, 0x63, 0x6F, 0x6D,
    0x2F, 0x65, 0x63, 0x68, 0x6F, 0x70, 0x62, 0x2E, 0x45, 0x78, 0x61, 0x6D, 0x70, 0x6C, 0x65,
    0x32, 0x12, 0x09, 0x09, 0x1F, 0x85, 0xEB, 0x51, 0xB8, 0x1E, 0x09, 0x40,
];

#[test]
fn test_decode_details() {
    let result = decode_details(DETAILS_BYTES_HEX);
    assert_eq!(2, result.len());
    assert_eq!(result[0].type_url, Example1::type_url());
    assert_eq!(result[1].type_url, Example2::type_url());
}

#[test]
fn decode_details_matches_reference_decoder() {
    let ours = decode_details(DETAILS_BYTES_HEX);
    let reference = tonic_types::Status::decode(DETAILS_BYTES_HEX).unwrap();
    assert_eq!(ours.len(), reference.details.len());
    for (d, any) in ours.iter().zip(reference.details.iter()) {
        assert_eq!(d.type_url, any.type_url.as_bytes());
        assert_eq!(d.value, any.value);
    }
}

#[test]
fn decode_status_reads_all_fields() {
    let st = decode_status(DETAILS_BYTES_HEX).unwrap();
    assert_eq!(st.code, 13);
    assert_eq!(st.message, b"error with 2 details".to_vec());
    assert_eq!(st.details.len(), 2);
    assert_eq!(st.details[0].value, vec![0x08, 0x63]);
}

fn sample_status() -> StatusRecord {
    StatusRecord {
        code: 13,
        message: b"error with 2 details".to_vec(),
        details: vec![
            Detail {
                type_url: Example1::type_url(),
                value: Example1 { int64_value: 99 }.encode(),
            },
            Detail {
                type_url: Example2::type_url(),
                value: Example2 { float64_bits: 1.234f64.to_bits() }.encode(),
            },
        ],
    }
}

#[test]
fn encode_matches_reference_encoder() {
    let ours = encode_status(&sample_status());
    let reference = tonic_types::Status {
        code: 13,
        message: "error with 2 details".to_string(),
        details: vec![
            prost_types::Any {
                type_url: "type.googleapis.com/echopb.Example1".to_string(),
                value: vec![0x08, 0x63],
            },
            prost_types::Any {
                type_url: "type.googleapis.com/echopb.Example2".to_string(),
                value: {
                    let mut v = vec![0x09];
                    v.extend(1.234f64.to_le_bytes());
                    v
                },
            },
        ],
    };
    assert_eq!(ours, reference.encode_to_vec());
}

#[test]
fn reference_decoder_reads_our_encoding() {
    let ours = encode_status(&sample_status());
    let reference = tonic_types::Status::decode(ours.as_slice()).unwrap();
    assert_eq!(reference.code, 13);
    assert_eq!(reference.message, "error with 2 details");
    assert_eq!(reference.details.len(), 2);
    assert_eq!(
        reference.details[0].type_url,
        "type.googleapis.com/echopb.Example1"
    );
    assert_eq!(
        reference.details[1].type_url,
        "type.googleapis.com/echopb.Example2"
    );
}

#[test]
fn round_trip_two_details() {
    let st = sample_status();
    let blob = encode_status(&st);
    let back = decode_status(blob.as_slice()).unwrap();
    assert_eq!(back.code, st.code);
    assert_eq!(back.message, st.message);
    assert_eq!(back.details.len(), 2);
    assert_eq!(back.details[0].type_url, st.details[0].type_url);
    assert_eq!(back.details[0].value, st.details[0].value);
    assert_eq!(back.details[1].type_url, st.details[1].type_url);
    assert_eq!(back.details[1].value, st.details[1].value);
}

#[test]
fn round_trip_negative_code_matches_reference() {
    let st = StatusRecord {
        code: -7,
        message: b"x".to_vec(),
        details: vec![],
    };
    let blob = encode_status(&st);
    let reference = tonic_types::Status {
        code: -7,
        message: "x".to_string(),
        details: vec![],
    };
    assert_eq!(blob, reference.encode_to_vec());
    let back = decode_status(blob.as_slice()).unwrap();
    assert_eq!(back.code, -7);
}

#[test]
fn decode_truncated_blob_yields_no_details() {
    let truncated = &DETAILS_BYTES_HEX[..DETAILS_BYTES_HEX.len() - 3];
    assert!(decode_status(truncated).is_none());
    assert_eq!(decode_details(truncated).len(), 0);
}

#[test]
fn decode_garbage_blob_yields_no_details() {
    assert_eq!(decode_details(&[0xFF, 0xFF, 0xFF]).len(), 0);
    assert_eq!(decode_details(&[0x07]).len(), 0);
}

#[test]
fn decode_empty_blob_yields_no_details() {
    assert_eq!(decode_details(&[]).len(), 0);
    let st = decode_status(&[]).unwrap();
    assert_eq!(st.code, 0);
    assert_eq!(st.message.len(), 0);
    assert_eq!(st.details.len(), 0);
}

#[test]
fn decode_skips_unknown_fields() {
    // field 4 (varint 5), then field 2 (message "hi")
    let blob = &[0x20, 0x05, 0x12, 0x02, 0x68, 0x69];
    let st = decode_status(blob).unwrap();
    assert_eq!(st.code, 0);
    assert_eq!(st.message, b"hi".to_vec());
    assert_eq!(st.details.len(), 0);
}

#[test]
fn decode_accepts_any_field_order_and_last_code_wins() {
    // message "m", then code 1, then code 2
    let blob = &[0x12, 0x01, 0x6D, 0x08, 0x01, 0x08, 0x02];
    let st = decode_status(blob).unwrap();
    assert_eq!(st.code, 2);
    assert_eq!(st.message, b"m".to_vec());
}

#[test]
fn example_payload_encodings() {
    assert_eq!(Example1 { int64_value: 99 }.encode(), vec![0x08, 0x63]);
    assert_eq!(Example1 { int64_value: 0 }.encode(), Vec::<u8>::new());
    let mut expected = vec![0x09];
    expected.extend(1.234f64.to_le_bytes());
    assert_eq!(Example2 { float64_bits: 1.234f64.to_bits() }.encode(), expected);
    assert_eq!(
        rustgrpcdemo::service::EXAMPLE2_BITS,
        1.234f64.to_bits()
    );
}

#[test]
fn example_payload_decoding() {
    let e1 = Example1::decode(&[0x08, 0x63]).unwrap();
    assert_eq!(e1.int64_value, 99);

    let encoded = Example1 { int64_value: -5 }.encode();
    let back = Example1::decode(encoded.as_slice()).unwrap();
    assert_eq!(back.int64_value, -5);

    let mut blob = vec![0x09];
    blob.extend(1.234f64.to_le_bytes());
    let e2 = Example2::decode(blob.as_slice()).unwrap();
    assert_eq!(f64::from_bits(e2.float64_bits), 1.234);

    // an empty payload carries the default value
    assert_eq!(Example1::decode(&[]).unwrap().int64_value, 0);
    // a truncated payload is malformed
    assert!(Example1::decode(&[0x08]).is_none());
    assert!(Example2::decode(&[0x09, 0x00]).is_none());
}

#[test]
fn type_urls_use_the_fixed_prefix() {
    assert_eq!(
        Example1::type_url(),
        b"type.googleapis.com/echopb.Example1".to_vec()
    );
    assert_eq!(
        Example2::type_url(),
        b"type.googleapis.com/echopb.Example2".to_vec()
    );
}

#[test]
fn frame_codec_round_trips_messages() {
    let request = EchoRequest { input: b"Hello, world!".to_vec() };
    let bytes = encode_echo_request(&request);
    assert_eq!(bytes, {
        let mut v = vec![0x0A, 0x0D];
        v.extend(b"Hello, world!");
        v
    });
    assert_eq!(decode_echo_request(bytes.as_slice()).unwrap().input, request.input);

    let response = EchoResponse { output: Vec::new() };
    let bytes = encode_echo_response(&response);
    assert_eq!(bytes, Vec::<u8>::new());
    assert_eq!(decode_echo_response(bytes.as_slice()).unwrap().output, Vec::<u8>::new());

    // a truncated frame is malformed
    assert!(decode_echo_request(&[0x0A, 0x05, 0x61]).is_none());
}

#[test]
fn varint_encoding_exact_bytes() {
    let mut v: Vec<u8> = Vec::new();
    rustgrpcdemo::wire::encode_varint(&mut v, 300);
    assert_eq!(v, vec![0xAC, 0x02]);
    let mut w: Vec<u8> = Vec::new();
    rustgrpcdemo::wire::encode_varint(&mut w, 0);
    assert_eq!(w, vec![0x00]);
}
