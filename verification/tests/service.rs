//! Tests for the echo transform and the error-injection mode.

use rustgrpcdemo::service::{EchoRequest, EchoService};
use rustgrpcdemo::status::{encode_status, Example1, Example2};

#[test]
fn echo_prefixes_the_input() {
    let service = EchoService::new(false);
    let request = EchoRequest { input: b"Hello, world!".to_vec() };
    let response = service.echo(&request).unwrap();
    assert_eq!(response.output, b"echoed: Hello, world!".to_vec());
}

#[test]
fn error_injection_fails_with_two_details() {
    let service = EchoService::new(true);
    let request = EchoRequest { input: b"anything".to_vec() };
    let status = service.echo(&request).unwrap_err();
    assert_eq!(status.code, 13);
    assert_eq!(status.message, b"error with 2 details".to_vec());
    assert_eq!(status.details.len(), 2);
    assert!(status.details[0].type_url.ends_with(b"Example1"));
    assert!(status.details[1].type_url.ends_with(b"Example2"));
    assert_eq!(status.details[0].type_url, Example1::type_url());
    assert_eq!(status.details[1].type_url, Example2::type_url());
}

#[test]
fn injected_status_encodes_like_the_reference_implementation() {
    let service = EchoService::new(true);
    let request = EchoRequest { input: b"x".to_vec() };
    let status = service.echo(&request).unwrap_err();
    let blob = encode_status(&status);
    // the blob decodes in the codec of the surrounding ecosystem
    let reference = <tonic_types::Status as prost::Message>::decode(blob.as_slice()).unwrap();
    assert_eq!(reference.code, 13);
    assert_eq!(reference.message, "error with 2 details");
    assert_eq!(reference.details.len(), 2);
    assert_eq!(reference.details[0].value, vec![0x08, 0x63]);
    assert_eq!(
        reference.details[1].value,
        {
            let mut v = vec![0x09];
            v.extend(1.234f64.to_le_bytes());
            v
        }
    );
}
