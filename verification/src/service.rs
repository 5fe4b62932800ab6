//! The echo transform: the pure per-message business logic.
//!
//! A request's text comes back with a fixed prefix; in error-injection mode
//! every request instead fails with a fixed status that carries two typed
//! details, for interoperability testing of error-detail propagation.

use vstd::prelude::*;

verus! {

use vstd::string::{StrSliceExecFns, StringSliceAdditionalSpecFns};
use crate::status::{
    details_view,
    Detail,
    DetailModel,
    Example1,
    Example2,
    StatusModel,
    StatusRecord,
};
use crate::wire::push_bytes;

/// A request message: one text field, carried as UTF-8 bytes.
#[derive(Clone, Debug)]
pub struct EchoRequest {
    /// The request text.
    pub input: Vec<u8>,
}

/// A response message: one text field, carried as UTF-8 bytes.
#[derive(Clone, Debug)]
pub struct EchoResponse {
    /// The response text.
    pub output: Vec<u8>,
}

/// The fixed textual prefix every echoed response starts with.
pub open spec fn echo_prefix() -> Seq<u8> {
    "echoed: ".spec_bytes()
}

/// The response text for a given request text.
pub open spec fn echoed(input: Seq<u8>) -> Seq<u8> {
    echo_prefix() + input
}

/// Builds the echo of `input`: the fixed prefix followed by the input,
/// unchanged.
pub fn echo_transform(input: &Vec<u8>) -> (r: Vec<u8>)
    ensures
        r@ == echoed(input@),
{
    let mut out = "echoed: ".as_bytes_vec();
    push_bytes(&mut out, input.as_slice());
    out
}

/// The status code labelling an internal failure.
pub const INTERNAL_CODE: i32 = 13;

/// The IEEE-754 bits of the sample number carried by the second injected
/// detail.
pub const EXAMPLE2_BITS: u64 = 0x3FF3_BE76_C8B4_3958;

/// The status an error-injecting service fails with: code Internal, a fixed
/// message, and two typed details in a fixed order — an integer-valued
/// payload, then a number-valued one.
pub open spec fn injected_status() -> StatusModel {
    StatusModel {
        code: INTERNAL_CODE as int,
        message: "error with 2 details".spec_bytes(),
        details: seq![
            DetailModel {
                type_url: Example1::spec_type_url(),
                value: (Example1 { int64_value: 99 }).spec_encoding(),
            },
            DetailModel {
                type_url: Example2::spec_type_url(),
                value: (Example2 { float64_bits: EXAMPLE2_BITS }).spec_encoding(),
            },
        ],
    }
}

/// The echo service: echoes each request, or, in error-injection mode, fails
/// every request with the fixed detailed status.
#[derive(Clone, Copy, Debug)]
pub struct EchoService {
    err_details: bool,
}

impl EchoService {
    /// True when the service injects errors instead of echoing.
    pub closed spec fn spec_err_details(&self) -> bool {
        self.err_details
    }

    /// Creates the service; `err_details` selects error-injection mode.
    pub fn new(err_details: bool) -> (s: Self)
        ensures
            s.spec_err_details() == err_details,
    {
        EchoService { err_details }
    }

    /// Handles one request: the echoed response, or, in error-injection
    /// mode, the fixed detailed status.
    pub fn echo(&self, request: &EchoRequest) -> (r: Result<EchoResponse, StatusRecord>)
        ensures
            match r {
                Ok(resp) => !self.spec_err_details() && resp.output@ == echoed(request.input@),
                Err(st) => self.spec_err_details() && st@ == injected_status(),
            },
    {
        if self.err_details {
            let d1 = Detail {
                type_url: Example1::type_url(),
                value: (Example1 { int64_value: 99 }).encode(),
            };
            let d2 = Detail {
                type_url: Example2::type_url(),
                value: (Example2 { float64_bits: EXAMPLE2_BITS }).encode(),
            };
            let mut details: Vec<Detail> = Vec::new();
            details.push(d1);
            details.push(d2);
            let st = StatusRecord {
                code: INTERNAL_CODE,
                message: "error with 2 details".as_bytes_vec(),
                details,
            };
            proof {
                assert(details_view(st.details@) =~= injected_status().details);
                assert(st@ =~= injected_status());
            }
            Err(st)
        } else {
            Ok(EchoResponse { output: echo_transform(&request.input) })
        }
    }
}

} // verus!
