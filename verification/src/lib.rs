//! Verified core of a bidirectional message-echo service.
//!
//! The crate covers the streaming-protocol machinery of the service: the
//! error-detail codec that packs typed payloads into one binary attachment
//! (`wire`, `status`), the frame codec for the messages themselves
//! (`frame`), the pure per-message echo transform (`service`), the
//! client-side generator that produces a finite, paced sequence of request
//! messages (`generator`), and the server-side relay that bridges an
//! inbound request stream to a backpressured outbound response stream
//! (`relay`, `slot`).  Transport, timers and process glue are left to the
//! surrounding application.

pub mod frame;
pub mod generator;
pub mod relay;
pub mod service;
pub mod slot;
pub mod status;
pub mod wire;

use vstd::prelude::*;

verus! {

/// Selects the frame codec that serializes messages on the wire with tuned
/// buffer settings.  The type itself only marks the choice; the surrounding
/// transport supplies the encoder and decoder for it.
pub struct CustomResponseCodec<T, U>(pub core::marker::PhantomData<(T, U)>);

impl<T, U> CustomResponseCodec<T, U> {
    /// Creates the codec marker.
    pub fn new() -> Self {
        CustomResponseCodec(core::marker::PhantomData)
    }
}

} // verus!
