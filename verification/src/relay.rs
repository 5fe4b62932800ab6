//! The stream relay: the server-side bridge from an inbound request stream
//! to an outbound, backpressured response stream.
//!
//! The relay drains the inbound stream, echoes each message, and forwards
//! every outcome through a capacity-one handoff ([`crate::slot`]) to the
//! outbound consumer.  On graceful exhaustion it emits one extra trailing
//! message — a deliberate, observable protocol quirk — and closes; on an
//! inbound transport error it forwards a single terminal error instead, and
//! nothing follows it.

use vstd::prelude::*;

verus! {

use vstd::string::{StrSliceExecFns, StringSliceAdditionalSpecFns};
use crate::service::{echo_transform, echoed, EchoResponse, INTERNAL_CODE};
use crate::slot::SingleSlot;
use crate::status::{StatusModel, StatusRecord};
use crate::wire::push_bytes;

/// How an inbound stream ended.
#[derive(Clone, Debug)]
pub enum StreamEnd {
    /// The sender closed the stream normally.
    Closed,
    /// The transport failed after the received messages, with this error
    /// text.
    TransportError(Vec<u8>),
}

/// The mathematical value of a stream ending.
pub enum StreamEndModel {
    /// The sender closed the stream normally.
    Closed,
    /// The transport failed, with this error text.
    TransportError(Seq<u8>),
}

impl View for StreamEnd {
    type V = StreamEndModel;

    open spec fn view(&self) -> StreamEndModel {
        match self {
            StreamEnd::Closed => StreamEndModel::Closed,
            StreamEnd::TransportError(e) => StreamEndModel::TransportError(e@),
        }
    }
}

/// One item of the outbound stream: a response, or a terminal error after
/// which nothing follows.
#[derive(Clone, Debug)]
pub enum RelayItem {
    /// A successful response.
    Response(EchoResponse),
    /// The stream's final item on failure.
    TerminalError(StatusRecord),
}

/// The mathematical value of an outbound item.
pub enum RelayItemModel {
    /// A successful response, by its text.
    Response(Seq<u8>),
    /// The stream's final item on failure.
    TerminalError(StatusModel),
}

impl View for RelayItem {
    type V = RelayItemModel;

    open spec fn view(&self) -> RelayItemModel {
        match self {
            RelayItem::Response(resp) => RelayItemModel::Response(resp.output@),
            RelayItem::TerminalError(st) => RelayItemModel::TerminalError(st@),
        }
    }
}

/// The outbound items a sequence of [`RelayItem`] values stands for.
pub open spec fn relay_items_view(s: Seq<RelayItem>) -> Seq<RelayItemModel> {
    Seq::new(s.len(), |i: int| s[i]@)
}

/// The message texts a sequence of inbound messages stands for.
pub open spec fn messages_view(s: Seq<Vec<u8>>) -> Seq<Seq<u8>> {
    Seq::new(s.len(), |i: int| s[i]@)
}

/// The text of the one extra message the relay emits after the sender
/// closes.
pub open spec fn trailing_text() -> Seq<u8> {
    "extra message after sender closed abcdef".spec_bytes()
}

/// The text of the terminal error the relay forwards when the inbound
/// transport fails with error text `err`.
pub open spec fn relay_error_text(err: Seq<u8>) -> Seq<u8> {
    "do_echo_bi_dir returned error: ".spec_bytes() + err
}

/// A detail-free status with code Internal and the given message.
pub open spec fn internal_status(msg: Seq<u8>) -> StatusModel {
    StatusModel { code: INTERNAL_CODE as int, message: msg, details: Seq::empty() }
}

/// Everything the relay forwards for a whole inbound stream: each message
/// echoed, in order; then, after a normal close, the one trailing message,
/// or, after a transport error, a single terminal error.
pub open spec fn relay_outputs(inbound: Seq<Seq<u8>>, end: StreamEndModel) -> Seq<RelayItemModel> {
    let echoes = Seq::new(inbound.len(), |i: int| RelayItemModel::Response(echoed(inbound[i])));
    match end {
        StreamEndModel::Closed => echoes.push(RelayItemModel::Response(trailing_text())),
        StreamEndModel::TransportError(e) => echoes.push(
            RelayItemModel::TerminalError(internal_status(relay_error_text(e))),
        ),
    }
}

/// Builds the terminal error for a transport failure with text `err`.
fn make_relay_error(err: &Vec<u8>) -> (r: StatusRecord)
    ensures
        r@ == internal_status(relay_error_text(err@)),
{
    let mut message = "do_echo_bi_dir returned error: ".as_bytes_vec();
    push_bytes(&mut message, err.as_slice());
    let st = StatusRecord { code: INTERNAL_CODE, message, details: Vec::new() };
    proof {
        assert(crate::status::details_view(st.details@) =~= Seq::<crate::status::DetailModel>::empty());
        assert(st@ =~= internal_status(relay_error_text(err@)));
    }
    st
}

/// Builds the one trailing response emitted after a normal close.
fn make_trailing() -> (r: EchoResponse)
    ensures
        r.output@ == trailing_text(),
{
    EchoResponse { output: "extra message after sender closed abcdef".as_bytes_vec() }
}

/// One event the relay's driver observes on the inbound stream.
#[derive(Clone, Debug)]
pub enum InboundEvent {
    /// The next message arrived, with this text.
    Message(Vec<u8>),
    /// The sender closed the stream normally.
    Closed,
    /// The transport failed, with this error text.
    Failed(Vec<u8>),
}

/// What the relay's driver must do in response to one inbound event.
#[derive(Clone, Debug)]
pub enum RelayAction {
    /// Forward this response and keep reading the inbound stream.
    Forward(EchoResponse),
    /// Forward this one trailing response, then close the outbound stream.
    ForwardTrailingThenClose(EchoResponse),
    /// Forward this terminal error as the final item, then stop.
    ForwardTerminal(StatusRecord),
}

/// The relay's whole decision for one inbound event: a message is echoed and
/// forwarded; a normal close yields the one trailing message and then the
/// end of the stream; a transport failure yields a single terminal error.
/// A driver performs the returned action — each forward suspending until the
/// handoff slot is free — and hands back the next event.
pub fn relay_step(event: &InboundEvent) -> (action: RelayAction)
    ensures
        match event@ {
            InboundEventModel::Message(m) => action matches RelayAction::Forward(resp)
                && resp.output@ == echoed(m),
            InboundEventModel::Closed => action matches RelayAction::ForwardTrailingThenClose(
                resp,
            ) && resp.output@ == trailing_text(),
            InboundEventModel::Failed(e) => action matches RelayAction::ForwardTerminal(st) && st@
                == internal_status(relay_error_text(e)),
        },
{
    match event {
        InboundEvent::Message(m) => {
            RelayAction::Forward(EchoResponse { output: echo_transform(m) })
        },
        InboundEvent::Closed => {
            // the sender closed: always exactly one extra message beyond
            // the inbound count
            RelayAction::ForwardTrailingThenClose(make_trailing())
        },
        InboundEvent::Failed(err) => {
            // forward a terminal error instead of closing silently
            RelayAction::ForwardTerminal(make_relay_error(err))
        },
    }
}

/// The mathematical value of an inbound event.
pub enum InboundEventModel {
    /// The next message arrived, with this text.
    Message(Seq<u8>),
    /// The sender closed the stream normally.
    Closed,
    /// The transport failed, with this error text.
    Failed(Seq<u8>),
}

impl View for InboundEvent {
    type V = InboundEventModel;

    open spec fn view(&self) -> InboundEventModel {
        match self {
            InboundEvent::Message(m) => InboundEventModel::Message(m@),
            InboundEvent::Closed => InboundEventModel::Closed,
            InboundEvent::Failed(e) => InboundEventModel::Failed(e@),
        }
    }
}

/// Forwards one outcome to the consumer through the capacity-one handoff:
/// the producer's `put` fills the single slot and the consumer's `take`
/// frees it before anything more can be forwarded.
fn forward(slot: &mut SingleSlot<RelayItem>, out: &mut Vec<RelayItem>, item: RelayItem)
    requires
        old(slot).spec_is_empty(),
    ensures
        final(slot).spec_is_empty(),
        final(out)@ == old(out)@.push(item),
{
    slot.put(item);
    let taken = slot.take();
    out.push(taken);
}

/// Drains a whole inbound stream and returns everything the relay forwards,
/// in forwarding order: the echo of each message as it is received, then the
/// trailing message after a normal close, or one terminal error — and
/// nothing after it — when the transport failed.
pub fn do_echo_bi_dir(inbound: &Vec<Vec<u8>>, end: &StreamEnd) -> (out: Vec<RelayItem>)
    ensures
        relay_items_view(out@) == relay_outputs(messages_view(inbound@), end@),
{
    let mut slot: SingleSlot<RelayItem> = SingleSlot::new();
    let mut out: Vec<RelayItem> = Vec::new();
    let mut i: usize = 0;
    while i < inbound.len()
        invariant
            i <= inbound@.len(),
            slot.spec_is_empty(),
            out@.len() == i,
            forall|j: int|
                0 <= j < i ==> #[trigger] out@[j]@ == RelayItemModel::Response(
                    echoed(inbound@[j]@),
                ),
        decreases inbound@.len() - i,
    {
        let response = EchoResponse { output: echo_transform(&inbound[i]) };
        forward(&mut slot, &mut out, RelayItem::Response(response));
        i += 1;
    }
    match end {
        StreamEnd::Closed => {
            // the sender closed: always exactly one extra message beyond
            // the inbound count
            forward(&mut slot, &mut out, RelayItem::Response(make_trailing()));
        },
        StreamEnd::TransportError(err) => {
            // forward a terminal error instead of closing silently
            let st = make_relay_error(err);
            forward(&mut slot, &mut out, RelayItem::TerminalError(st));
        },
    }
    proof {
        let lhs = relay_items_view(out@);
        let rhs = relay_outputs(messages_view(inbound@), end@);
        assert forall|j: int| 0 <= j < lhs.len() implies lhs[j] == rhs[j] by {
            if j < inbound@.len() {
                assert(out@[j]@ == RelayItemModel::Response(echoed(inbound@[j]@)));
            }
        };
        assert(lhs =~= rhs);
    }
    out
}

/// For every inbound stream of `n` messages that ends normally, the relay
/// emits exactly `n + 1` items: the echoes of the messages, in inbound
/// order, and the fixed trailing message strictly last.
pub proof fn lemma_relay_closed_shape(inbound: Seq<Seq<u8>>)
    ensures
        relay_outputs(inbound, StreamEndModel::Closed).len() == inbound.len() + 1,
        forall|i: int|
            0 <= i < inbound.len() ==> relay_outputs(inbound, StreamEndModel::Closed)[i]
                == RelayItemModel::Response(echoed(inbound[i])),
        relay_outputs(inbound, StreamEndModel::Closed).last() == RelayItemModel::Response(
            trailing_text(),
        ),
{
}

/// For an inbound stream that ends with a transport error after `k`
/// messages, the relay emits exactly `k` responses followed by one terminal
/// error: no trailing message, and nothing after the error.
pub proof fn lemma_relay_error_shape(inbound: Seq<Seq<u8>>, err: Seq<u8>)
    ensures
        relay_outputs(inbound, StreamEndModel::TransportError(err)).len() == inbound.len() + 1,
        forall|i: int|
            0 <= i < inbound.len() ==> relay_outputs(inbound, StreamEndModel::TransportError(err))[i]
                == RelayItemModel::Response(echoed(inbound[i])),
        relay_outputs(inbound, StreamEndModel::TransportError(err)).last()
            == RelayItemModel::TerminalError(internal_status(relay_error_text(err))),
{
}

} // verus!
