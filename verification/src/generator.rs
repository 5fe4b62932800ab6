//! The outbound message generator: a cooperative, pollable producer of a
//! bounded sequence of request messages, with a configurable delay between
//! consecutive messages.
//!
//! The generator is an explicit finite-state machine driven by a
//! scheduler-agnostic "produce next" operation: each poll yields a message,
//! reports a pending delay, or ends the sequence.  The timer itself belongs
//! to the driver; the machine only records whether a delay is armed, and it
//! arms one strictly between sends — never before the first message, never
//! after the last.

use vstd::prelude::*;

verus! {

use vstd::string::{StrSliceExecFns, StringSliceAdditionalSpecFns};
use crate::service::EchoRequest;
use crate::wire::push_bytes;

/// The decimal digits of `n`, most significant first.
pub open spec fn dec_digits(n: nat) -> Seq<u8>
    decreases n,
{
    if n < 10 {
        seq![(0x30 + n) as u8]
    } else {
        dec_digits(n / 10) + seq![(0x30 + n % 10) as u8]
    }
}

/// The decimal digits of `n`, as bytes.
pub fn u64_to_decimal(n: u64) -> (r: Vec<u8>)
    ensures
        r@ == dec_digits(n as nat),
    decreases n,
{
    if n < 10 {
        let mut v: Vec<u8> = Vec::new();
        v.push((0x30 + n) as u8);
        proof {
            assert(v@ =~= dec_digits(n as nat));
        }
        v
    } else {
        let mut v = u64_to_decimal(n / 10);
        v.push((0x30 + (n % 10)) as u8);
        proof {
            assert(v@ =~= dec_digits(n as nat));
        }
        v
    }
}

/// The text of the `n`th generated message, counting from one.
pub open spec fn message_text(n: nat) -> Seq<u8> {
    "message ".spec_bytes() + dec_digits(n)
}

/// Builds the text of the `n`th generated message.
pub fn make_message_text(n: u64) -> (r: Vec<u8>)
    ensures
        r@ == message_text(n as nat),
{
    let mut out = "message ".as_bytes_vec();
    let digits = u64_to_decimal(n);
    push_bytes(&mut out, digits.as_slice());
    out
}

/// Where the generator stands between polls.
#[derive(Clone, Copy, Debug)]
pub enum GenState {
    /// No delay is pending; the next poll emits a message or ends the
    /// sequence.
    ReadyToEmit,
    /// A delay is armed; polls report pending until the driver says the
    /// delay elapsed.
    AwaitingDelay,
    /// The sequence has ended; the generator must not be polled again.
    Exhausted,
}

/// What one poll of the generator produced.
#[derive(Debug)]
pub enum StreamPoll {
    /// The next message of the sequence.
    Ready(EchoRequest),
    /// A delay is still pending; the driver must wait and poll again.
    Pending,
    /// The sequence has ended; no further items.
    Done,
}

/// The generator: emits `num_messages_to_send` messages, one per poll, with
/// a delay armed strictly between consecutive messages.
#[derive(Clone, Copy, Debug)]
pub struct RawRequestStream {
    /// How many messages the whole sequence holds.
    pub num_messages_to_send: u64,
    /// How many messages have been emitted so far.
    pub messages_sent: u64,
    /// Where the machine stands between polls.
    pub state: GenState,
}

impl RawRequestStream {
    /// The generator's invariant: the count of sent messages never passes
    /// the total, a delay is armed only strictly between sends, and the
    /// sequence is exhausted only once all messages are out.
    pub open spec fn wf(&self) -> bool {
        &&& self.messages_sent <= self.num_messages_to_send
        &&& (self.state is AwaitingDelay ==> 1 <= self.messages_sent
            && self.messages_sent < self.num_messages_to_send)
        &&& (self.state is Exhausted ==> self.messages_sent == self.num_messages_to_send)
    }

    /// Creates a generator for a sequence of `num_messages_to_send`
    /// messages.
    pub fn new(num_messages_to_send: u64) -> (s: Self)
        ensures
            s.wf(),
            s.num_messages_to_send == num_messages_to_send,
            s.messages_sent == 0,
            s.state is ReadyToEmit,
    {
        RawRequestStream { num_messages_to_send, messages_sent: 0, state: GenState::ReadyToEmit }
    }

    /// One poll of the generator.  `delay_elapsed` is the driver's word on
    /// whether the armed delay (if any) has finished; a driver with a zero
    /// delay passes `true` and the machine still steps through the same
    /// transitions.
    ///
    /// While a delay is pending the poll resolves to nothing and changes
    /// nothing.  Otherwise the poll emits message `messages_sent + 1` and
    /// arms a delay exactly when more messages remain, or ends the sequence
    /// once all `num_messages_to_send` messages are out.  A generator is
    /// single-use: once `Done` has been returned it must not be polled
    /// again.
    pub fn poll_next(&mut self, delay_elapsed: bool) -> (r: StreamPoll)
        requires
            old(self).wf(),
            !(old(self).state is Exhausted),
        ensures
            final(self).wf(),
            final(self).num_messages_to_send == old(self).num_messages_to_send,
            old(self).state is AwaitingDelay && !delay_elapsed ==> r is Pending && *final(self)
                == *old(self),
            !(old(self).state is AwaitingDelay && !delay_elapsed) ==> {
                if old(self).messages_sent == old(self).num_messages_to_send {
                    &&& r is Done
                    &&& final(self).state is Exhausted
                    &&& final(self).messages_sent == old(self).messages_sent
                } else {
                    &&& r matches StreamPoll::Ready(req) && req.input@ == message_text(
                        (old(self).messages_sent + 1) as nat,
                    )
                    &&& final(self).messages_sent == old(self).messages_sent + 1
                    &&& if old(self).messages_sent + 1 < old(self).num_messages_to_send {
                        final(self).state is AwaitingDelay
                    } else {
                        final(self).state is ReadyToEmit
                    }
                }
            },
    {
        match self.state {
            GenState::AwaitingDelay => {
                if !delay_elapsed {
                    return StreamPoll::Pending;
                }
                // the delay finished: disarm it and fall through to emit
                self.state = GenState::ReadyToEmit;
            },
            GenState::ReadyToEmit => {
            },
            GenState::Exhausted => {
                return vstd::pervasive::unreached();
            },
        }
        if self.messages_sent == self.num_messages_to_send {
            self.state = GenState::Exhausted;
            return StreamPoll::Done;
        }
        self.messages_sent = self.messages_sent + 1;
        if self.messages_sent < self.num_messages_to_send {
            // more messages remain: arm the delay to await before the next
            self.state = GenState::AwaitingDelay;
        }
        let input = make_message_text(self.messages_sent);
        StreamPoll::Ready(EchoRequest { input })
    }
}

/// The texts of a whole generated sequence, in order: `message 1` up to
/// `message count`.
pub open spec fn generator_messages(count: nat) -> Seq<Seq<u8>> {
    Seq::new(count, |i: int| message_text((i + 1) as nat))
}

/// How many delays a whole run arms: one between each pair of consecutive
/// messages, so none for an empty or single-message sequence.
pub open spec fn generator_delays(count: nat) -> nat {
    if count == 0 {
        0
    } else {
        (count - 1) as nat
    }
}

/// Drains a fresh generator to its end with an always-ready timer,
/// collecting every message and counting the delays armed along the way.
///
/// The collected run shows the generator emits exactly
/// `num_messages_to_send` messages — never more — with the expected text in
/// order, and arms exactly one delay between consecutive sends.
pub fn drain_counting_delays(stream: &mut RawRequestStream) -> (r: (Vec<EchoRequest>, u64))
    requires
        old(stream).wf(),
        old(stream).messages_sent == 0,
        old(stream).state is ReadyToEmit,
    ensures
        r.0@.len() == old(stream).num_messages_to_send,
        forall|i: int|
            0 <= i < r.0@.len() ==> #[trigger] r.0@[i].input@ == message_text((i + 1) as nat),
        r.1 as nat == generator_delays(old(stream).num_messages_to_send as nat),
        final(stream).state is Exhausted,
{
    let mut messages: Vec<EchoRequest> = Vec::new();
    let mut delays: u64 = 0;
    loop
        invariant
            stream.wf(),
            !(stream.state is Exhausted),
            stream.state is ReadyToEmit ==> stream.messages_sent == 0 || stream.messages_sent
                == stream.num_messages_to_send,
            stream.num_messages_to_send == old(stream).num_messages_to_send,
            messages@.len() == stream.messages_sent,
            forall|i: int|
                0 <= i < messages@.len() ==> #[trigger] messages@[i].input@ == message_text(
                    (i + 1) as nat,
                ),
            delays == if stream.state is AwaitingDelay {
                stream.messages_sent
            } else if stream.messages_sent == 0 {
                0
            } else {
                (stream.messages_sent - 1) as u64
            },
        decreases stream.num_messages_to_send - stream.messages_sent + 1,
    {
        match stream.poll_next(true) {
            StreamPoll::Ready(req) => {
                messages.push(req);
                if stream.messages_sent < stream.num_messages_to_send {
                    delays = delays + 1;
                }
            },
            StreamPoll::Pending => {
                // with an always-ready timer the generator never reports a
                // pending delay
                return vstd::pervasive::unreached();
            },
            StreamPoll::Done => {
                return (messages, delays);
            },
        }
    }
}

/// Drains a fresh generator to its end with an always-ready timer and
/// returns every message it emitted, in order.
pub fn get_all(stream: &mut RawRequestStream) -> (r: Vec<EchoRequest>)
    requires
        old(stream).wf(),
        old(stream).messages_sent == 0,
        old(stream).state is ReadyToEmit,
    ensures
        r@.len() == old(stream).num_messages_to_send,
        forall|i: int|
            0 <= i < r@.len() ==> #[trigger] r@[i].input@ == message_text((i + 1) as nat),
        final(stream).state is Exhausted,
{
    let (messages, _) = drain_counting_delays(stream);
    messages
}

} // verus!
