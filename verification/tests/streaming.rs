//! Tests for the outbound message generator, the stream relay and the
//! capacity-one handoff slot.

use rustgrpcdemo::generator::{drain_counting_delays, get_all, u64_to_decimal, RawRequestStream, StreamPoll};
use rustgrpcdemo::relay::{do_echo_bi_dir, RelayItem, StreamEnd};
use rustgrpcdemo::slot::SingleSlot;

#[test]
fn generator_of_three_yields_the_numbered_messages() {
    let mut stream = RawRequestStream::new(3);
    let messages = get_all(&mut stream);
    assert_eq!(messages.len(), 3);
    assert_eq!(messages[0].input, b"message 1".to_vec());
    assert_eq!(messages[1].input, b"message 2".to_vec());
    assert_eq!(messages[2].input, b"message 3".to_vec());
}

#[test]
fn generator_of_zero_is_immediately_empty() {
    let mut stream = RawRequestStream::new(0);
    let messages = get_all(&mut stream);
    assert_eq!(messages.len(), 0);
}

#[test]
fn generator_arms_one_delay_between_consecutive_messages() {
    let mut stream = RawRequestStream::new(3);
    let (messages, delays) = drain_counting_delays(&mut stream);
    assert_eq!(messages.len(), 3);
    assert_eq!(delays, 2);

    let mut one = RawRequestStream::new(1);
    let (messages, delays) = drain_counting_delays(&mut one);
    assert_eq!(messages.len(), 1);
    assert_eq!(delays, 0);

    let mut none = RawRequestStream::new(0);
    let (messages, delays) = drain_counting_delays(&mut none);
    assert_eq!(messages.len(), 0);
    assert_eq!(delays, 0);
}

#[test]
fn generator_reports_pending_while_a_delay_is_armed() {
    let mut stream = RawRequestStream::new(2);
    match stream.poll_next(true) {
        StreamPoll::Ready(req) => assert_eq!(req.input, b"message 1".to_vec()),
        _ => panic!("expected the first message"),
    }
    // a delay is now armed between the sends
    assert!(matches!(stream.poll_next(false), StreamPoll::Pending));
    assert!(matches!(stream.poll_next(false), StreamPoll::Pending));
    match stream.poll_next(true) {
        StreamPoll::Ready(req) => assert_eq!(req.input, b"message 2".to_vec()),
        _ => panic!("expected the second message"),
    }
    assert!(matches!(stream.poll_next(true), StreamPoll::Done));
}

#[test]
fn decimal_digits_are_exact() {
    assert_eq!(u64_to_decimal(0), b"0".to_vec());
    assert_eq!(u64_to_decimal(10), b"10".to_vec());
    assert_eq!(u64_to_decimal(987654321), b"987654321".to_vec());
    assert_eq!(
        u64_to_decimal(u64::MAX),
        b"18446744073709551615".to_vec()
    );
}

#[test]
fn relay_echoes_and_adds_the_trailing_message() {
    let inbound = vec![b"a".to_vec(), b"b".to_vec()];
    let out = do_echo_bi_dir(&inbound, &StreamEnd::Closed);
    assert_eq!(out.len(), 3);
    match &out[0] {
        RelayItem::Response(resp) => assert_eq!(resp.output, b"echoed: a".to_vec()),
        RelayItem::TerminalError(_) => panic!("expected a response"),
    }
    match &out[1] {
        RelayItem::Response(resp) => assert_eq!(resp.output, b"echoed: b".to_vec()),
        RelayItem::TerminalError(_) => panic!("expected a response"),
    }
    match &out[2] {
        RelayItem::Response(resp) => assert_eq!(
            resp.output,
            b"extra message after sender closed abcdef".to_vec()
        ),
        RelayItem::TerminalError(_) => panic!("expected the trailing message"),
    }
}

#[test]
fn relay_on_empty_stream_still_emits_the_trailing_message() {
    let out = do_echo_bi_dir(&vec![], &StreamEnd::Closed);
    assert_eq!(out.len(), 1);
    match &out[0] {
        RelayItem::Response(resp) => assert_eq!(
            resp.output,
            b"extra message after sender closed abcdef".to_vec()
        ),
        RelayItem::TerminalError(_) => panic!("expected the trailing message"),
    }
}

#[test]
fn relay_forwards_a_terminal_error_on_transport_failure() {
    let inbound = vec![b"a".to_vec(), b"b".to_vec()];
    let out = do_echo_bi_dir(&inbound, &StreamEnd::TransportError(b"broken pipe".to_vec()));
    assert_eq!(out.len(), 3);
    assert!(matches!(&out[0], RelayItem::Response(_)));
    assert!(matches!(&out[1], RelayItem::Response(_)));
    match &out[2] {
        RelayItem::TerminalError(st) => {
            assert_eq!(st.code, 13);
            assert_eq!(
                st.message,
                b"do_echo_bi_dir returned error: broken pipe".to_vec()
            );
            assert_eq!(st.details.len(), 0);
        },
        RelayItem::Response(_) => panic!("expected the terminal error"),
    }
}

#[test]
fn slot_hands_one_item_through() {
    let mut slot: SingleSlot<u32> = SingleSlot::new();
    assert!(slot.is_empty());
    slot.put(7);
    assert!(!slot.is_empty());
    assert_eq!(slot.take(), 7);
    assert!(slot.is_empty());
}
