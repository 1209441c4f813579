//! Tests of the encoder and sender stages: ordering, the flush barrier,
//! encode failures, quit handling, and address changes.

use buffered_client::encoder::{encoder_step, encoded_packet, run_encoder, EncoderAction, EncoderEvent, EncoderIn};
use buffered_client::messages::{enqueue_action, flush_result, Address, ClientMsg, EncodeError, EnqueueAction, FlushResult, FlushedMsg, OverflowPolicy, PacketMsg, QueueConfig, Submission};
use buffered_client::retry::RetryEvent;
use buffered_client::sender::{run_sender, sender_step, SenderAction, SenderEffect, SenderIn, SenderState};

fn addr(host: u32, port: u16) -> Address {
    Address { host, port }
}

#[test]
fn ordering_submissions_then_flush() {
    let ins = vec![
        EncoderIn::Submitted(Ok(vec![1, 2])),
        EncoderIn::Submitted(Ok(vec![3])),
        EncoderIn::Submitted(Ok(vec![4, 5, 6])),
        EncoderIn::Flush,
    ];
    let out = run_encoder(ins);
    assert_eq!(out.len(), 4);
    assert!(matches!(&out[0], PacketMsg::Packet(b) if *b == vec![1, 2]));
    assert!(matches!(&out[1], PacketMsg::Packet(b) if *b == vec![3]));
    assert!(matches!(&out[2], PacketMsg::Packet(b) if *b == vec![4, 5, 6]));
    assert!(matches!(&out[3], PacketMsg::Flush));
}

#[test]
fn flush_ack_comes_after_every_send() {
    let a = addr(1, 9876);
    let ins = vec![
        SenderIn::Packet(vec![1, 2], vec![RetryEvent::Succeeded]),
        SenderIn::Packet(vec![3], vec![RetryEvent::Succeeded]),
        SenderIn::Flush,
    ];
    let effects = run_sender(ins, a);
    assert_eq!(effects.len(), 3);
    assert!(matches!(&effects[0], SenderEffect::Sent(s, b) if *s == a && *b == vec![1, 2]));
    assert!(matches!(&effects[1], SenderEffect::Sent(s, b) if *s == a && *b == vec![3]));
    assert!(matches!(&effects[2], SenderEffect::Ack));
}

#[test]
fn failed_encoding_is_dropped_and_pipeline_continues() {
    let ins = vec![
        EncoderIn::Submitted(Ok(vec![1])),
        EncoderIn::Submitted(Err(EncodeError { reason: String::from("too large") })),
        EncoderIn::Submitted(Ok(vec![2])),
        EncoderIn::Flush,
    ];
    let out = run_encoder(ins);
    assert_eq!(out.len(), 3);
    assert!(matches!(&out[0], PacketMsg::Packet(b) if *b == vec![1]));
    assert!(matches!(&out[1], PacketMsg::Packet(b) if *b == vec![2]));
    assert!(matches!(&out[2], PacketMsg::Flush));
}

#[test]
fn quit_stops_encoder_without_draining() {
    let ins = vec![
        EncoderIn::Submitted(Ok(vec![1])),
        EncoderIn::Quit,
        EncoderIn::Submitted(Ok(vec![2])),
        EncoderIn::Flush,
    ];
    let out = run_encoder(ins);
    assert_eq!(out.len(), 1);
    assert!(matches!(&out[0], PacketMsg::Packet(b) if *b == vec![1]));
}

#[test]
fn quit_stops_sender_without_draining() {
    let a = addr(1, 9876);
    let ins = vec![
        SenderIn::Packet(vec![1], vec![RetryEvent::Succeeded]),
        SenderIn::Quit,
        SenderIn::Packet(vec![2], vec![RetryEvent::Succeeded]),
        SenderIn::Flush,
    ];
    let effects = run_sender(ins, a);
    assert_eq!(effects.len(), 1);
    assert!(matches!(&effects[0], SenderEffect::Sent(s, b) if *s == a && *b == vec![1]));
}

#[test]
fn quit_during_retry_abandons_packet_and_stops() {
    let a = addr(1, 9876);
    let ins = vec![
        SenderIn::Packet(
            vec![1],
            vec![RetryEvent::Failed(String::from("refused")), RetryEvent::Quit],
        ),
        SenderIn::Flush,
    ];
    let effects = run_sender(ins, a);
    assert!(effects.is_empty());
}

#[test]
fn address_change_takes_effect_in_order() {
    let first = addr(1, 9876);
    let second = addr(2, 9877);
    let ins = vec![
        SenderIn::Packet(vec![10], vec![RetryEvent::Succeeded]),
        SenderIn::SetAddress(second),
        SenderIn::Packet(vec![20], vec![RetryEvent::Succeeded]),
    ];
    let effects = run_sender(ins, first);
    assert_eq!(effects.len(), 2);
    assert!(matches!(&effects[0], SenderEffect::Sent(s, b) if *s == first && *b == vec![10]));
    assert!(matches!(&effects[1], SenderEffect::Sent(s, b) if *s == second && *b == vec![20]));
}

#[test]
fn interleaved_producers_lose_nothing() {
    // Two producers' submissions, interleaved as they might arrive on the
    // shared queue: every one of them is forwarded exactly once, in arrival
    // order.
    let ins = vec![
        EncoderIn::Submitted(Ok(vec![101])),
        EncoderIn::Submitted(Ok(vec![201])),
        EncoderIn::Submitted(Ok(vec![202])),
        EncoderIn::Submitted(Ok(vec![102])),
        EncoderIn::Submitted(Ok(vec![203])),
        EncoderIn::Submitted(Ok(vec![103])),
    ];
    let out = run_encoder(ins);
    let expected: Vec<Vec<u8>> = vec![
        vec![101],
        vec![201],
        vec![202],
        vec![102],
        vec![203],
        vec![103],
    ];
    assert_eq!(out.len(), expected.len());
    for (packet, want) in out.iter().zip(expected.iter()) {
        assert!(matches!(packet, PacketMsg::Packet(b) if b == want));
    }
}

#[test]
fn encoder_step_maps_each_message() {
    let ev = EncoderEvent::Received(ClientMsg::Submit(Submission { payload: vec![9] }));
    assert!(matches!(encoder_step(ev), EncoderAction::Encode(s) if s.payload == vec![9]));

    let a = addr(7, 70);
    let ev = EncoderEvent::Received(ClientMsg::SetAddress(a));
    assert!(matches!(encoder_step(ev), EncoderAction::Forward(PacketMsg::SetAddress(got)) if got == a));

    let ev = EncoderEvent::Received(ClientMsg::Flush);
    assert!(matches!(encoder_step(ev), EncoderAction::Forward(PacketMsg::Flush)));

    assert!(matches!(encoder_step(EncoderEvent::Quit), EncoderAction::Stop));
    assert!(matches!(encoder_step(EncoderEvent::Closed), EncoderAction::Stop));
}

#[test]
fn encoded_packet_forwards_success_and_drops_failure() {
    assert!(matches!(
        encoded_packet(Ok(vec![1, 2])),
        Some(PacketMsg::Packet(b)) if b == vec![1, 2]
    ));
    assert!(encoded_packet(Err(EncodeError { reason: String::from("bad") })).is_none());
}

#[test]
fn sender_step_maps_each_item() {
    let first = addr(1, 1);
    let second = addr(2, 2);
    let mut st = SenderState::new(first);

    let act = sender_step(&mut st, PacketMsg::Packet(vec![5]));
    assert!(matches!(act, SenderAction::Deliver(b) if b == vec![5]));
    assert_eq!(st.addr, first);

    let act = sender_step(&mut st, PacketMsg::SetAddress(second));
    assert!(matches!(act, SenderAction::Continue));
    assert_eq!(st.addr, second);

    let act = sender_step(&mut st, PacketMsg::Flush);
    assert!(matches!(act, SenderAction::AckFlush));
    assert_eq!(st.addr, second);
}

#[test]
fn flush_result_distinguishes_ack_from_abort() {
    assert_eq!(flush_result(Some(FlushedMsg)), FlushResult::Completed);
    assert_eq!(flush_result(None), FlushResult::Aborted);
}

#[test]
fn enqueue_respects_capacity_and_policy() {
    let unbounded = QueueConfig::unbounded();
    assert_eq!(enqueue_action(&unbounded, 0), EnqueueAction::Accept);
    assert_eq!(enqueue_action(&unbounded, 1_000_000), EnqueueAction::Accept);

    let blocking = QueueConfig::bounded(2, OverflowPolicy::Block);
    assert_eq!(enqueue_action(&blocking, 1), EnqueueAction::Accept);
    assert_eq!(enqueue_action(&blocking, 2), EnqueueAction::Wait);

    let rejecting = QueueConfig::bounded(2, OverflowPolicy::Reject);
    assert_eq!(enqueue_action(&rejecting, 1), EnqueueAction::Accept);
    assert_eq!(enqueue_action(&rejecting, 2), EnqueueAction::Refuse);
    assert_eq!(enqueue_action(&rejecting, 3), EnqueueAction::Refuse);
}
