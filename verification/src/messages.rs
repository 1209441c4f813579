//! The message types that flow through the pipeline: submissions, control
//! signals, packets, and the flush/quit coordination messages.

use vstd::prelude::*;

verus! {

/// Destination of the remote collector: an IPv4 host (big-endian integer)
/// and a port.
#[derive(Clone, Copy, PartialEq, Eq, Structural, Debug)]
pub struct Address {
    pub host: u32,
    pub port: u16,
}

/// One application-level message handed to the pipeline for delivery. The
/// payload is opaque to the pipeline; ownership transfers to the encoder
/// stage on submission.
#[derive(Debug)]
pub struct Submission {
    pub payload: Vec<u8>,
}

/// What a producer enqueues to the encoder stage: a submission, or a control
/// signal that flows the same path and keeps its order relative to the data
/// submitted before it.
#[derive(Debug)]
pub enum ClientMsg {
    Submit(Submission),
    SetAddress(Address),
    Flush,
}

/// What the encoder stage forwards to the sender stage: the encoded byte
/// form of a submission, or a control signal forwarded verbatim.
#[derive(Debug)]
pub enum PacketMsg {
    Packet(Vec<u8>),
    SetAddress(Address),
    Flush,
}

/// Zero-payload acknowledgment sent back once a flush barrier has been
/// honored.
#[derive(PartialEq, Eq, Structural, Debug)]
pub struct FlushedMsg;

/// Abort signal: a stage that observes it stops consuming immediately,
/// discarding anything not yet processed.
#[derive(PartialEq, Eq, Structural, Debug)]
pub struct QuitMsg;

/// Why a submission could not be encoded. Non-fatal: the submission is
/// dropped and reported, the pipeline continues.
#[derive(Debug)]
pub struct EncodeError {
    pub reason: String,
}

/// What a finished flush reports: either every submission enqueued before it
/// was handed to the connection's send path, or the pipeline was aborted and
/// delivery of the remainder is not guaranteed.
#[derive(PartialEq, Eq, Structural, Debug, Clone, Copy)]
pub enum FlushResult {
    Completed,
    Aborted,
}

/// The caller's side of the flush barrier: a received acknowledgment means
/// the barrier was honored; no acknowledgment (the acknowledgment path
/// closed) means the pipeline was aborted before honoring it.
pub fn flush_result(ack: Option<FlushedMsg>) -> (r: FlushResult)
    ensures
        r is Completed <==> ack is Some,
{
    match ack {
        Some(_) => FlushResult::Completed,
        None => FlushResult::Aborted,
    }
}

/// How the submission queue behaves when it is full.
#[derive(PartialEq, Eq, Structural, Debug, Clone, Copy)]
pub enum OverflowPolicy {
    /// The producer blocks until room is made.
    Block,
    /// The new submission is refused (dropped with a report).
    Reject,
}

/// Whether the submission queue applies backpressure, and how. Whether
/// callers need backpressure at all is an open question; the default keeps
/// the queue unbounded, applying none.
#[derive(PartialEq, Eq, Structural, Debug, Clone, Copy)]
pub struct QueueConfig {
    /// Largest number of queued items, or `None` for an unbounded queue.
    pub capacity: Option<usize>,
    /// What happens to a submission that meets a full queue.
    pub policy: OverflowPolicy,
}

impl QueueConfig {
    /// The default configuration: an unbounded queue, no backpressure.
    pub fn unbounded() -> (c: QueueConfig)
        ensures
            c.capacity is None,
    {
        QueueConfig { capacity: None, policy: OverflowPolicy::Block }
    }

    /// A bounded queue of `capacity` items with the given overflow policy.
    pub fn bounded(capacity: usize, policy: OverflowPolicy) -> (c: QueueConfig)
        ensures
            c.capacity == Some(capacity),
            c.policy == policy,
    {
        QueueConfig { capacity: Some(capacity), policy }
    }
}

/// What a producer-side enqueue does under this configuration.
#[derive(PartialEq, Eq, Structural, Debug, Clone, Copy)]
pub enum EnqueueAction {
    /// Room is free (or the queue is unbounded): enqueue.
    Accept,
    /// The queue is full and the policy blocks: wait for room, then enqueue.
    Wait,
    /// The queue is full and the policy rejects: drop the submission and
    /// report it.
    Refuse,
}

/// The decision a producer takes before enqueueing, given how many items
/// stand in the queue: an unbounded or non-full queue accepts; a full one
/// blocks or refuses as its policy says.
pub fn enqueue_action(config: &QueueConfig, queued: usize) -> (r: EnqueueAction)
    ensures
        config.capacity is None ==> r is Accept,
        config.capacity matches Some(c) && queued < c ==> r is Accept,
        config.capacity matches Some(c) && queued >= c && config.policy is Block ==> r is Wait,
        config.capacity matches Some(c) && queued >= c && config.policy is Reject ==> r is Refuse,
{
    match config.capacity {
        None => EnqueueAction::Accept,
        Some(c) => {
            if queued < c {
                EnqueueAction::Accept
            } else {
                match config.policy {
                    OverflowPolicy::Block => EnqueueAction::Wait,
                    OverflowPolicy::Reject => EnqueueAction::Refuse,
                }
            }
        },
    }
}

} // verus!
