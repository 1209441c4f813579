//! Client-side transport core for streaming log submissions to a remote
//! collector.
//!
//! Producers hand submissions to a client handle; an encoder stage turns each
//! submission into a packet of bytes; a sender stage owns the connection and
//! delivers packets with retrying sends and exponential backoff. Flush acts as
//! a barrier, and a quit signal aborts both stages without draining.
//!
//! This crate holds the verified decision logic of both stages: each stage is
//! a step function from an incoming event to the action the stage takes, and a
//! run function that gives the whole trace semantics of a stage over a
//! sequence of events. The threads, channels and sockets that carry the events
//! at run time live outside the verified core.

pub mod encoder;
pub mod field_types;
pub mod messages;
pub mod pipeline;
pub mod retry;
pub mod sender;
