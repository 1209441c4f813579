//! End-to-end laws of the two-stage pipeline: what reaches the connection
//! when submissions flow through the encoder stage and then the sender
//! stage.

use vstd::prelude::*;

use crate::encoder::{encoder_outputs, EncoderIn};
use crate::messages::{Address, PacketMsg};
use crate::sender::{delivered_effects, SenderEffect};
use crate::sender::lemma_flush_barrier;

verus! {

/// Shape of the encoder's output for a queue of successfully encoded
/// submissions followed by one flush: one packet per submission, in
/// submission order, then the forwarded flush.
pub proof fn lemma_encoder_outputs_shape(ins: Seq<EncoderIn>, n: int)
    requires
        ins.len() == n + 1,
        0 <= n,
        forall|i: int|
            0 <= i < n ==> ((#[trigger] ins[i]) matches EncoderIn::Submitted(out) && out is Ok),
        ins[n] is Flush,
    ensures
        encoder_outputs(ins).len() == n + 1,
        forall|i: int|
            0 <= i < n ==> (ins[i] matches EncoderIn::Submitted(o) && o matches Ok(b)
                && #[trigger] encoder_outputs(ins)[i] == PacketMsg::Packet(b)),
        encoder_outputs(ins)[n] is Flush,
    decreases n,
{
    let outs = encoder_outputs(ins);
    if n == 0 {
        assert(ins[0] is Flush);
        assert(ins.drop_first().len() == 0);
        assert(outs =~= seq![PacketMsg::Flush]);
    } else {
        let rest = ins.drop_first();
        assert(forall|i: int| 0 <= i < rest.len() ==> rest[i] == ins[i + 1]);
        lemma_encoder_outputs_shape(rest, n - 1);
        let routs = encoder_outputs(rest);
        assert(ins[0] matches EncoderIn::Submitted(o) && o matches Ok(b) && outs == seq![
            PacketMsg::Packet(b),
        ] + routs);
        assert forall|i: int| 0 <= i < n implies (ins[i] matches EncoderIn::Submitted(o)
            && o matches Ok(b) && #[trigger] outs[i] == PacketMsg::Packet(b)) by {
            if i > 0 {
                assert(rest[i - 1] == ins[i]);
                assert(outs[i] == routs[i - 1]);
                assert(rest[i - 1] matches EncoderIn::Submitted(o) && o matches Ok(b)
                    && routs[i - 1] == PacketMsg::Packet(b));
            }
        }
        assert(outs[n] == routs[n - 1]);
    }
}

/// Ordering through the whole pipeline: for a queue of submissions that all
/// encode successfully, followed by one flush, the bytes handed to the
/// connection are exactly the submissions' encodings, in submission order,
/// all to the active address, and the flush acknowledgment comes only after
/// the last of them.
pub proof fn lemma_pipeline_ordering(ins: Seq<EncoderIn>, addr: Address, n: int)
    requires
        ins.len() == n + 1,
        0 <= n,
        forall|i: int|
            0 <= i < n ==> ((#[trigger] ins[i]) matches EncoderIn::Submitted(out) && out is Ok),
        ins[n] is Flush,
    ensures
        delivered_effects(encoder_outputs(ins), addr).len() == n + 1,
        forall|i: int|
            0 <= i < n ==> (ins[i] matches EncoderIn::Submitted(o) && o matches Ok(b)
                && #[trigger] delivered_effects(encoder_outputs(ins), addr)[i]
                == SenderEffect::Sent(addr, b)),
        delivered_effects(encoder_outputs(ins), addr)[n] == SenderEffect::Ack,
{
    lemma_encoder_outputs_shape(ins, n);
    let outs = encoder_outputs(ins);
    assert(forall|i: int| 0 <= i < n ==> #[trigger] outs[i] is Packet);
    lemma_flush_barrier(outs, addr, n);
}

} // verus!
