//! The encoder stage: a single worker that consumes submissions and control
//! signals in arrival order, turns each submission into a packet of bytes
//! (through a pure encoding supplied by the caller), forwards control signals
//! verbatim, and stops at once when a quit signal arrives or its input queue
//! closes.

use vstd::prelude::*;

use crate::messages::{Address, ClientMsg, EncodeError, PacketMsg, Submission};

verus! {

/// What the encoder stage's wait returns: the next message from the client
/// queue, a quit signal, or the queue closing.
#[derive(Debug)]
pub enum EncoderEvent {
    Received(ClientMsg),
    Quit,
    Closed,
}

/// What the encoder stage does with one event.
#[derive(Debug)]
pub enum EncoderAction {
    /// Run the pure encoder on this submission; hand the outcome to
    /// `encoded_packet`.
    Encode(Submission),
    /// Forward this packet to the sender stage.
    Forward(PacketMsg),
    /// Stop consuming; the stage terminates without draining its queue.
    Stop,
}

/// One step of the encoder stage: a submission is encoded, a control signal
/// is forwarded verbatim, and a quit signal or a closed queue stops the
/// stage.
pub fn encoder_step(ev: EncoderEvent) -> (r: EncoderAction)
    ensures
        ev matches EncoderEvent::Received(ClientMsg::Submit(s)) ==> r == EncoderAction::Encode(s),
        ev matches EncoderEvent::Received(ClientMsg::SetAddress(a)) ==> r == EncoderAction::Forward(
            PacketMsg::SetAddress(a),
        ),
        ev matches EncoderEvent::Received(ClientMsg::Flush) ==> r == EncoderAction::Forward(
            PacketMsg::Flush,
        ),
        ev is Quit ==> r is Stop,
        ev is Closed ==> r is Stop,
{
    match ev {
        EncoderEvent::Received(ClientMsg::Submit(s)) => EncoderAction::Encode(s),
        EncoderEvent::Received(ClientMsg::SetAddress(a)) => EncoderAction::Forward(
            PacketMsg::SetAddress(a),
        ),
        EncoderEvent::Received(ClientMsg::Flush) => EncoderAction::Forward(PacketMsg::Flush),
        EncoderEvent::Quit => EncoderAction::Stop,
        EncoderEvent::Closed => EncoderAction::Stop,
    }
}

/// What the encoder forwards for an encoded submission: the packet on
/// success, nothing on failure (the submission is dropped and reported, the
/// stage continues).
pub fn encoded_packet(outcome: Result<Vec<u8>, EncodeError>) -> (r: Option<PacketMsg>)
    ensures
        outcome matches Ok(b) ==> r == Some(PacketMsg::Packet(b)),
        outcome is Err ==> r is None,
{
    match outcome {
        Ok(b) => Some(PacketMsg::Packet(b)),
        Err(_) => None,
    }
}

/// One input to the encoder stage as experienced at run time: a submission
/// together with the outcome of its pure encoding, a control signal, a quit
/// signal, or the queue closing.
#[derive(Debug)]
pub enum EncoderIn {
    Submitted(Result<Vec<u8>, EncodeError>),
    SetAddress(Address),
    Flush,
    Quit,
    Closed,
}

/// The packets the encoder stage forwards to the sender stage, in order, for
/// a sequence of inputs: one packet per successfully encoded submission, one
/// forwarded signal per control signal, nothing at all from the first quit
/// signal or queue closing on.
pub open spec fn encoder_outputs(ins: Seq<EncoderIn>) -> Seq<PacketMsg>
    decreases ins.len(),
{
    if ins.len() == 0 {
        Seq::empty()
    } else {
        match ins[0] {
            EncoderIn::Submitted(out) => match out {
                Result::Ok(b) => seq![PacketMsg::Packet(b)] + encoder_outputs(ins.drop_first()),
                Result::Err(_) => encoder_outputs(ins.drop_first()),
            },
            EncoderIn::SetAddress(a) => seq![PacketMsg::SetAddress(a)] + encoder_outputs(
                ins.drop_first(),
            ),
            EncoderIn::Flush => seq![PacketMsg::Flush] + encoder_outputs(ins.drop_first()),
            EncoderIn::Quit => Seq::empty(),
            EncoderIn::Closed => Seq::empty(),
        }
    }
}

/// Runs the encoder stage over a whole input sequence and returns the
/// packets it forwards, in order.
pub fn run_encoder(ins: Vec<EncoderIn>) -> (out: Vec<PacketMsg>)
    ensures
        out@ == encoder_outputs(ins@),
{
    let ghost all = ins@;
    let mut ins = ins;
    let mut out: Vec<PacketMsg> = Vec::new();
    let mut stopped = false;

    while !stopped && ins.len() > 0
        invariant
            !stopped ==> encoder_outputs(all) == out@ + encoder_outputs(ins@),
            stopped ==> out@ == encoder_outputs(all),
        decreases ins.len(),
    {
        let ghost pre_suffix = ins@;
        let ev = ins.remove(0);
        let ghost ev_g = ev;
        proof {
            assert(ins@ =~= pre_suffix.drop_first());
        }
        match ev {
            EncoderIn::Submitted(outcome) => {
                let ghost outcome_g = outcome;
                match encoded_packet(outcome) {
                    Some(p) => {
                        out.push(p);
                    },
                    None => {},
                }
                proof {
                    assert(encoder_outputs(all) =~= out@ + encoder_outputs(ins@));
                }
            },
            EncoderIn::SetAddress(a) => {
                out.push(PacketMsg::SetAddress(a));
                proof {
                    assert(encoder_outputs(all) =~= out@ + encoder_outputs(ins@));
                }
            },
            EncoderIn::Flush => {
                out.push(PacketMsg::Flush);
                proof {
                    assert(encoder_outputs(all) =~= out@ + encoder_outputs(ins@));
                }
            },
            EncoderIn::Quit => {
                stopped = true;
                proof {
                    assert(encoder_outputs(pre_suffix) =~= Seq::<PacketMsg>::empty());
                    assert(out@ + Seq::<PacketMsg>::empty() =~= out@);
                }
            },
            EncoderIn::Closed => {
                stopped = true;
                proof {
                    assert(encoder_outputs(pre_suffix) =~= Seq::<PacketMsg>::empty());
                    assert(out@ + Seq::<PacketMsg>::empty() =~= out@);
                }
            },
        }
    }
    proof {
        if !stopped {
            assert(encoder_outputs(ins@) =~= Seq::<PacketMsg>::empty());
            assert(out@ + Seq::<PacketMsg>::empty() =~= out@);
        }
    }
    out
}

/// Abort drains nothing further: from a quit signal (or the queue closing)
/// on, nothing is forwarded, whatever else stands in the queue at that
/// moment or arrives after it.
pub proof fn lemma_encoder_quit(ins: Seq<EncoderIn>, i: int)
    requires
        0 <= i < ins.len(),
        ins[i] is Quit || ins[i] is Closed,
    ensures
        encoder_outputs(ins) == encoder_outputs(ins.take(i)),
    decreases i,
{
    if i == 0 {
        assert(ins.take(0) =~= Seq::<EncoderIn>::empty());
        assert(encoder_outputs(ins) =~= Seq::<PacketMsg>::empty());
    } else {
        lemma_encoder_quit(ins.drop_first(), i - 1);
        assert(ins.drop_first().take(i - 1) =~= ins.take(i).drop_first());
        assert(ins.take(i)[0] == ins[0]);
        assert(encoder_outputs(ins) =~= encoder_outputs(ins.take(i)));
    }
}

/// No input before a stop signal.
pub open spec fn encoder_runs_through(ins: Seq<EncoderIn>) -> bool {
    forall|i: int| 0 <= i < ins.len() ==> !(ins[i] is Quit) && !(ins[i] is Closed)
}

/// While no stop signal arrives, the encoder treats its inputs one by one:
/// the packets for a concatenation of input sequences are the packets for
/// the first followed by the packets for the second. In particular no
/// submission is lost, duplicated, or reordered, however producers'
/// submissions are interleaved.
pub proof fn lemma_encoder_outputs_append(s1: Seq<EncoderIn>, s2: Seq<EncoderIn>)
    requires
        encoder_runs_through(s1),
    ensures
        encoder_outputs(s1 + s2) == encoder_outputs(s1) + encoder_outputs(s2),
    decreases s1.len(),
{
    if s1.len() == 0 {
        assert(s1 + s2 =~= s2);
        assert(encoder_outputs(s1) =~= Seq::<PacketMsg>::empty());
        assert(encoder_outputs(s1) + encoder_outputs(s2) =~= encoder_outputs(s2));
    } else {
        assert(encoder_runs_through(s1.drop_first())) by {
            assert(forall|i: int|
                0 <= i < s1.drop_first().len() ==> s1.drop_first()[i] == s1[i + 1]);
        }
        lemma_encoder_outputs_append(s1.drop_first(), s2);
        assert((s1 + s2).drop_first() =~= s1.drop_first() + s2);
        assert((s1 + s2)[0] == s1[0]);
        assert(encoder_outputs(s1 + s2) =~= encoder_outputs(s1) + encoder_outputs(s2));
    }
}

} // verus!
