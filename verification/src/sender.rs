//! The sender stage: a single worker that owns the connection, consumes
//! packets and control signals in order, delivers each packet with the retry
//! loop, updates the destination address on request (taking effect for later
//! sends only), honors flush barriers with an acknowledgment, and stops at
//! once on a quit signal or when its input queue closes.

use vstd::prelude::*;

use crate::messages::{Address, PacketMsg};
use crate::retry::{retry_delivers, run_retry, RetryEvent};

verus! {

/// State the sender stage carries between items: the destination address for
/// subsequent sends. The connection itself reconnects lazily on the next
/// send attempt after a change.
pub struct SenderState {
    pub addr: Address,
}

impl SenderState {
    /// State at stage start, aimed at the initial destination.
    pub fn new(addr: Address) -> (s: SenderState)
        ensures
            s.addr == addr,
    {
        SenderState { addr }
    }
}

/// What the sender stage does with one consumed item.
#[derive(Debug)]
pub enum SenderAction {
    /// Deliver these bytes to the connection with the retry loop.
    Deliver(Vec<u8>),
    /// Flush the connection's buffered bytes, then send the flush
    /// acknowledgment back to the client handle.
    AckFlush,
    /// Nothing outward: the item only changed the stage's state.
    Continue,
}

/// One step of the sender stage: a packet is delivered, an address change
/// redirects subsequent sends without touching in-flight data, and a flush
/// is acknowledged after the connection is flushed.
pub fn sender_step(st: &mut SenderState, item: PacketMsg) -> (r: SenderAction)
    ensures
        item matches PacketMsg::Packet(b) ==> r == SenderAction::Deliver(b) && *final(st) == *old(
            st,
        ),
        item matches PacketMsg::SetAddress(a) ==> r is Continue && final(st).addr == a,
        item is Flush ==> r is AckFlush && *final(st) == *old(st),
{
    match item {
        PacketMsg::Packet(b) => SenderAction::Deliver(b),
        PacketMsg::SetAddress(a) => {
            st.addr = a;
            SenderAction::Continue
        },
        PacketMsg::Flush => SenderAction::AckFlush,
    }
}

/// One input to the sender stage as experienced at run time: the next item
/// from the packet queue (a packet comes with the send-attempt outcomes the
/// environment produces while it is delivered), a quit signal, or the queue
/// closing.
#[derive(Debug)]
pub enum SenderIn {
    Packet(Vec<u8>, Vec<RetryEvent>),
    SetAddress(Address),
    Flush,
    Quit,
    Closed,
}

/// What the sender stage hands outward, in order: bytes to the connection
/// (with the destination address active at that moment), and flush
/// acknowledgments back to the client handle.
#[derive(Debug)]
pub enum SenderEffect {
    Sent(Address, Vec<u8>),
    Ack,
}

/// The outward effects of the sender stage over a sequence of inputs, with
/// `addr` the destination active when the sequence starts. The stage stops
/// at a quit signal, at a closed queue, and when a packet's delivery does
/// not complete (the retry loop was aborted, or the script of outcomes ran
/// out while the loop would still be retrying).
pub open spec fn sender_effects(ins: Seq<SenderIn>, addr: Address) -> Seq<SenderEffect>
    decreases ins.len(),
{
    if ins.len() == 0 {
        Seq::empty()
    } else {
        match ins[0] {
            SenderIn::Packet(b, rs) => if retry_delivers(rs@) {
                seq![SenderEffect::Sent(addr, b)] + sender_effects(ins.drop_first(), addr)
            } else {
                Seq::empty()
            },
            SenderIn::SetAddress(a) => sender_effects(ins.drop_first(), a),
            SenderIn::Flush => seq![SenderEffect::Ack] + sender_effects(ins.drop_first(), addr),
            SenderIn::Quit => Seq::empty(),
            SenderIn::Closed => Seq::empty(),
        }
    }
}

/// Runs the sender stage over a whole input sequence and returns the
/// effects it hands outward, in order.
pub fn run_sender(ins: Vec<SenderIn>, addr: Address) -> (out: Vec<SenderEffect>)
    ensures
        out@ == sender_effects(ins@, addr),
{
    let ghost all = ins@;
    let mut ins = ins;
    let mut st = SenderState::new(addr);
    let mut out: Vec<SenderEffect> = Vec::new();
    let mut stopped = false;

    while !stopped && ins.len() > 0
        invariant
            !stopped ==> sender_effects(all, addr) == out@ + sender_effects(ins@, st.addr),
            stopped ==> out@ == sender_effects(all, addr),
        decreases ins.len(),
    {
        let ghost pre_suffix = ins@;
        let ghost pre_addr = st.addr;
        let item = ins.remove(0);
        proof {
            assert(ins@ =~= pre_suffix.drop_first());
        }
        match item {
            SenderIn::Packet(b, rs) => {
                let ghost b_g = b;
                let ghost rs_g = rs@;
                let rr = run_retry(rs);
                if rr.delivered {
                    out.push(SenderEffect::Sent(st.addr, b));
                    proof {
                        assert(sender_effects(pre_suffix, pre_addr) == seq![
                            SenderEffect::Sent(pre_addr, b_g),
                        ] + sender_effects(ins@, pre_addr));
                        assert(sender_effects(all, addr) =~= out@ + sender_effects(
                            ins@,
                            st.addr,
                        ));
                    }
                } else {
                    stopped = true;
                    proof {
                        assert(sender_effects(pre_suffix, pre_addr) =~= Seq::<
                            SenderEffect,
                        >::empty());
                        assert(out@ + Seq::<SenderEffect>::empty() =~= out@);
                    }
                }
            },
            SenderIn::SetAddress(a) => {
                st.addr = a;
                proof {
                    assert(sender_effects(pre_suffix, pre_addr) == sender_effects(ins@, a));
                }
            },
            SenderIn::Flush => {
                out.push(SenderEffect::Ack);
                proof {
                    assert(sender_effects(pre_suffix, pre_addr) == seq![
                        SenderEffect::Ack,
                    ] + sender_effects(ins@, pre_addr));
                    assert(sender_effects(all, addr) =~= out@ + sender_effects(ins@, st.addr));
                }
            },
            SenderIn::Quit => {
                stopped = true;
                proof {
                    assert(sender_effects(pre_suffix, pre_addr) =~= Seq::<SenderEffect>::empty());
                    assert(out@ + Seq::<SenderEffect>::empty() =~= out@);
                }
            },
            SenderIn::Closed => {
                stopped = true;
                proof {
                    assert(sender_effects(pre_suffix, pre_addr) =~= Seq::<SenderEffect>::empty());
                    assert(out@ + Seq::<SenderEffect>::empty() =~= out@);
                }
            },
        }
    }
    proof {
        if !stopped {
            assert(sender_effects(ins@, st.addr) =~= Seq::<SenderEffect>::empty());
            assert(out@ + Seq::<SenderEffect>::empty() =~= out@);
        }
    }
    out
}

/// The packets and control signals underneath a run-time input sequence,
/// with the retry scripts stripped off.
pub open spec fn sender_packets(ins: Seq<SenderIn>) -> Seq<PacketMsg>
    decreases ins.len(),
{
    if ins.len() == 0 {
        Seq::empty()
    } else {
        let rest = sender_packets(ins.drop_first());
        match ins[0] {
            SenderIn::Packet(b, rs) => seq![PacketMsg::Packet(b)] + rest,
            SenderIn::SetAddress(a) => seq![PacketMsg::SetAddress(a)] + rest,
            SenderIn::Flush => seq![PacketMsg::Flush] + rest,
            SenderIn::Quit => rest,
            SenderIn::Closed => rest,
        }
    }
}

/// The effects of the sender stage over a connection that accepts every
/// packet: each packet is handed to the connection exactly once, in order,
/// with the address active at its turn, and each flush is acknowledged.
pub open spec fn delivered_effects(ps: Seq<PacketMsg>, addr: Address) -> Seq<SenderEffect>
    decreases ps.len(),
{
    if ps.len() == 0 {
        Seq::empty()
    } else {
        match ps[0] {
            PacketMsg::Packet(b) => seq![SenderEffect::Sent(addr, b)] + delivered_effects(
                ps.drop_first(),
                addr,
            ),
            PacketMsg::SetAddress(a) => delivered_effects(ps.drop_first(), a),
            PacketMsg::Flush => seq![SenderEffect::Ack] + delivered_effects(ps.drop_first(), addr),
        }
    }
}

/// No stop signal in the input sequence.
pub open spec fn sender_runs_through(ins: Seq<SenderIn>) -> bool {
    forall|i: int| 0 <= i < ins.len() ==> !(ins[i] is Quit) && !(ins[i] is Closed)
}

/// Every packet's retry script ends in a successful attempt, with no quit
/// signal before it.
pub open spec fn all_deliveries_succeed(ins: Seq<SenderIn>) -> bool {
    forall|i: int|
        0 <= i < ins.len() ==> (#[trigger] ins[i] matches SenderIn::Packet(_, rs)
            ==> retry_delivers(rs@))
}

/// Retry is transparent to delivery: when no quit signal arrives and every
/// packet's retries eventually succeed, the stage's effects are exactly
/// those of a connection that accepts every packet at once — each packet
/// handed over exactly once, in order, with no gap and no duplication,
/// however many attempts each one took.
pub proof fn lemma_sender_reliable(ins: Seq<SenderIn>, addr: Address)
    requires
        sender_runs_through(ins),
        all_deliveries_succeed(ins),
    ensures
        sender_effects(ins, addr) == delivered_effects(sender_packets(ins), addr),
    decreases ins.len(),
{
    if ins.len() == 0 {
    } else {
        assert(sender_runs_through(ins.drop_first()) && all_deliveries_succeed(
            ins.drop_first(),
        )) by {
            assert(forall|i: int|
                0 <= i < ins.drop_first().len() ==> ins.drop_first()[i] == ins[i + 1]);
        }
        match ins[0] {
            SenderIn::Packet(b, rs) => {
                assert(retry_delivers(rs@));
                lemma_sender_reliable(ins.drop_first(), addr);
                assert(sender_packets(ins).drop_first() =~= sender_packets(ins.drop_first()));
                assert(sender_effects(ins, addr) =~= delivered_effects(
                    sender_packets(ins),
                    addr,
                ));
            },
            SenderIn::SetAddress(a) => {
                lemma_sender_reliable(ins.drop_first(), a);
                assert(sender_packets(ins).drop_first() =~= sender_packets(ins.drop_first()));
                assert(sender_effects(ins, addr) =~= delivered_effects(
                    sender_packets(ins),
                    addr,
                ));
            },
            SenderIn::Flush => {
                lemma_sender_reliable(ins.drop_first(), addr);
                assert(sender_packets(ins).drop_first() =~= sender_packets(ins.drop_first()));
                assert(sender_effects(ins, addr) =~= delivered_effects(
                    sender_packets(ins),
                    addr,
                ));
            },
            SenderIn::Quit => {
                assert(false);
            },
            SenderIn::Closed => {
                assert(false);
            },
        }
    }
}

/// Abort drains nothing further: from a quit signal, a closed queue, or a
/// delivery that does not complete, no later packet is ever handed to the
/// connection, whatever stands in the queue at that moment.
pub proof fn lemma_sender_quit(ins: Seq<SenderIn>, i: int, addr: Address)
    requires
        0 <= i < ins.len(),
        ins[i] is Quit || ins[i] is Closed || (ins[i] matches SenderIn::Packet(_, rs)
            && !retry_delivers(rs@)),
    ensures
        sender_effects(ins, addr) == sender_effects(ins.take(i), addr),
    decreases i,
{
    if i == 0 {
        assert(ins.take(0) =~= Seq::<SenderIn>::empty());
        assert(sender_effects(ins, addr) =~= Seq::<SenderEffect>::empty());
    } else {
        assert(ins.take(i)[0] == ins[0]);
        match ins[0] {
            SenderIn::Packet(b, rs) => {
                if retry_delivers(rs@) {
                    lemma_sender_quit(ins.drop_first(), i - 1, addr);
                    assert(ins.drop_first().take(i - 1) =~= ins.take(i).drop_first());
                    assert(sender_effects(ins, addr) =~= sender_effects(ins.take(i), addr));
                } else {
                    assert(sender_effects(ins, addr) =~= Seq::<SenderEffect>::empty());
                    assert(sender_effects(ins.take(i), addr) =~= Seq::<SenderEffect>::empty());
                }
            },
            SenderIn::SetAddress(a) => {
                lemma_sender_quit(ins.drop_first(), i - 1, a);
                assert(ins.drop_first().take(i - 1) =~= ins.take(i).drop_first());
                assert(sender_effects(ins, addr) =~= sender_effects(ins.take(i), addr));
            },
            SenderIn::Flush => {
                lemma_sender_quit(ins.drop_first(), i - 1, addr);
                assert(ins.drop_first().take(i - 1) =~= ins.take(i).drop_first());
                assert(sender_effects(ins, addr) =~= sender_effects(ins.take(i), addr));
            },
            SenderIn::Quit => {
                assert(sender_effects(ins, addr) =~= Seq::<SenderEffect>::empty());
                assert(sender_effects(ins.take(i), addr) =~= Seq::<SenderEffect>::empty());
            },
            SenderIn::Closed => {
                assert(sender_effects(ins, addr) =~= Seq::<SenderEffect>::empty());
                assert(sender_effects(ins.take(i), addr) =~= Seq::<SenderEffect>::empty());
            },
        }
    }
}

/// The destination address left active after a queue of packets and control
/// signals is processed, starting from `addr`.
pub open spec fn addr_after(ps: Seq<PacketMsg>, addr: Address) -> Address
    decreases ps.len(),
{
    if ps.len() == 0 {
        addr
    } else {
        match ps[0] {
            PacketMsg::SetAddress(a) => addr_after(ps.drop_first(), a),
            _ => addr_after(ps.drop_first(), addr),
        }
    }
}

/// Nothing overtakes earlier work: the effects of a queue split anywhere
/// are the effects of the first part followed by those of the second, the
/// second starting at the address the first part left active. In
/// particular, the acknowledgment of a flush comes only after the hand-off
/// of every packet queued before it, and a packet is sent to the address
/// set by the last change before it.
pub proof fn lemma_delivered_append(ps1: Seq<PacketMsg>, ps2: Seq<PacketMsg>, addr: Address)
    ensures
        delivered_effects(ps1 + ps2, addr) == delivered_effects(ps1, addr) + delivered_effects(
            ps2,
            addr_after(ps1, addr),
        ),
    decreases ps1.len(),
{
    if ps1.len() == 0 {
        assert(ps1 + ps2 =~= ps2);
        assert(delivered_effects(ps1, addr) =~= Seq::<SenderEffect>::empty());
        assert(delivered_effects(ps1, addr) + delivered_effects(ps2, addr) =~= delivered_effects(
            ps2,
            addr,
        ));
    } else {
        assert((ps1 + ps2)[0] == ps1[0]);
        assert((ps1 + ps2).drop_first() =~= ps1.drop_first() + ps2);
        match ps1[0] {
            PacketMsg::Packet(b) => {
                lemma_delivered_append(ps1.drop_first(), ps2, addr);
                assert(delivered_effects(ps1 + ps2, addr) =~= delivered_effects(ps1, addr)
                    + delivered_effects(ps2, addr_after(ps1, addr)));
            },
            PacketMsg::SetAddress(a) => {
                lemma_delivered_append(ps1.drop_first(), ps2, a);
                assert(delivered_effects(ps1 + ps2, addr) =~= delivered_effects(ps1, addr)
                    + delivered_effects(ps2, addr_after(ps1, addr)));
            },
            PacketMsg::Flush => {
                lemma_delivered_append(ps1.drop_first(), ps2, addr);
                assert(delivered_effects(ps1 + ps2, addr) =~= delivered_effects(ps1, addr)
                    + delivered_effects(ps2, addr_after(ps1, addr)));
            },
        }
    }
}

/// Ordering and the flush barrier: for a queue of packets followed by one
/// flush, the bytes handed to the connection are exactly the packets'
/// bytes, in queue order, all to the starting address, and the flush
/// acknowledgment comes only after every one of them.
pub proof fn lemma_flush_barrier(ps: Seq<PacketMsg>, addr: Address, n: int)
    requires
        ps.len() == n + 1,
        0 <= n,
        forall|i: int| 0 <= i < n ==> ps[i] is Packet,
        ps[n] is Flush,
    ensures
        delivered_effects(ps, addr).len() == n + 1,
        forall|i: int|
            0 <= i < n ==> (ps[i] matches PacketMsg::Packet(b) && #[trigger] delivered_effects(
                ps,
                addr,
            )[i] == SenderEffect::Sent(addr, b)),
        delivered_effects(ps, addr)[n] == SenderEffect::Ack,
    decreases n,
{
    let es = delivered_effects(ps, addr);
    if n == 0 {
        assert(es =~= seq![SenderEffect::Ack] + delivered_effects(ps.drop_first(), addr));
        assert(ps.drop_first().len() == 0);
    } else {
        assert(ps[0] is Packet);
        let rest = ps.drop_first();
        assert(forall|i: int| 0 <= i < rest.len() ==> rest[i] == ps[i + 1]);
        lemma_flush_barrier(rest, addr, n - 1);
        let res = delivered_effects(rest, addr);
        assert(ps[0] matches PacketMsg::Packet(b) && es == seq![
            SenderEffect::Sent(addr, b),
        ] + res);
        assert forall|i: int| 0 <= i < n implies (ps[i] matches PacketMsg::Packet(b)
            && #[trigger] es[i] == SenderEffect::Sent(addr, b)) by {
            if i > 0 {
                assert(rest[i - 1] == ps[i]);
                assert(res[i - 1] == es[i]);
                assert(rest[i - 1] matches PacketMsg::Packet(b) && res[i - 1]
                    == SenderEffect::Sent(addr, b));
            }
        }
        assert(es[n] == res[n - 1]);
    }
}

/// An address change takes effect in order: a packet before it goes to the
/// address active before, a packet after it goes to the new address, for
/// any bytes and any addresses.
pub proof fn lemma_address_change(
    first: Vec<u8>,
    second: Vec<u8>,
    addr: Address,
    new_addr: Address,
)
    ensures
        delivered_effects(
            seq![
                PacketMsg::Packet(first),
                PacketMsg::SetAddress(new_addr),
                PacketMsg::Packet(second),
            ],
            addr,
        ) == seq![SenderEffect::Sent(addr, first), SenderEffect::Sent(new_addr, second)],
{
    let ps = seq![
        PacketMsg::Packet(first),
        PacketMsg::SetAddress(new_addr),
        PacketMsg::Packet(second),
    ];
    let one = seq![PacketMsg::Packet(second)];
    let two = seq![PacketMsg::SetAddress(new_addr), PacketMsg::Packet(second)];
    assert(one.drop_first() =~= Seq::<PacketMsg>::empty());
    assert(delivered_effects(Seq::<PacketMsg>::empty(), new_addr) =~= Seq::<SenderEffect>::empty());
    assert(delivered_effects(one, new_addr) == seq![SenderEffect::Sent(new_addr, second)]
        + delivered_effects(one.drop_first(), new_addr));
    assert(delivered_effects(one, new_addr) =~= seq![SenderEffect::Sent(new_addr, second)]);
    assert(two.drop_first() =~= one);
    assert(delivered_effects(two, addr) == delivered_effects(one, new_addr));
    assert(ps.drop_first() =~= two);
    assert(delivered_effects(ps, addr) =~= seq![
        SenderEffect::Sent(addr, first),
        SenderEffect::Sent(new_addr, second),
    ]);
}

} // verus!
