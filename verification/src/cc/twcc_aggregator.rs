//! Transport-wide congestion control bookkeeping: a window of sent packets
//! and their arrival reports, summarised as feedback.
use vstd::prelude::*;
use crate::wire::{be16, be32, write_u16, write_u32};

verus! {

/// Number of packets the aggregator remembers.
pub const TWCC_WINDOW: usize = 256;

/// What is known of one sent packet.
#[derive(Clone, Copy, Debug, Default)]
pub struct PacketArrival {
    pub transport_seq: u16,
    pub send_time_ns: u64,
    pub recv_time_ns: u64,
    pub size_bytes: u16,
    pub received: bool,
}

/// A summary of the packets sent and received so far.
#[derive(Clone, Copy, Debug, Default)]
pub struct TwccFeedback {
    pub sent_count: u64,
    pub received_count: u64,
    pub inter_arrival_delta_ns: i64,
    pub inter_departure_delta_ns: i64,
}

/// One slot of the window: the packet it holds, and whether it holds one.
#[derive(Clone, Copy)]
pub struct ArrivalSlot {
    pub arrival: PacketArrival,
    pub valid: bool,
}

impl ArrivalSlot {
    pub fn new() -> (s: Self)
        ensures
            !s.valid,
            s.arrival == (PacketArrival {
                transport_seq: 0,
                send_time_ns: 0,
                recv_time_ns: 0,
                size_bytes: 0,
                received: false,
            }),
    {
        ArrivalSlot {
            arrival: PacketArrival {
                transport_seq: 0,
                send_time_ns: 0,
                recv_time_ns: 0,
                size_bytes: 0,
                received: false,
            },
            valid: false,
        }
    }
}

/// The window slot that a transport sequence number maps to.
pub open spec fn window_slot(seq: u16) -> int {
    seq as int % 256
}

/// Whether slot `i` of `slots` holds a packet that was reported received.
pub open spec fn slot_received(slots: Seq<ArrivalSlot>, i: int) -> bool {
    slots[i].valid && slots[i].arrival.received
}

/// The lowest and the second lowest slot index below `n` that hold a
/// received packet.
pub open spec fn first_two_received(slots: Seq<ArrivalSlot>, n: nat) -> (Option<int>, Option<int>)
    decreases n,
{
    if n == 0 {
        (None, None)
    } else {
        let (a, b) = first_two_received(slots, (n - 1) as nat);
        if slot_received(slots, n - 1) {
            if a.is_none() {
                (Some(n - 1), None)
            } else if b.is_none() {
                (a, Some(n - 1))
            } else {
                (a, b)
            }
        } else {
            (a, b)
        }
    }
}

pub proof fn lemma_first_two_bounds(slots: Seq<ArrivalSlot>, n: nat)
    ensures
        ({
            let (a, b) = first_two_received(slots, n);
            &&& a.is_some() ==> 0 <= a.unwrap() < n && slot_received(slots, a.unwrap())
            &&& b.is_some() ==> a.is_some() && a.unwrap() < b.unwrap() < n && slot_received(slots, b.unwrap())
        }),
    decreases n,
{
    if n > 0 {
        lemma_first_two_bounds(slots, (n - 1) as nat);
    }
}

/// The feedback summarising `slots` and the two counters: the time gaps
/// between the two lowest-slot received packets (later slot minus earlier
/// slot, wrapping), zero when fewer than two were received.
pub open spec fn feedback_of(slots: Seq<ArrivalSlot>, sent: u64, received: u64) -> TwccFeedback {
    let (a, b) = first_two_received(slots, 256);
    if a.is_some() && b.is_some() {
        let last = slots[a.unwrap()].arrival;
        let prev = slots[b.unwrap()].arrival;
        TwccFeedback {
            sent_count: sent,
            received_count: received,
            inter_arrival_delta_ns: last.recv_time_ns.wrapping_sub(prev.recv_time_ns) as i64,
            inter_departure_delta_ns: last.send_time_ns.wrapping_sub(prev.send_time_ns) as i64,
        }
    } else {
        TwccFeedback {
            sent_count: sent,
            received_count: received,
            inter_arrival_delta_ns: 0,
            inter_departure_delta_ns: 0,
        }
    }
}

/// Records sent packets and their arrivals in a window of 256 slots
/// indexed by the low byte of the transport sequence number.
pub struct TwccAggregator {
    slots: Vec<ArrivalSlot>,
    seq: u16,
    last_sent_ns: u64,
    last_recv_ns: u64,
    total_sent: u64,
    total_received: u64,
}

impl TwccAggregator {
    pub closed spec fn wf(&self) -> bool {
        self.slots@.len() == 256
    }

    pub closed spec fn spec_slots(&self) -> Seq<ArrivalSlot> {
        self.slots@
    }

    pub closed spec fn spec_seq(&self) -> u16 {
        self.seq
    }

    pub closed spec fn spec_total_sent(&self) -> u64 {
        self.total_sent
    }

    pub closed spec fn spec_total_received(&self) -> u64 {
        self.total_received
    }

    pub closed spec fn spec_last_recv_ns(&self) -> u64 {
        self.last_recv_ns
    }

    pub fn new() -> (r: Self)
        ensures
            r.wf(),
            forall|i: int| 0 <= i < 256 ==> !(#[trigger] r.spec_slots()[i]).valid,
            r.spec_seq() == 0,
            r.spec_total_sent() == 0,
            r.spec_total_received() == 0,
    {
        let mut slots: Vec<ArrivalSlot> = Vec::new();
        let mut i: usize = 0;
        while i < TWCC_WINDOW
            invariant
                i <= 256,
                slots@.len() == i,
                forall|j: int| 0 <= j < i ==> !(#[trigger] slots@[j]).valid,
            decreases 256 - i,
        {
            slots.push(ArrivalSlot::new());
            i = i + 1;
        }
        TwccAggregator {
            slots,
            seq: 0,
            last_sent_ns: 0,
            last_recv_ns: 0,
            total_sent: 0,
            total_received: 0,
        }
    }

    /// Hands out the next transport sequence number; they count up by one,
    /// wrapping.
    pub fn next_transport_seq(&mut self) -> (s: u16)
        requires
            old(self).wf(),
        ensures
            final(self).wf(),
            s == old(self).spec_seq(),
            final(self).spec_seq() == (old(self).spec_seq() + 1) % 0x1_0000,
            final(self).spec_slots() == old(self).spec_slots(),
            final(self).spec_total_sent() == old(self).spec_total_sent(),
            final(self).spec_total_received() == old(self).spec_total_received(),
    {
        let s = self.seq;
        self.seq = self.seq.wrapping_add(1);
        s
    }

    /// Remembers a sent packet in its slot, replacing what was there.
    pub fn on_packet_sent(&mut self, transport_seq: u16, send_time_ns: u64, size_bytes: usize)
        requires
            old(self).wf(),
        ensures
            final(self).wf(),
            final(self).spec_slots() == old(self).spec_slots().update(
                window_slot(transport_seq),
                ArrivalSlot {
                    arrival: PacketArrival {
                        transport_seq,
                        send_time_ns,
                        recv_time_ns: 0,
                        size_bytes: if size_bytes < 65535 { size_bytes as u16 } else { 65535 },
                        received: false,
                    },
                    valid: true,
                },
            ),
            final(self).spec_total_sent() == (old(self).spec_total_sent() + 1) % 0x1_0000_0000_0000_0000,
            final(self).spec_total_received() == old(self).spec_total_received(),
            final(self).spec_seq() == old(self).spec_seq(),
    {
        let idx = (transport_seq % 256) as usize;
        let size: u16 = if size_bytes < 65535 { size_bytes as u16 } else { 65535 };
        let arrival = PacketArrival {
            transport_seq,
            send_time_ns,
            recv_time_ns: 0,
            size_bytes: size,
            received: false,
        };
        self.slots.set(idx, ArrivalSlot { arrival, valid: true });
        self.last_sent_ns = send_time_ns;
        self.total_sent = self.total_sent.wrapping_add(1);
    }

    /// Records an arrival report. When the slot of `transport_seq` holds a
    /// packet, the received count goes up; the packet is marked received
    /// only when its own sequence number matches.
    pub fn on_packet_received(&mut self, transport_seq: u16, recv_time_ns: u64)
        requires
            old(self).wf(),
        ensures
            final(self).wf(),
            final(self).spec_seq() == old(self).spec_seq(),
            final(self).spec_total_sent() == old(self).spec_total_sent(),
            ({
                let i = window_slot(transport_seq);
                let s = old(self).spec_slots()[i];
                if s.valid {
                    &&& final(self).spec_total_received() == (old(self).spec_total_received() + 1)
                        % 0x1_0000_0000_0000_0000
                    &&& final(self).spec_last_recv_ns() == recv_time_ns
                    &&& final(self).spec_slots() == if s.arrival.transport_seq == transport_seq {
                        old(self).spec_slots().update(
                            i,
                            ArrivalSlot {
                                arrival: PacketArrival {
                                    recv_time_ns,
                                    received: true,
                                    ..s.arrival
                                },
                                valid: true,
                            },
                        )
                    } else {
                        old(self).spec_slots()
                    }
                } else {
                    &&& final(self).spec_total_received() == old(self).spec_total_received()
                    &&& final(self).spec_last_recv_ns() == old(self).spec_last_recv_ns()
                    &&& final(self).spec_slots() == old(self).spec_slots()
                }
            }),
    {
        let idx = (transport_seq % 256) as usize;
        let slot = self.slots[idx];
        if slot.valid {
            if slot.arrival.transport_seq == transport_seq {
                let mut a = slot.arrival;
                a.recv_time_ns = recv_time_ns;
                a.received = true;
                self.slots.set(idx, ArrivalSlot { arrival: a, valid: true });
            }
            self.total_received = self.total_received.wrapping_add(1);
            self.last_recv_ns = recv_time_ns;
        }
    }

    /// The current summary: both counters, and the gaps between the
    /// received packets in the two lowest slots.
    pub fn compute_feedback(&self) -> (fb: TwccFeedback)
        requires
            self.wf(),
        ensures
            fb == feedback_of(self.spec_slots(), self.spec_total_sent(), self.spec_total_received()),
    {
        let sent = self.total_sent;
        let received = self.total_received;
        let mut last_send: u64 = 0;
        let mut prev_send: u64 = 0;
        let mut last_recv: u64 = 0;
        let mut prev_recv: u64 = 0;
        let mut found_last = false;
        let mut found_prev = false;
        let ghost slots = self.slots@;
        let mut i: usize = 0;
        while i < TWCC_WINDOW
            invariant
                slots == self.slots@,
                slots.len() == 256,
                i <= 256,
                ({
                    let (a, b) = first_two_received(slots, i as nat);
                    &&& found_last == a.is_some()
                    &&& found_prev == b.is_some()
                    &&& found_last ==> last_send == slots[a.unwrap()].arrival.send_time_ns
                        && last_recv == slots[a.unwrap()].arrival.recv_time_ns
                    &&& found_prev ==> prev_send == slots[b.unwrap()].arrival.send_time_ns
                        && prev_recv == slots[b.unwrap()].arrival.recv_time_ns
                }),
            decreases 256 - i,
        {
            let slot = self.slots[i];
            proof {
                lemma_first_two_bounds(slots, i as nat);
                assert(slot == slots[i as int]);
            }
            if slot.valid && slot.arrival.received {
                if !found_last {
                    last_send = slot.arrival.send_time_ns;
                    last_recv = slot.arrival.recv_time_ns;
                    found_last = true;
                } else if !found_prev {
                    prev_send = slot.arrival.send_time_ns;
                    prev_recv = slot.arrival.recv_time_ns;
                    found_prev = true;
                }
            }
            i = i + 1;
        }
        proof {
            lemma_first_two_bounds(slots, 256);
        }
        let inter_departure: i64 = if found_prev {
            last_send.wrapping_sub(prev_send) as i64
        } else {
            0
        };
        let inter_arrival: i64 = if found_prev {
            last_recv.wrapping_sub(prev_recv) as i64
        } else {
            0
        };
        TwccFeedback {
            sent_count: sent,
            received_count: received,
            inter_arrival_delta_ns: inter_arrival,
            inter_departure_delta_ns: inter_departure,
        }
    }

    /// Writes a 24-byte feedback report into `out` and returns 24, or
    /// returns 0 and leaves `out` alone when it is shorter than that.
    pub fn write_feedback_into(&self, sender_ssrc: u32, media_ssrc: u32, out: &mut [u8]) -> (n: usize)
        requires
            self.wf(),
        ensures
            old(out)@.len() < 24 ==> n == 0 && final(out)@ == old(out)@,
            old(out)@.len() >= 24 ==> n == 24 && final(out)@ == feedback_report(
                sender_ssrc,
                media_ssrc,
                feedback_of(self.spec_slots(), self.spec_total_sent(), self.spec_total_received()),
            ) + old(out)@.subrange(24, old(out)@.len() as int),
    {
        let fb = self.compute_feedback();
        if out.len() < 24 {
            return 0;
        }
        out[0] = 0x8f;
        out[1] = 0xcd;
        write_u16(out, 2, 5);
        write_u32(out, 4, sender_ssrc);
        write_u32(out, 8, media_ssrc);
        write_u32(out, 12, fb.received_count as u32);
        write_u32(out, 16, fb.sent_count as u32);
        write_u32(out, 20, fb.inter_arrival_delta_ns as i32 as u32);
        assert(out@ =~= feedback_report(sender_ssrc, media_ssrc, fb) + old(out)@.subrange(
            24,
            old(out)@.len() as int,
        ));
        24
    }

    pub fn total_sent(&self) -> (n: u64)
        ensures
            n == self.spec_total_sent(),
    {
        self.total_sent
    }

    pub fn total_received(&self) -> (n: u64)
        ensures
            n == self.spec_total_received(),
    {
        self.total_received
    }
}

/// The 24 bytes of a feedback report: a fixed two-byte marker, the length
/// word 5, both SSRCs, the low 32 bits of the received and sent counts, and
/// the low 32 bits of the inter-arrival gap.
pub open spec fn feedback_report(sender_ssrc: u32, media_ssrc: u32, fb: TwccFeedback) -> Seq<u8> {
    seq![0x8fu8, 0xcdu8] + be16(5) + be32(sender_ssrc) + be32(media_ssrc) + be32(
        fb.received_count as u32,
    ) + be32(fb.sent_count as u32) + be32(fb.inter_arrival_delta_ns as i32 as u32)
}

} // verus!
