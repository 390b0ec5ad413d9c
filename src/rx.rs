//! The decisions of a capture worker: what to do with each packet, each capture
//! event and each try-send outcome. The caller performs the I/O.
use vstd::prelude::*;

use vstd::string::StringSliceAdditionalSpecFns;

use crate::flow::{flow_hash_spec, worker_index};
use crate::packet::{self, layering::layering, Packet};

verus! {

/// What the capture source handed over.
#[derive(Clone, Copy, Debug, PartialEq, Eq, Structural)]
pub enum CaptureEvent {
    /// A packet was captured.
    Packet,
    /// No packet came before the read timeout.
    Timeout,
    /// The source has no more packets.
    Closed,
    /// The source failed.
    Error,
}

/// What to do after a capture event.
#[derive(Clone, Copy, Debug, PartialEq, Eq, Structural)]
pub enum CaptureAction {
    /// Hand the packet on.
    Forward,
    /// Hand the packet on, and log the capture statistics first.
    ForwardAndLogStats,
    /// Sleep briefly, then read again.
    Sleep,
    /// Stop: the source is done.
    Stop,
    /// Stop with the source's error.
    Fail,
}

/// What the bounded fan-out channel said to a try-send.
#[derive(Clone, Copy, Debug, PartialEq, Eq, Structural)]
pub enum SendOutcome {
    Sent,
    Full,
    Disconnected,
}

/// What to do after a try-send.
#[derive(Clone, Copy, Debug, PartialEq, Eq, Structural)]
pub enum SendAction {
    /// Read the next packet.
    Continue,
    /// The packet was dropped; read the next one.
    Dropped,
    /// The packet was dropped, and the overflow count reached a multiple of the
    /// logging interval: log it.
    DroppedAndLog,
    /// The consumers are gone: stop.
    Stop,
}

/// Overflows between two overflow log lines.
pub const OVERFLOW_LOG_INTERVAL: u64 = 10000;

/// A capture worker's counters.
#[derive(Clone, Copy, Debug, PartialEq, Eq, Structural)]
pub struct RxState {
    /// Packets captured.
    pub rx_count: u64,
    /// Packets dropped because the channel was full.
    pub overflow_count: u64,
    /// Packets dropped because they could not be layered.
    pub parse_error_count: u64,
    /// Packets between two statistics log lines; 0 for none.
    pub stats_interval: u64,
}

/// `x + 1`, held at `u64::MAX`.
pub open spec fn bump(x: u64) -> u64 {
    if x == u64::MAX { x } else { (x + 1) as u64 }
}

fn bump_exec(x: u64) -> (r: u64)
    ensures
        r == bump(x),
{
    if x == u64::MAX { x } else { x + 1 }
}

/// The counters and action after capture event `e`.
pub open spec fn capture_step(s: RxState, e: CaptureEvent) -> (RxState, CaptureAction) {
    match e {
        CaptureEvent::Packet => {
            let n = bump(s.rx_count);
            let next = RxState { rx_count: n, ..s };
            if s.stats_interval > 0 && n % s.stats_interval == 0 {
                (next, CaptureAction::ForwardAndLogStats)
            } else {
                (next, CaptureAction::Forward)
            }
        },
        CaptureEvent::Timeout => (s, CaptureAction::Sleep),
        CaptureEvent::Closed => (s, CaptureAction::Stop),
        CaptureEvent::Error => (s, CaptureAction::Fail),
    }
}

/// The counters and action after a try-send that came out as `o`.
pub open spec fn send_step(s: RxState, o: SendOutcome) -> (RxState, SendAction) {
    match o {
        SendOutcome::Sent => (s, SendAction::Continue),
        SendOutcome::Full => {
            let n = bump(s.overflow_count);
            let next = RxState { overflow_count: n, ..s };
            if n % OVERFLOW_LOG_INTERVAL == 0 {
                (next, SendAction::DroppedAndLog)
            } else {
                (next, SendAction::Dropped)
            }
        },
        SendOutcome::Disconnected => (s, SendAction::Stop),
    }
}

/// The counters after try-sends that came out as `os`, one after the other.
pub open spec fn after_sends(s: RxState, os: Seq<SendOutcome>) -> RxState
    decreases os.len(),
{
    if os.len() == 0 {
        s
    } else {
        send_step(after_sends(s, os.drop_last()), os.last()).0
    }
}

/// How many of `os` are `Full`.
pub open spec fn count_full(os: Seq<SendOutcome>) -> nat
    decreases os.len(),
{
    if os.len() == 0 {
        0
    } else {
        count_full(os.drop_last()) + if os.last() == SendOutcome::Full { 1nat } else { 0nat }
    }
}

/// What try-sends of `k` packets into a channel of capacity `cap` whose consumer has
/// stalled come out as: the first `cap` are sent, the rest find it full.
pub open spec fn stalled_outcomes(cap: nat, k: nat) -> Seq<SendOutcome> {
    Seq::new(k, |i: int| if i < cap { SendOutcome::Sent } else { SendOutcome::Full })
}

impl RxState {
    /// A worker that has seen nothing, logging statistics every `stats_interval`
    /// packets.
    pub fn new(stats_interval: u64) -> (r: RxState)
        ensures
            r == (RxState { rx_count: 0, overflow_count: 0, parse_error_count: 0, stats_interval }),
    {
        RxState { rx_count: 0, overflow_count: 0, parse_error_count: 0, stats_interval }
    }

    /// Counts a captured packet, or says to sleep, stop or fail.
    pub fn on_capture(&mut self, e: CaptureEvent) -> (r: CaptureAction)
        ensures
            (*final(self), r) == capture_step(*old(self), e),
    {
        match e {
            CaptureEvent::Packet => {
                self.rx_count = bump_exec(self.rx_count);
                if self.stats_interval > 0 && self.rx_count % self.stats_interval == 0 {
                    CaptureAction::ForwardAndLogStats
                } else {
                    CaptureAction::Forward
                }
            },
            CaptureEvent::Timeout => CaptureAction::Sleep,
            CaptureEvent::Closed => CaptureAction::Stop,
            CaptureEvent::Error => CaptureAction::Fail,
        }
    }

    /// Counts an overflow, or says to go on or stop. The caller never waits on the
    /// channel: a full channel drops the packet.
    pub fn on_send(&mut self, o: SendOutcome) -> (r: SendAction)
        ensures
            (*final(self), r) == send_step(*old(self), o),
    {
        match o {
            SendOutcome::Sent => SendAction::Continue,
            SendOutcome::Full => {
                self.overflow_count = bump_exec(self.overflow_count);
                if self.overflow_count % OVERFLOW_LOG_INTERVAL == 0 {
                    SendAction::DroppedAndLog
                } else {
                    SendAction::Dropped
                }
            },
            SendOutcome::Disconnected => SendAction::Stop,
        }
    }

    /// Layers `pkt` and picks which of `workers` workers gets it. A packet that
    /// cannot be layered is dropped and counted.
    pub fn ingest(&mut self, parser: &packet::Parser, pkt: &mut Packet, workers: usize) -> (r: Option<usize>)
        requires
            workers > 0,
        ensures
            final(pkt).raw@ == old(pkt).raw@,
            match layering(parser.link_type, old(pkt).raw@) {
                Ok((l, t)) => {
                    &&& final(pkt).layers == l
                    &&& final(pkt).tunnel == t
                    &&& r matches Some(w) && w as int == flow_hash_spec(*final(pkt)) as int % workers as int
                    &&& *final(self) == *old(self)
                },
                Err(_) => r is None && *final(self) == (RxState { parse_error_count: bump(old(self).parse_error_count), ..*old(self) }),
            },
    {
        match parser.parse_pkt(pkt) {
            Ok(()) => Some(worker_index(pkt, workers)),
            Err(_) => {
                self.parse_error_count = bump_exec(self.parse_error_count);
                None
            },
        }
    }
}

/// Try-sends into a stalled channel drop every packet past its capacity, each
/// counted once as an overflow, and no try-send waits.
pub proof fn lemma_stalled_channel_overflow(s: RxState, cap: nat, k: nat)
    requires
        k >= cap,
        s.overflow_count + k < u64::MAX,
    ensures
        count_full(stalled_outcomes(cap, k)) == k - cap,
        after_sends(s, stalled_outcomes(cap, k)).overflow_count == s.overflow_count + (k - cap),
    decreases k,
{
    lemma_sends_count_full(s, stalled_outcomes(cap, k));
    lemma_stalled_full_count(cap, k);
}

proof fn lemma_stalled_full_count(cap: nat, k: nat)
    requires
        k >= cap,
    ensures
        count_full(stalled_outcomes(cap, k)) == k - cap,
    decreases k,
{
    if k > 0 {
        let os = stalled_outcomes(cap, k);
        if k - 1 >= cap {
            lemma_stalled_full_count(cap, (k - 1) as nat);
        } else {
            lemma_sent_only(cap, (k - 1) as nat);
        }
        assert(os.drop_last() =~= stalled_outcomes(cap, (k - 1) as nat));
    }
}

proof fn lemma_sent_only(cap: nat, k: nat)
    requires
        k <= cap,
    ensures
        count_full(stalled_outcomes(cap, k)) == 0,
    decreases k,
{
    if k > 0 {
        lemma_sent_only(cap, (k - 1) as nat);
        assert(stalled_outcomes(cap, k).drop_last() =~= stalled_outcomes(cap, (k - 1) as nat));
    }
}

/// Each `Full` outcome adds one to the overflow count, and nothing else changes it.
pub proof fn lemma_sends_count_full(s: RxState, os: Seq<SendOutcome>)
    requires
        s.overflow_count + os.len() < u64::MAX,
    ensures
        after_sends(s, os).overflow_count == s.overflow_count + count_full(os),
        after_sends(s, os).rx_count == s.rx_count,
    decreases os.len(),
{
    if os.len() > 0 {
        lemma_sends_count_full(s, os.drop_last());
        lemma_count_full_bound(os.drop_last());
    }
}

proof fn lemma_count_full_bound(os: Seq<SendOutcome>)
    ensures
        count_full(os) <= os.len(),
    decreases os.len(),
{
    if os.len() > 0 {
        lemma_count_full_bound(os.drop_last());
    }
}

/// Whether a file name ends in `.pcap` or `.pcapng` after a non-empty stem: the
/// extension is what follows the last dot, unless that dot begins the name.
pub open spec fn is_capture_file_spec(name: Seq<u8>) -> bool {
    ||| (name.len() > 5 && name.subrange(name.len() - 5, name.len() as int) == seq![46u8, 112, 99, 97, 112])
    ||| (name.len() > 7 && name.subrange(name.len() - 7, name.len() as int) == seq![46u8, 112, 99, 97, 112, 110, 103])
}

fn ends_with(name: &[u8], suffix: &[u8]) -> (r: bool)
    ensures
        r == (name@.len() > suffix@.len() && name@.subrange(name@.len() - suffix@.len(), name@.len() as int) == suffix@),
{
    if name.len() <= suffix.len() {
        return false;
    }
    let n = name.len();
    let start = n - suffix.len();
    let mut i: usize = 0;
    while i < suffix.len()
        invariant
            n == name@.len(),
            start + suffix@.len() == name@.len(),
            i <= suffix@.len(),
            forall|j: int| 0 <= j < i ==> name@[start + j] == suffix@[j],
        decreases suffix@.len() - i,
    {
        if name[start + i] != suffix[i] {
            assert(name@.subrange(start as int, name@.len() as int)[i as int] != suffix@[i as int]);
            return false;
        }
        i = i + 1;
    }
    assert(name@.subrange(start as int, name@.len() as int) =~= suffix@);
    true
}

/// Whether `name` is the name of a capture file: `.pcap` or `.pcapng` after a
/// non-empty stem.
pub fn is_capture_file(name: &str) -> (r: bool)
    ensures
        r == is_capture_file_spec(name.spec_bytes()),
{
    let b = name.as_bytes();
    let pcap: [u8; 5] = [46u8, 112, 99, 97, 112];
    let pcapng: [u8; 7] = [46u8, 112, 99, 97, 112, 110, 103];
    assert(pcap@ =~= seq![46u8, 112, 99, 97, 112]);
    assert(pcapng@ =~= seq![46u8, 112, 99, 97, 112, 110, 103]);
    ends_with(b, pcap.as_slice()) || ends_with(b, pcapng.as_slice())
}

} // verus!
