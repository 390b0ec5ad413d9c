//! Flow-stable fan-out: every packet of a flow, in either direction, goes to the same
//! worker.
use vstd::prelude::*;

use crate::packet::{Layer, Packet, Protocol};

verus! {

/// A flow's 5-tuple: addresses (an IPv4 address in the low 32 bits), the transport's
/// IP protocol number and the ports; 0 where the packet has none.
#[derive(Clone, Copy, Debug, PartialEq, Eq, Structural)]
pub struct FlowTuple {
    pub src_addr: u128,
    pub dst_addr: u128,
    pub protocol: u8,
    pub src_port: u16,
    pub dst_port: u16,
}

/// The big-endian value of `len` bytes of `raw` from `at`.
pub open spec fn be_value(raw: Seq<u8>, at: int, len: nat) -> u128
    decreases len,
{
    if len == 0 {
        0
    } else {
        (be_value(raw, at, (len - 1) as nat) << 8u128) | (raw[at + len - 1] as u128)
    }
}

fn read_be(raw: &[u8], at: usize, len: usize) -> (r: u128)
    requires
        at + len <= raw@.len(),
    ensures
        r == be_value(raw@, at as int, len as nat),
{
    let mut acc: u128 = 0;
    let mut i: usize = 0;
    let n = raw.len();
    while i < len
        invariant
            n == raw@.len(),
            i <= len,
            at + len <= raw@.len(),
            acc == be_value(raw@, at as int, i as nat),
        decreases len - i,
    {
        acc = (acc << 8u128) | (raw[at + i] as u128);
        i = i + 1;
    }
    acc
}

/// The source and destination addresses of the network layer: bytes 12 to 19 of an
/// IPv4 header, 8 to 39 of an IPv6 header; 0 and 0 when the header is not all there.
pub open spec fn addresses(raw: Seq<u8>, net: Layer) -> (u128, u128) {
    if net.protocol == Protocol::IPV4 && net.offset + 20 <= raw.len() {
        (be_value(raw, net.offset + 12, 4), be_value(raw, net.offset + 16, 4))
    } else if net.protocol == Protocol::IPV6 && net.offset + 40 <= raw.len() {
        (be_value(raw, net.offset + 8, 16), be_value(raw, net.offset + 24, 16))
    } else {
        (0, 0)
    }
}

/// The IP protocol number of a transport; 0 for anything else.
pub open spec fn protocol_number(p: Protocol) -> u8 {
    match p {
        Protocol::TCP => 6,
        Protocol::UDP => 17,
        Protocol::SCTP => 132,
        Protocol::ICMP => 1,
        _ => 0,
    }
}

/// The 5-tuple of a packet.
pub open spec fn flow_tuple(pkt: Packet) -> FlowTuple {
    let (s, d) = addresses(pkt.raw@, pkt.layers.network);
    FlowTuple {
        src_addr: s,
        dst_addr: d,
        protocol: protocol_number(pkt.layers.trans.protocol),
        src_port: match pkt.src_port_spec() {
            Some(p) => p,
            None => 0,
        },
        dst_port: match pkt.dst_port_spec() {
            Some(p) => p,
            None => 0,
        },
    }
}

/// Two tuples of one flow: equal, or each the other seen from the other end.
pub open spec fn same_flow(a: FlowTuple, b: FlowTuple) -> bool {
    a == b || (a.src_addr == b.dst_addr && a.dst_addr == b.src_addr && a.protocol == b.protocol && a.src_port == b.dst_port
        && a.dst_port == b.src_port)
}

pub open spec fn min_u128(a: u128, b: u128) -> u128 {
    if a <= b { a } else { b }
}

pub open spec fn max_u128(a: u128, b: u128) -> u128 {
    if a <= b { b } else { a }
}

/// The `n` bytes of `x`, most significant first.
pub open spec fn be_bytes(x: u128, n: nat) -> Seq<u8> {
    Seq::new(n, |i: int| ((x >> (8 * (n - 1 - i)) as u128) & 0xffu128) as u8)
}

/// The bytes a flow is hashed on: lower address, higher address, protocol number,
/// lower port, higher port, all big-endian; the same from both ends of the flow.
pub open spec fn flow_key(t: FlowTuple) -> Seq<u8> {
    be_bytes(min_u128(t.src_addr, t.dst_addr), 16) + be_bytes(max_u128(t.src_addr, t.dst_addr), 16) + seq![t.protocol]
        + be_bytes(min_u128(t.src_port as u128, t.dst_port as u128), 2) + be_bytes(
        max_u128(t.src_port as u128, t.dst_port as u128),
        2,
    )
}

/// The 64-bit XXH3 hash of `data`, seed 0.
pub uninterp spec fn xxh3_of(data: Seq<u8>) -> u64;

/// Relies on twox_hash::xxh3::hash64: the XXH3 hash of the bytes with seed 0.
#[verifier::external_body]
fn xxh3_64(data: &[u8]) -> (r: u64)
    ensures
        r == xxh3_of(data@),
{
    twox_hash::xxh3::hash64(data)
}

fn push_be(v: &mut Vec<u8>, x: u128, n: usize)
    requires
        n <= 16,
    ensures
        final(v)@ == old(v)@ + be_bytes(x, n as nat),
{
    let mut i: usize = 0;
    while i < n
        invariant
            i <= n <= 16,
            v@ == old(v)@ + be_bytes(x, n as nat).take(i as int),
        decreases n - i,
    {
        let shift: u128 = (8 * (n - 1 - i)) as u128;
        v.push(((x >> shift) & 0xffu128) as u8);
        assert(be_bytes(x, n as nat).take(i + 1) =~= be_bytes(x, n as nat).take(i as int).push(((x >> shift) & 0xffu128) as u8));
        i = i + 1;
    }
    assert(be_bytes(x, n as nat).take(n as int) =~= be_bytes(x, n as nat));
}

impl FlowTuple {
    /// The tuple of `pkt`.
    pub fn of(pkt: &Packet) -> (r: FlowTuple)
        ensures
            r == flow_tuple(*pkt),
    {
        let raw = pkt.raw.as_slice();
        let net = pkt.layers.network;
        let (s, d) = if net.protocol == Protocol::IPV4 && net.offset as usize + 20 <= raw.len() {
            (read_be(raw, net.offset as usize + 12, 4), read_be(raw, net.offset as usize + 16, 4))
        } else if net.protocol == Protocol::IPV6 && net.offset as usize + 40 <= raw.len() {
            (read_be(raw, net.offset as usize + 8, 16), read_be(raw, net.offset as usize + 24, 16))
        } else {
            (0, 0)
        };
        let protocol: u8 = match pkt.layers.trans.protocol {
            Protocol::TCP => 6,
            Protocol::UDP => 17,
            Protocol::SCTP => 132,
            Protocol::ICMP => 1,
            _ => 0,
        };
        let src_port = match pkt.src_port() {
            Some(p) => p,
            None => 0,
        };
        let dst_port = match pkt.dst_port() {
            Some(p) => p,
            None => 0,
        };
        FlowTuple { src_addr: s, dst_addr: d, protocol, src_port, dst_port }
    }

    /// The bytes this flow is hashed on.
    pub fn key(&self) -> (r: Vec<u8>)
        ensures
            r@ == flow_key(*self),
    {
        let mut v: Vec<u8> = Vec::new();
        let (lo, hi) = if self.src_addr <= self.dst_addr {
            (self.src_addr, self.dst_addr)
        } else {
            (self.dst_addr, self.src_addr)
        };
        push_be(&mut v, lo, 16);
        push_be(&mut v, hi, 16);
        v.push(self.protocol);
        let (plo, phi) = if self.src_port <= self.dst_port {
            (self.src_port as u128, self.dst_port as u128)
        } else {
            (self.dst_port as u128, self.src_port as u128)
        };
        push_be(&mut v, plo, 2);
        push_be(&mut v, phi, 2);
        v
    }
}

/// The flow hash of `pkt`.
pub open spec fn flow_hash_spec(pkt: Packet) -> u64 {
    xxh3_of(flow_key(flow_tuple(pkt)))
}

/// The hash of `pkt`'s flow: the same for every packet of the flow, either way.
pub fn flow_hash(pkt: &Packet) -> (r: u64)
    ensures
        r == flow_hash_spec(*pkt),
{
    let key = FlowTuple::of(pkt).key();
    xxh3_64(key.as_slice())
}

/// Which of `n` workers handles a flow of hash `hash`: the hash modulo `n`.
pub fn worker_of_hash(hash: u64, n: usize) -> (r: usize)
    requires
        n > 0,
    ensures
        r < n,
        r as int == hash as int % n as int,
{
    (hash % n as u64) as usize
}

/// Which of `n` workers handles `pkt`: its flow hash modulo `n`.
pub fn worker_index(pkt: &Packet, n: usize) -> (r: usize)
    requires
        n > 0,
    ensures
        r < n,
        r as int == flow_hash_spec(*pkt) as int % n as int,
{
    worker_of_hash(flow_hash(pkt), n)
}

/// Packets of one flow, in either direction, have the same flow hash, and so go to
/// the same worker whatever the number of workers.
pub proof fn lemma_flow_stable(p1: Packet, p2: Packet, n: usize)
    requires
        same_flow(flow_tuple(p1), flow_tuple(p2)),
        n > 0,
    ensures
        flow_hash_spec(p1) == flow_hash_spec(p2),
        flow_hash_spec(p1) as int % n as int == flow_hash_spec(p2) as int % n as int,
{
    let a = flow_tuple(p1);
    let b = flow_tuple(p2);
    assert(flow_key(a) == flow_key(b));
}

} // verus!
