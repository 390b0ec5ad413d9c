//! The packet record that travels from capture through classification.
use vstd::prelude::*;

pub mod ethernet;
pub mod ipv4;
pub mod layering;
pub mod ipv6;
pub mod mpls;
pub mod pppoe;
pub mod transport;
pub mod vlan;

pub use layering::Parser;

verus! {

/// Protocols recognised at the link, network and transport layers.
#[derive(Clone, Copy, Debug, PartialEq, Eq, Structural)]
pub enum Protocol {
    UNKNOWN,
    ETHERNET,
    VLAN,
    MPLS,
    PPPOE,
    PPP,
    IPV4,
    IPV6,
    ICMP,
    TCP,
    UDP,
    SCTP,
}

impl Protocol {
    pub open spec fn is_transport_spec(self) -> bool {
        self == Protocol::TCP || self == Protocol::UDP || self == Protocol::SCTP
    }

    /// Whether this is one of the transports that carry ports (TCP, UDP, SCTP).
    pub fn is_transport(&self) -> (r: bool)
        ensures
            r == self.is_transport_spec(),
    {
        match self {
            Protocol::TCP | Protocol::UDP | Protocol::SCTP => true,
            _ => false,
        }
    }
}

/// Where a layer starts in the raw bytes, and what it holds.
#[derive(Clone, Copy, Debug, PartialEq, Eq, Structural)]
pub struct Layer {
    pub offset: u16,
    pub protocol: Protocol,
}

impl Layer {
    pub open spec fn empty_spec() -> Layer {
        Layer { offset: 0, protocol: Protocol::UNKNOWN }
    }

    /// A layer at offset 0 of unknown protocol.
    pub fn empty() -> (r: Layer)
        ensures
            r == Layer::empty_spec(),
    {
        Layer { offset: 0, protocol: Protocol::UNKNOWN }
    }
}

/// The four layers that layering fills in.
#[derive(Clone, Copy, Debug, PartialEq, Eq, Structural)]
pub struct Layers {
    pub data_link: Layer,
    pub network: Layer,
    pub trans: Layer,
    pub app: Layer,
}

impl Layers {
    pub open spec fn empty_spec() -> Layers {
        Layers {
            data_link: Layer::empty_spec(),
            network: Layer::empty_spec(),
            trans: Layer::empty_spec(),
            app: Layer::empty_spec(),
        }
    }

    pub fn empty() -> (r: Layers)
        ensures
            r == Layers::empty_spec(),
    {
        Layers { data_link: Layer::empty(), network: Layer::empty(), trans: Layer::empty(), app: Layer::empty() }
    }
}

/// Encapsulations met on the way to the transport layer, one bit each.
#[derive(Clone, Copy, Debug, PartialEq, Eq, Structural)]
pub struct Tunnel {
    pub bits: u8,
}

pub const TUNNEL_GRE: u8 = 0b0000_0001;
pub const TUNNEL_PPPOE: u8 = 0b0000_0010;
pub const TUNNEL_MPLS: u8 = 0b0000_0100;
pub const TUNNEL_PPP: u8 = 0b0000_1000;
pub const TUNNEL_VLAN: u8 = 0b0001_0000;

impl Tunnel {
    /// Whether every bit of `flag` is set.
    pub fn contains(&self, flag: u8) -> (r: bool)
        ensures
            r == (self.bits & flag == flag),
    {
        self.bits & flag == flag
    }
}

/// A next-layer code that layering does not know.
#[derive(Clone, Copy, Debug, PartialEq, Eq, Structural)]
pub struct Unsupported {
    /// The layer whose header holds the code.
    pub layer: Protocol,
    /// The code: an EtherType, an IP protocol number, a PPP protocol or an IP version.
    pub code: u32,
}

/// Why a packet could not be layered.
#[derive(Clone, Copy, Debug, PartialEq, Eq, Structural)]
pub enum Error {
    /// A header names a next layer that layering does not know.
    UnsupportProtocol(Unsupported),
    /// The header of this layer is cut short, or the next one would start past 65535.
    Truncated(Protocol),
}

/// The layer of `p` starting `len` bytes after `offset`, or `Truncated(from)` when
/// that is past 65535.
pub open spec fn next_layer(offset: u16, len: int, p: Protocol, from: Protocol) -> Result<Option<Layer>, Error> {
    if offset + len <= u16::MAX {
        Ok(Some(Layer { offset: (offset + len) as u16, protocol: p }))
    } else {
        Err(Error::Truncated(from))
    }
}

pub fn next_layer_exec(offset: u16, len: u16, p: Protocol, from: Protocol) -> (r: Result<Option<Layer>, Error>)
    ensures
        r == next_layer(offset, len as int, p, from),
{
    if len <= u16::MAX - offset {
        Ok(Some(Layer { offset: offset + len, protocol: p }))
    } else {
        Err(Error::Truncated(from))
    }
}

/// The error for code `code` met in a header of `layer`.
pub open spec fn unsupported(layer: Protocol, code: u32) -> Error {
    Error::UnsupportProtocol(Unsupported { layer, code })
}

/// Big-endian 16-bit value of two bytes.
pub open spec fn be16(hi: u8, lo: u8) -> u16 {
    (hi as int * 256 + lo as int) as u16
}

/// Reads the big-endian 16-bit value at `i`.
pub fn read_be16(buf: &[u8], i: usize) -> (r: u16)
    requires
        i + 2 <= buf@.len(),
    ensures
        r == be16(buf@[i as int], buf@[i + 1]),
        r as int == buf@[i as int] as int * 256 + buf@[i + 1] as int,
{
    (buf[i] as u16) * 256 + (buf[i + 1] as u16)
}

/// The rules matched on a packet: a small vector that holds eight records inline and
/// spills to the heap beyond that.
#[verifier::external_body]
pub struct RuleList {
    rules: tinyvec::TinyVec<[crate::classifiers::matched::Rule; 8]>,
}

/// The records a rule list holds, in order.
pub uninterp spec fn rule_seq(l: RuleList) -> Seq<crate::classifiers::matched::Rule>;

impl View for RuleList {
    type V = Seq<crate::classifiers::matched::Rule>;

    open spec fn view(&self) -> Seq<crate::classifiers::matched::Rule> {
        rule_seq(*self)
    }
}

impl RuleList {
    /// Relies on tinyvec::TinyVec::new: the new vector is empty.
    #[verifier::external_body]
    pub(crate) fn new() -> (r: RuleList)
        ensures
            rule_seq(r) == Seq::<crate::classifiers::matched::Rule>::empty(),
    {
        RuleList { rules: tinyvec::TinyVec::new() }
    }

    /// Relies on tinyvec::TinyVec::push: the record is placed after the others.
    #[verifier::external_body]
    pub(crate) fn push(&mut self, r: crate::classifiers::matched::Rule)
        ensures
            rule_seq(*final(self)) == rule_seq(*old(self)).push(r),
    {
        self.rules.push(r)
    }

    /// Relies on tinyvec::TinyVec::as_slice: the slice holds the records in order.
    #[verifier::external_body]
    pub(crate) fn as_slice(&self) -> (r: &[crate::classifiers::matched::Rule])
        ensures
            r@ == rule_seq(*self),
    {
        self.rules.as_slice()
    }
}

/// A captured packet: its bytes, capture data, layers, tunnels and the rules that
/// classification matched.
pub struct Packet {
    pub raw: Vec<u8>,
    pub ts_sec: i64,
    pub ts_usec: i64,
    pub caplen: u32,
    pub layers: Layers,
    pub rules: RuleList,
    pub tunnel: Tunnel,
}

/// The bytes from the application layer's offset on.
pub open spec fn payload_of(raw: Seq<u8>, layers: Layers) -> Seq<u8> {
    if layers.app.offset as int <= raw.len() {
        raw.subrange(layers.app.offset as int, raw.len() as int)
    } else {
        Seq::empty()
    }
}

/// The port at `at` bytes into the transport layer, when the transport carries
/// ports and the bytes are there.
pub open spec fn port_at(raw: Seq<u8>, trans: Layer, at: int) -> Option<u16> {
    if trans.protocol.is_transport_spec() && trans.offset + at + 2 <= raw.len() {
        Some(be16(raw[trans.offset + at], raw[trans.offset + at + 1]))
    } else {
        None
    }
}

impl Packet {
    /// `self` is `old` with `added` appended to its matched rules, all else kept.
    pub open spec fn appended(&self, old: Packet, added: Seq<crate::classifiers::matched::Rule>) -> bool {
        &&& self.raw@ == old.raw@
        &&& self.ts_sec == old.ts_sec
        &&& self.ts_usec == old.ts_usec
        &&& self.caplen == old.caplen
        &&& self.layers == old.layers
        &&& self.tunnel == old.tunnel
        &&& self.rules@ == old.rules@ + added
    }

    pub open spec fn payload_spec(&self) -> Seq<u8> {
        payload_of(self.raw@, self.layers)
    }

    pub open spec fn src_port_spec(&self) -> Option<u16> {
        port_at(self.raw@, self.layers.trans, 0)
    }

    pub open spec fn dst_port_spec(&self) -> Option<u16> {
        port_at(self.raw@, self.layers.trans, 2)
    }

    /// A packet of `raw` captured at the given time, not yet layered nor classified.
    pub fn from_capture(raw: Vec<u8>, ts_sec: i64, ts_usec: i64, caplen: u32) -> (r: Packet)
        ensures
            r.raw@ == raw@,
            r.ts_sec == ts_sec,
            r.ts_usec == ts_usec,
            r.caplen == caplen,
            r.layers == Layers::empty_spec(),
            r.rules@.len() == 0,
            r.tunnel.bits == 0,
    {
        Packet { raw, ts_sec, ts_usec, caplen, layers: Layers::empty(), rules: RuleList::new(), tunnel: Tunnel { bits: 0 } }
    }

    /// A packet of `raw` with a zero timestamp; its capture length is the length of `raw`
    /// (cut to 32 bits).
    pub fn new(raw: Vec<u8>) -> (r: Packet)
        ensures
            r.raw@ == raw@,
            r.ts_sec == 0,
            r.ts_usec == 0,
            r.caplen == raw@.len() as u32,
            r.layers == Layers::empty_spec(),
            r.rules@.len() == 0,
            r.tunnel.bits == 0,
    {
        let caplen = raw.len() as u32;
        Packet::from_capture(raw, 0, 0, caplen)
    }

    /// The captured bytes.
    pub fn raw(&self) -> (r: &[u8])
        ensures
            r@ == self.raw@,
    {
        self.raw.as_slice()
    }

    /// The capture length.
    pub fn caplen(&self) -> (r: u32)
        ensures
            r == self.caplen,
    {
        self.caplen
    }

    /// The layers found so far.
    pub fn layers(&self) -> (r: &Layers)
        ensures
            *r == self.layers,
    {
        &self.layers
    }

    /// The rules matched so far, in the order they matched.
    pub fn rules(&self) -> (r: &[crate::classifiers::matched::Rule])
        ensures
            r@ == self.rules@,
    {
        self.rules.as_slice()
    }

    /// The encapsulations met so far.
    pub fn tunnel(&self) -> (r: Tunnel)
        ensures
            r == self.tunnel,
    {
        self.tunnel
    }

    /// The application payload: the raw bytes from the application layer's offset on.
    pub fn payload(&self) -> (r: &[u8])
        ensures
            r@ == self.payload_spec(),
    {
        let raw = self.raw.as_slice();
        let start = self.layers.app.offset as usize;
        if start <= raw.len() {
            vstd::slice::slice_subrange(raw, start, raw.len())
        } else {
            vstd::slice::slice_subrange(raw, 0, 0)
        }
    }

    fn port(&self, at: usize) -> (r: Option<u16>)
        requires
            at == 0 || at == 2,
        ensures
            r == port_at(self.raw@, self.layers.trans, at as int),
    {
        if !self.layers.trans.protocol.is_transport() {
            return None;
        }
        let start = self.layers.trans.offset as usize + at;
        if start + 2 <= self.raw.len() {
            Some(read_be16(self.raw.as_slice(), start))
        } else {
            None
        }
    }

    /// The source port, when the transport carries ports and its header is there.
    pub fn src_port(&self) -> (r: Option<u16>)
        ensures
            r == self.src_port_spec(),
    {
        self.port(0)
    }

    /// The destination port, when the transport carries ports and its header is there.
    pub fn dst_port(&self) -> (r: Option<u16>)
        ensures
            r == self.dst_port_spec(),
    {
        self.port(2)
    }
}

} // verus!
