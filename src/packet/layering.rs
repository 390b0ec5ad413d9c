//! Layering: from the link layer down to the transport layer, one header at a time.
use vstd::prelude::*;

use super::{
    ethernet, ipv4, ipv6, mpls, pppoe, transport, unsupported, vlan, Error, Layer, Layers, Packet, Protocol, Tunnel,
    TUNNEL_MPLS, TUNNEL_PPP, TUNNEL_PPPOE, TUNNEL_VLAN,
};

verus! {

/// Link type of Ethernet captures.
pub const LINKTYPE_ETHERNET: u16 = 1;
/// Link type of raw IP captures, IPv4 or IPv6 by the version nibble.
pub const LINKTYPE_RAW: u16 = 101;
pub const LINKTYPE_IPV4: u16 = 228;
pub const LINKTYPE_IPV6: u16 = 229;

/// The first layer of a capture of the given link type.
pub open spec fn first_layer(link_type: u16, raw: Seq<u8>) -> Result<Layer, Error> {
    if link_type == LINKTYPE_ETHERNET {
        Ok(Layer { offset: 0, protocol: Protocol::ETHERNET })
    } else if link_type == LINKTYPE_IPV4 {
        Ok(Layer { offset: 0, protocol: Protocol::IPV4 })
    } else if link_type == LINKTYPE_IPV6 {
        Ok(Layer { offset: 0, protocol: Protocol::IPV6 })
    } else if link_type == LINKTYPE_RAW {
        if raw.len() < 1 {
            Err(Error::Truncated(Protocol::UNKNOWN))
        } else if raw[0] / 16 == 4 {
            Ok(Layer { offset: 0, protocol: Protocol::IPV4 })
        } else if raw[0] / 16 == 6 {
            Ok(Layer { offset: 0, protocol: Protocol::IPV6 })
        } else {
            Err(unsupported(Protocol::UNKNOWN, (raw[0] / 16) as u32))
        }
    } else {
        Err(unsupported(Protocol::UNKNOWN, link_type as u32))
    }
}

/// What the header of layer `cur` says comes next.
pub open spec fn step(raw: Seq<u8>, cur: Layer) -> Result<Option<Layer>, Error> {
    let buf = raw.subrange(cur.offset as int, raw.len() as int);
    match cur.protocol {
        Protocol::ETHERNET => ethernet::parse_spec(buf, cur.offset),
        Protocol::VLAN => vlan::parse_spec(buf, cur.offset),
        Protocol::MPLS => mpls::parse_spec(buf, cur.offset),
        Protocol::PPPOE => pppoe::parse_spec(buf, cur.offset),
        Protocol::PPP => pppoe::parse_ppp_spec(buf, cur.offset),
        Protocol::IPV4 => ipv4::parse_spec(buf, cur.offset),
        Protocol::IPV6 => ipv6::parse_spec(buf, cur.offset),
        _ => Err(unsupported(cur.protocol, 0)),
    }
}

/// Notes layer `cur`: the link, network and transport layers are recorded; an
/// encapsulation sets its tunnel bit and leaves the outer records as they are.
pub open spec fn record(acc: (Layers, Tunnel), cur: Layer) -> (Layers, Tunnel) {
    match cur.protocol {
        Protocol::ETHERNET => (Layers { data_link: cur, ..acc.0 }, acc.1),
        Protocol::VLAN => (acc.0, Tunnel { bits: acc.1.bits | TUNNEL_VLAN }),
        Protocol::MPLS => (acc.0, Tunnel { bits: acc.1.bits | TUNNEL_MPLS }),
        Protocol::PPPOE => (acc.0, Tunnel { bits: acc.1.bits | TUNNEL_PPPOE }),
        Protocol::PPP => (acc.0, Tunnel { bits: acc.1.bits | TUNNEL_PPP }),
        Protocol::IPV4 | Protocol::IPV6 => (Layers { network: cur, ..acc.0 }, acc.1),
        _ => (Layers { trans: cur, ..acc.0 }, acc.1),
    }
}

/// The layers and tunnels found from layer `cur` on, `acc` holding those found
/// before it. At a transport the application layer is placed after its header.
pub open spec fn walk(raw: Seq<u8>, cur: Layer, acc: (Layers, Tunnel)) -> Result<(Layers, Tunnel), Error>
    decreases raw.len() - cur.offset,
{
    if cur.offset > raw.len() {
        Err(Error::Truncated(cur.protocol))
    } else {
        let acc2 = record(acc, cur);
        if transport::is_final(cur.protocol) {
            match transport::header_len(cur.protocol, raw.subrange(cur.offset as int, raw.len() as int)) {
                None => Err(Error::Truncated(cur.protocol)),
                Some(h) => if cur.offset + h <= u16::MAX {
                    Ok((Layers { app: Layer { offset: (cur.offset + h) as u16, protocol: Protocol::UNKNOWN }, ..acc2.0 }, acc2.1))
                } else {
                    Err(Error::Truncated(cur.protocol))
                },
            }
        } else {
            match step(raw, cur) {
                Err(e) => Err(e),
                Ok(None) => Ok(acc2),
                Ok(Some(next)) => if next.offset <= cur.offset {
                    Err(Error::Truncated(cur.protocol))
                } else if next.offset > raw.len() {
                    Err(Error::Truncated(next.protocol))
                } else {
                    walk(raw, next, acc2)
                },
            }
        }
    }
}

/// What layering finds in `raw`, captured with link type `link_type`.
pub open spec fn layering(link_type: u16, raw: Seq<u8>) -> Result<(Layers, Tunnel), Error> {
    match first_layer(link_type, raw) {
        Err(e) => Err(e),
        Ok(l) => walk(raw, l, (Layers::empty_spec(), Tunnel { bits: 0 })),
    }
}

/// Layers packets of one link type.
#[derive(Clone, Copy, Debug)]
pub struct Parser {
    pub link_type: u16,
}

impl Parser {
    pub fn new(link_type: u16) -> (r: Parser)
        ensures
            r.link_type == link_type,
    {
        Parser { link_type }
    }

    fn first(&self, raw: &[u8]) -> (r: Result<Layer, Error>)
        ensures
            r == first_layer(self.link_type, raw@),
    {
        let lt = self.link_type;
        if lt == LINKTYPE_ETHERNET {
            Ok(Layer { offset: 0, protocol: Protocol::ETHERNET })
        } else if lt == LINKTYPE_IPV4 {
            Ok(Layer { offset: 0, protocol: Protocol::IPV4 })
        } else if lt == LINKTYPE_IPV6 {
            Ok(Layer { offset: 0, protocol: Protocol::IPV6 })
        } else if lt == LINKTYPE_RAW {
            if raw.len() < 1 {
                Err(Error::Truncated(Protocol::UNKNOWN))
            } else if raw[0] / 16 == 4 {
                Ok(Layer { offset: 0, protocol: Protocol::IPV4 })
            } else if raw[0] / 16 == 6 {
                Ok(Layer { offset: 0, protocol: Protocol::IPV6 })
            } else {
                Err(Error::UnsupportProtocol(super::Unsupported { layer: Protocol::UNKNOWN, code: (raw[0] / 16) as u32 }))
            }
        } else {
            Err(Error::UnsupportProtocol(super::Unsupported { layer: Protocol::UNKNOWN, code: lt as u32 }))
        }
    }

    fn step_exec(raw: &[u8], cur: Layer) -> (r: Result<Option<Layer>, Error>)
        requires
            cur.offset <= raw@.len(),
        ensures
            r == step(raw@, cur),
    {
        let buf = vstd::slice::slice_subrange(raw, cur.offset as usize, raw.len());
        match cur.protocol {
            Protocol::ETHERNET => ethernet::Parser {}.parse(buf, cur.offset),
            Protocol::VLAN => vlan::Parser {}.parse(buf, cur.offset),
            Protocol::MPLS => mpls::Parser {}.parse(buf, cur.offset),
            Protocol::PPPOE => pppoe::Parser {}.parse(buf, cur.offset),
            Protocol::PPP => pppoe::PppParser {}.parse(buf, cur.offset),
            Protocol::IPV4 => ipv4::Parser {}.parse(buf, cur.offset),
            Protocol::IPV6 => ipv6::Parser {}.parse(buf, cur.offset),
            _ => Err(Error::UnsupportProtocol(super::Unsupported { layer: cur.protocol, code: 0 })),
        }
    }

    fn record_exec(layers: &mut Layers, tunnel: &mut Tunnel, cur: Layer)
        ensures
            (*final(layers), *final(tunnel)) == record((*old(layers), *old(tunnel)), cur),
    {
        match cur.protocol {
            Protocol::ETHERNET => layers.data_link = cur,
            Protocol::VLAN => tunnel.bits = tunnel.bits | TUNNEL_VLAN,
            Protocol::MPLS => tunnel.bits = tunnel.bits | TUNNEL_MPLS,
            Protocol::PPPOE => tunnel.bits = tunnel.bits | TUNNEL_PPPOE,
            Protocol::PPP => tunnel.bits = tunnel.bits | TUNNEL_PPP,
            Protocol::IPV4 | Protocol::IPV6 => layers.network = cur,
            _ => layers.trans = cur,
        }
    }

    /// Walks the headers of `raw` and gives its layers and tunnels.
    pub fn layers_of(&self, raw: &[u8]) -> (r: Result<(Layers, Tunnel), Error>)
        ensures
            r == layering(self.link_type, raw@),
    {
        let mut cur = match self.first(raw) {
            Ok(l) => l,
            Err(e) => return Err(e),
        };
        let mut layers = Layers::empty();
        let mut tunnel = Tunnel { bits: 0 };
        while (cur.offset as usize) <= raw.len()
            invariant
                walk(raw@, cur, (layers, tunnel)) == layering(self.link_type, raw@),
            decreases raw@.len() - cur.offset,
        {
            Self::record_exec(&mut layers, &mut tunnel, cur);
            let buf = vstd::slice::slice_subrange(raw, cur.offset as usize, raw.len());
            if cur.protocol == Protocol::TCP || cur.protocol == Protocol::UDP || cur.protocol == Protocol::SCTP
                || cur.protocol == Protocol::ICMP {
                return match transport::header_len_exec(cur.protocol, buf) {
                    None => Err(Error::Truncated(cur.protocol)),
                    Some(h) => if h <= u16::MAX - cur.offset {
                        layers.app = Layer { offset: cur.offset + h, protocol: Protocol::UNKNOWN };
                        Ok((layers, tunnel))
                    } else {
                        Err(Error::Truncated(cur.protocol))
                    },
                };
            }
            match Self::step_exec(raw, cur) {
                Err(e) => return Err(e),
                Ok(None) => return Ok((layers, tunnel)),
                Ok(Some(next)) => {
                    if next.offset <= cur.offset {
                        return Err(Error::Truncated(cur.protocol));
                    } else if next.offset as usize > raw.len() {
                        return Err(Error::Truncated(next.protocol));
                    }
                    cur = next;
                },
            }
        }
        Err(Error::Truncated(cur.protocol))
    }

    /// Layers `pkt`: on success its layers and tunnels are those found in its bytes;
    /// on failure the packet is left as it was.
    pub fn parse_pkt(&self, pkt: &mut Packet) -> (r: Result<(), Error>)
        ensures
            final(pkt).raw@ == old(pkt).raw@,
            final(pkt).rules@ == old(pkt).rules@,
            final(pkt).ts_sec == old(pkt).ts_sec,
            final(pkt).ts_usec == old(pkt).ts_usec,
            final(pkt).caplen == old(pkt).caplen,
            match layering(self.link_type, old(pkt).raw@) {
                Ok((l, t)) => r is Ok && final(pkt).layers == l && final(pkt).tunnel == t,
                Err(e) => r == Err::<(), Error>(e) && final(pkt).layers == old(pkt).layers && final(pkt).tunnel == old(pkt).tunnel,
            },
    {
        match self.layers_of(pkt.raw.as_slice()) {
            Ok((l, t)) => {
                pkt.layers = l;
                pkt.tunnel = t;
                Ok(())
            },
            Err(e) => Err(e),
        }
    }
}

} // verus!
