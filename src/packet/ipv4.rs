//! IPv4 headers.
use vstd::prelude::*;

use super::{next_layer, next_layer_exec, unsupported, Error, Layer, Protocol};

verus! {

pub const IPPROTO_ICMP: u8 = 1;
pub const IPPROTO_TCP: u8 = 6;
pub const IPPROTO_UDP: u8 = 17;
pub const IPPROTO_ICMPV6: u8 = 58;
pub const IPPROTO_SCTP: u8 = 132;

/// The transport an IP protocol number announces, among those layering knows.
pub open spec fn ip_next(proto: u8) -> Option<Protocol> {
    if proto == IPPROTO_TCP {
        Some(Protocol::TCP)
    } else if proto == IPPROTO_UDP {
        Some(Protocol::UDP)
    } else if proto == IPPROTO_SCTP {
        Some(Protocol::SCTP)
    } else if proto == IPPROTO_ICMP || proto == IPPROTO_ICMPV6 {
        Some(Protocol::ICMP)
    } else {
        None
    }
}

pub fn ip_protocol(proto: u8) -> (r: Option<Protocol>)
    ensures
        r == ip_next(proto),
{
    if proto == IPPROTO_TCP {
        Some(Protocol::TCP)
    } else if proto == IPPROTO_UDP {
        Some(Protocol::UDP)
    } else if proto == IPPROTO_SCTP {
        Some(Protocol::SCTP)
    } else if proto == IPPROTO_ICMP || proto == IPPROTO_ICMPV6 {
        Some(Protocol::ICMP)
    } else {
        None
    }
}

/// An IPv4 header: version 4 in the high nibble of byte 0, the header length in
/// 32-bit words in its low nibble (at least 5), the protocol number in byte 9.
pub open spec fn parse_spec(buf: Seq<u8>, offset: u16) -> Result<Option<Layer>, Error> {
    if buf.len() < 20 {
        Err(Error::Truncated(Protocol::IPV4))
    } else if buf[0] / 16 != 4 {
        Err(unsupported(Protocol::IPV4, (buf[0] / 16) as u32))
    } else if (buf[0] % 16) * 4 < 20 || (buf[0] % 16) * 4 > buf.len() {
        Err(Error::Truncated(Protocol::IPV4))
    } else {
        match ip_next(buf[9]) {
            None => Err(unsupported(Protocol::IPV4, buf[9] as u32)),
            Some(p) => next_layer(offset, (buf[0] % 16) * 4, p, Protocol::IPV4),
        }
    }
}

#[derive(Clone, Copy, Debug)]
pub struct Parser {}

impl Parser {
    /// Parses the IPv4 header at the start of `buf`, found `offset` bytes into the
    /// packet, and gives the transport layer.
    pub fn parse(&self, buf: &[u8], offset: u16) -> (r: Result<Option<Layer>, Error>)
        ensures
            r == parse_spec(buf@, offset),
    {
        if buf.len() < 20 {
            return Err(Error::Truncated(Protocol::IPV4));
        }
        if buf[0] / 16 != 4 {
            return Err(Error::UnsupportProtocol(super::Unsupported { layer: Protocol::IPV4, code: (buf[0] / 16) as u32 }));
        }
        let ihl: u16 = (buf[0] % 16) as u16 * 4;
        if ihl < 20 || ihl as usize > buf.len() {
            return Err(Error::Truncated(Protocol::IPV4));
        }
        match ip_protocol(buf[9]) {
            None => Err(Error::UnsupportProtocol(super::Unsupported { layer: Protocol::IPV4, code: buf[9] as u32 })),
            Some(p) => next_layer_exec(offset, ihl, p, Protocol::IPV4),
        }
    }
}

} // verus!
