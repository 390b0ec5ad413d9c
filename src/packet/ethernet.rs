//! Ethernet II frames.
use vstd::prelude::*;

use super::{be16, next_layer, next_layer_exec, read_be16, unsupported, Error, Layer, Protocol};

verus! {

pub const IPV4: u16 = 0x0800;
pub const IPV6: u16 = 0x86dd;
pub const PPP: u16 = 0x880b;
pub const MPLSUC: u16 = 0x8847;
pub const PPPOES: u16 = 0x8864;
pub const VLAN: u16 = 0x8100;

/// The protocol an EtherType announces, among those layering knows.
pub open spec fn ether_type_next(etype: u16) -> Option<Protocol> {
    if etype == IPV4 {
        Some(Protocol::IPV4)
    } else if etype == IPV6 {
        Some(Protocol::IPV6)
    } else if etype == PPP {
        Some(Protocol::PPP)
    } else if etype == MPLSUC {
        Some(Protocol::MPLS)
    } else if etype == PPPOES {
        Some(Protocol::PPPOE)
    } else if etype == VLAN {
        Some(Protocol::VLAN)
    } else {
        None
    }
}

pub fn ether_type_protocol(etype: u16) -> (r: Option<Protocol>)
    ensures
        r == ether_type_next(etype),
{
    if etype == IPV4 {
        Some(Protocol::IPV4)
    } else if etype == IPV6 {
        Some(Protocol::IPV6)
    } else if etype == PPP {
        Some(Protocol::PPP)
    } else if etype == MPLSUC {
        Some(Protocol::MPLS)
    } else if etype == PPPOES {
        Some(Protocol::PPPOE)
    } else if etype == VLAN {
        Some(Protocol::VLAN)
    } else {
        None
    }
}

/// An Ethernet header is 14 bytes; its EtherType is in bytes 12 and 13. A VLAN layer
/// starts at the EtherType that follows the tag's TCI, 16 bytes in.
pub open spec fn parse_spec(buf: Seq<u8>, offset: u16) -> Result<Option<Layer>, Error> {
    if buf.len() < 14 {
        Err(Error::Truncated(Protocol::ETHERNET))
    } else {
        let etype = be16(buf[12], buf[13]);
        match ether_type_next(etype) {
            None => Err(unsupported(Protocol::ETHERNET, etype as u32)),
            Some(p) => next_layer(offset, if p == Protocol::VLAN { 16 } else { 14 }, p, Protocol::ETHERNET),
        }
    }
}

#[derive(Clone, Copy, Debug)]
pub struct Parser {}

impl Parser {
    /// Parses the Ethernet header at the start of `buf`, found `offset` bytes into
    /// the packet, and gives the next layer.
    pub fn parse(&self, buf: &[u8], offset: u16) -> (r: Result<Option<Layer>, Error>)
        ensures
            r == parse_spec(buf@, offset),
    {
        if buf.len() < 14 {
            return Err(Error::Truncated(Protocol::ETHERNET));
        }
        let etype = read_be16(buf, 12);
        match ether_type_protocol(etype) {
            None => Err(Error::UnsupportProtocol(super::Unsupported { layer: Protocol::ETHERNET, code: etype as u32 })),
            Some(p) => {
                let len: u16 = if p == Protocol::VLAN { 16 } else { 14 };
                next_layer_exec(offset, len, p, Protocol::ETHERNET)
            },
        }
    }
}

} // verus!
