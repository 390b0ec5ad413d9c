//! MPLS label stacks.
use vstd::prelude::*;

use super::{next_layer, next_layer_exec, unsupported, Error, Layer, Protocol};

verus! {

/// An MPLS label entry is 4 bytes; the low bit of its third byte marks the bottom of
/// the stack. Below the last entry, the IP version nibble tells IPv4 from IPv6.
pub open spec fn parse_spec(buf: Seq<u8>, offset: u16) -> Result<Option<Layer>, Error> {
    if buf.len() < 4 {
        Err(Error::Truncated(Protocol::MPLS))
    } else if buf[2] % 2 == 0 {
        next_layer(offset, 4, Protocol::MPLS, Protocol::MPLS)
    } else if buf.len() < 5 {
        Err(Error::Truncated(Protocol::MPLS))
    } else if buf[4] / 16 == 4 {
        next_layer(offset, 4, Protocol::IPV4, Protocol::MPLS)
    } else if buf[4] / 16 == 6 {
        next_layer(offset, 4, Protocol::IPV6, Protocol::MPLS)
    } else {
        Err(unsupported(Protocol::MPLS, (buf[4] / 16) as u32))
    }
}

#[derive(Clone, Copy, Debug)]
pub struct Parser {}

impl Parser {
    /// Parses the label entry at the start of `buf`, found `offset` bytes into the
    /// packet, and gives the next layer.
    pub fn parse(&self, buf: &[u8], offset: u16) -> (r: Result<Option<Layer>, Error>)
        ensures
            r == parse_spec(buf@, offset),
    {
        if buf.len() < 4 {
            Err(Error::Truncated(Protocol::MPLS))
        } else if buf[2] % 2 == 0 {
            next_layer_exec(offset, 4, Protocol::MPLS, Protocol::MPLS)
        } else if buf.len() < 5 {
            Err(Error::Truncated(Protocol::MPLS))
        } else if buf[4] / 16 == 4 {
            next_layer_exec(offset, 4, Protocol::IPV4, Protocol::MPLS)
        } else if buf[4] / 16 == 6 {
            next_layer_exec(offset, 4, Protocol::IPV6, Protocol::MPLS)
        } else {
            Err(Error::UnsupportProtocol(super::Unsupported { layer: Protocol::MPLS, code: (buf[4] / 16) as u32 }))
        }
    }
}

} // verus!
