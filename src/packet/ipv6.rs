//! IPv6 headers.
use vstd::prelude::*;

use super::ipv4::{ip_next, ip_protocol};
use super::{next_layer, next_layer_exec, unsupported, Error, Layer, Protocol};

verus! {

/// An IPv6 header is 40 bytes: version 6 in the high nibble of byte 0, the next
/// header in byte 6. Extension headers are not followed.
pub open spec fn parse_spec(buf: Seq<u8>, offset: u16) -> Result<Option<Layer>, Error> {
    if buf.len() < 40 {
        Err(Error::Truncated(Protocol::IPV6))
    } else if buf[0] / 16 != 6 {
        Err(unsupported(Protocol::IPV6, (buf[0] / 16) as u32))
    } else {
        match ip_next(buf[6]) {
            None => Err(unsupported(Protocol::IPV6, buf[6] as u32)),
            Some(p) => next_layer(offset, 40, p, Protocol::IPV6),
        }
    }
}

#[derive(Clone, Copy, Debug)]
pub struct Parser {}

impl Parser {
    /// Parses the IPv6 header at the start of `buf`, found `offset` bytes into the
    /// packet, and gives the transport layer.
    pub fn parse(&self, buf: &[u8], offset: u16) -> (r: Result<Option<Layer>, Error>)
        ensures
            r == parse_spec(buf@, offset),
    {
        if buf.len() < 40 {
            return Err(Error::Truncated(Protocol::IPV6));
        }
        if buf[0] / 16 != 6 {
            return Err(Error::UnsupportProtocol(super::Unsupported { layer: Protocol::IPV6, code: (buf[0] / 16) as u32 }));
        }
        match ip_protocol(buf[6]) {
            None => Err(Error::UnsupportProtocol(super::Unsupported { layer: Protocol::IPV6, code: buf[6] as u32 })),
            Some(p) => next_layer_exec(offset, 40, p, Protocol::IPV6),
        }
    }
}

} // verus!
