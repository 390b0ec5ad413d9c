//! PPPoE sessions and the PPP protocol field.
use vstd::prelude::*;

use super::{be16, next_layer, next_layer_exec, read_be16, unsupported, Error, Layer, Protocol};

verus! {

pub const PPP_IPV4: u16 = 0x0021;
pub const PPP_IPV6: u16 = 0x0057;

/// The layer a PPP protocol field announces, `len` bytes on, for a header of `layer`.
pub open spec fn ppp_next(code: u16, offset: u16, len: int, layer: Protocol) -> Result<Option<Layer>, Error> {
    if code == PPP_IPV4 {
        next_layer(offset, len, Protocol::IPV4, layer)
    } else if code == PPP_IPV6 {
        next_layer(offset, len, Protocol::IPV6, layer)
    } else {
        Err(unsupported(layer, code as u32))
    }
}

fn ppp_next_exec(code: u16, offset: u16, len: u16, layer: Protocol) -> (r: Result<Option<Layer>, Error>)
    ensures
        r == ppp_next(code, offset, len as int, layer),
{
    if code == PPP_IPV4 {
        next_layer_exec(offset, len, Protocol::IPV4, layer)
    } else if code == PPP_IPV6 {
        next_layer_exec(offset, len, Protocol::IPV6, layer)
    } else {
        Err(Error::UnsupportProtocol(super::Unsupported { layer, code: code as u32 }))
    }
}

/// A PPPoE session header is 6 bytes, followed by the 2-byte PPP protocol field.
pub open spec fn parse_spec(buf: Seq<u8>, offset: u16) -> Result<Option<Layer>, Error> {
    if buf.len() < 8 {
        Err(Error::Truncated(Protocol::PPPOE))
    } else {
        ppp_next(be16(buf[6], buf[7]), offset, 8, Protocol::PPPOE)
    }
}

/// A PPP layer starts with its 2-byte protocol field.
pub open spec fn parse_ppp_spec(buf: Seq<u8>, offset: u16) -> Result<Option<Layer>, Error> {
    if buf.len() < 2 {
        Err(Error::Truncated(Protocol::PPP))
    } else {
        ppp_next(be16(buf[0], buf[1]), offset, 2, Protocol::PPP)
    }
}

#[derive(Clone, Copy, Debug)]
pub struct Parser {}

impl Parser {
    /// Parses the PPPoE session header at the start of `buf`, found `offset` bytes
    /// into the packet, and gives the next layer.
    pub fn parse(&self, buf: &[u8], offset: u16) -> (r: Result<Option<Layer>, Error>)
        ensures
            r == parse_spec(buf@, offset),
    {
        if buf.len() < 8 {
            return Err(Error::Truncated(Protocol::PPPOE));
        }
        ppp_next_exec(read_be16(buf, 6), offset, 8, Protocol::PPPOE)
    }
}

#[derive(Clone, Copy, Debug)]
pub struct PppParser {}

impl PppParser {
    /// Parses the PPP protocol field at the start of `buf`, found `offset` bytes into
    /// the packet, and gives the next layer.
    pub fn parse(&self, buf: &[u8], offset: u16) -> (r: Result<Option<Layer>, Error>)
        ensures
            r == parse_ppp_spec(buf@, offset),
    {
        if buf.len() < 2 {
            return Err(Error::Truncated(Protocol::PPP));
        }
        ppp_next_exec(read_be16(buf, 0), offset, 2, Protocol::PPP)
    }
}

} // verus!
