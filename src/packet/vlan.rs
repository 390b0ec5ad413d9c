//! 802.1Q VLAN tags.
use vstd::prelude::*;

use super::ethernet::{ether_type_next, ether_type_protocol};
use super::{be16, next_layer, next_layer_exec, read_be16, unsupported, Error, Layer, Protocol};

verus! {

/// A VLAN layer starts at the EtherType that follows the tag's TCI. The next layer
/// follows that EtherType; when it announces another tag, that tag's own EtherType
/// is 4 bytes on, past its TCI.
pub open spec fn parse_spec(buf: Seq<u8>, offset: u16) -> Result<Option<Layer>, Error> {
    if buf.len() < 2 {
        Err(Error::Truncated(Protocol::VLAN))
    } else {
        let etype = be16(buf[0], buf[1]);
        match ether_type_next(etype) {
            None => Err(unsupported(Protocol::VLAN, etype as u32)),
            Some(p) => next_layer(offset, if p == Protocol::VLAN { 4 } else { 2 }, p, Protocol::VLAN),
        }
    }
}

#[derive(Clone, Copy, Debug, Default)]
pub struct Parser {}

impl Parser {
    /// Parses the VLAN layer at the start of `buf`, found `offset` bytes into the
    /// packet, and gives the next layer.
    pub fn parse(&self, buf: &[u8], offset: u16) -> (r: Result<Option<Layer>, Error>)
        ensures
            r == parse_spec(buf@, offset),
    {
        if buf.len() < 2 {
            return Err(Error::Truncated(Protocol::VLAN));
        }
        let etype = read_be16(buf, 0);
        match ether_type_protocol(etype) {
            None => Err(Error::UnsupportProtocol(super::Unsupported { layer: Protocol::VLAN, code: etype as u32 })),
            Some(p) => {
                let len: u16 = if p == Protocol::VLAN { 4 } else { 2 };
                next_layer_exec(offset, len, p, Protocol::VLAN)
            },
        }
    }
}

} // verus!
