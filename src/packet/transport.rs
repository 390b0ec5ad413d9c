//! Transport headers: how long each is, so that the payload can be found.
use vstd::prelude::*;

use super::Protocol;

verus! {

/// Whether layering stops at this protocol.
pub open spec fn is_final(p: Protocol) -> bool {
    p == Protocol::TCP || p == Protocol::UDP || p == Protocol::SCTP || p == Protocol::ICMP
}

/// The length of the transport header at the start of `buf`, when it is all there:
/// TCP's data offset in 32-bit words is the high nibble of byte 12 (at least 5); UDP
/// and ICMP headers are 8 bytes, SCTP's common header 12.
pub open spec fn header_len(p: Protocol, buf: Seq<u8>) -> Option<int> {
    let want: int = match p {
        Protocol::TCP => if buf.len() >= 20 { (buf[12] / 16) * 4 } else { 20 },
        Protocol::UDP => 8,
        Protocol::ICMP => 8,
        Protocol::SCTP => 12,
        _ => -1,
    };
    if 8 <= want <= buf.len() && (p != Protocol::TCP || want >= 20) {
        Some(want)
    } else {
        None
    }
}

pub fn header_len_exec(p: Protocol, buf: &[u8]) -> (r: Option<u16>)
    ensures
        r matches Some(n) ==> header_len(p, buf@) == Some(n as int),
        r is None ==> header_len(p, buf@) is None,
{
    let want: u16 = match p {
        Protocol::TCP => if buf.len() >= 20 { (buf[12] / 16) as u16 * 4 } else { 20 },
        Protocol::UDP => 8,
        Protocol::ICMP => 8,
        Protocol::SCTP => 12,
        _ => return None,
    };
    if 8 <= want && want as usize <= buf.len() && (p != Protocol::TCP || want >= 20) {
        Some(want)
    } else {
        None
    }
}

} // verus!
