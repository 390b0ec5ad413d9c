//! Extractors: checks and field extraction that some rules run on a matching packet.
use vstd::prelude::*;

use crate::session::{with_field, with_protocol, Session};

verus! {

/// The extractors that rule callbacks can name.
#[derive(Clone, Copy, Debug, PartialEq, Eq, Structural)]
pub enum Extractor {
    /// RDP connection requests, with the user of their cookie.
    Rdp,
    /// Gh0st traffic from Windows hosts.
    Gh0stWindows,
    /// Gh0st traffic from macOS hosts.
    Gh0stMac,
}

/// The text of bytes read as UTF-8, each invalid sequence replaced by U+FFFD.
pub uninterp spec fn utf8_lossy(b: Seq<u8>) -> Seq<char>;

/// Relies on String::from_utf8_lossy: the bytes read as UTF-8, invalid sequences
/// replaced.
#[verifier::external_body]
fn lossy_string(b: &[u8]) -> (r: String)
    ensures
        r@ == utf8_lossy(b@),
{
    String::from_utf8_lossy(b).to_string()
}

/// The bytes of `Cookie: mstshash=`.
pub open spec fn cookie_prefix() -> Seq<u8> {
    seq![67u8, 111, 111, 107, 105, 101, 58, 32, 109, 115, 116, 115, 104, 97, 115, 104, 61]
}

/// An RDP connection request: byte 3 (a length) is below the payload's length (cut
/// to 8 bits) and at least 5, byte 4 is byte 3 less 5, byte 5 is 0xe0.
pub open spec fn is_rdp(p: Seq<u8>) -> bool {
    &&& p.len() > 5
    &&& (p[3] as int) < p.len() % 256
    &&& p[3] >= 5
    &&& p[4] == p[3] - 5
    &&& p[5] == 0xe0
}

/// The first `j >= from` at which `\r\n` starts in `s`.
pub open spec fn crlf_from(s: Seq<u8>, from: int) -> Option<int>
    decreases s.len() - from,
{
    if from < 0 || from + 1 >= s.len() {
        None
    } else if s[from] == 13 && s[from + 1] == 10 {
        Some(from)
    } else {
        crlf_from(s, from + 1)
    }
}

/// The user of an RDP cookie: the bytes from offset 28 to the first `\r\n` after it,
/// when bytes 11 to 27 are `Cookie: mstshash=` and the payload is over 30 bytes.
pub open spec fn rdp_user(p: Seq<u8>) -> Option<Seq<u8>> {
    if p.len() > 30 && p.subrange(11, 28) == cookie_prefix() {
        match crlf_from(p, 28) {
            Some(j) => Some(p.subrange(28, j)),
            None => None,
        }
    } else {
        None
    }
}

/// A Gh0st header from a Windows host: at least 15 bytes, and either bytes 5 and 6
/// (little-endian) give the payload's length cut to 16 bits, or bytes 11 and 12 are 0.
pub open spec fn is_gh0st_windows(p: Seq<u8>) -> bool {
    &&& p.len() >= 15
    &&& (p[6] as int * 256 + p[5] as int == p.len() % 65536 || (p[11] == 0 && p[12] == 0))
}

/// A Gh0st header from a macOS host: at least 15 bytes, and bytes 7 and 8
/// (big-endian) give the payload's length cut to 16 bits.
pub open spec fn is_gh0st_mac(p: Seq<u8>) -> bool {
    &&& p.len() >= 15
    &&& p[7] as int * 256 + p[8] as int == p.len() % 65536
}

/// Whether extractor `e` recognises its protocol in payload `p`.
pub open spec fn accepts(e: Extractor, p: Seq<u8>) -> bool {
    match e {
        Extractor::Rdp => is_rdp(p),
        Extractor::Gh0stWindows => is_gh0st_windows(p),
        Extractor::Gh0stMac => is_gh0st_mac(p),
    }
}

/// The protocol labels after extractor `e` ran on payload `p`.
pub open spec fn protocols_after(e: Extractor, p: Seq<u8>, ps: Seq<Seq<char>>) -> Seq<Seq<char>> {
    match e {
        Extractor::Rdp => if is_rdp(p) { with_protocol(ps, "rdp"@) } else { ps },
        Extractor::Gh0stWindows => if is_gh0st_windows(p) { with_protocol(ps, "gh0st"@) } else { ps },
        Extractor::Gh0stMac => if is_gh0st_mac(p) { with_protocol(ps, "gh0st"@) } else { ps },
    }
}

/// The fields after extractor `e` ran on payload `p`.
pub open spec fn fields_after(e: Extractor, p: Seq<u8>, fs: Seq<(Seq<char>, Seq<char>)>) -> Seq<(Seq<char>, Seq<char>)> {
    match e {
        Extractor::Rdp => if is_rdp(p) {
            match rdp_user(p) {
                Some(u) => with_field(fs, "user"@, utf8_lossy(u)),
                None => fs,
            }
        } else {
            fs
        },
        _ => fs,
    }
}

fn find_crlf(s: &[u8], from: usize) -> (r: Option<usize>)
    ensures
        r matches Some(j) ==> crlf_from(s@, from as int) == Some(j as int) && from <= j && j + 1 < s@.len(),
        r is None ==> crlf_from(s@, from as int) is None,
    decreases s@.len() - from,
{
    if from >= s.len() || s.len() - from < 2 {
        None
    } else if s[from] == 13 && s[from + 1] == 10 {
        Some(from)
    } else {
        find_crlf(s, from + 1)
    }
}

fn has_cookie_prefix(p: &[u8]) -> (r: bool)
    requires
        p@.len() > 30,
    ensures
        r == (p@.subrange(11, 28) == cookie_prefix()),
{
    let want: [u8; 17] = [67u8, 111, 111, 107, 105, 101, 58, 32, 109, 115, 116, 115, 104, 97, 115, 104, 61];
    assert(want@ =~= cookie_prefix());
    let mut i: usize = 0;
    while i < 17
        invariant
            p@.len() > 30,
            want@ == cookie_prefix(),
            i <= 17,
            forall|j: int| 0 <= j < i ==> p@[11 + j] == cookie_prefix()[j],
        decreases 17 - i,
    {
        if p[11 + i] != want[i] {
            assert(p@.subrange(11, 28)[i as int] != cookie_prefix()[i as int]);
            return false;
        }
        i = i + 1;
    }
    assert(p@.subrange(11, 28) =~= cookie_prefix());
    true
}

/// Runs extractor `e` on payload `p`, updating `ses`.
pub fn run(e: Extractor, ses: &mut Session, p: &[u8])
    requires
        old(ses).wf(),
    ensures
        final(ses).wf(),
        final(ses).protocols_spec() == protocols_after(e, p@, old(ses).protocols_spec()),
        final(ses).fields_spec() == fields_after(e, p@, old(ses).fields_spec()),
        final(ses).same_but_findings(*old(ses)),
{
    let n = p.len();
    match e {
        Extractor::Rdp => {
            if n > 5 && (p[3] as usize) < n % 256 && p[3] >= 5 && p[4] == p[3] - 5 && p[5] == 0xe0 {
                ses.add_protocol("rdp");
                if n > 30 && has_cookie_prefix(p) {
                    match find_crlf(p, 28) {
                        Some(j) => {
                            let user = lossy_string(vstd::slice::slice_subrange(p, 28, j));
                            ses.add_field("user", user);
                        },
                        None => {},
                    }
                }
            }
        },
        Extractor::Gh0stWindows => {
            if n >= 15 && ((p[6] as usize * 256 + p[5] as usize == n % 65536) || (p[11] == 0 && p[12] == 0)) {
                ses.add_protocol("gh0st");
            }
        },
        Extractor::Gh0stMac => {
            if n >= 15 && p[7] as usize * 256 + p[8] as usize == n % 65536 {
                ses.add_protocol("gh0st");
            }
        },
    }
}

} // verus!
