//! BitTorrent signatures.
use vstd::prelude::*;

use super::misc::{add_simple_dpi_rule, adds_only, grows, labels_fn, lemma_adds_only_trans, lemma_grows_trans, lemma_room_step, lemma_signed_grows, registered, room_for, signed};
use super::{callback_entries, CallbackMap, MatchCallBack};
use crate::classifiers::{dpi, ClassifierManager, Error, ParserID};

verus! {

/// Submits the BitTorrent signatures for parser `id`, in this order: the handshake and
/// BitTorrent Sync over TCP, DHT queries over UDP; each match labels the session
/// `bittorrent`. It succeeds whenever the registry has room for three rules from `id`.
pub fn register_classify_rules(id: ParserID, manager: &mut ClassifierManager, match_cbs: &mut CallbackMap) -> (r: Result<(), Error>)
    requires
        old(manager).wf(),
    ensures
        final(manager).wf(),
        final(manager).port_classifier()@ == old(manager).port_classifier()@,
        grows(*old(manager), *final(manager)),
        adds_only(callback_entries(*old(match_cbs)), callback_entries(*final(match_cbs)), labels_fn("bittorrent"@)),
        forall|k: nat| #[trigger] room_for(*old(manager), id, k) && k >= 3 ==> r is Ok && room_for(*final(manager), id, (k - 3) as nat),
        r is Ok ==> exists|m1: ClassifierManager, c1: Map<u32, MatchCallBack>, m2: ClassifierManager, c2: Map<u32, MatchCallBack>|
            registered(*old(manager), m1, callback_entries(*old(match_cbs)), c1, id, "^\\x13BitTorrent protocol"@, dpi::Protocol { bits: dpi::DPI_TCP }, labels_fn("bittorrent"@))
                && #[trigger] registered(m1, m2, c1, c2, id, "^Bsync\\x00"@, dpi::Protocol { bits: dpi::DPI_TCP }, labels_fn("bittorrent"@))
                && registered(m2, *final(manager), c2, callback_entries(*final(match_cbs)), id, "^d1:[arq]"@, dpi::Protocol { bits: dpi::DPI_UDP }, labels_fn("bittorrent"@)),
        r is Ok ==> {
            &&& signed(*final(manager), callback_entries(*final(match_cbs)), id, "^\\x13BitTorrent protocol"@, dpi::Protocol { bits: dpi::DPI_TCP }, labels_fn("bittorrent"@))
            &&& signed(*final(manager), callback_entries(*final(match_cbs)), id, "^Bsync\\x00"@, dpi::Protocol { bits: dpi::DPI_TCP }, labels_fn("bittorrent"@))
            &&& signed(*final(manager), callback_entries(*final(match_cbs)), id, "^d1:[arq]"@, dpi::Protocol { bits: dpi::DPI_UDP }, labels_fn("bittorrent"@))
        },
{
    let ghost allowed = labels_fn("bittorrent"@);
    let ghost m0 = *manager;
    let ghost c0 = callback_entries(*match_cbs);
    let r1 = add_simple_dpi_rule(id, manager, match_cbs, "^\\x13BitTorrent protocol", dpi::Protocol::tcp(), "bittorrent");
    let ghost m1 = *manager;
    let ghost c1 = callback_entries(*match_cbs);
    proof {
        assert forall|k: nat| #[trigger] room_for(m0, id, k) && k >= 3 implies r1 is Ok && room_for(m1, id, (k - 1) as nat) by {
            lemma_room_step(m0, m1, id, "^\\x13BitTorrent protocol"@, dpi::Protocol { bits: dpi::DPI_TCP }, r1, (k - 1) as nat);
        }
    }
    if let Err(e) = r1 {
        return Err(e);
    }
    let r2 = add_simple_dpi_rule(id, manager, match_cbs, "^Bsync\\x00", dpi::Protocol::tcp(), "bittorrent");
    let ghost m2 = *manager;
    let ghost c2 = callback_entries(*match_cbs);
    proof {
        assert forall|k: nat| #[trigger] room_for(m0, id, k) && k >= 3 implies r2 is Ok && room_for(m2, id, (k - 2) as nat) by {
            lemma_room_step(m0, m1, id, "^\\x13BitTorrent protocol"@, dpi::Protocol { bits: dpi::DPI_TCP }, r1, (k - 1) as nat);
            lemma_room_step(m1, m2, id, "^Bsync\\x00"@, dpi::Protocol { bits: dpi::DPI_TCP }, r2, (k - 2) as nat);
        }
        lemma_adds_only_trans(c0, c1, c2, allowed);
        lemma_grows_trans(m0, m1, m2);
        if r2 is Ok {
            lemma_signed_grows(m1, m2, c1, c2, id, "^\\x13BitTorrent protocol"@, dpi::Protocol { bits: dpi::DPI_TCP }, allowed);
        }
    }
    if let Err(e) = r2 {
        return Err(e);
    }
    let r3 = add_simple_dpi_rule(id, manager, match_cbs, "^d1:[arq]", dpi::Protocol::udp(), "bittorrent");
    let ghost m3 = *manager;
    let ghost c3 = callback_entries(*match_cbs);
    proof {
        assert forall|k: nat| #[trigger] room_for(m0, id, k) && k >= 3 implies r3 is Ok && room_for(m3, id, (k - 3) as nat) by {
            lemma_room_step(m0, m1, id, "^\\x13BitTorrent protocol"@, dpi::Protocol { bits: dpi::DPI_TCP }, r1, (k - 1) as nat);
            lemma_room_step(m1, m2, id, "^Bsync\\x00"@, dpi::Protocol { bits: dpi::DPI_TCP }, r2, (k - 2) as nat);
            lemma_room_step(m2, m3, id, "^d1:[arq]"@, dpi::Protocol { bits: dpi::DPI_UDP }, r3, (k - 3) as nat);
        }
        lemma_adds_only_trans(c0, c2, c3, allowed);
        lemma_grows_trans(m0, m2, m3);
        if r3 is Ok {
            lemma_signed_grows(m2, m3, c2, c3, id, "^\\x13BitTorrent protocol"@, dpi::Protocol { bits: dpi::DPI_TCP }, allowed);
            lemma_signed_grows(m2, m3, c2, c3, id, "^Bsync\\x00"@, dpi::Protocol { bits: dpi::DPI_TCP }, allowed);
        }
    }
    match r3 {
        Ok(_) => Ok(()),
        Err(e) => Err(e),
    }
}

} // verus!
