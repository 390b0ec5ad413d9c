//! MongoDB signatures.
use vstd::prelude::*;

use super::misc::{add_simple_dpi_rule, adds_only, grows, labels_fn, lemma_room_step, registered, room_for, signed};
use super::{callback_entries, CallbackMap, MatchCallBack};
use crate::classifiers::{dpi, ClassifierManager, Error, ParserID};

verus! {

/// Submits the MongoDB signature for parser `id`: a wire-protocol query header over TCP;
/// a match labels the session `mongo`. It succeeds whenever the registry has room for one
/// rule from `id`.
pub fn register_classify_rules(id: ParserID, manager: &mut ClassifierManager, match_cbs: &mut CallbackMap) -> (r: Result<(), Error>)
    requires
        old(manager).wf(),
    ensures
        final(manager).wf(),
        final(manager).port_classifier()@ == old(manager).port_classifier()@,
        grows(*old(manager), *final(manager)),
        adds_only(callback_entries(*old(match_cbs)), callback_entries(*final(match_cbs)), labels_fn("mongo"@)),
        forall|k: nat| #[trigger] room_for(*old(manager), id, k) && k >= 1 ==> r is Ok && room_for(*final(manager), id, (k - 1) as nat),
        r is Ok ==> registered(*old(manager), *final(manager), callback_entries(*old(match_cbs)), callback_entries(*final(match_cbs)), id, "^.{8}[\\x00\\xff]{4}\\xd4\\x07\\x00\\x00"@, dpi::Protocol { bits: dpi::DPI_TCP }, labels_fn("mongo"@)),
        r is Ok ==> {
            &&& signed(*final(manager), callback_entries(*final(match_cbs)), id, "^.{8}[\\x00\\xff]{4}\\xd4\\x07\\x00\\x00"@, dpi::Protocol { bits: dpi::DPI_TCP }, labels_fn("mongo"@))
        },
{
    let ghost allowed = labels_fn("mongo"@);
    let ghost m0 = *manager;
    let ghost c0 = callback_entries(*match_cbs);
    let r1 = add_simple_dpi_rule(id, manager, match_cbs, "^.{8}[\\x00\\xff]{4}\\xd4\\x07\\x00\\x00", dpi::Protocol::tcp(), "mongo");
    let ghost m1 = *manager;
    let ghost c1 = callback_entries(*match_cbs);
    proof {
        assert forall|k: nat| #[trigger] room_for(m0, id, k) && k >= 1 implies r1 is Ok && room_for(m1, id, (k - 1) as nat) by {
            lemma_room_step(m0, m1, id, "^.{8}[\\x00\\xff]{4}\\xd4\\x07\\x00\\x00"@, dpi::Protocol { bits: dpi::DPI_TCP }, r1, (k - 1) as nat);
        }
    }
    match r1 {
        Ok(_) => Ok(()),
        Err(e) => Err(e),
    }
}

} // verus!
