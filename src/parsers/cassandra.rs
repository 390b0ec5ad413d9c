//! Cassandra signatures.
use vstd::prelude::*;

use super::misc::{add_simple_dpi_rule, adds_only, grows, labels_fn, lemma_adds_only_trans, lemma_grows_trans, lemma_room_step, lemma_signed_grows, registered, room_for, signed};
use super::{callback_entries, CallbackMap, MatchCallBack};
use crate::classifiers::{dpi, ClassifierManager, Error, ParserID};

verus! {

/// Submits the Cassandra signatures for parser `id`, in this order: two Thrift calls over
/// TCP; each match labels the session `cassandra`. It succeeds whenever the registry has
/// room for two rules from `id`.
pub fn register_classify_rules(id: ParserID, manager: &mut ClassifierManager, match_cbs: &mut CallbackMap) -> (r: Result<(), Error>)
    requires
        old(manager).wf(),
    ensures
        final(manager).wf(),
        final(manager).port_classifier()@ == old(manager).port_classifier()@,
        grows(*old(manager), *final(manager)),
        adds_only(callback_entries(*old(match_cbs)), callback_entries(*final(match_cbs)), labels_fn("cassandra"@)),
        forall|k: nat| #[trigger] room_for(*old(manager), id, k) && k >= 2 ==> r is Ok && room_for(*final(manager), id, (k - 2) as nat),
        r is Ok ==> exists|m1: ClassifierManager, c1: Map<u32, MatchCallBack>|
            #[trigger] registered(*old(manager), m1, callback_entries(*old(match_cbs)), c1, id, "^\\x00\\x00\\x00\\x25\\x80\\x01\\x00\\x01\\x00\\x00\\x00\\x0c\\x73\\x65\\x74\\x5f"@, dpi::Protocol { bits: dpi::DPI_TCP }, labels_fn("cassandra"@))
                && registered(m1, *final(manager), c1, callback_entries(*final(match_cbs)), id, "^\\x00\\x00\\x00\\x1d\\x80\\x01\\x00\\x01\\x00\\x00\\x00\\x10\\x64\\x65\\x73\\x63"@, dpi::Protocol { bits: dpi::DPI_TCP }, labels_fn("cassandra"@)),
        r is Ok ==> {
            &&& signed(*final(manager), callback_entries(*final(match_cbs)), id, "^\\x00\\x00\\x00\\x25\\x80\\x01\\x00\\x01\\x00\\x00\\x00\\x0c\\x73\\x65\\x74\\x5f"@, dpi::Protocol { bits: dpi::DPI_TCP }, labels_fn("cassandra"@))
            &&& signed(*final(manager), callback_entries(*final(match_cbs)), id, "^\\x00\\x00\\x00\\x1d\\x80\\x01\\x00\\x01\\x00\\x00\\x00\\x10\\x64\\x65\\x73\\x63"@, dpi::Protocol { bits: dpi::DPI_TCP }, labels_fn("cassandra"@))
        },
{
    let ghost allowed = labels_fn("cassandra"@);
    let ghost m0 = *manager;
    let ghost c0 = callback_entries(*match_cbs);
    let r1 = add_simple_dpi_rule(id, manager, match_cbs, "^\\x00\\x00\\x00\\x25\\x80\\x01\\x00\\x01\\x00\\x00\\x00\\x0c\\x73\\x65\\x74\\x5f", dpi::Protocol::tcp(), "cassandra");
    let ghost m1 = *manager;
    let ghost c1 = callback_entries(*match_cbs);
    proof {
        assert forall|k: nat| #[trigger] room_for(m0, id, k) && k >= 2 implies r1 is Ok && room_for(m1, id, (k - 1) as nat) by {
            lemma_room_step(m0, m1, id, "^\\x00\\x00\\x00\\x25\\x80\\x01\\x00\\x01\\x00\\x00\\x00\\x0c\\x73\\x65\\x74\\x5f"@, dpi::Protocol { bits: dpi::DPI_TCP }, r1, (k - 1) as nat);
        }
    }
    if let Err(e) = r1 {
        return Err(e);
    }
    let r2 = add_simple_dpi_rule(id, manager, match_cbs, "^\\x00\\x00\\x00\\x1d\\x80\\x01\\x00\\x01\\x00\\x00\\x00\\x10\\x64\\x65\\x73\\x63", dpi::Protocol::tcp(), "cassandra");
    let ghost m2 = *manager;
    let ghost c2 = callback_entries(*match_cbs);
    proof {
        assert forall|k: nat| #[trigger] room_for(m0, id, k) && k >= 2 implies r2 is Ok && room_for(m2, id, (k - 2) as nat) by {
            lemma_room_step(m0, m1, id, "^\\x00\\x00\\x00\\x25\\x80\\x01\\x00\\x01\\x00\\x00\\x00\\x0c\\x73\\x65\\x74\\x5f"@, dpi::Protocol { bits: dpi::DPI_TCP }, r1, (k - 1) as nat);
            lemma_room_step(m1, m2, id, "^\\x00\\x00\\x00\\x1d\\x80\\x01\\x00\\x01\\x00\\x00\\x00\\x10\\x64\\x65\\x73\\x63"@, dpi::Protocol { bits: dpi::DPI_TCP }, r2, (k - 2) as nat);
        }
        lemma_adds_only_trans(c0, c1, c2, allowed);
        lemma_grows_trans(m0, m1, m2);
        if r2 is Ok {
            lemma_signed_grows(m1, m2, c1, c2, id, "^\\x00\\x00\\x00\\x25\\x80\\x01\\x00\\x01\\x00\\x00\\x00\\x0c\\x73\\x65\\x74\\x5f"@, dpi::Protocol { bits: dpi::DPI_TCP }, allowed);
        }
    }
    match r2 {
        Ok(_) => Ok(()),
        Err(e) => Err(e),
    }
}

} // verus!
