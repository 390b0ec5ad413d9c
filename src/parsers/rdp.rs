//! RDP signatures.
use vstd::prelude::*;

use super::extractors::Extractor;
use super::misc::{add_dpi_rule_with_func, adds_only, grows, lemma_room_step, registered, runs_fn, room_for, signed};
use super::{callback_entries, CallbackMap, MatchCallBack};
use crate::classifiers::{dpi, ClassifierManager, Error, ParserID};

verus! {

/// Submits the RDP signature for parser `id`: a TPKT header over TCP, whose match runs
/// the RDP extractor. It succeeds whenever the registry has room for one rule from `id`.
pub fn register_classify_rules(id: ParserID, manager: &mut ClassifierManager, match_cbs: &mut CallbackMap) -> (r: Result<(), Error>)
    requires
        old(manager).wf(),
    ensures
        final(manager).wf(),
        final(manager).port_classifier()@ == old(manager).port_classifier()@,
        grows(*old(manager), *final(manager)),
        adds_only(callback_entries(*old(match_cbs)), callback_entries(*final(match_cbs)), runs_fn(Extractor::Rdp)),
        forall|k: nat| #[trigger] room_for(*old(manager), id, k) && k >= 1 ==> r is Ok && room_for(*final(manager), id, (k - 1) as nat),
        r is Ok ==> registered(*old(manager), *final(manager), callback_entries(*old(match_cbs)), callback_entries(*final(match_cbs)), id, "^\\x03\\x00"@, dpi::Protocol { bits: dpi::DPI_TCP }, runs_fn(Extractor::Rdp)),
        r is Ok ==> {
            &&& signed(*final(manager), callback_entries(*final(match_cbs)), id, "^\\x03\\x00"@, dpi::Protocol { bits: dpi::DPI_TCP }, runs_fn(Extractor::Rdp))
        },
{
    let ghost allowed = runs_fn(Extractor::Rdp);
    let ghost m0 = *manager;
    let ghost c0 = callback_entries(*match_cbs);
    let r1 = add_dpi_rule_with_func(id, manager, match_cbs, "^\\x03\\x00", dpi::Protocol::tcp(), Extractor::Rdp);
    let ghost m1 = *manager;
    let ghost c1 = callback_entries(*match_cbs);
    proof {
        assert forall|k: nat| #[trigger] room_for(m0, id, k) && k >= 1 implies r1 is Ok && room_for(m1, id, (k - 1) as nat) by {
            lemma_room_step(m0, m1, id, "^\\x03\\x00"@, dpi::Protocol { bits: dpi::DPI_TCP }, r1, (k - 1) as nat);
        }
    }
    match r1 {
        Ok(_) => Ok(()),
        Err(e) => Err(e),
    }
}

} // verus!
