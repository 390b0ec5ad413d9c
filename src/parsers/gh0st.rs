//! Gh0st signatures.
use vstd::prelude::*;

use super::extractors::Extractor;
use super::misc::{
    add_dpi_rule_with_func, adds_only, grows, lemma_adds_only_weaken, lemma_grows_trans, lemma_signed_grows, lemma_room_step, lemma_signed_weaken, registered, room_for, runs_fn, signed,
};
use super::{callback_entries, CallbackMap, MatchCallBack};
use crate::classifiers::{dpi, ClassifierManager, Error, ParserID};

verus! {

/// The callbacks that Gh0st rules carry.
pub open spec fn gh0st_callback(cb: MatchCallBack) -> bool {
    cb == MatchCallBack::Func(Extractor::Gh0stWindows) || cb == MatchCallBack::Func(Extractor::Gh0stMac)
}

/// Accepts the callbacks that Gh0st rules carry.
pub open spec fn gh0st_fn() -> spec_fn(MatchCallBack) -> bool {
    |cb: MatchCallBack| gh0st_callback(cb)
}

/// Submits the Gh0st signatures for parser `id`: the Windows and the macOS header over
/// TCP, whose matches run the matching extractor.
pub fn register_classify_rules(id: ParserID, manager: &mut ClassifierManager, match_cbs: &mut CallbackMap) -> (r: Result<(), Error>)
    requires
        old(manager).wf(),
    ensures
        final(manager).wf(),
        grows(*old(manager), *final(manager)),
        adds_only(callback_entries(*old(match_cbs)), callback_entries(*final(match_cbs)), gh0st_fn()),
        final(manager).port_classifier()@ == old(manager).port_classifier()@,
        forall|k: nat| #[trigger] room_for(*old(manager), id, k) && k >= 2 ==> r is Ok && room_for(*final(manager), id, (k - 2) as nat),
        r is Ok ==> exists|m1: ClassifierManager, c1: Map<u32, MatchCallBack>|
            #[trigger] registered(*old(manager), m1, callback_entries(*old(match_cbs)), c1, id, "^[a-zA-z0-9:]{5}..\\x00\\x00....\\x78\\x9c"@, dpi::Protocol { bits: dpi::DPI_TCP }, runs_fn(Extractor::Gh0stWindows))
                && registered(m1, *final(manager), c1, callback_entries(*final(match_cbs)), id, "^[a-zA-z0-9:]{5}\\x00\\x00.{6}\\x78\\x9c"@, dpi::Protocol { bits: dpi::DPI_TCP }, runs_fn(Extractor::Gh0stMac)),
        r is Ok ==> {
            &&& signed(
                *final(manager),
                callback_entries(*final(match_cbs)),
                id,
                "^[a-zA-z0-9:]{5}..\\x00\\x00....\\x78\\x9c"@,
                dpi::Protocol { bits: dpi::DPI_TCP },
                gh0st_fn(),
            )
            &&& signed(
                *final(manager),
                callback_entries(*final(match_cbs)),
                id,
                "^[a-zA-z0-9:]{5}\\x00\\x00.{6}\\x78\\x9c"@,
                dpi::Protocol { bits: dpi::DPI_TCP },
                gh0st_fn(),
            )
        },
{
    let ghost allowed = gh0st_fn();
    let ghost windows = runs_fn(Extractor::Gh0stWindows);
    let ghost mac = runs_fn(Extractor::Gh0stMac);
    let ghost m0 = *manager;
    let ghost c0 = callback_entries(*match_cbs);
    let r1 = add_dpi_rule_with_func(
        id,
        manager,
        match_cbs,
        "^[a-zA-z0-9:]{5}..\\x00\\x00....\\x78\\x9c",
        dpi::Protocol::tcp(),
        Extractor::Gh0stWindows,
    );
    let ghost m1 = *manager;
    let ghost c1 = callback_entries(*match_cbs);
    proof {
        assert forall|k: nat| #[trigger] room_for(m0, id, k) && k >= 2 implies r1 is Ok && room_for(m1, id, (k - 1) as nat) by {
            lemma_room_step(m0, m1, id, "^[a-zA-z0-9:]{5}..\\x00\\x00....\\x78\\x9c"@, dpi::Protocol { bits: dpi::DPI_TCP }, r1, (k - 1) as nat);
        }
        lemma_adds_only_weaken(c0, c1, windows, allowed);
        if r1 is Ok {
            lemma_signed_weaken(
                m1,
                c1,
                id,
                "^[a-zA-z0-9:]{5}..\\x00\\x00....\\x78\\x9c"@,
                dpi::Protocol { bits: dpi::DPI_TCP },
                windows,
                allowed,
            );
        }
    }
    if let Err(e) = r1 {
        return Err(e);
    }
    let r2 = add_dpi_rule_with_func(
        id,
        manager,
        match_cbs,
        "^[a-zA-z0-9:]{5}\\x00\\x00.{6}\\x78\\x9c",
        dpi::Protocol::tcp(),
        Extractor::Gh0stMac,
    );
    let ghost m2 = *manager;
    let ghost c2 = callback_entries(*match_cbs);
    proof {
        assert forall|k: nat| #[trigger] room_for(m0, id, k) && k >= 2 implies r2 is Ok && room_for(m2, id, (k - 2) as nat) by {
            lemma_room_step(m0, m1, id, "^[a-zA-z0-9:]{5}..\\x00\\x00....\\x78\\x9c"@, dpi::Protocol { bits: dpi::DPI_TCP }, r1, (k - 1) as nat);
            lemma_room_step(m1, m2, id, "^[a-zA-z0-9:]{5}\\x00\\x00.{6}\\x78\\x9c"@, dpi::Protocol { bits: dpi::DPI_TCP }, r2, (k - 2) as nat);
        }
        lemma_adds_only_weaken(c1, c2, mac, allowed);
        super::misc::lemma_adds_only_trans(c0, c1, c2, allowed);
        lemma_grows_trans(m0, m1, m2);
        if r2 is Ok {
            lemma_signed_weaken(m2, c2, id, "^[a-zA-z0-9:]{5}\\x00\\x00.{6}\\x78\\x9c"@, dpi::Protocol { bits: dpi::DPI_TCP }, mac, allowed);
            lemma_signed_grows(
                m1,
                m2,
                c1,
                c2,
                id,
                "^[a-zA-z0-9:]{5}..\\x00\\x00....\\x78\\x9c"@,
                dpi::Protocol { bits: dpi::DPI_TCP },
                allowed,
            );
        }
    }
    match r2 {
        Ok(_) => Ok(()),
        Err(e) => Err(e),
    }
}

} // verus!
