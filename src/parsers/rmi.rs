//! Java RMI signatures.
use vstd::prelude::*;

use super::misc::{adds_only, grows, labels_fn, lemma_room_step, registered, room_for, signed, ProtocolParser};
use super::MatchCallBack;
use crate::classifiers::{dpi, ClassifierManager, Error};

verus! {

/// Submits the Java RMI signature for `parser`: the JRMI stream header over TCP; a
/// match labels the session `rmi`.
pub fn register_classify_rules(parser: &mut ProtocolParser, manager: &mut ClassifierManager) -> (r: Result<(), Error>)
    requires
        old(manager).wf(),
    ensures
        final(manager).wf(),
        final(parser).id_spec() == old(parser).id_spec(),
        grows(*old(manager), *final(manager)),
        adds_only(old(parser).callbacks(), final(parser).callbacks(), labels_fn("rmi"@)),
        final(manager).port_classifier()@ == old(manager).port_classifier()@,
        forall|k: nat| #[trigger] room_for(*old(manager), old(parser).id_spec(), k) && k >= 1 ==> r is Ok && room_for(*final(manager), old(parser).id_spec(), (k - 1) as nat),
        r is Ok ==> registered(*old(manager), *final(manager), old(parser).callbacks(), final(parser).callbacks(), old(parser).id_spec(), "^\\x4a\\x52\\x4d\\x49\\x00\\x02\\x4b"@, dpi::Protocol { bits: dpi::DPI_TCP }, labels_fn("rmi"@)),
        r is Ok ==> signed(
            *final(manager),
            final(parser).callbacks(),
            old(parser).id_spec(),
            "^\\x4a\\x52\\x4d\\x49\\x00\\x02\\x4b"@,
            dpi::Protocol { bits: dpi::DPI_TCP },
            labels_fn("rmi"@),
        ),
{
    let ghost m0 = *manager;
    let ghost p = parser.id_spec();
    let r = parser.add_simple_dpi_rule(manager, "^\\x4a\\x52\\x4d\\x49\\x00\\x02\\x4b", dpi::Protocol::tcp(), "rmi");
    proof {
        assert forall|k: nat| #[trigger] room_for(m0, p, k) && k >= 1 implies r is Ok && room_for(*manager, p, (k - 1) as nat) by {
            lemma_room_step(m0, *manager, p, "^\\x4a\\x52\\x4d\\x49\\x00\\x02\\x4b"@, dpi::Protocol { bits: dpi::DPI_TCP }, r, (k - 1) as nat);
        }
    }
    match r {
        Ok(_) => Ok(()),
        Err(e) => Err(e),
    }
}

} // verus!
