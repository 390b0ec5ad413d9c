//! What registration guarantees across calls.
use vstd::prelude::*;

use super::{add_rule_post, dpi, matched, port, ClassifierManager, Error, Rule, RuleID, RuleType, MAX_PARSER_NUM};
use crate::packet;

verus! {

/// Two rule kinds that the registry treats as the same rule: equal port rules, or DPI
/// rules that are the same rule.
pub open spec fn same_rule_type(a: RuleType, b: RuleType) -> bool {
    match (a, b) {
        (RuleType::Port(x), RuleType::Port(y)) => x == y,
        (RuleType::DPI(x), RuleType::DPI(y)) => dpi::same_rule(x, y),
        _ => false,
    }
}

/// The registry `m` holds no rule equal to `t` and would accept one: a port rule of
/// TCP, UDP or SCTP whose slot is vacant, or a DPI rule while the DPI rules are not yet
/// prepared.
pub open spec fn fresh(m: ClassifierManager, t: RuleType) -> bool {
    match t {
        RuleType::Port(pr) => match port::base_spec(pr.protocol) {
            Some(b) => m.port_classifier()@[port::slot_index(b, pr.port)].is_vacant(),
            None => false,
        },
        RuleType::DPI(dr) => {
            let d = m.dpi_classifier().dpi_rules_spec();
            &&& !m.dpi_classifier().prepared_spec()
            &&& d.len() + 2 < u32::MAX
            &&& forall|i: int| 0 <= i < d.len() ==> !dpi::same_rule(#[trigger] d[i], dr)
        },
        _ => false,
    }
}

/// When two parsers submit equal rules, one after the other, to a registry that held
/// no such rule, both calls succeed with the same id, and the registry then holds
/// exactly one such rule, with both parsers subscribed.
pub proof fn lemma_equal_rules_share_one(
    m0: ClassifierManager,
    m1: ClassifierManager,
    m2: ClassifierManager,
    a0: Rule,
    a1: Rule,
    ra: Result<RuleID, Error>,
    b0: Rule,
    b1: Rule,
    rb: Result<RuleID, Error>,
)
    requires
        m0.wf(),
        m0.next_id_spec() + 2 < u32::MAX,
        fresh(m0, a0.rule_type),
        same_rule_type(a0.rule_type, b0.rule_type),
        a0.submitter() is Some,
        b0.submitter() is Some,
        a0.submitter() != b0.submitter(),
        add_rule_post(m0, m1, a0, a1, ra),
        m1.wf(),
        add_rule_post(m1, m2, b0, b1, rb),
    ensures
        ra == Ok::<RuleID, Error>(m0.next_id_spec()),
        rb == ra,
        match a0.rule_type {
            RuleType::Port(pr) => {
                let s = m2.port_classifier()@[port::slot_index(port::base_spec(pr.protocol).unwrap(), pr.port)];
                &&& s.parsers_count == 2
                &&& s.id == m0.next_id_spec()
                &&& s.subscribers() == seq![a0.submitter().unwrap(), b0.submitter().unwrap()]
            },
            RuleType::DPI(dr) => {
                let d = m2.dpi_classifier().dpi_rules_spec();
                let rs = m2.dpi_classifier().rules_spec();
                let k = m0.dpi_classifier().dpi_rules_spec().len() as int;
                &&& 0 <= k < d.len()
                &&& dpi::same_rule(d[k], dr)
                &&& forall|i: int| 0 <= i < d.len() && i != k ==> !dpi::same_rule(#[trigger] d[i], dr)
                &&& rs[k].parsers_count == 2
                &&& rs[k].id == m0.next_id_spec()
                &&& rs[k].subscribers() == seq![a0.submitter().unwrap(), b0.submitter().unwrap()]
            },
            _ => false,
        },
{
    let pa = a0.submitter().unwrap();
    let pb = b0.submitter().unwrap();
    assert(a1.submitter() == a0.submitter());
    assert(b1.submitter() == b0.submitter());
    match a0.rule_type {
        RuleType::Port(pr) => {
            let i = port::slot_index(port::base_spec(pr.protocol).unwrap(), pr.port);
            let after_first = m1.port_classifier()@[i];
            assert(after_first.subscribers().len() == after_first.parsers_count);
            assert(after_first.subscribers() == seq![pa]);
            let after_second = m2.port_classifier()@[i];
            assert(after_second.subscribers() == seq![pa].push(pb));
            assert(seq![pa].push(pb) =~= seq![pa, pb]);
            assert(after_second.subscribers().len() == after_second.parsers_count);
        },
        RuleType::DPI(dr) => {
            let d0 = m0.dpi_classifier().dpi_rules_spec();
            let n = d0.len() as int;
            let d1 = m1.dpi_classifier().dpi_rules_spec();
            let rs1 = m1.dpi_classifier().rules_spec();
            let dr2 = b0.rule_type->DPI_0;
            assert(d1 == d0.push(dpi::with_id(dr, n as usize)));
            assert(d1[n] == dpi::with_id(dr, n as usize));
            assert(dpi::same_rule(d1[n], dr2));
            assert forall|i: int| 0 <= i < d1.len() && i != n implies !dpi::same_rule(#[trigger] d1[i], dr2) by {
                assert(d1[i] == d0[i]);
                assert(!dpi::same_rule(d0[i], dr));
            }
            assert(rs1.last() == rs1[n]);
            assert(rs1[n].subscribers() == seq![pa]);
            assert(rs1[n].subscribers().len() == rs1[n].parsers_count);
            assert(!rs1[n].subscribers().contains(pb)) by {
                if rs1[n].subscribers().contains(pb) {
                    let j = choose|j: int| 0 <= j < rs1[n].subscribers().len() && rs1[n].subscribers()[j] == pb;
                    assert(j == 0);
                }
            }
            let d2 = m2.dpi_classifier().dpi_rules_spec();
            let rs2 = m2.dpi_classifier().rules_spec();
            assert(d2 == d1);
            assert(rs2[n].subscribers() == seq![pa].push(pb));
            assert(seq![pa].push(pb) =~= seq![pa, pb]);
            assert(rs2[n].subscribers().len() == rs2[n].parsers_count);
            assert forall|i: int| 0 <= i < d2.len() && i != n implies !dpi::same_rule(#[trigger] d2[i], dr) by {
                assert(d1[i] == d0[i]);
                assert(!dpi::same_rule(d0[i], dr));
            }
        },
        _ => {},
    }
}

/// A parser that submits a rule already held with eight subscribers, none of them
/// itself, is refused with `TooManyParsers`, and the registry's rules and next id stay
/// as they were.
pub proof fn lemma_ninth_parser_refused(m0: ClassifierManager, m1: ClassifierManager, a0: Rule, a1: Rule, r: Result<RuleID, Error>)
    requires
        m0.wf(),
        m0.next_id_spec() < u32::MAX,
        a0.submitter() is Some,
        match a0.rule_type {
            RuleType::Port(pr) => match port::base_spec(pr.protocol) {
                Some(b) => m0.port_classifier()@[port::slot_index(b, pr.port)].parsers_count as int == MAX_PARSER_NUM,
                None => false,
            },
            RuleType::DPI(dr) => {
                let d = m0.dpi_classifier().dpi_rules_spec();
                let rs = m0.dpi_classifier().rules_spec();
                &&& !m0.dpi_classifier().prepared_spec()
                &&& exists|k: int|
                    0 <= k < d.len() && dpi::same_rule(#[trigger] d[k], dr) && rs[k].parsers_count as int == MAX_PARSER_NUM
                        && !rs[k].subscribers().contains(a0.submitter().unwrap())
            },
            _ => false,
        },
        add_rule_post(m0, m1, a0, a1, r),
    ensures
        r == Err::<RuleID, Error>(Error::TooManyParsers),
        m1.port_classifier()@ == m0.port_classifier()@,
        m1.dpi_classifier() == m0.dpi_classifier(),
        m1.next_id_spec() == m0.next_id_spec(),
{
    assert(a1.submitter() == a0.submitter());
    match a0.rule_type {
        RuleType::DPI(dr) => {
            let d = m0.dpi_classifier().dpi_rules_spec();
            let k = choose|k: int|
                0 <= k < d.len() && dpi::same_rule(#[trigger] d[k], dr) && m0.dpi_classifier().rules_spec()[k].parsers_count as int
                    == MAX_PARSER_NUM && !m0.dpi_classifier().rules_spec()[k].subscribers().contains(a0.submitter().unwrap());
            assert(dpi::same_rule(d[k], a1.rule_type->DPI_0));
        },
        _ => {},
    }
}

/// A packet whose transport is TCP, UDP or SCTP and whose destination port's slot is
/// taken, while its source port's slot is vacant, gets exactly one record from port
/// classification: that of its destination port.
pub proof fn lemma_port_routing(c: port::Classifier, pkt: packet::Packet, dport: u16)
    requires
        c.wf(),
        port::base_spec(pkt.layers.trans.protocol) is Some,
        pkt.dst_port_spec() == Some(dport),
        !c@[port::slot_index(port::base_spec(pkt.layers.trans.protocol).unwrap(), dport)].is_vacant(),
        pkt.src_port_spec() matches Some(sp) && c@[port::slot_index(port::base_spec(pkt.layers.trans.protocol).unwrap(), sp)].is_vacant(),
    ensures
        port::port_matches(c@, pkt) == seq![c@[port::slot_index(port::base_spec(pkt.layers.trans.protocol).unwrap(), dport)]],
{
    let b = port::base_spec(pkt.layers.trans.protocol).unwrap();
    assert(port::hit(c@, b, pkt.src_port_spec()) =~= Seq::<matched::Rule>::empty());
    assert(port::port_matches(c@, pkt) =~= seq![c@[port::slot_index(b, dport)]]);
}

/// Registering a port rule changes no slot but its own: a rule of one transport and
/// port leaves every other transport's slots, and every other port's, as they were.
pub proof fn lemma_port_slots_independent(
    old: Seq<matched::Rule>,
    new: Seq<matched::Rule>,
    rule: Rule,
    r: Result<RuleID, Error>,
    proto: packet::Protocol,
    p: u16,
)
    requires
        old.len() == port::SLOTS,
        port::add_rule_post(old, new, rule, r),
        rule.rule_type matches RuleType::Port(pr) && (pr.protocol != proto || pr.port != p),
        port::base_spec(proto) is Some,
    ensures
        new[port::slot_index(port::base_spec(proto).unwrap(), p)] == old[port::slot_index(port::base_spec(proto).unwrap(), p)],
{
    let pr = rule.rule_type->Port_0;
    let j = port::slot_index(port::base_spec(proto).unwrap(), p);
    match port::base_spec(pr.protocol) {
        Some(b) => {
            let i = port::slot_index(b, pr.port);
            assert(i != j);
        },
        None => {},
    }
}

/// No record is appended for matches of rules whose transports do not cover the
/// packet's.
pub proof fn lemma_dpi_transport_gating(c: dpi::Classifier, proto: packet::Protocol, ms: Seq<dpi::ScanMatch>)
    requires
        c.wf(),
        forall|i: int|
            0 <= i < ms.len() && (ms[i].id as int) < c.dpi_rules_spec().len() ==> !(#[trigger] c.dpi_rules_spec()[ms[i].id as int]).protocol.contains_spec(
                dpi::Protocol::of_spec(proto),
            ),
    ensures
        c.classify_result(proto, ms) == Seq::<matched::Rule>::empty(),
    decreases ms.len(),
{
    if ms.len() > 0 {
        let prev = ms.drop_last();
        assert forall|i: int|
            0 <= i < prev.len() && (prev[i].id as int) < c.dpi_rules_spec().len() implies !(#[trigger] c.dpi_rules_spec()[prev[i].id as int]).protocol.contains_spec(
            dpi::Protocol::of_spec(proto),
        ) by {
            assert(prev[i] == ms[i]);
        }
        lemma_dpi_transport_gating(c, proto, prev);
        assert(ms.last() == ms[ms.len() - 1]);
    }
}

/// A rule that covers SCTP alone does not cover TCP.
pub proof fn lemma_sctp_rule_skips_tcp()
    ensures
        !(dpi::Protocol { bits: dpi::DPI_SCTP }).contains_spec(dpi::Protocol::of_spec(packet::Protocol::TCP)),
{
    assert(4u8 & 1u8 != 1u8) by (bit_vector);
}

/// When a reported match's rule covers the packet's transport and asks for match
/// positions, the one record appended for it is its rule's, carrying the match's start
/// and end.
pub proof fn lemma_dpi_match_position(c: dpi::Classifier, proto: packet::Protocol, m: dpi::ScanMatch)
    requires
        c.wf(),
        c.scans_spec(),
        (m.id as int) < c.dpi_rules_spec().len(),
        c.dpi_rules_spec()[m.id as int].need_matched_pos,
        c.dpi_rules_spec()[m.id as int].protocol.contains_spec(dpi::Protocol::of_spec(proto)),
    ensures
        c.classify_result(proto, seq![m]).len() == 1,
        c.classify_result(proto, seq![m])[0].from_to == Some((#[verifier::truncate] (m.from as u16), #[verifier::truncate] (m.to as u16))),
        c.classify_result(proto, seq![m])[0].id == c.rules_spec()[m.id as int].id,
        c.classify_result(proto, seq![m])[0].subscribers() == c.rules_spec()[m.id as int].subscribers(),
{
    let ms = seq![m];
    reveal_with_fuel(dpi::dpi_matches, 2);
    assert(ms.drop_last() =~= Seq::<dpi::ScanMatch>::empty());
    assert(ms.last() == m);
}

/// Without DPI rules, DPI classification appends nothing, whatever was reported.
pub proof fn lemma_dpi_without_rules(c: dpi::Classifier, proto: packet::Protocol, ms: Seq<dpi::ScanMatch>)
    requires
        c.dpi_rules_spec().len() == 0,
    ensures
        c.classify_result(proto, ms) == Seq::<matched::Rule>::empty(),
{
}

/// A registry whose port slots are all vacant and that holds no DPI rule appends
/// nothing to any packet, whatever the engine reported.
pub proof fn lemma_registry_without_rules(m: ClassifierManager, pkt: packet::Packet, ms: Seq<dpi::ScanMatch>)
    requires
        m.wf(),
        forall|i: int| 0 <= i < m.port_classifier()@.len() ==> (#[trigger] m.port_classifier()@[i]).is_vacant(),
        m.dpi_classifier().dpi_rules_spec().len() == 0,
    ensures
        m.classify_result(pkt, ms) == Seq::<matched::Rule>::empty(),
{
    let c = m.port_classifier();
    match port::base_spec(pkt.layers.trans.protocol) {
        Some(b) => {
            assert(port::hit(c@, b, pkt.src_port_spec()) =~= Seq::<matched::Rule>::empty());
            assert(port::hit(c@, b, pkt.dst_port_spec()) =~= Seq::<matched::Rule>::empty());
        },
        None => {},
    }
    assert(m.classify_result(pkt, ms) =~= Seq::<matched::Rule>::empty());
}

} // verus!
