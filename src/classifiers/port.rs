//! The port classifier: one slot per transport and port, looked up in constant time.
use vstd::prelude::*;

use super::{matched, Error, RuleID, RuleType, MAX_PARSER_NUM};
use crate::packet;

verus! {

/// A port rule: packets of `protocol` from or to `port`.
#[derive(Clone, Copy, Debug, PartialEq, Eq, Structural)]
pub struct Rule {
    pub port: u16,
    pub protocol: packet::Protocol,
}

/// Ports per transport.
pub const PORTS: usize = 65536;

/// Slots of the table: one per port for each of TCP, UDP and SCTP.
pub const SLOTS: usize = 196608;

/// Which third of the table a transport uses.
pub open spec fn base_spec(p: packet::Protocol) -> Option<int> {
    match p {
        packet::Protocol::TCP => Some(0),
        packet::Protocol::UDP => Some(1),
        packet::Protocol::SCTP => Some(2),
        _ => None,
    }
}

pub open spec fn slot_index(base: int, port: u16) -> int {
    base * PORTS + port
}

fn base_of(p: packet::Protocol) -> (r: Option<usize>)
    ensures
        r is None <==> base_spec(p) is None,
        r matches Some(b) ==> base_spec(p) == Some(b as int) && b <= 2,
{
    match p {
        packet::Protocol::TCP => Some(0),
        packet::Protocol::UDP => Some(1),
        packet::Protocol::SCTP => Some(2),
        _ => None,
    }
}

/// The slot hit by `port` in the third at `base`, if a parser subscribed to it.
pub open spec fn hit(slots: Seq<matched::Rule>, base: int, port: Option<u16>) -> Seq<matched::Rule> {
    match port {
        Some(p) => if slots[slot_index(base, p)].parsers_count > 0 {
            seq![slots[slot_index(base, p)]]
        } else {
            Seq::empty()
        },
        None => Seq::empty(),
    }
}

/// What port classification appends for `pkt`: the source port's slot, then the
/// destination port's, each if occupied.
pub open spec fn port_matches(slots: Seq<matched::Rule>, pkt: packet::Packet) -> Seq<matched::Rule> {
    match base_spec(pkt.layers.trans.protocol) {
        Some(b) => hit(slots, b, pkt.src_port_spec()) + hit(slots, b, pkt.dst_port_spec()),
        None => Seq::empty(),
    }
}

/// What registering `rule` does to the table `old`, giving `new` and result `r`.
pub open spec fn add_rule_post(
    old: Seq<matched::Rule>,
    new: Seq<matched::Rule>,
    rule: super::Rule,
    r: Result<RuleID, Error>,
) -> bool {
    match rule.rule_type {
        RuleType::Port(pr) => match base_spec(pr.protocol) {
            None => r == Err::<RuleID, Error>(Error::InvalidTransport) && new == old,
            Some(b) => match rule.submitter() {
                None => r == Err::<RuleID, Error>(Error::NoSubmitter) && new == old,
                Some(p) => {
                    let i = slot_index(b, pr.port);
                    let s = old[i];
                    if s.parsers_count as int == MAX_PARSER_NUM {
                        r == Err::<RuleID, Error>(Error::TooManyParsers) && new == old
                    } else {
                        &&& r == Ok::<RuleID, Error>(if s.is_vacant() { rule.id } else { s.id })
                        &&& new == old.update(i, new[i])
                        &&& new[i].subscribed(s, rule.id, rule.priority, matched::RuleType::Port, p)
                    }
                },
            },
        },
        _ => r == Err::<RuleID, Error>(Error::MismatchedRuleType) && new == old,
    }
}

/// The port table.
pub struct Classifier {
    rules: Vec<matched::Rule>,
}

impl View for Classifier {
    type V = Seq<matched::Rule>;

    closed spec fn view(&self) -> Seq<matched::Rule> {
        self.rules@
    }
}

impl Classifier {
    /// Every slot is a port rule with at most eight subscribers.
    pub open spec fn wf(&self) -> bool {
        &&& self@.len() == SLOTS
        &&& forall|i: int| 0 <= i < self@.len() ==> (#[trigger] self@[i]).wf() && self@[i].rule_type == matched::RuleType::Port
    }

    /// A table of vacant slots.
    pub fn new() -> (r: Classifier)
        ensures
            r.wf(),
            forall|i: int| 0 <= i < r@.len() ==> (#[trigger] r@[i]).is_vacant(),
    {
        let mut rules: Vec<matched::Rule> = Vec::with_capacity(SLOTS);
        let mut i: usize = 0;
        while i < SLOTS
            invariant
                i <= SLOTS,
                rules@.len() == i,
                forall|j: int| 0 <= j < i ==> (#[trigger] rules@[j]).wf() && rules@[j].rule_type == matched::RuleType::Port && rules@[j].is_vacant(),
            decreases SLOTS - i,
        {
            rules.push(matched::Rule::vacant(matched::RuleType::Port));
            i = i + 1;
        }
        Classifier { rules }
    }

    /// The slot of `protocol` and `port`, when `protocol` is TCP, UDP or SCTP.
    pub fn slot(&self, protocol: packet::Protocol, port: u16) -> (r: Option<&matched::Rule>)
        requires
            self.wf(),
        ensures
            match base_spec(protocol) {
                Some(b) => r == Some(&self@[slot_index(b, port)]),
                None => r is None,
            },
    {
        match base_of(protocol) {
            Some(b) => Some(&self.rules[b * PORTS + port as usize]),
            None => None,
        }
    }

    /// The index of an occupied slot whose id is `id`.
    pub fn find_id(&self, id: RuleID) -> (r: Option<usize>)
        requires
            self.wf(),
        ensures
            r matches Some(i) ==> i < self@.len() && !self@[i as int].is_vacant() && self@[i as int].id == id,
            r is None ==> forall|i: int| 0 <= i < self@.len() && !(#[trigger] self@[i]).is_vacant() ==> self@[i].id != id,
    {
        let mut i: usize = 0;
        while i < SLOTS
            invariant
                self.wf(),
                i <= SLOTS,
                forall|j: int| 0 <= j < i && !(#[trigger] self.rules@[j]).is_vacant() ==> self.rules@[j].id != id,
            decreases SLOTS - i,
        {
            if self.rules[i].parsers_count > 0 && self.rules[i].id == id {
                return Some(i);
            }
            i = i + 1;
        }
        None
    }

    /// The slot at index `i`.
    pub fn slot_at(&self, i: usize) -> (r: &matched::Rule)
        requires
            i < self@.len(),
        ensures
            *r == self@[i as int],
    {
        &self.rules[i]
    }

    /// Registers a port rule for its submitting parser. A vacant slot takes the
    /// rule's id and priority; an occupied one gains the parser. Returns the slot's id.
    pub fn add_rule(&mut self, rule: &super::Rule) -> (r: Result<RuleID, Error>)
        requires
            old(self).wf(),
        ensures
            final(self).wf(),
            add_rule_post(old(self)@, final(self)@, *rule, r),
    {
        let port_rule = match &rule.rule_type {
            RuleType::Port(r) => *r,
            _ => return Err(Error::MismatchedRuleType),
        };
        let base = match base_of(port_rule.protocol) {
            Some(b) => b,
            None => return Err(Error::InvalidTransport),
        };
        let p = match rule.first_parser() {
            Some(p) => p,
            None => return Err(Error::NoSubmitter),
        };
        let i = base * PORTS + port_rule.port as usize;
        let slot = self.rules[i];
        if slot.parsers_count as usize == MAX_PARSER_NUM {
            return Err(Error::TooManyParsers);
        }
        if slot.parsers_count == 0 {
            let s = matched::Rule::first(rule.id, rule.priority, matched::RuleType::Port, p);
            self.rules.set(i, s);
            Ok(rule.id)
        } else {
            let mut s = slot;
            s.push_parser(p);
            self.rules.set(i, s);
            Ok(slot.id)
        }
    }

    /// Appends a copy of the slot of `port` in the third at `base`, if a parser
    /// subscribed to it.
    fn push_hit(&self, pkt: &mut packet::Packet, base: usize, port: Option<u16>)
        requires
            self.wf(),
            base <= 2,
        ensures
            final(pkt).appended(*old(pkt), hit(self@, base as int, port)),
    {
        match port {
            Some(p) => {
                let i = base * PORTS + p as usize;
                if self.rules[i].parsers_count > 0 {
                    pkt.rules.push(self.rules[i]);
                }
            },
            None => {},
        }
        assert(final(pkt).rules@ =~= old(pkt).rules@ + hit(self@, base as int, port));
    }

    /// Appends to `pkt.rules` the slots of its source and destination ports that
    /// parsers subscribed to; nothing when its transport is not TCP, UDP or SCTP.
    pub fn classify(&self, pkt: &mut packet::Packet)
        requires
            self.wf(),
        ensures
            final(pkt).appended(*old(pkt), port_matches(self@, *old(pkt))),
    {
        let base = match base_of(pkt.layers.trans.protocol) {
            Some(b) => b,
            None => {
                assert(pkt.rules@ =~= pkt.rules@ + Seq::<matched::Rule>::empty());
                return;
            },
        };
        let ghost pkt0 = *pkt;
        let src = pkt.src_port();
        let dst = pkt.dst_port();
        self.push_hit(pkt, base, src);
        self.push_hit(pkt, base, dst);
        assert(pkt.rules@ =~= pkt0.rules@ + port_matches(self@, pkt0));
    }
}

} // verus!
