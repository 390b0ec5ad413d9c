//! The DPI classifier: byte-pattern rules, deduplicated, matched against payloads
//! by a bulk pattern engine and filtered by transport.
use vstd::prelude::*;

use super::{matched, Error, ParserID, RuleID, RuleType, MAX_PARSER_NUM};
use crate::packet;

verus! {

/// A set of transports among TCP, UDP and SCTP, one bit each.
#[derive(Clone, Copy, Debug, PartialEq, Eq, Structural)]
pub struct Protocol {
    pub bits: u8,
}

pub const DPI_TCP: u8 = 0b001;
pub const DPI_UDP: u8 = 0b010;
pub const DPI_SCTP: u8 = 0b100;
pub const DPI_ALL: u8 = 0b111;

impl Protocol {
    pub fn tcp() -> (r: Protocol)
        ensures
            r.bits == DPI_TCP,
    {
        Protocol { bits: DPI_TCP }
    }

    pub fn udp() -> (r: Protocol)
        ensures
            r.bits == DPI_UDP,
    {
        Protocol { bits: DPI_UDP }
    }

    pub fn sctp() -> (r: Protocol)
        ensures
            r.bits == DPI_SCTP,
    {
        Protocol { bits: DPI_SCTP }
    }

    /// TCP, UDP and SCTP.
    pub fn all() -> (r: Protocol)
        ensures
            r.bits == DPI_ALL,
    {
        Protocol { bits: DPI_ALL }
    }

    /// The transports of both sets.
    pub fn union(self, o: Protocol) -> (r: Protocol)
        ensures
            r.bits == self.bits | o.bits,
    {
        Protocol { bits: self.bits | o.bits }
    }

    pub open spec fn contains_spec(self, o: Protocol) -> bool {
        self.bits & o.bits == o.bits
    }

    /// Whether every transport of `o` is in this set.
    pub fn contains(self, o: Protocol) -> (r: bool)
        ensures
            r == self.contains_spec(o),
    {
        self.bits & o.bits == o.bits
    }

    /// The set that a packet's transport stands for: TCP, UDP and SCTP each map to
    /// themselves, anything else to all three.
    pub open spec fn of_spec(p: packet::Protocol) -> Protocol {
        match p {
            packet::Protocol::TCP => Protocol { bits: DPI_TCP },
            packet::Protocol::UDP => Protocol { bits: DPI_UDP },
            packet::Protocol::SCTP => Protocol { bits: DPI_SCTP },
            _ => Protocol { bits: DPI_ALL },
        }
    }

    pub fn of(p: packet::Protocol) -> (r: Protocol)
        ensures
            r == Protocol::of_spec(p),
    {
        match p {
            packet::Protocol::TCP => Protocol::tcp(),
            packet::Protocol::UDP => Protocol::udp(),
            packet::Protocol::SCTP => Protocol::sctp(),
            _ => Protocol::all(),
        }
    }
}

/// Extended parameters of a pattern.
#[derive(Clone, Copy, Debug, PartialEq, Eq, Structural)]
pub struct ExprExt {
    pub flags: u64,
    pub min_offset: u64,
    pub max_offset: u64,
    pub min_length: u64,
    pub edit_distance: u32,
    pub hamming_distance: u32,
}

impl ExprExt {
    pub open spec fn none_spec() -> ExprExt {
        ExprExt { flags: 0, min_offset: 0, max_offset: 0, min_length: 0, edit_distance: 0, hamming_distance: 0 }
    }

    /// No extended parameter set.
    pub fn none() -> (r: ExprExt)
        ensures
            r == ExprExt::none_spec(),
    {
        ExprExt { flags: 0, min_offset: 0, max_offset: 0, min_length: 0, edit_distance: 0, hamming_distance: 0 }
    }
}

/// How precisely start-of-match offsets are tracked.
#[derive(Clone, Copy, Debug, PartialEq, Eq, Structural)]
pub enum SomHorizon {
    Large,
    Medium,
    Small,
}

/// Pattern flag: report the leftmost start of each match.
pub const FLAG_SOM_LEFTMOST: u32 = 256;

/// A pattern as the engine compiles it: expression, flags, id, extended parameters and
/// start-of-match mode.
pub struct Pattern {
    pub expression: String,
    pub flags: u32,
    pub id: Option<usize>,
    pub ext: ExprExt,
    pub som: Option<SomHorizon>,
}

impl Clone for Pattern {
    fn clone(&self) -> (r: Self)
        ensures
            r == *self,
    {
        Pattern { expression: self.expression.clone(), flags: self.flags, id: self.id, ext: self.ext, som: self.som }
    }
}

impl Pattern {
    /// A pattern of `expression`, with no flag, id, extended parameter or
    /// start-of-match mode.
    pub fn new(expression: String) -> (r: Pattern)
        ensures
            r.expression@ == expression@,
            r.flags == 0,
            r.id is None,
            r.ext == ExprExt::none_spec(),
            r.som is None,
    {
        Pattern { expression, flags: 0, id: None, ext: ExprExt::none(), som: None }
    }
}

/// A DPI rule: a pattern, the transports it applies to, and whether a match reports
/// where it lies.
pub struct Rule {
    pub hs_pattern: Pattern,
    pub protocol: Protocol,
    pub need_matched_pos: bool,
}

impl Clone for Rule {
    fn clone(&self) -> (r: Self)
        ensures
            r == *self,
    {
        Rule { hs_pattern: self.hs_pattern.clone(), protocol: self.protocol, need_matched_pos: self.need_matched_pos }
    }
}

/// Two DPI rules are the same rule when expression, flags, extended parameters,
/// start-of-match mode and transports all agree.
pub open spec fn same_rule(a: Rule, b: Rule) -> bool {
    &&& a.hs_pattern.expression@ == b.hs_pattern.expression@
    &&& a.hs_pattern.flags == b.hs_pattern.flags
    &&& a.hs_pattern.ext == b.hs_pattern.ext
    &&& a.hs_pattern.som == b.hs_pattern.som
    &&& a.protocol == b.protocol
}

impl Rule {
    /// A rule of `hs_pattern` for all transports, without match positions.
    pub fn new(hs_pattern: Pattern) -> (r: Rule)
        ensures
            r.hs_pattern == hs_pattern,
            r.protocol.bits == DPI_ALL,
            !r.need_matched_pos,
    {
        Rule { hs_pattern, protocol: Protocol::all(), need_matched_pos: false }
    }

    /// Whether `self` and `o` are the same rule.
    pub fn same_as(&self, o: &Rule) -> (r: bool)
        ensures
            r == same_rule(*self, *o),
    {
        self.hs_pattern.expression == o.hs_pattern.expression
            && self.hs_pattern.flags == o.hs_pattern.flags
            && self.hs_pattern.ext == o.hs_pattern.ext
            && self.hs_pattern.som == o.hs_pattern.som
            && self.protocol == o.protocol
    }
}

/// `r` with its pattern's id set to `n`.
pub open spec fn with_id(r: Rule, n: usize) -> Rule {
    Rule { hs_pattern: Pattern { id: Some(n), ..r.hs_pattern }, ..r }
}

/// One match that the pattern engine reported: the pattern's id and where the match
/// starts and ends in the payload.
#[derive(Clone, Copy, Debug, PartialEq, Eq, Structural)]
pub struct ScanMatch {
    pub id: u32,
    pub from: u64,
    pub to: u64,
}

/// The DPI rules and, beside each, the rule record shared by its subscribers.
pub struct Classifier {
    dpi_rules: Vec<Rule>,
    rules: Vec<matched::Rule>,
    prepared: bool,
}

/// The record appended for match `m` of a pattern that exists: the pattern's rule,
/// stamped with the match's position when the rule asks for it.
pub open spec fn stamped(dpi_rules: Seq<Rule>, rules: Seq<matched::Rule>, m: ScanMatch) -> matched::Rule {
    let r = rules[m.id as int];
    if dpi_rules[m.id as int].need_matched_pos {
        matched::Rule { from_to: Some((#[verifier::truncate] (m.from as u16), #[verifier::truncate] (m.to as u16))), ..r }
    } else {
        r
    }
}

/// Whether match `m` is kept for a packet whose transport is `proto`: its pattern
/// exists and its rule covers that transport.
pub open spec fn kept(dpi_rules: Seq<Rule>, proto: packet::Protocol, m: ScanMatch) -> bool {
    &&& (m.id as int) < dpi_rules.len()
    &&& dpi_rules[m.id as int].protocol.contains_spec(Protocol::of_spec(proto))
}

/// The records appended for the matches `ms`, in the order they were reported.
pub open spec fn dpi_matches(
    dpi_rules: Seq<Rule>,
    rules: Seq<matched::Rule>,
    proto: packet::Protocol,
    ms: Seq<ScanMatch>,
) -> Seq<matched::Rule>
    decreases ms.len(),
{
    if ms.len() == 0 {
        Seq::empty()
    } else {
        let prev = dpi_matches(dpi_rules, rules, proto, ms.drop_last());
        if kept(dpi_rules, proto, ms.last()) {
            prev.push(stamped(dpi_rules, rules, ms.last()))
        } else {
            prev
        }
    }
}

/// What registering `rule` does to the classifier `old`, giving `new` and result `r`.
pub open spec fn add_rule_post(old: Classifier, new: Classifier, rule: super::Rule, r: Result<RuleID, Error>) -> bool {
    &&& new.prepared_spec() == old.prepared_spec()
    &&& match rule.rule_type {
        RuleType::DPI(dr) => if old.prepared_spec() {
            r == Err::<RuleID, Error>(Error::Prepared) && new == old
        } else {
            match rule.submitter() {
                None => r == Err::<RuleID, Error>(Error::NoSubmitter) && new == old,
                Some(p) => {
                    let d = old.dpi_rules_spec();
                    let rs = old.rules_spec();
                    &&& (forall|i: int| 0 <= i < d.len() ==> !same_rule(#[trigger] d[i], dr)) ==> {
                        if d.len() + 1 >= u32::MAX {
                            r == Err::<RuleID, Error>(Error::RuleIdExhausted) && new == old
                        } else {
                            &&& r == Ok::<RuleID, Error>(rule.id)
                            &&& new.dpi_rules_spec() == d.push(with_id(dr, d.len() as usize))
                            &&& new.rules_spec().len() == rs.len() + 1
                            &&& new.rules_spec().take(rs.len() as int) == rs
                            &&& new.rules_spec().last().subscribed(
                                matched::Rule::vacant_spec(matched::RuleType::DPI), rule.id, rule.priority, matched::RuleType::DPI, p)
                        }
                    }
                    &&& forall|i: int| 0 <= i < d.len() && same_rule(#[trigger] d[i], dr) ==> {
                        if rs[i].subscribers().contains(p) {
                            r == Ok::<RuleID, Error>(rs[i].id) && new == old
                        } else if rs[i].parsers_count as int == MAX_PARSER_NUM {
                            r == Err::<RuleID, Error>(Error::TooManyParsers) && new == old
                        } else {
                            &&& r == Ok::<RuleID, Error>(rs[i].id)
                            &&& new.dpi_rules_spec() == d
                            &&& new.rules_spec() == rs.update(i, new.rules_spec()[i])
                            &&& new.rules_spec()[i].subscribed(rs[i], rule.id, rule.priority, matched::RuleType::DPI, p)
                        }
                    }
                },
            }
        },
        _ => r == Err::<RuleID, Error>(Error::MismatchedRuleType) && new == old,
    }
}

impl Classifier {
    pub closed spec fn dpi_rules_spec(&self) -> Seq<Rule> {
        self.dpi_rules@
    }

    pub closed spec fn rules_spec(&self) -> Seq<matched::Rule> {
        self.rules@
    }

    pub closed spec fn prepared_spec(&self) -> bool {
        self.prepared
    }

    /// One record per DPI rule; each rule's pattern id is its index; no two rules are
    /// the same rule.
    pub open spec fn wf(&self) -> bool {
        let d = self.dpi_rules_spec();
        let r = self.rules_spec();
        &&& d.len() == r.len()
        &&& d.len() < u32::MAX
        &&& forall|i: int| 0 <= i < d.len() ==> (#[trigger] d[i]).hs_pattern.id == Some(i as usize)
        &&& forall|i: int| 0 <= i < r.len() ==> (#[trigger] r[i]).wf() && !r[i].is_vacant() && r[i].rule_type == matched::RuleType::DPI && r[i].from_to is None
        &&& forall|i: int, j: int| 0 <= i < d.len() && 0 <= j < d.len() && i != j ==> !same_rule(#[trigger] d[i], #[trigger] d[j])
    }

    /// A classifier without rules, not prepared.
    pub fn new() -> (r: Classifier)
        ensures
            r.wf(),
            r.dpi_rules_spec().len() == 0,
            !r.prepared_spec(),
    {
        Classifier { dpi_rules: Vec::new(), rules: Vec::new(), prepared: false }
    }

    /// The index of the rule that is the same rule as `dr`, if any.
    fn find_same(&self, dr: &Rule) -> (r: Option<usize>)
        requires
            self.wf(),
        ensures
            r is None ==> forall|i: int| 0 <= i < self.dpi_rules_spec().len() ==> !same_rule(#[trigger] self.dpi_rules_spec()[i], *dr),
            r matches Some(k) ==> k < self.dpi_rules_spec().len() && same_rule(self.dpi_rules_spec()[k as int], *dr),
    {
        let mut i: usize = 0;
        while i < self.dpi_rules.len()
            invariant
                i <= self.dpi_rules@.len(),
                forall|j: int| 0 <= j < i ==> !same_rule(#[trigger] self.dpi_rules@[j], *dr),
            decreases self.dpi_rules@.len() - i,
        {
            if self.dpi_rules[i].same_as(dr) {
                return Some(i);
            }
            i = i + 1;
        }
        None
    }

    /// Registers a DPI rule for its submitting parser. A new rule is appended, its
    /// pattern id set to its index; a rule that is the same as one already held adds
    /// the parser to that one (nothing changes if it is there already). Returns the
    /// id of the rule that holds the parser.
    pub fn add_rule(&mut self, rule: &super::Rule) -> (r: Result<RuleID, Error>)
        requires
            old(self).wf(),
        ensures
            final(self).wf(),
            final(self).prepared_spec() == old(self).prepared_spec(),
            add_rule_post(*old(self), *final(self), *rule, r),
    {
        let dr = match &rule.rule_type {
            RuleType::DPI(r) => r,
            _ => return Err(Error::MismatchedRuleType),
        };
        if self.prepared {
            return Err(Error::Prepared);
        }
        let p = match rule.first_parser() {
            Some(p) => p,
            None => return Err(Error::NoSubmitter),
        };
        match self.find_same(dr) {
            None => {
                let n = self.dpi_rules.len();
                if n + 1 >= u32::MAX as usize {
                    return Err(Error::RuleIdExhausted);
                }
                let mut d = dr.clone();
                d.hs_pattern.id = Some(n);
                let m = matched::Rule::first(rule.id, rule.priority, matched::RuleType::DPI, p);
                proof {
                    matched::Rule::lemma_first_subscribed(m, rule.id, rule.priority, matched::RuleType::DPI, p);
                }
                self.dpi_rules.push(d);
                self.rules.push(m);
                assert(self.rules@.take(n as int) =~= old(self).rules@);
                assert forall|i: int, j: int|
                    0 <= i < self.dpi_rules@.len() && 0 <= j < self.dpi_rules@.len() && i != j implies !same_rule(
                    #[trigger] self.dpi_rules@[i],
                    #[trigger] self.dpi_rules@[j],
                ) by {
                    if i < n && j < n {
                        assert(self.dpi_rules@[i] == old(self).dpi_rules@[i]);
                        assert(self.dpi_rules@[j] == old(self).dpi_rules@[j]);
                    } else if i == n {
                        assert(self.dpi_rules@[j] == old(self).dpi_rules@[j]);
                    } else {
                        assert(self.dpi_rules@[i] == old(self).dpi_rules@[i]);
                    }
                }
                Ok(rule.id)
            },
            Some(k) => {
                proof {
                    assert forall|i: int| 0 <= i < self.dpi_rules@.len() && same_rule(#[trigger] self.dpi_rules@[i], *dr) implies i == k by {
                        if i != k {
                            assert(!same_rule(self.dpi_rules@[i], self.dpi_rules@[k as int]));
                        }
                    }
                }
                let slot = self.rules[k];
                if slot.has_parser(p) {
                    return Ok(slot.id);
                }
                if slot.parsers_count as usize == MAX_PARSER_NUM {
                    return Err(Error::TooManyParsers);
                }
                let mut s = slot;
                s.push_parser(p);
                self.rules.set(k, s);
                Ok(slot.id)
            },
        }
    }

    /// Freezes the rule set: once prepared, the pattern set no longer changes.
    pub fn prepare(&mut self)
        requires
            old(self).wf(),
        ensures
            final(self).wf(),
            final(self).prepared_spec(),
            final(self).dpi_rules_spec() == old(self).dpi_rules_spec(),
            final(self).rules_spec() == old(self).rules_spec(),
    {
        self.prepared = true;
    }

    /// Whether the rule set is frozen.
    pub fn is_prepared(&self) -> (r: bool)
        ensures
            r == self.prepared_spec(),
    {
        self.prepared
    }

    /// How many DPI rules there are.
    pub fn len(&self) -> (r: usize)
        ensures
            r == self.dpi_rules_spec().len(),
    {
        self.dpi_rules.len()
    }

    /// The index, which is also the pattern id, of the DPI rule whose record has id
    /// `id`.
    pub fn pattern_id_of(&self, id: RuleID) -> (r: Option<usize>)
        requires
            self.wf(),
        ensures
            r matches Some(k) ==> k < self.rules_spec().len() && self.rules_spec()[k as int].id == id
                && self.dpi_rules_spec()[k as int].hs_pattern.id == Some(k),
            r is None ==> forall|i: int| 0 <= i < self.rules_spec().len() ==> (#[trigger] self.rules_spec()[i]).id != id,
    {
        let mut i: usize = 0;
        while i < self.rules.len()
            invariant
                self.wf(),
                i <= self.rules@.len(),
                forall|j: int| 0 <= j < i ==> (#[trigger] self.rules@[j]).id != id,
            decreases self.rules@.len() - i,
        {
            if self.rules[i].id == id {
                return Some(i);
            }
            i = i + 1;
        }
        None
    }

    /// The record shared by the subscribers of the DPI rule at index `k`.
    pub fn record(&self, k: usize) -> (r: &matched::Rule)
        requires
            k < self.rules_spec().len(),
        ensures
            *r == self.rules_spec()[k as int],
    {
        &self.rules[k]
    }

    /// The DPI rule at index `k`.
    pub fn rule(&self, k: usize) -> (r: &Rule)
        requires
            k < self.dpi_rules_spec().len(),
        ensures
            *r == self.dpi_rules_spec()[k as int],
    {
        &self.dpi_rules[k]
    }

    /// The patterns to compile, in pattern-id order.
    pub fn patterns(&self) -> (r: Vec<Pattern>)
        ensures
            r@.len() == self.dpi_rules_spec().len(),
            forall|i: int| 0 <= i < r@.len() ==> #[trigger] r@[i] == self.dpi_rules_spec()[i].hs_pattern,
    {
        let mut out: Vec<Pattern> = Vec::new();
        let mut i: usize = 0;
        while i < self.dpi_rules.len()
            invariant
                i <= self.dpi_rules@.len(),
                out@.len() == i,
                forall|j: int| 0 <= j < i ==> #[trigger] out@[j] == self.dpi_rules@[j].hs_pattern,
            decreases self.dpi_rules@.len() - i,
        {
            out.push(self.dpi_rules[i].hs_pattern.clone());
            i = i + 1;
        }
        out
    }

    /// Whether classification has a pattern set to work with: the rules are prepared
    /// and there is at least one.
    pub open spec fn scans_spec(&self) -> bool {
        self.prepared_spec() && self.dpi_rules_spec().len() > 0
    }

    /// What classification appends for matches `ms` on a packet of transport `proto`.
    pub open spec fn classify_result(&self, proto: packet::Protocol, ms: Seq<ScanMatch>) -> Seq<matched::Rule> {
        if self.scans_spec() {
            dpi_matches(self.dpi_rules_spec(), self.rules_spec(), proto, ms)
        } else {
            Seq::empty()
        }
    }

    /// Appends to `pkt.rules`, in the order of `matches`, the record of each match's
    /// rule whose transports cover the packet's transport, stamped with the match's
    /// position when the rule asks for it. `matches` are what the pattern engine
    /// reported on the packet's payload. Nothing is appended while there is no pattern
    /// set to scan with, nor for an id that names no pattern.
    pub fn classify(&self, pkt: &mut packet::Packet, matches: &[ScanMatch])
        requires
            self.wf(),
        ensures
            final(pkt).appended(*old(pkt), self.classify_result(old(pkt).layers.trans.protocol, matches@)),
    {
        let ghost pkt0 = *pkt;
        if !self.prepared || self.dpi_rules.len() == 0 {
            assert(pkt.rules@ =~= pkt0.rules@ + Seq::<matched::Rule>::empty());
            return;
        }
        let proto = Protocol::of(pkt.layers.trans.protocol);
        let mut i: usize = 0;
        while i < matches.len()
            invariant
                self.wf(),
                self.scans_spec(),
                i <= matches@.len(),
                proto == Protocol::of_spec(pkt0.layers.trans.protocol),
                pkt.appended(pkt0, dpi_matches(self.dpi_rules@, self.rules@, pkt0.layers.trans.protocol, matches@.take(i as int))),
            decreases matches@.len() - i,
        {
            let m = matches[i];
            proof {
                assert(matches@.take(i + 1).drop_last() =~= matches@.take(i as int));
                assert(matches@.take(i + 1).last() == m);
            }
            let id = m.id as usize;
            if id < self.dpi_rules.len() && self.dpi_rules[id].protocol.contains(proto) {
                let mut r = self.rules[id];
                if self.dpi_rules[id].need_matched_pos {
                    r.from_to = Some((#[verifier::truncate] (m.from as u16), #[verifier::truncate] (m.to as u16)));
                }
                pkt.rules.push(r);
            }
            i = i + 1;
        }
        assert(matches@.take(matches@.len() as int) =~= matches@);
    }
}

} // verus!
