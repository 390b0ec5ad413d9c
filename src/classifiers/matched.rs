//! The record that classification appends to a packet for each rule that fires.
use vstd::prelude::*;

use super::{ParserID, RuleID, MAX_PARSER_NUM};

verus! {

/// Which classifier a matched rule came from.
#[derive(Clone, Copy, Debug, Default, PartialEq, Eq, Structural)]
pub enum RuleType {
    #[default]
    All,
    Protocol,
    Port,
    DPI,
}

/// A rule as it is shared by its subscribing parsers: `parsers[..parsers_count]`
/// are the parsers to hand a matching packet to.
#[derive(Clone, Copy, Debug, Default)]
pub struct Rule {
    pub id: RuleID,
    pub priority: u16,
    pub rule_type: RuleType,
    pub parsers: [ParserID; 8],
    pub parsers_count: u8,
    /// Where in the payload the match lies, when the rule asks for it.
    pub from_to: Option<(u16, u16)>,
}

impl Rule {
    /// At most eight subscribers.
    pub open spec fn wf(&self) -> bool {
        self.parsers_count as int <= MAX_PARSER_NUM
    }

    /// The subscribed parsers, in the order they subscribed.
    pub open spec fn subscribers(&self) -> Seq<ParserID> {
        self.parsers@.subrange(0, self.parsers_count as int)
    }

    /// A slot that no parser has subscribed to.
    pub open spec fn is_vacant(&self) -> bool {
        self.parsers_count == 0
    }

    /// Same id, priority, kind and match position as `o`.
    pub open spec fn same_header(&self, o: Rule) -> bool {
        &&& self.id == o.id
        &&& self.priority == o.priority
        &&& self.rule_type == o.rule_type
        &&& self.from_to == o.from_to
    }

    /// `self` is `old` after parser `p` subscribed to it: a vacant `old` becomes a rule
    /// of id `id`, priority `priority` and kind `kind` with `p` alone; an occupied one
    /// keeps its header and gains `p` last.
    pub open spec fn subscribed(&self, old: Rule, id: RuleID, priority: u16, kind: RuleType, p: ParserID) -> bool {
        &&& self.wf()
        &&& if old.is_vacant() {
            &&& self.id == id
            &&& self.priority == priority
            &&& self.rule_type == kind
            &&& self.from_to is None
            &&& self.subscribers() == seq![p]
        } else {
            &&& self.same_header(old)
            &&& self.subscribers() == old.subscribers().push(p)
        }
    }

    pub open spec fn vacant_spec(rule_type: RuleType) -> Rule {
        Rule {
            id: 0,
            priority: 0,
            rule_type,
            parsers: vstd::array::spec_array_fill_for_copy_type::<u8, 8>(0),
            parsers_count: 0,
            from_to: None,
        }
    }

    /// A rule with `p` alone is a vacant slot after `p` subscribed.
    pub proof fn lemma_first_subscribed(r: Rule, id: RuleID, priority: u16, kind: RuleType, p: ParserID)
        requires
            r.id == id,
            r.priority == priority,
            r.rule_type == kind,
            r.from_to is None,
            r.wf(),
            r.subscribers() == seq![p],
        ensures
            r.subscribed(Rule::vacant_spec(kind), id, priority, kind, p),
    {
    }

    /// An empty slot of the given kind.
    pub fn vacant(rule_type: RuleType) -> (r: Rule)
        ensures
            r.id == 0,
            r.priority == 0,
            r.rule_type == rule_type,
            r.parsers_count == 0,
            r.from_to is None,
            r.wf(),
            r.subscribers() == Seq::<ParserID>::empty(),
    {
        let r = Rule { id: 0, priority: 0, rule_type, parsers: [0u8; 8], parsers_count: 0, from_to: None };
        assert(r.subscribers() =~= Seq::<ParserID>::empty());
        r
    }

    /// A rule with one subscriber, `parser`.
    pub fn first(id: RuleID, priority: u16, rule_type: RuleType, parser: ParserID) -> (r: Rule)
        ensures
            r.id == id,
            r.priority == priority,
            r.rule_type == rule_type,
            r.parsers_count == 1,
            r.from_to is None,
            r.wf(),
            r.subscribers() == seq![parser],
    {
        let mut parsers = [0u8; 8];
        parsers[0] = parser;
        let r = Rule { id, priority, rule_type, parsers, parsers_count: 1, from_to: None };
        assert(r.subscribers() =~= seq![parser]);
        r
    }

    /// The rule's id.
    pub fn id(&self) -> (r: RuleID)
        ensures
            r == self.id,
    {
        self.id
    }

    /// Whether `p` is among the subscribers.
    pub fn has_parser(&self, p: ParserID) -> (r: bool)
        requires
            self.wf(),
        ensures
            r == self.subscribers().contains(p),
    {
        let mut i: usize = 0;
        while i < self.parsers_count as usize
            invariant
                self.wf(),
                i <= self.parsers_count,
                forall|j: int| 0 <= j < i ==> self.parsers@[j] != p,
            decreases self.parsers_count - i,
        {
            if self.parsers[i] == p {
                assert(self.subscribers()[i as int] == p);
                return true;
            }
            i = i + 1;
        }
        assert(forall|j: int| 0 <= j < self.subscribers().len() ==> self.subscribers()[j] != p);
        false
    }

    /// Appends subscriber `p`; there must be room for it.
    pub fn push_parser(&mut self, p: ParserID)
        requires
            old(self).wf(),
            old(self).parsers_count < MAX_PARSER_NUM,
        ensures
            final(self).same_header(*old(self)),
            final(self).parsers_count == old(self).parsers_count + 1,
            final(self).wf(),
            final(self).subscribers() == old(self).subscribers().push(p),
    {
        let i = self.parsers_count as usize;
        self.parsers[i] = p;
        self.parsers_count = self.parsers_count + 1;
        assert(final(self).subscribers() =~= old(self).subscribers().push(p));
    }
}

} // verus!
