//! The rule registry: rules submitted by parsers, deduplicated and routed to the
//! port and DPI classifiers.
use vstd::prelude::*;

pub mod dpi;
pub mod laws;
pub mod matched;
pub mod port;

use crate::packet;

verus! {

/// Identifies one deduplicated rule of the registry.
pub type RuleID = u32;

/// Identifies one loaded parser.
pub type ParserID = u8;

/// The most parsers that can subscribe to one rule.
pub const MAX_PARSER_NUM: usize = 8;

/// The parser list of a submitted rule: a small vector that holds eight ids inline
/// and spills to the heap beyond that.
#[verifier::external_body]
pub struct ParserList {
    ids: tinyvec::TinyVec<[u8; 8]>,
}

/// The parser ids a parser list holds, in order.
pub uninterp spec fn parser_ids(v: ParserList) -> Seq<u8>;

/// Relies on tinyvec::TinyVec::new: the new vector is empty.
#[verifier::external_body]
fn parser_list_new() -> (r: ParserList)
    ensures
        parser_ids(r) == Seq::<u8>::empty(),
{
    ParserList { ids: tinyvec::TinyVec::new() }
}

/// Relies on tinyvec::TinyVec::push: the id is placed after the others.
#[verifier::external_body]
fn parser_list_push(v: &mut ParserList, p: u8)
    ensures
        parser_ids(*final(v)) == parser_ids(*old(v)).push(p),
{
    v.ids.push(p)
}

/// Relies on tinyvec::TinyVec::as_slice: the slice holds the ids in order.
#[verifier::external_body]
fn parser_list_as_slice(v: &ParserList) -> (r: &[u8])
    ensures
        r@ == parser_ids(*v),
{
    v.ids.as_slice()
}

/// Why the registry or a classifier refused a rule.
#[derive(Clone, Copy, Debug, PartialEq, Eq, Structural)]
pub enum Error {
    /// A classifier was handed a rule of another kind.
    MismatchedRuleType,
    /// No classifier takes rules of this kind.
    NoClassifier,
    /// A port rule names a protocol other than TCP, UDP or SCTP.
    InvalidTransport,
    /// The rule already has eight subscribed parsers.
    TooManyParsers,
    /// The submitted rule names no parser.
    NoSubmitter,
    /// DPI rules cannot be added once the pattern set is prepared.
    Prepared,
    /// Every rule id has been handed out.
    RuleIdExhausted,
}

/// What a rule matches on.
pub enum RuleType {
    All,
    Protocol(packet::Protocol),
    Port(port::Rule),
    DPI(dpi::Rule),
}

/// A rule as a parser submits it: `parsers` holds the submitting parser.
pub struct Rule {
    pub id: RuleID,
    pub priority: u16,
    pub parsers: ParserList,
    pub rule_type: RuleType,
}

impl Rule {
    /// The submitting parser: the first of `parsers`.
    pub open spec fn submitter(&self) -> Option<ParserID> {
        if parser_ids(self.parsers).len() > 0 {
            Some(parser_ids(self.parsers)[0])
        } else {
            None
        }
    }

    /// A rule of kind `All`, id 0 and priority 0, submitted by `parser`.
    pub fn new(parser: ParserID) -> (r: Rule)
        ensures
            r.id == 0,
            r.priority == 0,
            parser_ids(r.parsers) == seq![parser],
            r.submitter() == Some(parser),
            r.rule_type is All,
    {
        let mut parsers = parser_list_new();
        parser_list_push(&mut parsers, parser);
        assert(parser_ids(parsers) =~= seq![parser]);
        Rule { id: 0, priority: 0, parsers, rule_type: RuleType::All }
    }

    /// The submitting parser, if the rule names one.
    pub fn first_parser(&self) -> (r: Option<ParserID>)
        ensures
            r == self.submitter(),
    {
        let ids = parser_list_as_slice(&self.parsers);
        if ids.len() > 0 {
            Some(ids[0])
        } else {
            None
        }
    }

    /// The ids in `parsers`, in order.
    pub fn parser_list(&self) -> (r: Vec<ParserID>)
        ensures
            r@ == parser_ids(self.parsers),
    {
        vstd::slice::slice_to_vec(parser_list_as_slice(&self.parsers))
    }

    /// Appends `parser` to `parsers`.
    pub fn add_parser(&mut self, parser: ParserID)
        ensures
            final(self).id == old(self).id,
            final(self).priority == old(self).priority,
            final(self).rule_type == old(self).rule_type,
            parser_ids(final(self).parsers) == parser_ids(old(self).parsers).push(parser),
    {
        parser_list_push(&mut self.parsers, parser);
    }
}

/// The registry: the port table and the DPI rules, and the next rule id to hand out.
pub struct ClassifierManager {
    next_id: RuleID,
    port: port::Classifier,
    dpi: dpi::Classifier,
}

/// What registering `rule0` does to the registry `old`, giving `new`, the rule as it
/// was submitted `rule1` (its id assigned), and result `r`.
pub open spec fn add_rule_post(
    old: ClassifierManager,
    new: ClassifierManager,
    rule0: Rule,
    rule1: Rule,
    r: Result<RuleID, Error>,
) -> bool {
    match rule0.rule_type {
        RuleType::All | RuleType::Protocol(_) => {
            r == Err::<RuleID, Error>(Error::NoClassifier) && new == old && rule1 == rule0
        },
        _ => if old.next_id_spec() == u32::MAX {
            r == Err::<RuleID, Error>(Error::RuleIdExhausted) && new == old && rule1 == rule0
        } else {
            &&& rule1 == (Rule { id: old.next_id_spec(), ..rule0 })
            &&& match rule0.rule_type {
                RuleType::Port(_) => {
                    &&& port::add_rule_post(old.port_classifier()@, new.port_classifier()@, rule1, r)
                    &&& new.dpi_classifier() == old.dpi_classifier()
                },
                _ => {
                    &&& dpi::add_rule_post(old.dpi_classifier(), new.dpi_classifier(), rule1, r)
                    &&& new.port_classifier()@ == old.port_classifier()@
                },
            }
            &&& new.next_id_spec() == if r == Ok::<RuleID, Error>(old.next_id_spec()) {
                (old.next_id_spec() + 1) as RuleID
            } else {
                old.next_id_spec()
            }
        },
    }
}

impl ClassifierManager {
    pub closed spec fn next_id_spec(&self) -> RuleID {
        self.next_id
    }

    pub closed spec fn port_classifier(&self) -> port::Classifier {
        self.port
    }

    pub closed spec fn dpi_classifier(&self) -> dpi::Classifier {
        self.dpi
    }

    /// Both classifiers are well formed, and every rule they hold has an id below the
    /// next one to hand out.
    pub open spec fn wf(&self) -> bool {
        let ports = self.port_classifier()@;
        let dpis = self.dpi_classifier().rules_spec();
        &&& self.port_classifier().wf()
        &&& self.dpi_classifier().wf()
        &&& forall|i: int| 0 <= i < ports.len() && !(#[trigger] ports[i]).is_vacant() ==> ports[i].id < self.next_id_spec()
        &&& forall|i: int| 0 <= i < dpis.len() ==> (#[trigger] dpis[i]).id < self.next_id_spec()
    }

    /// An empty registry.
    pub fn new() -> (r: ClassifierManager)
        ensures
            r.wf(),
            r.next_id_spec() == 0,
            forall|i: int| 0 <= i < r.port_classifier()@.len() ==> (#[trigger] r.port_classifier()@[i]).is_vacant(),
            r.dpi_classifier().dpi_rules_spec().len() == 0,
            !r.dpi_classifier().prepared_spec(),
    {
        ClassifierManager { next_id: 0, port: port::Classifier::new(), dpi: dpi::Classifier::new() }
    }

    /// Registers `rule` for its submitting parser: gives it the next id, then hands it
    /// to the classifier of its kind. A rule equal to one already held joins that one.
    /// Returns the id of the rule that now holds the parser.
    pub fn add_rule(&mut self, rule: &mut Rule) -> (r: Result<RuleID, Error>)
        requires
            old(self).wf(),
        ensures
            final(self).wf(),
            add_rule_post(*old(self), *final(self), *old(rule), *final(rule), r),
    {
        match rule.rule_type {
            RuleType::All | RuleType::Protocol(_) => return Err(Error::NoClassifier),
            _ => {},
        }
        if self.next_id == u32::MAX {
            return Err(Error::RuleIdExhausted);
        }
        let id = self.next_id;
        rule.id = id;
        let r = match rule.rule_type {
            RuleType::Port(_) => self.port.add_rule(rule),
            _ => self.dpi.add_rule(rule),
        };
        match r {
            Ok(got) => {
                if got == id {
                    self.next_id = id + 1;
                }
            },
            Err(_) => {},
        }
        r
    }

    /// Freezes the DPI rule set.
    pub fn prepare(&mut self)
        requires
            old(self).wf(),
        ensures
            final(self).wf(),
            final(self).dpi_classifier().prepared_spec(),
            final(self).dpi_classifier().dpi_rules_spec() == old(self).dpi_classifier().dpi_rules_spec(),
            final(self).dpi_classifier().rules_spec() == old(self).dpi_classifier().rules_spec(),
            final(self).port_classifier()@ == old(self).port_classifier()@,
            final(self).next_id_spec() == old(self).next_id_spec(),
    {
        self.dpi.prepare();
    }

    /// The record of the rule of id `id`: a DPI rule's, else an occupied port slot's.
    pub fn get_rule(&self, id: RuleID) -> (r: Option<matched::Rule>)
        requires
            self.wf(),
        ensures
            r matches Some(m) ==> m.id == id && ((exists|i: int|
                0 <= i < self.dpi_classifier().rules_spec().len() && self.dpi_classifier().rules_spec()[i] == m) || (exists|i: int|
                0 <= i < self.port_classifier()@.len() && !m.is_vacant() && self.port_classifier()@[i] == m)),
            r is None ==> (forall|i: int|
                0 <= i < self.dpi_classifier().rules_spec().len() ==> (#[trigger] self.dpi_classifier().rules_spec()[i]).id != id)
                && (forall|i: int|
                0 <= i < self.port_classifier()@.len() && !(#[trigger] self.port_classifier()@[i]).is_vacant()
                    ==> self.port_classifier()@[i].id != id),
    {
        match self.dpi.pattern_id_of(id) {
            Some(k) => return Some(*self.dpi.record(k)),
            None => {},
        }
        match self.port.find_id(id) {
            Some(i) => Some(*self.port.slot_at(i)),
            None => None,
        }
    }

    /// The pattern id of the DPI rule of id `id`.
    pub fn dpi_pattern_id(&self, id: RuleID) -> (r: Option<usize>)
        requires
            self.wf(),
        ensures
            r matches Some(k) ==> k < self.dpi_classifier().rules_spec().len() && self.dpi_classifier().rules_spec()[k as int].id == id
                && self.dpi_classifier().dpi_rules_spec()[k as int].hs_pattern.id == Some(k),
            r is None ==> forall|i: int|
                0 <= i < self.dpi_classifier().rules_spec().len() ==> (#[trigger] self.dpi_classifier().rules_spec()[i]).id != id,
    {
        self.dpi.pattern_id_of(id)
    }

    /// The DPI classifier, to compile its patterns from.
    pub fn dpi(&self) -> (r: &dpi::Classifier)
        ensures
            *r == self.dpi_classifier(),
    {
        &self.dpi
    }

    /// The port table.
    pub fn port(&self) -> (r: &port::Classifier)
        ensures
            *r == self.port_classifier(),
    {
        &self.port
    }

    /// What classification appends for `pkt` given the engine's matches `ms` on its
    /// payload: the port matches, then the DPI matches.
    pub open spec fn classify_result(&self, pkt: packet::Packet, ms: Seq<dpi::ScanMatch>) -> Seq<matched::Rule> {
        port::port_matches(self.port_classifier()@, pkt)
            + self.dpi_classifier().classify_result(pkt.layers.trans.protocol, ms)
    }

    /// Runs both classifiers on `pkt`: the port classifier on its ports, the DPI
    /// classifier on `matches`, what the pattern engine reported on its payload.
    pub fn classify(&self, pkt: &mut packet::Packet, matches: &[dpi::ScanMatch])
        requires
            self.wf(),
        ensures
            final(pkt).appended(*old(pkt), self.classify_result(*old(pkt), matches@)),
    {
        let ghost pkt0 = *pkt;
        self.port.classify(pkt);
        self.dpi.classify(pkt, matches);
        assert(pkt.rules@ =~= pkt0.rules@ + self.classify_result(pkt0, matches@));
    }
}

} // verus!
