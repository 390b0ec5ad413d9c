//! The contract between the host and protocol parsers, and the rule callbacks that
//! parsers keep.
use vstd::prelude::*;

pub mod bittorrent;
pub mod cassandra;
pub mod extractors;
pub mod gh0st;
pub mod misc;
pub mod mongo;
pub mod rdp;
pub mod rmi;

use crate::classifiers::{self, matched, ClassifierManager, ParserID, RuleID};
use crate::packet::Packet;
use crate::session::{lemma_protocol_label_once, with_protocol, Session};

verus! {

/// What a parser does when one of its rules matched a packet.
pub enum MatchCallBack {
    /// Label the session with this protocol.
    ProtocolName(String),
    /// Run this extractor on the session and packet.
    Func(extractors::Extractor),
    /// Nothing: the rule only serves to learn its pattern id.
    Ignore,
}

/// A parser's rule callbacks, keyed by the registry's rule id.
#[verifier::external_body]
pub struct CallbackMap {
    map: fnv::FnvHashMap<RuleID, MatchCallBack>,
}

/// The callback registered for each rule id.
pub uninterp spec fn callback_entries(m: CallbackMap) -> Map<u32, MatchCallBack>;

/// No callback at all.
pub open spec fn no_callbacks() -> Map<u32, MatchCallBack> {
    Map::empty()
}

impl CallbackMap {
    /// Relies on HashMap::default (with fnv's hasher): the new map is empty.
    #[verifier::external_body]
    pub(crate) fn new() -> (r: CallbackMap)
        ensures
            callback_entries(r) == no_callbacks(),
    {
        CallbackMap { map: fnv::FnvHashMap::default() }
    }

    /// Relies on HashMap::insert (with fnv's hasher): `id` now maps to `cb`,
    /// replacing what it mapped to.
    #[verifier::external_body]
    pub(crate) fn insert(&mut self, id: RuleID, cb: MatchCallBack)
        ensures
            callback_entries(*final(self)) == callback_entries(*old(self)).insert(id, cb),
    {
        self.map.insert(id, cb);
    }

    /// Relies on HashMap::get (with fnv's hasher): the callback of `id`, if any.
    #[verifier::external_body]
    pub(crate) fn get(&self, id: RuleID) -> (r: Option<&MatchCallBack>)
        ensures
            r is None <==> !callback_entries(*self).contains_key(id),
            r matches Some(cb) ==> *cb == callback_entries(*self)[id],
    {
        self.map.get(&id)
    }
}

/// Why a parser failed.
#[derive(Clone, Copy, Debug, PartialEq, Eq, Structural)]
pub enum ParserError {
    /// The registry refused one of the parser's rules.
    Registry(classifiers::Error),
    /// The parser could not set up or release what it needs.
    Resource,
}

/// What the host asks of each protocol parser.
pub trait ProtocolParserTrait {
    /// The id the host gave this parser.
    fn id(&self) -> ParserID;

    /// Gives this parser its id.
    fn set_id(&mut self, id: ParserID);

    /// The parser's name, as characters.
    spec fn name_spec(&self) -> Seq<char>;

    /// Whether the current session is already classified as this parser's protocol.
    spec fn classified_spec(&self) -> bool;

    /// The parser's name.
    fn name(&self) -> (r: String)
        ensures
            r@ == self.name_spec(),
    ;

    /// Sets up what the parser needs for its whole life.
    fn init(&mut self) -> Result<(), ParserError>;

    /// Releases what `init` set up.
    fn exit(&mut self) -> Result<(), ParserError>;

    /// Submits the parser's rules to the registry, once, before it is prepared.
    fn register_classify_rules(&mut self, manager: &mut ClassifierManager) -> (r: Result<(), ParserError>)
        requires
            old(manager).wf(),
        ensures
            final(manager).wf(),
    ;

    /// Handles `pkt`, which matched `rule`, one of the rules this parser subscribed
    /// to, updating `ses`. Protocol labels are only ever added after those already
    /// there, and each appears once.
    fn parse_pkt(&mut self, pkt: &Packet, rule: &matched::Rule, ses: &mut Session) -> (r: Result<(), ParserError>)
        requires
            old(ses).wf(),
        ensures
            final(ses).wf(),
            final(ses).protocols_spec().len() >= old(ses).protocols_spec().len(),
            final(ses).protocols_spec().take(old(ses).protocols_spec().len() as int) == old(ses).protocols_spec(),
    ;

    /// Whether the current session is already classified as this parser's protocol.
    fn is_classified(&self) -> (r: bool)
        ensures
            r == self.classified_spec(),
    ;

    /// Notes that the current session is classified as this parser's protocol.
    fn classified_as_this_protocol(&mut self) -> (r: Result<(), ParserError>)
        ensures
            final(self).name_spec() == old(self).name_spec(),
            r is Ok ==> final(self).classified_spec(),
    ;
}

/// Labels `ses` with parser `p`'s protocol unless `p` already classified it: the
/// first time, `p` notes the classification, and the label is added only if that
/// succeeded. A failure leaves the session as it was.
pub fn tag_session<P: ProtocolParserTrait>(p: &mut P, ses: &mut Session) -> (r: Result<(), ParserError>)
    requires
        old(ses).wf(),
    ensures
        final(ses).wf(),
        final(ses).fields@ == old(ses).fields@,
        final(ses).same_but_findings(*old(ses)),
        final(p).name_spec() == old(p).name_spec(),
        old(p).classified_spec() ==> r is Ok && final(ses).protocols_spec() == old(ses).protocols_spec(),
        !old(p).classified_spec() ==> match r {
            Ok(()) => final(p).classified_spec() && final(ses).protocols_spec() == with_protocol(old(ses).protocols_spec(), old(p).name_spec()),
            Err(_) => final(ses).protocols_spec() == old(ses).protocols_spec(),
        },
{
    if !p.is_classified() {
        if let Err(e) = p.classified_as_this_protocol() {
            return Err(e);
        }
        let name = p.name();
        ses.add_protocol(name.as_str());
    }
    Ok(())
}

/// Tagging a session twice through the same parser leaves its label there exactly
/// once: a first tagging that succeeds adds it (unless there), so the parser counts as
/// having classified the session, and `tag_session` then leaves the labels alone.
pub proof fn lemma_tagged_once(ps0: Seq<Seq<char>>, name: Seq<char>)
    requires
        ps0.no_duplicates(),
    ensures
        with_protocol(ps0, name).contains(name),
        with_protocol(ps0, name).no_duplicates(),
        with_protocol(with_protocol(ps0, name), name) == with_protocol(ps0, name),
{
    lemma_protocol_label_once(ps0, name);
    if !ps0.contains(name) {
        let ps1 = ps0.push(name);
        assert forall|i: int, j: int| 0 <= i < ps1.len() && 0 <= j < ps1.len() && i != j implies ps1[i] != ps1[j] by {
            if i == ps0.len() {
                assert(ps0[j] == ps1[j]);
            } else if j == ps0.len() {
                assert(ps0[i] == ps1[i]);
            }
        }
    }
}

} // verus!
