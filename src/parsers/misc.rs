//! A parser driven by signatures: each of its rules carries a callback that labels
//! the session or runs an extractor.
use vstd::prelude::*;

use super::extractors::{self, accepts, fields_after, protocols_after, Extractor};
use super::{callback_entries, CallbackMap, MatchCallBack, ParserError, ProtocolParserTrait};
use crate::classifiers::{add_rule_post, dpi, matched, ClassifierManager, Error, ParserID, Rule, RuleID, RuleType};
use crate::packet::Packet;
use crate::session::{lemma_protocol_label_once, lemma_protocol_labels_grow, owned, with_protocol, Session};

verus! {

/// `r` is the rule a parser `id` submits for DPI pattern `expression` on `protocol`.
pub open spec fn dpi_submission(r: Rule, id: ParserID, expression: Seq<char>, protocol: dpi::Protocol) -> bool {
    &&& r.submitter() == Some(id)
    &&& r.id == 0
    &&& r.priority == 0
    &&& r.rule_type matches RuleType::DPI(d) && d.hs_pattern.expression@ == expression && d.hs_pattern.flags == 0
        && d.hs_pattern.id is None && d.hs_pattern.som is None && d.hs_pattern.ext == dpi::ExprExt::none_spec()
        && d.protocol == protocol && !d.need_matched_pos
}

/// `new` keeps every callback of `old` but those replaced by ones that `allowed`
/// accepts, and adds only such.
pub open spec fn adds_only(old: Map<u32, MatchCallBack>, new: Map<u32, MatchCallBack>, allowed: spec_fn(MatchCallBack) -> bool) -> bool {
    &&& forall|k: u32| old.contains_key(k) ==> #[trigger] new.contains_key(k)
    &&& forall|k: u32| #[trigger] new.contains_key(k) ==> (old.contains_key(k) && new[k] == old[k]) || allowed(new[k])
}

pub proof fn lemma_adds_only_trans(
    a: Map<u32, MatchCallBack>,
    b: Map<u32, MatchCallBack>,
    c: Map<u32, MatchCallBack>,
    allowed: spec_fn(MatchCallBack) -> bool,
)
    requires
        adds_only(a, b, allowed),
        adds_only(b, c, allowed),
    ensures
        adds_only(a, c, allowed),
{
    assert forall|k: u32| #[trigger] c.contains_key(k) implies (a.contains_key(k) && c[k] == a[k]) || allowed(c[k]) by {
        if !allowed(c[k]) {
            assert(b.contains_key(k) && c[k] == b[k]);
        }
    }
}

/// The registry `m` holds a DPI rule of `expression` on `protocol` with parser `p`
/// subscribed, whose record has id `rid`.
pub open spec fn holds_signature(m: ClassifierManager, p: ParserID, expression: Seq<char>, protocol: dpi::Protocol, rid: RuleID) -> bool {
    let d = m.dpi_classifier().dpi_rules_spec();
    let rs = m.dpi_classifier().rules_spec();
    exists|k: int|
        0 <= k < d.len() && (#[trigger] d[k]).hs_pattern.expression@ == expression && d[k].protocol == protocol && rs[k].id == rid
            && rs[k].subscribers().contains(p)
}

/// The registry `m` holds the signature of `expression` on `protocol` for parser `p`,
/// and `cbs` gives its rule a callback that `allowed` accepts.
pub open spec fn signed(
    m: ClassifierManager,
    cbs: Map<u32, MatchCallBack>,
    p: ParserID,
    expression: Seq<char>,
    protocol: dpi::Protocol,
    allowed: spec_fn(MatchCallBack) -> bool,
) -> bool {
    exists|rid: RuleID| holds_signature(m, p, expression, protocol, rid) && #[trigger] cbs.contains_key(rid) && allowed(cbs[rid])
}

/// Every signature that `m0` holds, `m1` holds too.
pub open spec fn grows(m0: ClassifierManager, m1: ClassifierManager) -> bool {
    forall|p: ParserID, e: Seq<char>, proto: dpi::Protocol, rid: RuleID|
        #[trigger] holds_signature(m0, p, e, proto, rid) ==> holds_signature(m1, p, e, proto, rid)
}

/// The registry `m` holds the signature of `expression` on `protocol` for parser `p`,
/// under some rule id.
pub open spec fn held(m: ClassifierManager, p: ParserID, expression: Seq<char>, protocol: dpi::Protocol) -> bool {
    exists|rid: RuleID| #[trigger] holds_signature(m, p, expression, protocol, rid)
}

pub proof fn lemma_grows_trans(a: ClassifierManager, b: ClassifierManager, c: ClassifierManager)
    requires
        grows(a, b),
        grows(b, c),
    ensures
        grows(a, c),
{
}

pub proof fn lemma_held_grows(m0: ClassifierManager, m1: ClassifierManager, p: ParserID, e: Seq<char>, proto: dpi::Protocol)
    requires
        grows(m0, m1),
        held(m0, p, e, proto),
    ensures
        held(m1, p, e, proto),
{
    let rid = choose|rid: RuleID| #[trigger] holds_signature(m0, p, e, proto, rid);
    assert(holds_signature(m1, p, e, proto, rid));
}

pub proof fn lemma_signed_grows(
    m0: ClassifierManager,
    m1: ClassifierManager,
    c0: Map<u32, MatchCallBack>,
    c1: Map<u32, MatchCallBack>,
    p: ParserID,
    expression: Seq<char>,
    protocol: dpi::Protocol,
    allowed: spec_fn(MatchCallBack) -> bool,
)
    requires
        grows(m0, m1),
        adds_only(c0, c1, allowed),
        signed(m0, c0, p, expression, protocol, allowed),
    ensures
        signed(m1, c1, p, expression, protocol, allowed),
        held(m1, p, expression, protocol),
{
    let rid = choose|rid: RuleID| holds_signature(m0, p, expression, protocol, rid) && #[trigger] c0.contains_key(rid) && allowed(c0[rid]);
    assert(holds_signature(m1, p, expression, protocol, rid));
    assert(c1.contains_key(rid));
}

/// Registering another rule keeps every signature the registry held.
pub proof fn lemma_holds_signature_kept(
    m0: ClassifierManager,
    m1: ClassifierManager,
    r0: Rule,
    r1: Rule,
    r: Result<RuleID, Error>,
    p: ParserID,
    expression: Seq<char>,
    protocol: dpi::Protocol,
    rid: RuleID,
)
    requires
        m0.wf(),
        add_rule_post(m0, m1, r0, r1, r),
        holds_signature(m0, p, expression, protocol, rid),
    ensures
        holds_signature(m1, p, expression, protocol, rid),
{
    let d0 = m0.dpi_classifier().dpi_rules_spec();
    let rs0 = m0.dpi_classifier().rules_spec();
    let d1 = m1.dpi_classifier().dpi_rules_spec();
    let rs1 = m1.dpi_classifier().rules_spec();
    let k = choose|k: int|
        0 <= k < d0.len() && (#[trigger] d0[k]).hs_pattern.expression@ == expression && d0[k].protocol == protocol && rs0[k].id == rid
            && rs0[k].subscribers().contains(p);
    if d1.len() > d0.len() {
        assert(d1[k] == d0[k]);
        assert(rs1.take(rs0.len() as int)[k] == rs1[k]);
    } else if rs1 != rs0 {
        if rs1[k] != rs0[k] {
            let j = choose|j: int| 0 <= j < rs0[k].subscribers().len() && rs0[k].subscribers()[j] == p;
            assert(rs1[k].subscribers()[j] == p);
        }
    }
    assert(0 <= k < d1.len() && d1[k].hs_pattern.expression@ == expression);
}

/// Adding callbacks that `allowed` accepts, and registering a rule, keep every
/// signature signed.
pub proof fn lemma_signed_kept(
    m0: ClassifierManager,
    m1: ClassifierManager,
    r0: Rule,
    r1: Rule,
    r: Result<RuleID, Error>,
    c0: Map<u32, MatchCallBack>,
    c1: Map<u32, MatchCallBack>,
    p: ParserID,
    expression: Seq<char>,
    protocol: dpi::Protocol,
    allowed: spec_fn(MatchCallBack) -> bool,
)
    requires
        m0.wf(),
        add_rule_post(m0, m1, r0, r1, r),
        adds_only(c0, c1, allowed),
        signed(m0, c0, p, expression, protocol, allowed),
    ensures
        signed(m1, c1, p, expression, protocol, allowed),
{
    let rid = choose|rid: RuleID| holds_signature(m0, p, expression, protocol, rid) && #[trigger] c0.contains_key(rid) && allowed(c0[rid]);
    lemma_holds_signature_kept(m0, m1, r0, r1, r, p, expression, protocol, rid);
    assert(c1.contains_key(rid));
}

pub proof fn lemma_signed_held(
    m: ClassifierManager,
    c: Map<u32, MatchCallBack>,
    p: ParserID,
    expression: Seq<char>,
    protocol: dpi::Protocol,
    allowed: spec_fn(MatchCallBack) -> bool,
)
    requires
        signed(m, c, p, expression, protocol, allowed),
    ensures
        held(m, p, expression, protocol),
{
    let rid = choose|rid: RuleID| holds_signature(m, p, expression, protocol, rid) && #[trigger] c.contains_key(rid) && allowed(c[rid]);
    assert(holds_signature(m, p, expression, protocol, rid));
}

pub proof fn lemma_signed_weaken(
    m: ClassifierManager,
    c: Map<u32, MatchCallBack>,
    p: ParserID,
    expression: Seq<char>,
    protocol: dpi::Protocol,
    a: spec_fn(MatchCallBack) -> bool,
    b: spec_fn(MatchCallBack) -> bool,
)
    requires
        signed(m, c, p, expression, protocol, a),
        forall|cb: MatchCallBack| #[trigger] a(cb) ==> b(cb),
    ensures
        signed(m, c, p, expression, protocol, b),
{
    let rid = choose|rid: RuleID| holds_signature(m, p, expression, protocol, rid) && #[trigger] c.contains_key(rid) && a(c[rid]);
    assert(b(c[rid]));
}

pub proof fn lemma_adds_only_weaken(
    c0: Map<u32, MatchCallBack>,
    c1: Map<u32, MatchCallBack>,
    a: spec_fn(MatchCallBack) -> bool,
    b: spec_fn(MatchCallBack) -> bool,
)
    requires
        adds_only(c0, c1, a),
        forall|cb: MatchCallBack| #[trigger] a(cb) ==> b(cb),
    ensures
        adds_only(c0, c1, b),
{
    assert forall|k: u32| #[trigger] c1.contains_key(k) implies (c0.contains_key(k) && c1[k] == c0[k]) || b(c1[k]) by {
        if !(c0.contains_key(k) && c1[k] == c0[k]) {
            assert(a(c1[k]));
        }
    }
}

/// The step from `m0` to `m1` is the registration, with result `r`, of the rule that
/// parser `p` submits for DPI pattern `expression` on `protocol`.
pub open spec fn submitted(
    m0: ClassifierManager,
    m1: ClassifierManager,
    p: ParserID,
    expression: Seq<char>,
    protocol: dpi::Protocol,
    r: Result<RuleID, Error>,
) -> bool {
    exists|r0: Rule, r1: Rule| dpi_submission(r0, p, expression, protocol) && #[trigger] add_rule_post(m0, m1, r0, r1, r)
}

/// The step from `m0` to `m1` registered the rule of `expression` on `protocol` for
/// parser `p`, and the step from `c0` to `c1` gave the rule id that came back one
/// callback, which `allowed` accepts.
pub open spec fn registered(
    m0: ClassifierManager,
    m1: ClassifierManager,
    c0: Map<u32, MatchCallBack>,
    c1: Map<u32, MatchCallBack>,
    p: ParserID,
    expression: Seq<char>,
    protocol: dpi::Protocol,
    allowed: spec_fn(MatchCallBack) -> bool,
) -> bool {
    exists|rid: RuleID, cb: MatchCallBack|
        submitted(m0, m1, p, expression, protocol, Ok::<RuleID, Error>(rid)) && allowed(cb) && c1 == #[trigger] c0.insert(rid, cb)
}

/// The registry `m` accepts `k` more DPI rules from parser `p`, whatever they are: it
/// is not prepared, its ids and its DPI rule list have room for `k` more, and no DPI
/// rule it holds has eight subscribers without `p`.
pub open spec fn room_for(m: ClassifierManager, p: ParserID, k: nat) -> bool {
    let rs = m.dpi_classifier().rules_spec();
    &&& !m.dpi_classifier().prepared_spec()
    &&& m.next_id_spec() + k < u32::MAX
    &&& m.dpi_classifier().dpi_rules_spec().len() + k < u32::MAX
    &&& forall|i: int| 0 <= i < rs.len() ==> (#[trigger] rs[i]).parsers_count < 8 || rs[i].subscribers().contains(p)
}

/// A registry with room for `k + 1` rules from `p` accepts the next, and then has
/// room for `k`.
pub proof fn lemma_room_step(
    m0: ClassifierManager,
    m1: ClassifierManager,
    p: ParserID,
    expression: Seq<char>,
    protocol: dpi::Protocol,
    r: Result<RuleID, Error>,
    k: nat,
)
    requires
        m0.wf(),
        room_for(m0, p, k + 1),
        submitted(m0, m1, p, expression, protocol, r),
    ensures
        r is Ok,
        room_for(m1, p, k),
{
    let (r0, r1) = choose|r0: Rule, r1: Rule| dpi_submission(r0, p, expression, protocol) && #[trigger] add_rule_post(m0, m1, r0, r1, r);
    let dr = r0.rule_type->DPI_0;
    assert(r1.rule_type == r0.rule_type);
    assert(r1.submitter() == Some(p));
    let d0 = m0.dpi_classifier().dpi_rules_spec();
    let rs0 = m0.dpi_classifier().rules_spec();
    let d1 = m1.dpi_classifier().dpi_rules_spec();
    let rs1 = m1.dpi_classifier().rules_spec();
    if forall|i: int| 0 <= i < d0.len() ==> !dpi::same_rule(#[trigger] d0[i], dr) {
        let n = rs0.len() as int;
        assert forall|i: int| 0 <= i < rs1.len() implies (#[trigger] rs1[i]).parsers_count < 8 || rs1[i].subscribers().contains(p) by {
            if i < n {
                assert(rs1.take(n)[i] == rs1[i]);
            } else {
                assert(rs1.last() == rs1[i]);
                assert(rs1[i].subscribers()[0] == p);
            }
        }
    } else {
        let i = choose|i: int| 0 <= i < d0.len() && dpi::same_rule(#[trigger] d0[i], dr);
        if !rs0[i].subscribers().contains(p) {
            assert(rs0[i].parsers_count < 8);
            let n = rs0[i].subscribers().len();
            assert(rs1[i].subscribers()[n as int] == p);
        }
        assert forall|j: int| 0 <= j < rs1.len() implies (#[trigger] rs1[j]).parsers_count < 8 || rs1[j].subscribers().contains(p) by {
            if j != i && rs1 != rs0 {
                assert(rs1[j] == rs0[j]);
            }
        }
    }
}

/// Accepts the callbacks that label a session with protocol `name`.
pub open spec fn labels_fn(name: Seq<char>) -> spec_fn(MatchCallBack) -> bool {
    |cb: MatchCallBack| labels(cb, name)
}

/// Accepts the callback that runs extractor `e`.
pub open spec fn runs_fn(e: Extractor) -> spec_fn(MatchCallBack) -> bool {
    |cb: MatchCallBack| cb == MatchCallBack::Func(e)
}

/// The callback that labels a session with protocol `name`.
pub open spec fn labels(cb: MatchCallBack, name: Seq<char>) -> bool {
    cb matches MatchCallBack::ProtocolName(s) && s@ == name
}

/// Submits, for parser `id`, the DPI rule of `expression` on `protocol`, and
/// registers `cb` for the rule id that the registry gives back.
pub fn add_dpi_rule(
    id: ParserID,
    manager: &mut ClassifierManager,
    match_cbs: &mut CallbackMap,
    expression: &str,
    protocol: dpi::Protocol,
    cb: MatchCallBack,
) -> (r: Result<RuleID, Error>)
    requires
        old(manager).wf(),
    ensures
        final(manager).wf(),
        submitted(*old(manager), *final(manager), id, expression@, protocol, r),
        grows(*old(manager), *final(manager)),
        match r {
            Ok(rid) => {
                &&& callback_entries(*final(match_cbs)) == callback_entries(*old(match_cbs)).insert(rid, cb)
                &&& holds_signature(*final(manager), id, expression@, protocol, rid)
            },
            Err(_) => callback_entries(*final(match_cbs)) == callback_entries(*old(match_cbs)),
        },
{
    let mut dr = dpi::Rule::new(dpi::Pattern::new(owned(expression)));
    dr.protocol = protocol;
    let mut rule = Rule::new(id);
    rule.rule_type = RuleType::DPI(dr);
    let ghost r0 = rule;
    let r = manager.add_rule(&mut rule);
    assert(dpi_submission(r0, id, expression@, protocol) && add_rule_post(*old(manager), *manager, r0, rule, r));
    assert forall|q: ParserID, e: Seq<char>, proto: dpi::Protocol, rid: RuleID|
        #[trigger] holds_signature(*old(manager), q, e, proto, rid) implies holds_signature(*manager, q, e, proto, rid) by {
        lemma_holds_signature_kept(*old(manager), *manager, r0, rule, r, q, e, proto, rid);
    }
    proof {
        if let Ok(rid) = r {
            let dr = rule.rule_type->DPI_0;
            let d0 = old(manager).dpi_classifier().dpi_rules_spec();
            let rs0 = old(manager).dpi_classifier().rules_spec();
            let d1 = manager.dpi_classifier().dpi_rules_spec();
            let rs1 = manager.dpi_classifier().rules_spec();
            if d1.len() > d0.len() {
                let k = d0.len() as int;
                assert(d1[k] == dpi::with_id(dr, k as usize));
                assert(rs1.last() == rs1[k]);
                assert(rs1[k].subscribers()[0] == id);
            } else {
                let k = choose|k: int| 0 <= k < d0.len() && dpi::same_rule(#[trigger] d0[k], dr);
                if rs1[k].subscribers() != rs0[k].subscribers() {
                    let n = rs0[k].subscribers().len();
                    assert(rs1[k].subscribers()[n as int] == id);
                }
                assert(d1[k] == d0[k]);
            }
        }
    }
    match r {
        Ok(rid) => match_cbs.insert(rid, cb),
        Err(_) => {},
    }
    r
}

/// Submits, for parser `id`, the DPI rule of `expression` on `protocol` whose match
/// labels the session with `name`.
pub fn add_simple_dpi_rule(
    id: ParserID,
    manager: &mut ClassifierManager,
    match_cbs: &mut CallbackMap,
    expression: &str,
    protocol: dpi::Protocol,
    name: &str,
) -> (r: Result<RuleID, Error>)
    requires
        old(manager).wf(),
    ensures
        final(manager).wf(),
        submitted(*old(manager), *final(manager), id, expression@, protocol, r),
        match r {
            Ok(_) => registered(
                *old(manager),
                *final(manager),
                callback_entries(*old(match_cbs)),
                callback_entries(*final(match_cbs)),
                id,
                expression@,
                protocol,
                labels_fn(name@),
            ),
            Err(_) => callback_entries(*final(match_cbs)) == callback_entries(*old(match_cbs)),
        },
        adds_only(callback_entries(*old(match_cbs)), callback_entries(*final(match_cbs)), labels_fn(name@)),
        grows(*old(manager), *final(manager)),
        r is Ok ==> signed(*final(manager), callback_entries(*final(match_cbs)), id, expression@, protocol, labels_fn(name@)),
{
    let cb = MatchCallBack::ProtocolName(owned(name));
    let r = add_dpi_rule(id, manager, match_cbs, expression, protocol, cb);
    assert(labels(cb, name@));
    if let Ok(rid) = r {
        assert(callback_entries(*match_cbs).contains_key(rid));
    }
    r
}

/// Submits, for parser `id`, the DPI rule of `expression` on `protocol` whose match
/// runs extractor `e`.
pub fn add_dpi_rule_with_func(
    id: ParserID,
    manager: &mut ClassifierManager,
    match_cbs: &mut CallbackMap,
    expression: &str,
    protocol: dpi::Protocol,
    e: Extractor,
) -> (r: Result<RuleID, Error>)
    requires
        old(manager).wf(),
    ensures
        final(manager).wf(),
        submitted(*old(manager), *final(manager), id, expression@, protocol, r),
        match r {
            Ok(_) => registered(
                *old(manager),
                *final(manager),
                callback_entries(*old(match_cbs)),
                callback_entries(*final(match_cbs)),
                id,
                expression@,
                protocol,
                runs_fn(e),
            ),
            Err(_) => callback_entries(*final(match_cbs)) == callback_entries(*old(match_cbs)),
        },
        adds_only(callback_entries(*old(match_cbs)), callback_entries(*final(match_cbs)), runs_fn(e)),
        grows(*old(manager), *final(manager)),
        r is Ok ==> signed(*final(manager), callback_entries(*final(match_cbs)), id, expression@, protocol, runs_fn(e)),
{
    let r = add_dpi_rule(id, manager, match_cbs, expression, protocol, MatchCallBack::Func(e));
    if let Ok(rid) = r {
        assert(callback_entries(*match_cbs).contains_key(rid));
    }
    r
}

/// The protocol labels after a packet of payload `p` matched the rule of id `id`,
/// given callbacks `cbs`.
pub open spec fn protocols_after_match(cbs: Map<u32, MatchCallBack>, id: u32, p: Seq<u8>, ps: Seq<Seq<char>>) -> Seq<Seq<char>> {
    if cbs.contains_key(id) {
        match cbs[id] {
            MatchCallBack::ProtocolName(n) => with_protocol(ps, n@),
            MatchCallBack::Func(e) => protocols_after(e, p, ps),
            MatchCallBack::Ignore => ps,
        }
    } else {
        ps
    }
}

/// The fields after a packet of payload `p` matched the rule of id `id`, given
/// callbacks `cbs`.
pub open spec fn fields_after_match(
    cbs: Map<u32, MatchCallBack>,
    id: u32,
    p: Seq<u8>,
    fs: Seq<(Seq<char>, Seq<char>)>,
) -> Seq<(Seq<char>, Seq<char>)> {
    if cbs.contains_key(id) {
        match cbs[id] {
            MatchCallBack::Func(e) => fields_after(e, p, fs),
            _ => fs,
        }
    } else {
        fs
    }
}

/// Handling a second packet that matched the same rule as a first adds no protocol
/// label, when the rule's extractor, if it has one, judges both packets alike.
pub proof fn lemma_label_added_once(cbs: Map<u32, MatchCallBack>, id: u32, p1: Seq<u8>, p2: Seq<u8>, ps: Seq<Seq<char>>)
    requires
        cbs.contains_key(id) && cbs[id] is Func ==> accepts(cbs[id]->Func_0, p1) == accepts(cbs[id]->Func_0, p2),
    ensures
        protocols_after_match(cbs, id, p2, protocols_after_match(cbs, id, p1, ps)) == protocols_after_match(cbs, id, p1, ps),
{
    if cbs.contains_key(id) {
        match cbs[id] {
            MatchCallBack::ProtocolName(n) => lemma_protocol_label_once(ps, n@),
            MatchCallBack::Func(e) => {
                lemma_protocol_label_once(ps, "rdp"@);
                lemma_protocol_label_once(ps, "gh0st"@);
            },
            MatchCallBack::Ignore => {},
        }
    }
}

/// The registry `m` holds group `g` of the signature parser's signatures for parser
/// `p`: 0 BitTorrent, 1 Cassandra, 2 Gh0st, 3 MongoDB, 4 RDP, 5 Java RMI.
pub open spec fn group_held(m: ClassifierManager, p: ParserID, g: int) -> bool {
    if g == 0 {
        held(m, p, "^\\x13BitTorrent protocol"@, dpi::Protocol { bits: dpi::DPI_TCP }) && held(m, p, "^Bsync\\x00"@, dpi::Protocol { bits: dpi::DPI_TCP }) && held(m, p, "^d1:[arq]"@, dpi::Protocol { bits: dpi::DPI_UDP })
    } else if g == 1 {
        held(m, p, "^\\x00\\x00\\x00\\x25\\x80\\x01\\x00\\x01\\x00\\x00\\x00\\x0c\\x73\\x65\\x74\\x5f"@, dpi::Protocol { bits: dpi::DPI_TCP }) && held(m, p, "^\\x00\\x00\\x00\\x1d\\x80\\x01\\x00\\x01\\x00\\x00\\x00\\x10\\x64\\x65\\x73\\x63"@, dpi::Protocol { bits: dpi::DPI_TCP })
    } else if g == 2 {
        held(m, p, "^[a-zA-z0-9:]{5}..\\x00\\x00....\\x78\\x9c"@, dpi::Protocol { bits: dpi::DPI_TCP }) && held(m, p, "^[a-zA-z0-9:]{5}\\x00\\x00.{6}\\x78\\x9c"@, dpi::Protocol { bits: dpi::DPI_TCP })
    } else if g == 3 {
        held(m, p, "^.{8}[\\x00\\xff]{4}\\xd4\\x07\\x00\\x00"@, dpi::Protocol { bits: dpi::DPI_TCP })
    } else if g == 4 {
        held(m, p, "^\\x03\\x00"@, dpi::Protocol { bits: dpi::DPI_TCP })
    } else if g == 5 {
        held(m, p, "^\\x4a\\x52\\x4d\\x49\\x00\\x02\\x4b"@, dpi::Protocol { bits: dpi::DPI_TCP })
    } else {
        true
    }
}

pub proof fn lemma_group_grows(m0: ClassifierManager, m1: ClassifierManager, p: ParserID, g: int)
    requires
        grows(m0, m1),
        group_held(m0, p, g),
    ensures
        group_held(m1, p, g),
{
    if g == 0 {
        lemma_held_grows(m0, m1, p, "^\\x13BitTorrent protocol"@, dpi::Protocol { bits: dpi::DPI_TCP });
        lemma_held_grows(m0, m1, p, "^Bsync\\x00"@, dpi::Protocol { bits: dpi::DPI_TCP });
        lemma_held_grows(m0, m1, p, "^d1:[arq]"@, dpi::Protocol { bits: dpi::DPI_UDP });
    }
    if g == 1 {
        lemma_held_grows(m0, m1, p, "^\\x00\\x00\\x00\\x25\\x80\\x01\\x00\\x01\\x00\\x00\\x00\\x0c\\x73\\x65\\x74\\x5f"@, dpi::Protocol { bits: dpi::DPI_TCP });
        lemma_held_grows(m0, m1, p, "^\\x00\\x00\\x00\\x1d\\x80\\x01\\x00\\x01\\x00\\x00\\x00\\x10\\x64\\x65\\x73\\x63"@, dpi::Protocol { bits: dpi::DPI_TCP });
    }
    if g == 2 {
        lemma_held_grows(m0, m1, p, "^[a-zA-z0-9:]{5}..\\x00\\x00....\\x78\\x9c"@, dpi::Protocol { bits: dpi::DPI_TCP });
        lemma_held_grows(m0, m1, p, "^[a-zA-z0-9:]{5}\\x00\\x00.{6}\\x78\\x9c"@, dpi::Protocol { bits: dpi::DPI_TCP });
    }
    if g == 3 {
        lemma_held_grows(m0, m1, p, "^.{8}[\\x00\\xff]{4}\\xd4\\x07\\x00\\x00"@, dpi::Protocol { bits: dpi::DPI_TCP });
    }
    if g == 4 {
        lemma_held_grows(m0, m1, p, "^\\x03\\x00"@, dpi::Protocol { bits: dpi::DPI_TCP });
    }
    if g == 5 {
        lemma_held_grows(m0, m1, p, "^\\x4a\\x52\\x4d\\x49\\x00\\x02\\x4b"@, dpi::Protocol { bits: dpi::DPI_TCP });
    }
}

/// Groups before `g` held in `m0` stay held in `m1`, and with group `g` held in
/// `m1`, every group up to `g` is.
pub proof fn lemma_groups_step(m0: ClassifierManager, m1: ClassifierManager, p: ParserID, g: int)
    requires
        grows(m0, m1),
        forall|h: int| 0 <= h < g ==> group_held(m0, p, h),
        group_held(m1, p, g),
    ensures
        forall|h: int| 0 <= h <= g ==> group_held(m1, p, h),
{
    assert forall|h: int| 0 <= h <= g implies group_held(m1, p, h) by {
        if h < g {
            lemma_group_grows(m0, m1, p, h);
        }
    }
}

/// The signature parser: its rules, and what to do when each matches.
pub struct ProtocolParser {
    id: ParserID,
    classified: bool,
    match_cbs: CallbackMap,
}

impl ProtocolParser {
    pub closed spec fn id_spec(&self) -> ParserID {
        self.id
    }

    pub closed spec fn callbacks(&self) -> Map<u32, MatchCallBack> {
        callback_entries(self.match_cbs)
    }

    /// A parser of id 0 without rules.
    pub fn new() -> (r: ProtocolParser)
        ensures
            r.id_spec() == 0,
            r.callbacks() == super::no_callbacks(),
    {
        ProtocolParser { id: 0, classified: false, match_cbs: CallbackMap::new() }
    }

    /// Submits, for this parser, the DPI rule of `expression` on `protocol` whose
    /// match labels the session with `name`.
    pub fn add_simple_dpi_rule(&mut self, manager: &mut ClassifierManager, expression: &str, protocol: dpi::Protocol, name: &str) -> (r: Result<RuleID, Error>)
        requires
            old(manager).wf(),
        ensures
            final(manager).wf(),
            final(self).id_spec() == old(self).id_spec(),
            submitted(*old(manager), *final(manager), old(self).id_spec(), expression@, protocol, r),
            match r {
                Ok(_) => registered(
                    *old(manager),
                    *final(manager),
                    old(self).callbacks(),
                    final(self).callbacks(),
                    old(self).id_spec(),
                    expression@,
                    protocol,
                    labels_fn(name@),
                ),
                Err(_) => final(self).callbacks() == old(self).callbacks(),
            },
            adds_only(old(self).callbacks(), final(self).callbacks(), labels_fn(name@)),
            grows(*old(manager), *final(manager)),
            r is Ok ==> signed(*final(manager), final(self).callbacks(), old(self).id_spec(), expression@, protocol, labels_fn(name@)),
    {
        add_simple_dpi_rule(self.id, manager, &mut self.match_cbs, expression, protocol, name)
    }

    /// Submits the signatures of BitTorrent, Cassandra, Gh0st, MongoDB, RDP and Java
    /// RMI, in that order, stopping at the first the registry refuses.
    #[verifier::rlimit(100)]
    pub fn register_all(&mut self, manager: &mut ClassifierManager) -> (r: Result<(), ParserError>)
        requires
            old(manager).wf(),
        ensures
            final(manager).wf(),
            final(self).id_spec() == old(self).id_spec(),
            grows(*old(manager), *final(manager)),
            final(manager).port_classifier()@ == old(manager).port_classifier()@,
            room_for(*old(manager), old(self).id_spec(), 10) ==> r is Ok,
            r is Ok ==> forall|g: int| 0 <= g < 6 ==> group_held(*final(manager), old(self).id_spec(), g),
    {
        let id = self.id;
        let ghost m0 = *manager;
        let r = super::bittorrent::register_classify_rules(id, manager, &mut self.match_cbs);
        let ghost m1 = *manager;
        proof {
            assert(room_for(m0, id, 10) ==> r is Ok && room_for(m1, id, 7)) by {
                if room_for(m0, id, 10) {
                    assert(room_for(m0, id, 10));
                }
            }
            if r is Ok {
                lemma_signed_held(m1, callback_entries(self.match_cbs), id, "^\\x13BitTorrent protocol"@, dpi::Protocol { bits: dpi::DPI_TCP }, labels_fn("bittorrent"@));
                lemma_signed_held(m1, callback_entries(self.match_cbs), id, "^Bsync\\x00"@, dpi::Protocol { bits: dpi::DPI_TCP }, labels_fn("bittorrent"@));
                lemma_signed_held(m1, callback_entries(self.match_cbs), id, "^d1:[arq]"@, dpi::Protocol { bits: dpi::DPI_UDP }, labels_fn("bittorrent"@));
                lemma_groups_step(m0, m1, id, 0);
            }
        }
        if let Err(e) = r {
            return Err(ParserError::Registry(e));
        }
        let r = super::cassandra::register_classify_rules(id, manager, &mut self.match_cbs);
        let ghost m2 = *manager;
        proof {
            assert(room_for(m0, id, 10) ==> r is Ok && room_for(m2, id, 5)) by {
                if room_for(m0, id, 10) {
                    assert(room_for(m1, id, 7));
                }
            }
            lemma_grows_trans(m0, m1, m2);
            if r is Ok {
                lemma_signed_held(m2, callback_entries(self.match_cbs), id, "^\\x00\\x00\\x00\\x25\\x80\\x01\\x00\\x01\\x00\\x00\\x00\\x0c\\x73\\x65\\x74\\x5f"@, dpi::Protocol { bits: dpi::DPI_TCP }, labels_fn("cassandra"@));
                lemma_signed_held(m2, callback_entries(self.match_cbs), id, "^\\x00\\x00\\x00\\x1d\\x80\\x01\\x00\\x01\\x00\\x00\\x00\\x10\\x64\\x65\\x73\\x63"@, dpi::Protocol { bits: dpi::DPI_TCP }, labels_fn("cassandra"@));
                lemma_groups_step(m1, m2, id, 1);
            }
        }
        if let Err(e) = r {
            return Err(ParserError::Registry(e));
        }
        let r = super::gh0st::register_classify_rules(id, manager, &mut self.match_cbs);
        let ghost m3 = *manager;
        proof {
            assert(room_for(m0, id, 10) ==> r is Ok && room_for(m3, id, 3)) by {
                if room_for(m0, id, 10) {
                    assert(room_for(m2, id, 5));
                }
            }
            lemma_grows_trans(m0, m2, m3);
            if r is Ok {
                lemma_signed_held(m3, callback_entries(self.match_cbs), id, "^[a-zA-z0-9:]{5}..\\x00\\x00....\\x78\\x9c"@, dpi::Protocol { bits: dpi::DPI_TCP }, super::gh0st::gh0st_fn());
                lemma_signed_held(m3, callback_entries(self.match_cbs), id, "^[a-zA-z0-9:]{5}\\x00\\x00.{6}\\x78\\x9c"@, dpi::Protocol { bits: dpi::DPI_TCP }, super::gh0st::gh0st_fn());
                lemma_groups_step(m2, m3, id, 2);
            }
        }
        if let Err(e) = r {
            return Err(ParserError::Registry(e));
        }
        let r = super::mongo::register_classify_rules(id, manager, &mut self.match_cbs);
        let ghost m4 = *manager;
        proof {
            assert(room_for(m0, id, 10) ==> r is Ok && room_for(m4, id, 2)) by {
                if room_for(m0, id, 10) {
                    assert(room_for(m3, id, 3));
                }
            }
            lemma_grows_trans(m0, m3, m4);
            if r is Ok {
                lemma_signed_held(m4, callback_entries(self.match_cbs), id, "^.{8}[\\x00\\xff]{4}\\xd4\\x07\\x00\\x00"@, dpi::Protocol { bits: dpi::DPI_TCP }, labels_fn("mongo"@));
                lemma_groups_step(m3, m4, id, 3);
            }
        }
        if let Err(e) = r {
            return Err(ParserError::Registry(e));
        }
        let r = super::rdp::register_classify_rules(id, manager, &mut self.match_cbs);
        let ghost m5 = *manager;
        proof {
            assert(room_for(m0, id, 10) ==> r is Ok && room_for(m5, id, 1)) by {
                if room_for(m0, id, 10) {
                    assert(room_for(m4, id, 2));
                }
            }
            lemma_grows_trans(m0, m4, m5);
            if r is Ok {
                lemma_signed_held(m5, callback_entries(self.match_cbs), id, "^\\x03\\x00"@, dpi::Protocol { bits: dpi::DPI_TCP }, runs_fn(Extractor::Rdp));
                lemma_groups_step(m4, m5, id, 4);
            }
        }
        if let Err(e) = r {
            return Err(ParserError::Registry(e));
        }
        let r = super::rmi::register_classify_rules(self, manager);
        let ghost m6 = *manager;
        proof {
            assert(room_for(m0, id, 10) ==> r is Ok && room_for(m6, id, 0)) by {
                if room_for(m0, id, 10) {
                    assert(room_for(m5, id, 1));
                }
            }
            lemma_grows_trans(m0, m5, m6);
            if r is Ok {
                lemma_signed_held(m6, self.callbacks(), id, "^\\x4a\\x52\\x4d\\x49\\x00\\x02\\x4b"@, dpi::Protocol { bits: dpi::DPI_TCP }, labels_fn("rmi"@));
                lemma_groups_step(m5, m6, id, 5);
            }
        }
        match r {
            Ok(()) => Ok(()),
            Err(e) => Err(ParserError::Registry(e)),
        }
    }

    /// Acts on `pkt`, which matched `rule`: labels the session or runs the extractor
    /// that the rule's callback names; nothing for a rule without callback.
    pub fn handle(&self, pkt: &Packet, rule: &matched::Rule, ses: &mut Session)
        requires
            old(ses).wf(),
        ensures
            final(ses).wf(),
            final(ses).protocols_spec() == protocols_after_match(self.callbacks(), rule.id, pkt.payload_spec(), old(ses).protocols_spec()),
            final(ses).fields_spec() == fields_after_match(self.callbacks(), rule.id, pkt.payload_spec(), old(ses).fields_spec()),
            final(ses).same_but_findings(*old(ses)),
    {
        match self.match_cbs.get(rule.id) {
            Some(MatchCallBack::ProtocolName(name)) => {
                ses.add_protocol(name.as_str());
                assert(final(ses).fields_spec() =~= old(ses).fields_spec());
            },
            Some(MatchCallBack::Func(e)) => extractors::run(*e, ses, pkt.payload()),
            _ => {},
        }
    }
}

impl Default for ProtocolParser {
    fn default() -> (r: ProtocolParser)
        ensures
            r.id_spec() == 0,
            r.callbacks() == super::no_callbacks(),
    {
        ProtocolParser::new()
    }
}

impl ProtocolParserTrait for ProtocolParser {
    open spec fn name_spec(&self) -> Seq<char> {
        "misc"@
    }

    closed spec fn classified_spec(&self) -> bool {
        self.classified
    }

    fn id(&self) -> ParserID {
        self.id
    }

    fn set_id(&mut self, id: ParserID) {
        self.id = id;
    }

    fn name(&self) -> String {
        owned("misc")
    }

    fn init(&mut self) -> Result<(), ParserError> {
        Ok(())
    }

    fn exit(&mut self) -> Result<(), ParserError> {
        Ok(())
    }

    fn register_classify_rules(&mut self, manager: &mut ClassifierManager) -> (r: Result<(), ParserError>) {
        self.register_all(manager)
    }

    fn parse_pkt(&mut self, pkt: &Packet, rule: &matched::Rule, ses: &mut Session) -> (r: Result<(), ParserError>) {
        self.handle(pkt, rule, ses);
        proof {
            let ps = old(ses).protocols_spec();
            let cbs = self.callbacks();
            if cbs.contains_key(rule.id) {
                match cbs[rule.id] {
                    MatchCallBack::ProtocolName(n) => lemma_protocol_labels_grow(ps, n@),
                    MatchCallBack::Func(e) => {
                        lemma_protocol_labels_grow(ps, "rdp"@);
                        lemma_protocol_labels_grow(ps, "gh0st"@);
                        assert(ps.take(ps.len() as int) =~= ps);
                    },
                    MatchCallBack::Ignore => assert(ps.take(ps.len() as int) =~= ps),
                }
            } else {
                assert(ps.take(ps.len() as int) =~= ps);
            }
        }
        Ok(())
    }

    fn is_classified(&self) -> bool {
        self.classified
    }

    fn classified_as_this_protocol(&mut self) -> Result<(), ParserError> {
        self.classified = true;
        Ok(())
    }
}

} // verus!
