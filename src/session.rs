//! Network sessions: what parsers learn about a flow.
use vstd::prelude::*;

use crate::packet::Packet;

verus! {

/// A point in time: seconds and microseconds.
#[derive(Clone, Copy, Debug, PartialEq, Eq, Structural)]
pub struct TimeVal {
    pub sec: i64,
    pub usec: i64,
}

/// A network session.
pub struct Session {
    pub id: String,
    /// Some sessions only see one direction's packets.
    pub single_direction: bool,
    /// Total bytes, per direction.
    pub bytes: [u64; 2],
    /// Total payload bytes, per direction.
    pub data_bytes: [u64; 2],
    pub start_time: TimeVal,
    pub end_time: TimeVal,
    pub pkts: Vec<Packet>,
    /// Nothing is left to parse.
    pub parse_finished: bool,
    /// The protocols the session was classified as, each once, in the order found.
    pub protocols: Vec<String>,
    /// Fields that parsers extracted, each key once.
    pub fields: Vec<(String, String)>,
}

/// The protocol labels `ps` after adding `name`: unchanged if it is there already.
pub open spec fn with_protocol(ps: Seq<Seq<char>>, name: Seq<char>) -> Seq<Seq<char>> {
    if ps.contains(name) {
        ps
    } else {
        ps.push(name)
    }
}

/// The fields `fs` after setting `key` to `value`: an existing key's value is
/// replaced, a new key is added last.
pub open spec fn with_field(fs: Seq<(Seq<char>, Seq<char>)>, key: Seq<char>, value: Seq<char>) -> Seq<(Seq<char>, Seq<char>)> {
    if exists|i: int| 0 <= i < fs.len() && (#[trigger] fs[i]).0 == key {
        let i = choose|i: int| 0 <= i < fs.len() && (#[trigger] fs[i]).0 == key;
        fs.update(i, (key, value))
    } else {
        fs.push((key, value))
    }
}

/// An owned copy of `s`.
pub fn owned(s: &str) -> (r: String)
    ensures
        r@ == s@,
{
    s.to_owned()
}

impl Session {
    /// The protocol labels, as character sequences.
    pub open spec fn protocols_spec(&self) -> Seq<Seq<char>> {
        self.protocols@.map_values(|s: String| s@)
    }

    /// The fields, as pairs of character sequences.
    pub open spec fn fields_spec(&self) -> Seq<(Seq<char>, Seq<char>)> {
        self.fields@.map_values(|f: (String, String)| (f.0@, f.1@))
    }

    /// No two fields share a key, and no protocol label appears twice.
    pub open spec fn wf(&self) -> bool {
        &&& forall|i: int, j: int|
            0 <= i < self.fields@.len() && 0 <= j < self.fields@.len() && i != j ==> (#[trigger] self.fields@[i]).0@
                != (#[trigger] self.fields@[j]).0@
        &&& self.protocols_spec().no_duplicates()
    }

    /// `self` and `o` agree on everything but their protocol labels and fields.
    pub open spec fn same_but_findings(&self, o: Session) -> bool {
        &&& self.id == o.id
        &&& self.single_direction == o.single_direction
        &&& self.bytes == o.bytes
        &&& self.data_bytes == o.data_bytes
        &&& self.start_time == o.start_time
        &&& self.end_time == o.end_time
        &&& self.pkts@ == o.pkts@
        &&& self.parse_finished == o.parse_finished
    }

    /// A new session with nothing in it.
    pub fn new() -> (r: Session)
        ensures
            r.wf(),
            r.id@.len() == 0,
            !r.single_direction,
            r.bytes@ == seq![0u64, 0u64],
            r.data_bytes@ == seq![0u64, 0u64],
            r.start_time == (TimeVal { sec: 0, usec: 0 }),
            r.end_time == (TimeVal { sec: 0, usec: 0 }),
            r.pkts@.len() == 0,
            !r.parse_finished,
            r.protocols@.len() == 0,
            r.fields@.len() == 0,
    {
        let r = Session {
            id: String::new(),
            single_direction: false,
            bytes: [0u64; 2],
            data_bytes: [0u64; 2],
            start_time: TimeVal { sec: 0, usec: 0 },
            end_time: TimeVal { sec: 0, usec: 0 },
            pkts: Vec::new(),
            parse_finished: false,
            protocols: Vec::new(),
            fields: Vec::new(),
        };
        assert(r.bytes@ =~= seq![0u64, 0u64]);
        assert(r.data_bytes@ =~= seq![0u64, 0u64]);
        r
    }

    /// Whether the session was classified as `name`.
    pub fn has_protocol(&self, name: &str) -> (r: bool)
        ensures
            r == self.protocols_spec().contains(name@),
    {
        let name_s = owned(name);
        let mut i: usize = 0;
        while i < self.protocols.len()
            invariant
                name_s@ == name@,
                i <= self.protocols@.len(),
                forall|j: int| 0 <= j < i ==> (#[trigger] self.protocols@[j])@ != name@,
            decreases self.protocols@.len() - i,
        {
            if self.protocols[i] == name_s {
                assert(self.protocols_spec()[i as int] == name@);
                return true;
            }
            i = i + 1;
        }
        assert forall|j: int| 0 <= j < self.protocols_spec().len() implies self.protocols_spec()[j] != name@ by {
            assert(self.protocols_spec()[j] == self.protocols@[j]@);
        }
        false
    }

    /// Labels the session with protocol `name`, once: a label already there is not
    /// added again.
    pub fn add_protocol(&mut self, name: &str)
        requires
            old(self).wf(),
        ensures
            final(self).wf(),
            final(self).protocols_spec() == with_protocol(old(self).protocols_spec(), name@),
            final(self).fields@ == old(self).fields@,
            final(self).same_but_findings(*old(self)),
    {
        if !self.has_protocol(name) {
            let ghost ps = self.protocols_spec();
            self.protocols.push(owned(name));
            assert(self.protocols_spec() =~= ps.push(name@));
            assert(self.protocols_spec().no_duplicates()) by {
                assert forall|i: int, j: int|
                    0 <= i < self.protocols_spec().len() && 0 <= j < self.protocols_spec().len() && i != j implies self.protocols_spec()[i]
                    != self.protocols_spec()[j] by {
                    if i == ps.len() {
                        assert(ps[j] == self.protocols_spec()[j]);
                    } else if j == ps.len() {
                        assert(ps[i] == self.protocols_spec()[i]);
                    }
                }
            }
        }
    }

    /// Sets field `key` to `value`, replacing the value of a field already so named.
    pub fn add_field(&mut self, key: &str, value: String)
        requires
            old(self).wf(),
        ensures
            final(self).wf(),
            final(self).fields_spec() == with_field(old(self).fields_spec(), key@, value@),
            final(self).protocols@ == old(self).protocols@,
            final(self).same_but_findings(*old(self)),
    {
        let ghost fs = self.fields_spec();
        let key_s = owned(key);
        let mut i: usize = 0;
        while i < self.fields.len()
            invariant
                key_s@ == key@,
                *self == *old(self),
                self.wf(),
                i <= self.fields@.len(),
                fs == self.fields_spec(),
                forall|j: int| 0 <= j < i ==> (#[trigger] self.fields@[j]).0@ != key@,
            decreases self.fields@.len() - i,
        {
            if self.fields[i].0 == key_s {
                assert(fs[i as int].0 == key@);
                proof {
                    let k = choose|k: int| 0 <= k < fs.len() && (#[trigger] fs[k]).0 == key@;
                    if k != i {
                        assert(self.fields@[k].0@ == self.fields@[i as int].0@);
                    }
                }
                let ghost f0 = self.fields@;
                self.fields.set(i, (key_s, value));
                assert(self.fields_spec() =~= fs.update(i as int, (key@, value@)));
                assert forall|a: int, b: int|
                    0 <= a < self.fields@.len() && 0 <= b < self.fields@.len() && a != b implies (#[trigger] self.fields@[a]).0@
                    != (#[trigger] self.fields@[b]).0@ by {
                    assert(f0[a].0@ != f0[b].0@);
                }
                return;
            }
            i = i + 1;
        }
        assert(!exists|j: int| 0 <= j < fs.len() && (#[trigger] fs[j]).0 == key@) by {
            assert forall|j: int| 0 <= j < fs.len() implies (#[trigger] fs[j]).0 != key@ by {
                assert(fs[j].0 == self.fields@[j].0@);
            }
        }
        let ghost f0 = self.fields@;
        self.fields.push((key_s, value));
        assert(self.fields_spec() =~= fs.push((key@, value@)));
    }

    /// The value of field `key`, if the session has one.
    pub fn field(&self, key: &str) -> (r: Option<&String>)
        ensures
            r matches Some(v) ==> exists|i: int| 0 <= i < self.fields@.len() && self.fields@[i].0@ == key@ && self.fields@[i].1 == *v,
            r is None ==> forall|i: int| 0 <= i < self.fields@.len() ==> (#[trigger] self.fields@[i]).0@ != key@,
    {
        let key_s = owned(key);
        let mut i: usize = 0;
        while i < self.fields.len()
            invariant
                key_s@ == key@,
                i <= self.fields@.len(),
                forall|j: int| 0 <= j < i ==> (#[trigger] self.fields@[j]).0@ != key@,
            decreases self.fields@.len() - i,
        {
            if self.fields[i].0 == key_s {
                return Some(&self.fields[i].1);
            }
            i = i + 1;
        }
        None
    }
}

/// Adding a protocol label keeps the labels there, in order, in front.
pub proof fn lemma_protocol_labels_grow(ps: Seq<Seq<char>>, name: Seq<char>)
    ensures
        with_protocol(ps, name).len() >= ps.len(),
        with_protocol(ps, name).take(ps.len() as int) == ps,
{
    assert(ps.push(name).take(ps.len() as int) =~= ps);
    assert(ps.take(ps.len() as int) =~= ps);
}

/// Adding a protocol label a second time changes nothing.
pub proof fn lemma_protocol_label_once(ps: Seq<Seq<char>>, name: Seq<char>)
    ensures
        with_protocol(with_protocol(ps, name), name) == with_protocol(ps, name),
        with_protocol(ps, name).contains(name),
{
    if !ps.contains(name) {
        assert(ps.push(name)[ps.len() as int] == name);
    }
}

} // verus!
