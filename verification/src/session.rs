//! Flow resolution: the registry of decoder prototypes and the table mapping
//! each flow key to its owned per-flow decoder instance.

use vstd::assert_seqs_equal;
use vstd::prelude::*;

use crate::flow::FlowKey;
use crate::PipelineError;

verus! {

/// The capability a per-flow protocol decoder offers the pipeline: it accepts
/// successive payload chunks together with a direction flag (0 for the
/// orientation that created the flow's session, 1 for the opposite one) and
/// maintains whatever internal state it needs. Concrete decoders are supplied
/// by the caller of the pipeline and are not part of this crate.
pub trait Decoder {
    fn accept(&mut self, data: &[u8], direction: u8);
}

/// Hands a non-empty payload chunk to a decoder; a zero-length chunk is a
/// no-op, not an error, and leaves the decoder untouched.
pub fn parse_data_as<D: Decoder>(parser: &mut D, i: &[u8], direction: u8)
    ensures
        i@.len() == 0 ==> *final(parser) == *old(parser),
{
    if i.len() == 0 {
        return ;
    }
    parser.accept(i, direction);
}

/// A read-only mapping from decoder-type name to a prototype decoder;
/// creating a decoder for a new flow clones the prototype registered under
/// the operator-selected name.
pub struct ParserRegistry<D> {
    entries: Vec<(String, D)>,
}

impl<D: Clone> ParserRegistry<D> {
    /// The registered decoder-type names, in registration order.
    pub closed spec fn names(self) -> Seq<Seq<char>> {
        Seq::new(self.entries@.len(), |i: int| self.entries@[i].0@)
    }

    /// Whether a decoder type of this name is registered.
    pub open spec fn knows(self, name: Seq<char>) -> bool {
        exists|i: int| 0 <= i < self.names().len() && self.names()[i] == name
    }

    pub fn new() -> (r: Self)
        ensures
            r.names() == Seq::<Seq<char>>::empty(),
    {
        let r = ParserRegistry { entries: Vec::new() };
        proof {
            assert(r.names() =~= Seq::<Seq<char>>::empty());
        }
        r
    }

    /// Adds a decoder type under `name`, with the prototype every flow of
    /// that type starts from.
    pub fn register(&mut self, name: String, prototype: D)
        ensures
            final(self).names() == old(self).names().push(name@),
    {
        let ghost n = name@;
        self.entries.push((name, prototype));
        proof {
            assert_seqs_equal!(self.names() == old(self).names().push(n));
        }
    }

    /// A freshly constructed decoder of the named type, or `UnknownDecoder`
    /// exactly when no such name is registered.
    pub fn create(&self, name: &String) -> (r: Result<D, PipelineError>)
        ensures
            r is Ok <==> self.knows(name@),
            r is Err ==> r == Err::<D, _>(PipelineError::UnknownDecoder),
    {
        let n = self.entries.len();
        let mut i: usize = 0;
        while i < n
            invariant
                n == self.entries@.len(),
                i <= n,
                forall|j: int| 0 <= j < i ==> self.names()[j] != name@,
            decreases n - i,
        {
            if self.entries[i].0 == *name {
                assert(self.names()[i as int] == name@);
                return Ok(self.entries[i].1.clone());
            }
            i = i + 1;
        }
        assert(!self.knows(name@));
        Err(PipelineError::UnknownDecoder)
    }
}

/// The table of live sessions: one owned decoder per bidirectional flow,
/// keyed by the flow key of the packet that created the session. Sessions
/// are never evicted during a run.
pub struct SessionTable<D> {
    entries: Vec<(FlowKey, D)>,
}

impl<D> SessionTable<D> {
    /// The session keys, in creation order.
    pub closed spec fn keys(self) -> Seq<FlowKey> {
        Seq::new(self.entries@.len(), |i: int| self.entries@[i].0)
    }

    /// The stored decoders, in creation order, aligned with `keys`.
    pub closed spec fn decoders(self) -> Seq<D> {
        Seq::new(self.entries@.len(), |i: int| self.entries@[i].1)
    }

    /// Whether a session is stored under exactly this key.
    pub open spec fn contains_key(self, k: FlowKey) -> bool {
        exists|i: int| 0 <= i < self.keys().len() && self.keys()[i] == k
    }

    /// At most one session per bidirectional flow: no key occurs twice, and
    /// no key's reverse is also a stored key.
    pub open spec fn wf(self) -> bool {
        forall|i: int, j: int|
            0 <= i < j < self.keys().len() ==> #[trigger] self.keys()[i] != #[trigger] self.keys()[j]
                && self.keys()[i] != self.keys()[j].spec_reverse()
    }

    /// The direction label a packet with this key is given: 0 when its key
    /// matches a stored key directly (or creates the session), 1 when only
    /// its reverse does.
    pub open spec fn spec_direction(self, k: FlowKey) -> u8 {
        if self.contains_key(k) {
            0
        } else if self.contains_key(k.spec_reverse()) {
            1
        } else {
            0
        }
    }

    /// The keys after a packet with key `k` has been resolved: unchanged when
    /// the flow is already known in either orientation, extended by `k` when
    /// the packet creates the session.
    pub open spec fn keys_after(self, k: FlowKey) -> Seq<FlowKey> {
        if self.contains_key(k) || self.contains_key(k.spec_reverse()) {
            self.keys()
        } else {
            self.keys().push(k)
        }
    }

    pub fn new() -> (r: Self)
        ensures
            r.keys() == Seq::<FlowKey>::empty(),
            r.decoders() == Seq::<D>::empty(),
            r.wf(),
    {
        let r = SessionTable { entries: Vec::new() };
        proof {
            assert(r.keys() =~= Seq::<FlowKey>::empty());
            assert(r.decoders() =~= Seq::<D>::empty());
        }
        r
    }

    pub fn len(&self) -> (r: usize)
        ensures
            r == self.keys().len(),
    {
        self.entries.len()
    }

    /// Direction-aware lookup: the stored session's index and the packet's
    /// direction label, or `None` when the flow is unknown in either
    /// orientation.
    pub fn lookup(&self, k: &FlowKey) -> (r: Option<(usize, u8)>)
        ensures
            self.contains_key(*k) ==> (r matches Some(p) && 0 <= p.0 < self.keys().len()
                && self.keys()[p.0 as int] == *k && p.1 == 0),
            !self.contains_key(*k) && self.contains_key(k.spec_reverse()) ==> (r matches Some(p)
                && 0 <= p.0 < self.keys().len() && self.keys()[p.0 as int] == k.spec_reverse()
                && p.1 == 1),
            !self.contains_key(*k) && !self.contains_key(k.spec_reverse()) ==> r is None,
    {
        match self.find(k) {
            Some(i) => Some((i, 0)),
            None => {
                let rev = k.get_reverse();
                match self.find(&rev) {
                    Some(i) => Some((i, 1)),
                    None => None,
                }
            },
        }
    }

    /// Linear scan for an exact key match.
    fn find(&self, k: &FlowKey) -> (r: Option<usize>)
        ensures
            r matches Some(i) ==> 0 <= i < self.keys().len() && self.keys()[i as int] == *k,
            r is None ==> !self.contains_key(*k),
    {
        let n = self.entries.len();
        let mut i: usize = 0;
        while i < n
            invariant
                n == self.entries@.len(),
                i <= n,
                forall|j: int| 0 <= j < i ==> self.keys()[j] != *k,
            decreases n - i,
        {
            if self.entries[i].0 == *k {
                assert(self.keys()[i as int] == *k);
                return Some(i);
            }
            i = i + 1;
        }
        None
    }

    /// Creates the session of a new flow, storing `d` under `k`.
    pub fn insert(&mut self, k: FlowKey, d: D) -> (idx: usize)
        requires
            !old(self).contains_key(k),
            !old(self).contains_key(k.spec_reverse()),
            old(self).wf(),
        ensures
            final(self).keys() == old(self).keys().push(k),
            final(self).decoders() == old(self).decoders().push(d),
            final(self).wf(),
            idx == old(self).keys().len(),
    {
        let idx = self.entries.len();
        self.entries.push((k, d));
        proof {
            assert_seqs_equal!(self.keys() == old(self).keys().push(k));
            assert_seqs_equal!(self.decoders() == old(self).decoders().push(d));
            assert forall|i: int, j: int|
                0 <= i < j < self.keys().len() implies (#[trigger] self.keys()[i])
                != (#[trigger] self.keys()[j]) && self.keys()[i]
                != self.keys()[j].spec_reverse() by {
                if j < old(self).keys().len() {
                    assert(old(self).keys()[i] == self.keys()[i]);
                } else {
                    assert(self.keys()[j] == k);
                    assert(old(self).keys()[i] == self.keys()[i]);
                    assert(!old(self).contains_key(k));
                    assert(!old(self).contains_key(k.spec_reverse()));
                }
            }
        }
        idx
    }

}

impl<D: Decoder> SessionTable<D> {
    /// Hands one payload chunk and its direction to the stored session's
    /// decoder. The set of sessions is unchanged, only the decoder at `idx`
    /// is touched — no other flow's decoder can be disturbed — and an empty
    /// chunk leaves the whole table untouched.
    pub fn feed(&mut self, idx: usize, data: &[u8], direction: u8)
        requires
            idx < old(self).keys().len(),
        ensures
            final(self).keys() == old(self).keys(),
            final(self).decoders().len() == old(self).decoders().len(),
            forall|j: int|
                0 <= j < old(self).decoders().len() && j != idx ==> final(self).decoders()[j]
                    == old(self).decoders()[j],
            data@.len() == 0 ==> *final(self) == *old(self),
    {
        if data.len() == 0 {
            return ;
        }
        let e = &mut self.entries[idx];
        parse_data_as(&mut e.1, data, direction);
        proof {
            assert_seqs_equal!(self.keys() == old(self).keys());
        }
    }
}

/// Stable session identity and direction labeling (with `wf`, the invariant
/// every table the pipeline builds maintains): once a packet with key `k` has
/// created a session, every later packet of the same flow resolves to that
/// session and creates nothing — packets oriented as the creator are labeled
/// direction 0, packets of the opposite orientation direction 1.
pub proof fn lemma_session_uniqueness<D>(t: SessionTable<D>, k: FlowKey)
    requires
        t.wf(),
        t.contains_key(k),
    ensures
        t.spec_direction(k) == 0,
        t.keys_after(k) == t.keys(),
        t.keys_after(k.spec_reverse()) == t.keys(),
        k != k.spec_reverse() ==> t.spec_direction(k.spec_reverse()) == 1,
{
    assert(k.spec_reverse().spec_reverse() == k);
    if k != k.spec_reverse() && t.contains_key(k.spec_reverse()) {
        let i = choose|i: int| 0 <= i < t.keys().len() && t.keys()[i] == k;
        let j = choose|j: int| 0 <= j < t.keys().len() && t.keys()[j] == k.spec_reverse();
        assert(i != j);
        if i < j {
            assert(t.keys()[i] != t.keys()[j].spec_reverse());
        } else {
            assert(t.keys()[j] != t.keys()[i].spec_reverse());
        }
        assert(false);
    }
}

} // verus!
