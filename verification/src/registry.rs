//! The voter registry: one-time registration of identities.
//!
//! The registry is an association list from an identity to the e-mail it
//! registered with; its abstract view is the map [`voters_map`]. Presence in
//! the registry is what "registered" means — there is no unregister
//! operation, and a second registration of the same identity is refused by
//! the engine.

use vstd::prelude::*;

verus! {

/// One registered identity and the e-mail recorded at registration.
pub struct Voter {
    pub addr: u64,
    pub email: String,
}

/// The abstract contents of a voter list: identity to registered e-mail.
pub open spec fn voters_map(vs: Seq<Voter>) -> Map<u64, Seq<char>>
    decreases vs.len(),
{
    if vs.len() == 0 {
        Map::empty()
    } else {
        voters_map(vs.drop_last()).insert(vs.last().addr, vs.last().email@)
    }
}

/// No identity appears twice in the list.
pub open spec fn voter_addrs_unique(vs: Seq<Voter>) -> bool {
    forall|i: int, j: int| 0 <= i < j < vs.len() ==> vs[i].addr != vs[j].addr
}

/// An identity is in the map exactly when some list entry carries it.
pub proof fn lemma_voters_map_domain(vs: Seq<Voter>, addr: u64)
    ensures
        voters_map(vs).contains_key(addr) <==> exists|i: int|
            0 <= i < vs.len() && vs[i].addr == addr,
    decreases vs.len(),
{
    if vs.len() > 0 {
        let prefix = vs.drop_last();
        lemma_voters_map_domain(prefix, addr);
        if vs.last().addr == addr {
            assert(vs[vs.len() - 1].addr == addr);
        } else {
            if exists|i: int| 0 <= i < vs.len() && vs[i].addr == addr {
                let i = choose|i: int| 0 <= i < vs.len() && vs[i].addr == addr;
                assert(prefix[i].addr == addr);
            }
            if exists|i: int| 0 <= i < prefix.len() && prefix[i].addr == addr {
                let i = choose|i: int| 0 <= i < prefix.len() && prefix[i].addr == addr;
                assert(vs[i].addr == addr);
            }
        }
    }
}

/// With unique identities, the map holds exactly the e-mail stored at an
/// entry's index.
pub proof fn lemma_voters_map_value(vs: Seq<Voter>, i: int)
    requires
        voter_addrs_unique(vs),
        0 <= i < vs.len(),
    ensures
        voters_map(vs).contains_key(vs[i].addr),
        voters_map(vs)[vs[i].addr] == vs[i].email@,
    decreases vs.len(),
{
    if i < vs.len() - 1 {
        let prefix = vs.drop_last();
        assert(voter_addrs_unique(prefix));
        lemma_voters_map_value(prefix, i);
        assert(vs[i].addr != vs.last().addr);
    }
}

/// Appending a fresh identity inserts it into the map and keeps the
/// identities unique.
pub proof fn lemma_voters_map_push(vs: Seq<Voter>, v: Voter)
    requires
        forall|i: int| 0 <= i < vs.len() ==> vs[i].addr != v.addr,
        voter_addrs_unique(vs),
    ensures
        voters_map(vs.push(v)) == voters_map(vs).insert(v.addr, v.email@),
        voter_addrs_unique(vs.push(v)),
{
    assert(vs.push(v).drop_last() =~= vs);
}

/// The registry of voters. Its view is the map from registered identity to
/// the e-mail given at registration.
pub struct VoterRegistry {
    pub voters: Vec<Voter>,
}

impl View for VoterRegistry {
    type V = Map<u64, Seq<char>>;

    open spec fn view(&self) -> Map<u64, Seq<char>> {
        voters_map(self.voters@)
    }
}

impl VoterRegistry {
    /// Identities are recorded at most once.
    pub open spec fn wf(&self) -> bool {
        voter_addrs_unique(self.voters@)
    }

    pub fn new() -> (r: VoterRegistry)
        ensures
            r.wf(),
            r@ == Map::<u64, Seq<char>>::empty(),
    {
        VoterRegistry { voters: Vec::new() }
    }

    /// Position of an identity's entry, if it has one.
    fn find_index(&self, addr: u64) -> (r: Option<usize>)
        ensures
            match r {
                Some(i) => i < self.voters@.len() && self.voters@[i as int].addr == addr,
                None => forall|i: int| 0 <= i < self.voters@.len() ==> self.voters@[i].addr != addr,
            },
    {
        let n = self.voters.len();
        let mut i: usize = 0;
        while i < n
            invariant
                i <= n,
                n == self.voters@.len(),
                forall|j: int| 0 <= j < i ==> self.voters@[j].addr != addr,
            decreases n - i,
        {
            if self.voters[i].addr == addr {
                return Some(i);
            }
            i = i + 1;
        }
        None
    }

    /// Whether the identity has registered.
    pub fn is_registered(&self, addr: u64) -> (r: bool)
        requires
            self.wf(),
        ensures
            r == self@.contains_key(addr),
    {
        proof {
            lemma_voters_map_domain(self.voters@, addr);
        }
        self.find_index(addr).is_some()
    }

    /// Records a registration. The caller guarantees the identity is new.
    pub fn insert(&mut self, addr: u64, email: String)
        requires
            old(self).wf(),
            !old(self)@.contains_key(addr),
        ensures
            final(self).wf(),
            final(self)@ == old(self)@.insert(addr, email@),
    {
        proof {
            lemma_voters_map_domain(self.voters@, addr);
            lemma_voters_map_push(self.voters@, Voter { addr, email: email });
        }
        self.voters.push(Voter { addr, email });
    }

    /// The e-mail an identity registered with, and whether it registered at
    /// all; an unregistered identity reads as an empty e-mail.
    pub fn lookup_email(&self, addr: u64) -> (r: (String, bool))
        requires
            self.wf(),
        ensures
            r.1 == self@.contains_key(addr),
            r.1 ==> r.0@ == self@[addr],
            !r.1 ==> r.0@ == Seq::<char>::empty(),
    {
        proof {
            lemma_voters_map_domain(self.voters@, addr);
        }
        match self.find_index(addr) {
            Some(i) => {
                proof {
                    lemma_voters_map_value(self.voters@, i as int);
                }
                (self.voters[i].email.clone(), true)
            },
            None => (String::new(), false),
        }
    }
}

} // verus!
