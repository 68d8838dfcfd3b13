//! Sessions, proposals, and the per-session vote and credit ledgers.
//!
//! A session is a bounded-time voting round. It owns its proposals (dense
//! local ids `1..=proposal_count`), the weights each voter currently assigns
//! to each proposal, and each voter's remaining credit balance. The ledgers
//! are association lists with unique keys; their abstract views are the maps
//! [`votes_map`] and [`credits_map`]. [`SessionView::apply_one`] and
//! [`SessionView::apply_pairs`] say abstractly what recording a batch of
//! votes does: each recorded weight replaces the voter's previous weight on
//! that proposal, and the proposal's tally moves by the signed difference,
//! saturating at the `u64` bounds.

use vstd::prelude::*;

use crate::cost::clamp_u64;

verus! {

/// The most proposals a session may ever hold; local ids stay in `1..=255`
/// and fit in `u8`.
pub const SESSION_PROPOSAL_CAPACITY: usize = 255;

/// The most entries a bulk proposal query returns, to bound response cost.
pub const PROPOSAL_QUERY_LIMIT: usize = 100;

/// One proposal: immutable title and description, and the running tally of
/// the weights currently assigned to it.
pub struct Proposal {
    pub title: String,
    pub description: String,
    pub vote_count: u64,
}

/// The abstract content of a [`Proposal`].
#[verifier::ext_equal]
pub struct ProposalView {
    pub title: Seq<char>,
    pub description: Seq<char>,
    pub vote_count: u64,
}

impl View for Proposal {
    type V = ProposalView;

    open spec fn view(&self) -> ProposalView {
        ProposalView { title: self.title@, description: self.description@, vote_count: self.vote_count }
    }
}

/// The weight one voter currently assigns to one proposal.
#[derive(Clone, Copy)]
pub struct VoteRecord {
    pub voter: u64,
    pub proposal_id: u8,
    pub weight: u64,
}

/// One voter's remaining credit balance in a session. An entry exists only
/// once the voter's balance has been materialized by a first vote.
#[derive(Clone, Copy)]
pub struct CreditEntry {
    pub voter: u64,
    pub remaining: u8,
}

/// The abstract contents of a vote ledger: `(voter, proposal id)` to weight.
pub open spec fn votes_map(rs: Seq<VoteRecord>) -> Map<(u64, u8), u64>
    decreases rs.len(),
{
    if rs.len() == 0 {
        Map::empty()
    } else {
        votes_map(rs.drop_last()).insert(
            (rs.last().voter, rs.last().proposal_id),
            rs.last().weight,
        )
    }
}

/// No `(voter, proposal id)` pair appears twice in the ledger.
pub open spec fn vote_keys_unique(rs: Seq<VoteRecord>) -> bool {
    forall|i: int, j: int|
        0 <= i < j < rs.len() ==> !(rs[i].voter == rs[j].voter && rs[i].proposal_id
            == rs[j].proposal_id)
}

/// The abstract contents of a credit ledger: voter to remaining balance.
pub open spec fn credits_map(es: Seq<CreditEntry>) -> Map<u64, u8>
    decreases es.len(),
{
    if es.len() == 0 {
        Map::empty()
    } else {
        credits_map(es.drop_last()).insert(es.last().voter, es.last().remaining)
    }
}

/// No voter appears twice in the credit ledger.
pub open spec fn credit_keys_unique(es: Seq<CreditEntry>) -> bool {
    forall|i: int, j: int| 0 <= i < j < es.len() ==> es[i].voter != es[j].voter
}

/// A key is in the vote map exactly when some record carries it.
pub proof fn lemma_votes_map_domain(rs: Seq<VoteRecord>, voter: u64, pid: u8)
    ensures
        votes_map(rs).contains_key((voter, pid)) <==> exists|i: int|
            0 <= i < rs.len() && rs[i].voter == voter && rs[i].proposal_id == pid,
    decreases rs.len(),
{
    if rs.len() > 0 {
        let prefix = rs.drop_last();
        lemma_votes_map_domain(prefix, voter, pid);
        if rs.last().voter == voter && rs.last().proposal_id == pid {
            assert(rs[rs.len() - 1].voter == voter && rs[rs.len() - 1].proposal_id == pid);
        } else {
            if exists|i: int| 0 <= i < rs.len() && rs[i].voter == voter && rs[i].proposal_id == pid {
                let i = choose|i: int|
                    0 <= i < rs.len() && rs[i].voter == voter && rs[i].proposal_id == pid;
                assert(prefix[i].voter == voter && prefix[i].proposal_id == pid);
            }
            if exists|i: int| 0 <= i < prefix.len() && prefix[i].voter == voter
                && prefix[i].proposal_id == pid {
                let i = choose|i: int|
                    0 <= i < prefix.len() && prefix[i].voter == voter && prefix[i].proposal_id
                        == pid;
                assert(rs[i].voter == voter && rs[i].proposal_id == pid);
            }
        }
    }
}

/// With unique keys, the map holds exactly the weight stored at a record's
/// index.
pub proof fn lemma_votes_map_value(rs: Seq<VoteRecord>, i: int)
    requires
        vote_keys_unique(rs),
        0 <= i < rs.len(),
    ensures
        votes_map(rs).contains_key((rs[i].voter, rs[i].proposal_id)),
        votes_map(rs)[(rs[i].voter, rs[i].proposal_id)] == rs[i].weight,
    decreases rs.len(),
{
    if i < rs.len() - 1 {
        let prefix = rs.drop_last();
        assert(vote_keys_unique(prefix));
        lemma_votes_map_value(prefix, i);
        assert(!(rs[i].voter == rs.last().voter && rs[i].proposal_id == rs.last().proposal_id));
    }
}

/// Overwriting the record that holds a key updates the map at that key and
/// keeps the keys unique.
pub proof fn lemma_votes_map_update(rs: Seq<VoteRecord>, i: int, r: VoteRecord)
    requires
        vote_keys_unique(rs),
        0 <= i < rs.len(),
        rs[i].voter == r.voter,
        rs[i].proposal_id == r.proposal_id,
    ensures
        votes_map(rs.update(i, r)) == votes_map(rs).insert((r.voter, r.proposal_id), r.weight),
        vote_keys_unique(rs.update(i, r)),
    decreases rs.len(),
{
    let updated = rs.update(i, r);
    if i == rs.len() - 1 {
        assert(updated.drop_last() =~= rs.drop_last());
        assert(votes_map(updated) =~= votes_map(rs).insert((r.voter, r.proposal_id), r.weight));
    } else {
        let prefix = rs.drop_last();
        assert(vote_keys_unique(prefix));
        lemma_votes_map_update(prefix, i, r);
        assert(updated.drop_last() =~= prefix.update(i, r));
        assert(!(rs.last().voter == r.voter && rs.last().proposal_id == r.proposal_id));
        assert(votes_map(updated) =~= votes_map(rs).insert((r.voter, r.proposal_id), r.weight));
    }
}

/// Appending a record with a fresh key inserts it into the map and keeps the
/// keys unique.
pub proof fn lemma_votes_map_push(rs: Seq<VoteRecord>, r: VoteRecord)
    requires
        vote_keys_unique(rs),
        forall|i: int|
            0 <= i < rs.len() ==> !(rs[i].voter == r.voter && rs[i].proposal_id == r.proposal_id),
    ensures
        votes_map(rs.push(r)) == votes_map(rs).insert((r.voter, r.proposal_id), r.weight),
        vote_keys_unique(rs.push(r)),
{
    assert(rs.push(r).drop_last() =~= rs);
}

/// A voter is in the credit map exactly when some entry carries it.
pub proof fn lemma_credits_map_domain(es: Seq<CreditEntry>, voter: u64)
    ensures
        credits_map(es).contains_key(voter) <==> exists|i: int|
            0 <= i < es.len() && es[i].voter == voter,
    decreases es.len(),
{
    if es.len() > 0 {
        let prefix = es.drop_last();
        lemma_credits_map_domain(prefix, voter);
        if es.last().voter == voter {
            assert(es[es.len() - 1].voter == voter);
        } else {
            if exists|i: int| 0 <= i < es.len() && es[i].voter == voter {
                let i = choose|i: int| 0 <= i < es.len() && es[i].voter == voter;
                assert(prefix[i].voter == voter);
            }
            if exists|i: int| 0 <= i < prefix.len() && prefix[i].voter == voter {
                let i = choose|i: int| 0 <= i < prefix.len() && prefix[i].voter == voter;
                assert(es[i].voter == voter);
            }
        }
    }
}

/// With unique voters, the map holds exactly the balance stored at an entry's
/// index.
pub proof fn lemma_credits_map_value(es: Seq<CreditEntry>, i: int)
    requires
        credit_keys_unique(es),
        0 <= i < es.len(),
    ensures
        credits_map(es).contains_key(es[i].voter),
        credits_map(es)[es[i].voter] == es[i].remaining,
    decreases es.len(),
{
    if i < es.len() - 1 {
        let prefix = es.drop_last();
        assert(credit_keys_unique(prefix));
        lemma_credits_map_value(prefix, i);
        assert(es[i].voter != es.last().voter);
    }
}

/// Overwriting the entry that holds a voter updates the map at that voter and
/// keeps the voters unique.
pub proof fn lemma_credits_map_update(es: Seq<CreditEntry>, i: int, e: CreditEntry)
    requires
        credit_keys_unique(es),
        0 <= i < es.len(),
        es[i].voter == e.voter,
    ensures
        credits_map(es.update(i, e)) == credits_map(es).insert(e.voter, e.remaining),
        credit_keys_unique(es.update(i, e)),
    decreases es.len(),
{
    let updated = es.update(i, e);
    if i == es.len() - 1 {
        assert(updated.drop_last() =~= es.drop_last());
        assert(credits_map(updated) =~= credits_map(es).insert(e.voter, e.remaining));
    } else {
        let prefix = es.drop_last();
        assert(credit_keys_unique(prefix));
        lemma_credits_map_update(prefix, i, e);
        assert(updated.drop_last() =~= prefix.update(i, e));
        assert(es.last().voter != e.voter);
        assert(credits_map(updated) =~= credits_map(es).insert(e.voter, e.remaining));
    }
}

/// Appending an entry for a fresh voter inserts it into the map and keeps the
/// voters unique.
pub proof fn lemma_credits_map_push(es: Seq<CreditEntry>, e: CreditEntry)
    requires
        credit_keys_unique(es),
        forall|i: int| 0 <= i < es.len() ==> es[i].voter != e.voter,
    ensures
        credits_map(es.push(e)) == credits_map(es).insert(e.voter, e.remaining),
        credit_keys_unique(es.push(e)),
{
    assert(es.push(e).drop_last() =~= es);
}

/// The proposals a list of `(title, description)` pairs creates: sequential
/// entries with zero tallies.
pub open spec fn proposals_of_pairs(pairs: Seq<(String, String)>) -> Seq<ProposalView> {
    pairs.map_values(
        |p: (String, String)| ProposalView { title: p.0@, description: p.1@, vote_count: 0u64 },
    )
}

/// Folds a proposal list into `(winner id, highest tally, total tally)`,
/// scanning in id order. The winner is the lowest id holding the strict
/// maximum, or `0` while every tally is zero; the total saturates.
pub open spec fn tally_results(ps: Seq<ProposalView>) -> (u8, u64, u64)
    decreases ps.len(),
{
    if ps.len() == 0 {
        (0u8, 0u64, 0u64)
    } else {
        let prior = tally_results(ps.drop_last());
        let vc = ps.last().vote_count;
        let total = clamp_u64(prior.2 + vc);
        if vc > prior.1 {
            ((ps.len() as u8), vc, total)
        } else {
            (prior.0, prior.1, total)
        }
    }
}

/// One voting round: a time window, a per-voter credit budget, the proposal
/// list, and the round's vote and credit ledgers.
pub struct Session {
    pub name: String,
    pub description: String,
    pub start_time: u64,
    pub end_time: u128,
    pub credits_per_voter: u8,
    pub active: bool,
    pub creator: u64,
    pub proposals: Vec<Proposal>,
    pub votes: Vec<VoteRecord>,
    pub credits: Vec<CreditEntry>,
}

/// The abstract content of a [`Session`]: proposals as a sequence (local id
/// `i + 1` at index `i`), ledgers as maps.
#[verifier::ext_equal]
pub struct SessionView {
    pub name: Seq<char>,
    pub description: Seq<char>,
    pub start_time: u64,
    pub end_time: u128,
    pub credits_per_voter: u8,
    pub active: bool,
    pub creator: u64,
    pub proposals: Seq<ProposalView>,
    pub votes: Map<(u64, u8), u64>,
    pub credits: Map<u64, u8>,
}

impl View for Session {
    type V = SessionView;

    open spec fn view(&self) -> SessionView {
        SessionView {
            name: self.name@,
            description: self.description@,
            start_time: self.start_time,
            end_time: self.end_time,
            credits_per_voter: self.credits_per_voter,
            active: self.active,
            creator: self.creator,
            proposals: self.proposals@.map_values(|p: Proposal| p@),
            votes: votes_map(self.votes@),
            credits: credits_map(self.credits@),
        }
    }
}

impl SessionView {
    /// A local proposal id is valid when it lies in `1..=proposal_count`.
    pub open spec fn proposal_id_valid(self, pid: u8) -> bool {
        1 <= pid && pid as int <= self.proposals.len()
    }

    /// The weight the voter currently assigns to the proposal; never having
    /// voted on it reads as weight zero.
    pub open spec fn weight_of(self, voter: u64, pid: u8) -> u64 {
        if self.votes.contains_key((voter, pid)) {
            self.votes[(voter, pid)]
        } else {
            0u64
        }
    }

    /// The balance the ledger reports for a voter: the stored balance, or
    /// zero while none has been materialized.
    pub open spec fn stored_credits_of(self, voter: u64) -> u8 {
        if self.credits.contains_key(voter) {
            self.credits[voter]
        } else {
            0u8
        }
    }

    /// The balance a vote is checked against: the stored balance, or the full
    /// per-voter budget on the voter's first vote in this session.
    pub open spec fn balance_of(self, voter: u64) -> u8 {
        if self.credits.contains_key(voter) {
            self.credits[voter]
        } else {
            self.credits_per_voter
        }
    }

    /// A session is votable while it is flagged active and the clock has not
    /// reached its end time.
    pub open spec fn votable(self, now: u64) -> bool {
        self.active && (now as u128) < self.end_time
    }

    /// Recording one `(proposal, weight)` pair: the weight replaces the
    /// voter's previous weight on that proposal, and the tally moves by the
    /// signed difference, saturating at the `u64` bounds.
    pub open spec fn apply_one(self, voter: u64, pid: u8, w: u64) -> SessionView {
        let prev = self.weight_of(voter, pid);
        let i = pid - 1;
        let tally = self.proposals[i as int].vote_count;
        let new_tally = clamp_u64(clamp_u64(tally - prev) + w);
        SessionView {
            proposals: self.proposals.update(
                i as int,
                ProposalView { vote_count: new_tally, ..self.proposals[i as int] },
            ),
            votes: self.votes.insert((voter, pid), w),
            ..self
        }
    }

    /// Recording a whole batch, first pair first. A proposal hit twice in one
    /// batch ends at its last weight.
    pub open spec fn apply_pairs(self, voter: u64, pids: Seq<u8>, ws: Seq<u64>) -> SessionView
        decreases pids.len(),
    {
        if pids.len() == 0 {
            self
        } else {
            self.apply_one(voter, pids[0], ws[0]).apply_pairs(
                voter,
                pids.drop_first(),
                ws.drop_first(),
            )
        }
    }
}

impl Session {
    /// Well-formedness: the proposal list respects the capacity, and the two
    /// ledgers hold each key at most once.
    pub open spec fn wf(&self) -> bool {
        &&& self.proposals@.len() <= SESSION_PROPOSAL_CAPACITY
        &&& vote_keys_unique(self.votes@)
        &&& credit_keys_unique(self.credits@)
    }

    /// Position of the voter's record for a proposal, if one exists.
    fn find_vote_index(&self, voter: u64, pid: u8) -> (r: Option<usize>)
        ensures
            match r {
                Some(i) => i < self.votes@.len() && self.votes@[i as int].voter == voter
                    && self.votes@[i as int].proposal_id == pid,
                None => forall|i: int|
                    0 <= i < self.votes@.len() ==> !(self.votes@[i].voter == voter
                        && self.votes@[i].proposal_id == pid),
            },
    {
        let n = self.votes.len();
        let mut i: usize = 0;
        while i < n
            invariant
                i <= n,
                n == self.votes@.len(),
                forall|j: int|
                    0 <= j < i ==> !(self.votes@[j].voter == voter && self.votes@[j].proposal_id
                        == pid),
            decreases n - i,
        {
            if self.votes[i].voter == voter && self.votes[i].proposal_id == pid {
                return Some(i);
            }
            i = i + 1;
        }
        None
    }

    /// The weight the voter currently assigns to the proposal (zero if none
    /// is recorded).
    pub fn lookup_weight(&self, voter: u64, pid: u8) -> (w: u64)
        requires
            self.wf(),
        ensures
            w == self@.weight_of(voter, pid),
    {
        match self.find_vote_index(voter, pid) {
            Some(i) => {
                proof {
                    lemma_votes_map_value(self.votes@, i as int);
                }
                self.votes[i].weight
            },
            None => {
                proof {
                    lemma_votes_map_domain(self.votes@, voter, pid);
                }
                0
            },
        }
    }

    /// Stores the voter's weight for a proposal, replacing any previous one.
    fn record_vote(&mut self, voter: u64, pid: u8, w: u64)
        requires
            old(self).wf(),
        ensures
            final(self).wf(),
            final(self)@ == (SessionView {
                votes: old(self)@.votes.insert((voter, pid), w),
                ..old(self)@
            }),
    {
        let r = VoteRecord { voter, proposal_id: pid, weight: w };
        match self.find_vote_index(voter, pid) {
            Some(i) => {
                proof {
                    lemma_votes_map_update(self.votes@, i as int, r);
                }
                self.votes.set(i, r);
            },
            None => {
                proof {
                    lemma_votes_map_push(self.votes@, r);
                }
                self.votes.push(r);
            },
        }
    }

    /// Position of the voter's credit entry, if one exists.
    fn find_credit_index(&self, voter: u64) -> (r: Option<usize>)
        ensures
            match r {
                Some(i) => i < self.credits@.len() && self.credits@[i as int].voter == voter,
                None => forall|i: int|
                    0 <= i < self.credits@.len() ==> self.credits@[i].voter != voter,
            },
    {
        let n = self.credits.len();
        let mut i: usize = 0;
        while i < n
            invariant
                i <= n,
                n == self.credits@.len(),
                forall|j: int| 0 <= j < i ==> self.credits@[j].voter != voter,
            decreases n - i,
        {
            if self.credits[i].voter == voter {
                return Some(i);
            }
            i = i + 1;
        }
        None
    }

    /// The balance the ledger reports: the stored balance, or zero while none
    /// has been materialized.
    pub fn stored_credits(&self, voter: u64) -> (c: u8)
        requires
            self.wf(),
        ensures
            c == self@.stored_credits_of(voter),
    {
        match self.find_credit_index(voter) {
            Some(i) => {
                proof {
                    lemma_credits_map_value(self.credits@, i as int);
                }
                self.credits[i].remaining
            },
            None => {
                proof {
                    lemma_credits_map_domain(self.credits@, voter);
                }
                0
            },
        }
    }

    /// The balance a vote is checked against: the stored balance, or the full
    /// per-voter budget on the voter's first vote in this session.
    pub fn effective_credits(&self, voter: u64) -> (c: u8)
        requires
            self.wf(),
        ensures
            c == self@.balance_of(voter),
    {
        match self.find_credit_index(voter) {
            Some(i) => {
                proof {
                    lemma_credits_map_value(self.credits@, i as int);
                }
                self.credits[i].remaining
            },
            None => {
                proof {
                    lemma_credits_map_domain(self.credits@, voter);
                }
                self.credits_per_voter
            },
        }
    }

    /// Stores the voter's remaining balance, replacing any previous one.
    pub fn record_credits(&mut self, voter: u64, remaining: u8)
        requires
            old(self).wf(),
        ensures
            final(self).wf(),
            final(self)@ == (SessionView {
                credits: old(self)@.credits.insert(voter, remaining),
                ..old(self)@
            }),
    {
        let e = CreditEntry { voter, remaining };
        match self.find_credit_index(voter) {
            Some(i) => {
                proof {
                    lemma_credits_map_update(self.credits@, i as int, e);
                }
                self.credits.set(i, e);
            },
            None => {
                proof {
                    lemma_credits_map_push(self.credits@, e);
                }
                self.credits.push(e);
            },
        }
    }

    /// Records one `(proposal, weight)` pair as [`SessionView::apply_one`]
    /// describes: the weight replaces the previous one and the tally moves by
    /// the signed difference, saturating.
    pub fn apply_vote_pair(&mut self, voter: u64, pid: u8, w: u64)
        requires
            old(self).wf(),
            old(self)@.proposal_id_valid(pid),
        ensures
            final(self).wf(),
            final(self)@ == old(self)@.apply_one(voter, pid, w),
    {
        let prev = self.lookup_weight(voter, pid);
        let idx = (pid - 1) as usize;
        let tally = self.proposals[idx].vote_count;
        let new_tally = tally.saturating_sub(prev).saturating_add(w);
        let p = &mut self.proposals[idx];
        p.vote_count = new_tally;
        proof {
            assert(self.proposals@.map_values(|q: Proposal| q@) =~= old(self)@.proposals.update(
                idx as int,
                ProposalView { vote_count: new_tally, ..old(self)@.proposals[idx as int] },
            ));
        }
        self.record_vote(voter, pid, w);
        proof {
            assert(final(self)@ =~= old(self)@.apply_one(voter, pid, w));
        }
    }

    /// Records a whole batch of pairs, first pair first.
    pub fn apply_all(&mut self, voter: u64, proposal_ids: &Vec<u8>, weights: &Vec<u64>)
        requires
            old(self).wf(),
            proposal_ids@.len() == weights@.len(),
            forall|i: int|
                0 <= i < proposal_ids@.len() ==> old(self)@.proposal_id_valid(proposal_ids@[i]),
        ensures
            final(self).wf(),
            final(self)@ == old(self)@.apply_pairs(voter, proposal_ids@, weights@),
    {
        let n = proposal_ids.len();
        let mut i: usize = 0;
        proof {
            assert(proposal_ids@.skip(0) =~= proposal_ids@);
            assert(weights@.skip(0) =~= weights@);
        }
        while i < n
            invariant
                i <= n,
                n == proposal_ids@.len(),
                n == weights@.len(),
                self.wf(),
                self@.proposals.len() == old(self)@.proposals.len(),
                forall|j: int| 0 <= j < n ==> self@.proposal_id_valid(proposal_ids@[j]),
                old(self)@.apply_pairs(voter, proposal_ids@, weights@) == self@.apply_pairs(
                    voter,
                    proposal_ids@.skip(i as int),
                    weights@.skip(i as int),
                ),
            decreases n - i,
        {
            proof {
                assert(proposal_ids@.skip(i as int).drop_first() =~= proposal_ids@.skip(
                    i as int + 1,
                ));
                assert(weights@.skip(i as int).drop_first() =~= weights@.skip(i as int + 1));
            }
            self.apply_vote_pair(voter, proposal_ids[i], weights[i]);
            i = i + 1;
        }
        proof {
            assert(proposal_ids@.skip(n as int) =~= Seq::<u8>::empty());
            assert(weights@.skip(n as int) =~= Seq::<u64>::empty());
        }
    }

    /// Appends a batch of `(title, description)` pairs as sequential
    /// proposals with zero tallies, in order.
    pub fn add_proposal_batch(&mut self, pairs: &Vec<(String, String)>)
        requires
            old(self).wf(),
            old(self).proposals@.len() + pairs@.len() <= SESSION_PROPOSAL_CAPACITY,
        ensures
            final(self).wf(),
            final(self)@ == (SessionView {
                proposals: old(self)@.proposals + proposals_of_pairs(pairs@),
                ..old(self)@
            }),
    {
        let n = pairs.len();
        let mut k: usize = 0;
        proof {
            assert(proposals_of_pairs(pairs@.take(0)) =~= Seq::<ProposalView>::empty());
            assert(old(self)@.proposals + proposals_of_pairs(pairs@.take(0)) =~= old(
                self,
            )@.proposals);
            assert(self@ =~= (SessionView {
                proposals: old(self)@.proposals + proposals_of_pairs(pairs@.take(0)),
                ..old(self)@
            }));
        }
        while k < n
            invariant
                k <= n,
                n == pairs@.len(),
                old(self).proposals@.len() + n <= SESSION_PROPOSAL_CAPACITY,
                self.wf(),
                self@.proposals.len() == old(self)@.proposals.len() + k,
                self@ == (SessionView {
                    proposals: old(self)@.proposals + proposals_of_pairs(pairs@.take(k as int)),
                    ..old(self)@
                }),
            decreases n - k,
        {
            let title = pairs[k].0.clone();
            let description = pairs[k].1.clone();
            self.add_proposal(title, description);
            proof {
                assert(proposals_of_pairs(pairs@.take(k as int + 1)) =~= proposals_of_pairs(
                    pairs@.take(k as int),
                ).push(
                    ProposalView {
                        title: pairs@[k as int].0@,
                        description: pairs@[k as int].1@,
                        vote_count: 0u64,
                    },
                ));
                assert(self@ =~= (SessionView {
                    proposals: old(self)@.proposals + proposals_of_pairs(
                        pairs@.take(k as int + 1),
                    ),
                    ..old(self)@
                }));
            }
            k = k + 1;
        }
        proof {
            assert(pairs@.take(n as int) =~= pairs@);
        }
    }

    /// Appends one proposal with the next local id and a zero tally.
    pub fn add_proposal(&mut self, title: String, description: String)
        requires
            old(self).wf(),
            old(self).proposals@.len() < SESSION_PROPOSAL_CAPACITY,
        ensures
            final(self).wf(),
            final(self)@ == (SessionView {
                proposals: old(self)@.proposals.push(
                    ProposalView { title: title@, description: description@, vote_count: 0u64 },
                ),
                ..old(self)@
            }),
    {
        let ghost t = title@;
        let ghost d = description@;
        self.proposals.push(Proposal { title, description, vote_count: 0 });
        proof {
            assert(self.proposals@.map_values(|q: Proposal| q@) =~= old(self)@.proposals.push(
                ProposalView { title: t, description: d, vote_count: 0u64 },
            ));
        }
    }
}

} // verus!
