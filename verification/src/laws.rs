//! The laws of the voting protocol, as proved statements about the outcome
//! and transition functions the engine's contracts are written against.
//!
//! The cost engine's own law — the saturating fold equals the clamped
//! mathematical sum of squares — is
//! [`crate::cost::lemma_cost_of_weights_is_clamped_sum`].

use vstd::prelude::*;

use crate::cost::cost_of_weights;
use crate::engine::QuadraticVotingView;
use crate::engine::create_session_outcome;
use crate::engine::has_session;
use crate::engine::session_of;
use crate::engine::vote_applied;
use crate::engine::vote_outcome;
use crate::errors::QuadraticVotingError;
use crate::session::SessionView;

verus! {

/// A session created with an empty initial-proposal list is always refused
/// as `InvalidProposalCount`: even the administrator, for whom the earlier
/// authorization check passes, cannot create an empty session. (A
/// non-administrator fails the authorization check first.)
pub proof fn lemma_create_session_rejects_empty(v: QuadraticVotingView, caller: u64)
    requires
        caller == v.admin,
    ensures
        create_session_outcome(v, caller, 0) == Err::<u64, QuadraticVotingError>(
            QuadraticVotingError::InvalidProposalCount,
        ),
{
}

/// A vote against a session id not in use fails `SessionNotFound`, whatever
/// the proposal ids and weights and whatever the session ledgers hold. The
/// two checks that run earlier must pass: the lists have equal length and
/// the voter is registered.
pub proof fn lemma_vote_missing_session(
    v: QuadraticVotingView,
    caller: u64,
    now: u64,
    session_id: u64,
    proposal_ids: Seq<u8>,
    weights: Seq<u64>,
)
    requires
        proposal_ids.len() == weights.len(),
        v.voters.contains_key(caller),
        !has_session(v, session_id),
    ensures
        vote_outcome(v, caller, now, session_id, proposal_ids, weights) == Err::<
            (),
            QuadraticVotingError,
        >(QuadraticVotingError::SessionNotFound),
{
}

/// A vote by an unregistered voter fails `VoterNotRegistered` — even against
/// a session that exists and is votable, and before any session state is
/// consulted at all. The length check runs earlier and must pass.
pub proof fn lemma_vote_unregistered(
    v: QuadraticVotingView,
    caller: u64,
    now: u64,
    session_id: u64,
    proposal_ids: Seq<u8>,
    weights: Seq<u64>,
)
    requires
        proposal_ids.len() == weights.len(),
        !v.voters.contains_key(caller),
    ensures
        vote_outcome(v, caller, now, session_id, proposal_ids, weights) == Err::<
            (),
            QuadraticVotingError,
        >(QuadraticVotingError::VoterNotRegistered),
{
}

/// A vote cast at or after the session's end time fails `SessionNotActive`,
/// whether or not the session is still flagged active. The earlier checks
/// must pass: lists of equal length, a registered voter, an existing
/// session.
pub proof fn lemma_vote_after_end_time(
    v: QuadraticVotingView,
    caller: u64,
    now: u64,
    session_id: u64,
    proposal_ids: Seq<u8>,
    weights: Seq<u64>,
)
    requires
        proposal_ids.len() == weights.len(),
        v.voters.contains_key(caller),
        has_session(v, session_id),
        (now as u128) >= session_of(v, session_id).end_time,
    ensures
        vote_outcome(v, caller, now, session_id, proposal_ids, weights) == Err::<
            (),
            QuadraticVotingError,
        >(QuadraticVotingError::SessionNotActive),
{
}

/// A vote whose proposal-id list and weight list differ in length fails
/// `InvalidVoteCount`, before any other check and for every state. Together
/// with `vote`'s contract — every error leaves the state equal to the old
/// state — the call changes nothing.
pub proof fn lemma_vote_length_mismatch(
    v: QuadraticVotingView,
    caller: u64,
    now: u64,
    session_id: u64,
    proposal_ids: Seq<u8>,
    weights: Seq<u64>,
)
    requires
        proposal_ids.len() != weights.len(),
    ensures
        vote_outcome(v, caller, now, session_id, proposal_ids, weights) == Err::<
            (),
            QuadraticVotingError,
        >(QuadraticVotingError::InvalidVoteCount),
{
}

/// A voter's first vote in a session is checked against the full per-voter
/// budget — the balance is seeded on first use — and a successful first
/// vote stores as the remaining balance exactly that budget minus the
/// quadratic cost of the submitted weights. (A later vote is charged the
/// full cost of its own weight set again, so after a revote the balance is
/// the budget minus the sum of both charges, not the cost of the latest
/// weights alone.)
pub proof fn lemma_first_vote_seeds_balance(
    v: QuadraticVotingView,
    caller: u64,
    now: u64,
    session_id: u64,
    proposal_ids: Seq<u8>,
    weights: Seq<u64>,
)
    requires
        has_session(v, session_id),
        !session_of(v, session_id).credits.contains_key(caller),
        vote_outcome(v, caller, now, session_id, proposal_ids, weights) is Ok,
    ensures
        session_of(v, session_id).balance_of(caller) == session_of(
            v,
            session_id,
        ).credits_per_voter,
        session_of(
            vote_applied(v, caller, session_id, proposal_ids, weights),
            session_id,
        ).credits.contains_key(caller),
        session_of(
            vote_applied(v, caller, session_id, proposal_ids, weights),
            session_id,
        ).credits[caller] == session_of(v, session_id).credits_per_voter - cost_of_weights(
            weights,
        ),
{
}

/// Recording a batch of exactly one pair is recording that one pair.
pub proof fn lemma_apply_pairs_singleton(s: SessionView, voter: u64, pid: u8, w: u64)
    ensures
        s.apply_pairs(voter, seq![pid], seq![w]) == s.apply_one(voter, pid, w),
{
    assert(seq![pid].drop_first() =~= Seq::<u8>::empty());
    assert(seq![w].drop_first() =~= Seq::<u64>::empty());
    let s1 = s.apply_one(voter, pid, w);
    assert(s1.apply_pairs(voter, Seq::<u8>::empty(), Seq::<u64>::empty()) == s1);
    assert(s.apply_pairs(voter, seq![pid], seq![w]) == s1.apply_pairs(
        voter,
        Seq::<u8>::empty(),
        Seq::<u64>::empty(),
    ));
}

/// Resubmission replaces, never accumulates, through the whole transaction:
/// a successful vote of weight `w1` on one proposal followed by a second
/// successful vote of weight `w2` on the same proposal leaves the recorded
/// weight at `w2` alone, and the tally at its starting value moved by
/// `w2 - w0` (where `w0` was the weight recorded before both calls) — never
/// at `w1 + w2`. Stated where the tally arithmetic stays in `u64` range, so
/// the saturating steps are exact.
pub proof fn lemma_revote_through_vote(
    v: QuadraticVotingView,
    caller: u64,
    now1: u64,
    now2: u64,
    session_id: u64,
    pid: u8,
    w1: u64,
    w2: u64,
)
    requires
        has_session(v, session_id),
        session_of(v, session_id).weight_of(caller, pid) <= session_of(
            v,
            session_id,
        ).proposals[pid - 1].vote_count,
        session_of(v, session_id).proposals[pid - 1].vote_count - session_of(
            v,
            session_id,
        ).weight_of(caller, pid) + w1 <= u64::MAX,
        session_of(v, session_id).proposals[pid - 1].vote_count - session_of(
            v,
            session_id,
        ).weight_of(caller, pid) + w2 <= u64::MAX,
        vote_outcome(v, caller, now1, session_id, seq![pid], seq![w1]) is Ok,
        vote_outcome(
            vote_applied(v, caller, session_id, seq![pid], seq![w1]),
            caller,
            now2,
            session_id,
            seq![pid],
            seq![w2],
        ) is Ok,
    ensures
        ({
            let twice = vote_applied(
                vote_applied(v, caller, session_id, seq![pid], seq![w1]),
                caller,
                session_id,
                seq![pid],
                seq![w2],
            );
            &&& session_of(twice, session_id).weight_of(caller, pid) == w2
            &&& session_of(twice, session_id).proposals[pid - 1].vote_count == session_of(
                v,
                session_id,
            ).proposals[pid - 1].vote_count - session_of(v, session_id).weight_of(caller, pid) + w2
        }),
{
    let s = session_of(v, session_id);
    assert(s.proposal_id_valid(pid));
    lemma_apply_pairs_singleton(s, caller, pid, w1);
    let once = vote_applied(v, caller, session_id, seq![pid], seq![w1]);
    let s1 = session_of(once, session_id);
    lemma_apply_pairs_singleton(s1, caller, pid, w2);
    lemma_revote_replaces(s, caller, pid, w1, w2);
    // The debit between the two calls touches only the credit ledger, so the
    // second recording reads the same weights and tallies either way.
    assert(s1.votes == s.apply_one(caller, pid, w1).votes);
    assert(s1.proposals == s.apply_one(caller, pid, w1).proposals);
    assert(s1.apply_one(caller, pid, w2).proposals == s.apply_one(caller, pid, w1).apply_one(
        caller,
        pid,
        w2,
    ).proposals);
    assert(s1.apply_one(caller, pid, w2).votes == s.apply_one(caller, pid, w1).apply_one(
        caller,
        pid,
        w2,
    ).votes);
}

/// Resubmission replaces, never accumulates: after recording weight `w1` and
/// then weight `w2` on the same proposal, the recorded weight is `w2` alone,
/// and the tally has moved from its starting value by `w2 - w0` (where `w0`
/// was the weight recorded before both calls) — the second weight is not
/// added on top of the first. Stated where the tally arithmetic stays in
/// `u64` range, so the saturating steps are exact.
pub proof fn lemma_revote_replaces(s: SessionView, voter: u64, pid: u8, w1: u64, w2: u64)
    requires
        s.proposal_id_valid(pid),
        s.weight_of(voter, pid) <= s.proposals[pid - 1].vote_count,
        s.proposals[pid - 1].vote_count - s.weight_of(voter, pid) + w1 <= u64::MAX,
        s.proposals[pid - 1].vote_count - s.weight_of(voter, pid) + w2 <= u64::MAX,
    ensures
        s.apply_one(voter, pid, w1).apply_one(voter, pid, w2).weight_of(voter, pid) == w2,
        s.apply_one(voter, pid, w1).apply_one(voter, pid, w2).proposals[pid - 1].vote_count
            == s.proposals[pid - 1].vote_count - s.weight_of(voter, pid) + w2,
{
    let s1 = s.apply_one(voter, pid, w1);
    assert(s1.weight_of(voter, pid) == w1);
    assert(s1.proposals[pid - 1].vote_count == s.proposals[pid - 1].vote_count - s.weight_of(
        voter,
        pid,
    ) + w1);
}

} // verus!
