//! The voting engine: one aggregate owning all state, and the operations of
//! the voting protocol.
//!
//! [`QuadraticVoting`] owns the sessions, the voter registry, and every
//! ledger; the hosting environment passes the caller's identity and the
//! current logical time in as plain arguments. Each operation is a single
//! validate-then-apply transaction: every error is detected before any
//! mutation, so a failing call returns its tagged error with the state
//! unchanged, and a succeeding call applies its whole batch. The exact
//! outcome of each operation is a spec function over the aggregate's view
//! ([`register_outcome`], [`create_session_outcome`], [`vote_outcome`]), and
//! each operation's contract says it returns precisely that outcome.

use vstd::prelude::*;

use crate::cost::cost_of_weights;
use crate::cost::saturating_square;
use crate::errors::QuadraticVotingError;
use crate::registry::VoterRegistry;
use crate::session::PROPOSAL_QUERY_LIMIT;
use crate::session::ProposalView;
use crate::session::SESSION_PROPOSAL_CAPACITY;
use crate::session::Session;
use crate::session::SessionView;
use crate::session::proposals_of_pairs;
use crate::session::tally_results;

verus! {

/// The abstract state of the whole engine: the administrator, the sessions
/// in creation order (session id `i + 1` at index `i`), and the registered
/// voters.
#[verifier::ext_equal]
pub struct QuadraticVotingView {
    pub admin: u64,
    pub sessions: Seq<SessionView>,
    pub voters: Map<u64, Seq<char>>,
}

/// A session id is in use when it lies in `1..=session_count`.
pub open spec fn has_session(v: QuadraticVotingView, session_id: u64) -> bool {
    1 <= session_id && session_id as int <= v.sessions.len()
}

/// The session a valid id names.
pub open spec fn session_of(v: QuadraticVotingView, session_id: u64) -> SessionView {
    v.sessions[session_id as int - 1]
}

/// The session `create_session` brings into being: the given window, budget
/// and proposals, flagged active, with empty ledgers.
pub open spec fn new_session_view(
    creator: u64,
    now: u64,
    name: Seq<char>,
    description: Seq<char>,
    credits_per_voter: u8,
    duration_seconds: u64,
    proposals: Seq<ProposalView>,
) -> SessionView {
    SessionView {
        name,
        description,
        start_time: now,
        end_time: ((now as int + duration_seconds as int) as u128),
        credits_per_voter,
        active: true,
        creator,
        proposals,
        votes: Map::empty(),
        credits: Map::empty(),
    }
}

/// What `register_voter` returns: a second registration of the same identity
/// is refused as unauthorized.
pub open spec fn register_outcome(v: QuadraticVotingView, caller: u64) -> Result<
    (),
    QuadraticVotingError,
> {
    if v.voters.contains_key(caller) {
        Err(QuadraticVotingError::Unauthorized)
    } else {
        Ok(())
    }
}

/// What `create_session` returns: only the administrator may create, the
/// initial proposal list must be non-empty and within capacity, and success
/// yields the next sequential session id.
pub open spec fn create_session_outcome(
    v: QuadraticVotingView,
    caller: u64,
    n_proposals: int,
) -> Result<u64, QuadraticVotingError> {
    if caller != v.admin {
        Err(QuadraticVotingError::Unauthorized)
    } else if n_proposals == 0 || n_proposals > SESSION_PROPOSAL_CAPACITY {
        Err(QuadraticVotingError::InvalidProposalCount)
    } else {
        Ok(((v.sessions.len() + 1) as u64))
    }
}

/// The validation prefix of a vote: list lengths, registration, session
/// existence, votability — in that order, first failure wins.
pub open spec fn validate_vote_outcome(
    v: QuadraticVotingView,
    caller: u64,
    now: u64,
    session_id: u64,
    n_ids: int,
    n_weights: int,
) -> Result<(), QuadraticVotingError> {
    if n_ids != n_weights {
        Err(QuadraticVotingError::InvalidVoteCount)
    } else if !v.voters.contains_key(caller) {
        Err(QuadraticVotingError::VoterNotRegistered)
    } else if !has_session(v, session_id) {
        Err(QuadraticVotingError::SessionNotFound)
    } else if !session_of(v, session_id).votable(now) {
        Err(QuadraticVotingError::SessionNotActive)
    } else {
        Ok(())
    }
}

/// What `vote` returns: after the validation prefix, the voter's effective
/// balance must cover the batch's quadratic cost, and every proposal id must
/// be valid; then the batch is accepted.
pub open spec fn vote_outcome(
    v: QuadraticVotingView,
    caller: u64,
    now: u64,
    session_id: u64,
    proposal_ids: Seq<u8>,
    weights: Seq<u64>,
) -> Result<(), QuadraticVotingError> {
    match validate_vote_outcome(
        v,
        caller,
        now,
        session_id,
        proposal_ids.len() as int,
        weights.len() as int,
    ) {
        Err(e) => Err(e),
        Ok(u) => {
            let s = session_of(v, session_id);
            if (s.balance_of(caller) as u64) < cost_of_weights(weights) {
                Err(QuadraticVotingError::InsufficientCredits)
            } else if exists|i: int|
                0 <= i < proposal_ids.len() && !s.proposal_id_valid(proposal_ids[i]) {
                Err(QuadraticVotingError::ProposalNotFound)
            } else {
                Ok(())
            }
        },
    }
}

/// The state a successful `vote` leaves: every pair recorded (replacing
/// previous weights, tallies moved by the signed difference), and the
/// batch's cost debited from the voter's effective balance.
pub open spec fn vote_applied(
    v: QuadraticVotingView,
    caller: u64,
    session_id: u64,
    proposal_ids: Seq<u8>,
    weights: Seq<u64>,
) -> QuadraticVotingView {
    let s = session_of(v, session_id);
    let voted = s.apply_pairs(caller, proposal_ids, weights);
    let spent = cost_of_weights(weights);
    let debited = SessionView {
        credits: voted.credits.insert(caller, ((s.balance_of(caller) - spent) as u8)),
        ..voted
    };
    QuadraticVotingView { sessions: v.sessions.update(session_id as int - 1, debited), ..v }
}

/// The whole quadratic-voting state: administrator, sessions, registry.
///
/// Values are meant to be created with [`QuadraticVoting::constructor`] and
/// driven only through the methods; `wf` is the well-formedness every method
/// preserves.
pub struct QuadraticVoting {
    pub admin: u64,
    pub sessions: Vec<Session>,
    pub voters: VoterRegistry,
}

impl View for QuadraticVoting {
    type V = QuadraticVotingView;

    open spec fn view(&self) -> QuadraticVotingView {
        QuadraticVotingView {
            admin: self.admin,
            sessions: self.sessions@.map_values(|s: Session| s@),
            voters: self.voters@,
        }
    }
}

impl QuadraticVoting {
    /// Well-formedness: the registry and every session are well-formed.
    pub open spec fn wf(&self) -> bool {
        &&& self.voters.wf()
        &&& forall|i: int| 0 <= i < self.sessions@.len() ==> (#[trigger] self.sessions@[i]).wf()
    }

    /// Sets up an empty state with the given administrator.
    pub fn constructor(admin: u64) -> (s: QuadraticVoting)
        ensures
            s.wf(),
            s@ == (QuadraticVotingView {
                admin,
                sessions: Seq::empty(),
                voters: Map::empty(),
            }),
    {
        let s = QuadraticVoting {
            admin,
            sessions: Vec::new(),
            voters: VoterRegistry::new(),
        };
        proof {
            assert(s@ =~= (QuadraticVotingView {
                admin,
                sessions: Seq::empty(),
                voters: Map::empty(),
            }));
        }
        s
    }

    /// How many sessions have been created. Session ids run `1..=count`.
    pub fn session_count(&self) -> (n: u64)
        ensures
            n == self@.sessions.len(),
    {
        self.sessions.len() as u64
    }

    /// Registers the calling identity with an e-mail, once.
    pub fn register_voter(&mut self, caller: u64, email: String) -> (r: Result<
        (),
        QuadraticVotingError,
    >)
        requires
            old(self).wf(),
        ensures
            final(self).wf(),
            r == register_outcome(old(self)@, caller),
            r is Ok ==> final(self)@ == (QuadraticVotingView {
                voters: old(self)@.voters.insert(caller, email@),
                ..old(self)@
            }),
            r is Err ==> final(self)@ == old(self)@,
    {
        if self.voters.is_registered(caller) {
            return Err(QuadraticVotingError::Unauthorized);
        }
        self.voters.insert(caller, email);
        Ok(())
    }

    /// Creates a voting round: only the administrator may, the initial
    /// proposal list must be non-empty and within capacity, and the new
    /// session gets the next sequential id, the window `[now, now +
    /// duration)`, and the given per-voter budget. Callers keep the session
    /// count below `u64::MAX`, so the next id always exists.
    pub fn create_session(
        &mut self,
        caller: u64,
        now: u64,
        name: String,
        description: String,
        credits_per_voter: u8,
        duration_seconds: u64,
        initial_proposals: Vec<(String, String)>,
    ) -> (r: Result<u64, QuadraticVotingError>)
        requires
            old(self).wf(),
            old(self)@.sessions.len() < u64::MAX,
        ensures
            final(self).wf(),
            r == create_session_outcome(old(self)@, caller, initial_proposals@.len() as int),
            r is Ok ==> final(self)@ == (QuadraticVotingView {
                sessions: old(self)@.sessions.push(
                    new_session_view(
                        caller,
                        now,
                        name@,
                        description@,
                        credits_per_voter,
                        duration_seconds,
                        proposals_of_pairs(initial_proposals@),
                    ),
                ),
                ..old(self)@
            }),
            r is Err ==> final(self)@ == old(self)@,
    {
        if caller != self.admin {
            return Err(QuadraticVotingError::Unauthorized);
        }
        if initial_proposals.len() == 0 || initial_proposals.len() > SESSION_PROPOSAL_CAPACITY {
            return Err(QuadraticVotingError::InvalidProposalCount);
        }
        let session_id = self.sessions.len() as u64 + 1;
        let session = Session {
            name,
            description,
            start_time: now,
            end_time: (now as u128) + (duration_seconds as u128),
            credits_per_voter,
            active: true,
            creator: caller,
            proposals: Vec::new(),
            votes: Vec::new(),
            credits: Vec::new(),
        };
        proof {
            assert(session@.proposals =~= Seq::<ProposalView>::empty());
            assert(session@.votes =~= Map::<(u64, u8), u64>::empty());
            assert(session@.credits =~= Map::<u64, u8>::empty());
        }
        self.sessions.push(session);
        match self.add_proposals_to_session(session_id, initial_proposals) {
            Ok(u) => {},
            Err(e) => {
                return Err(e);
            },
        }
        proof {
            assert(self@ =~= (QuadraticVotingView {
                sessions: old(self)@.sessions.push(
                    new_session_view(
                        caller,
                        now,
                        name@,
                        description@,
                        credits_per_voter,
                        duration_seconds,
                        proposals_of_pairs(initial_proposals@),
                    ),
                ),
                ..old(self)@
            }));
        }
        Ok(session_id)
    }

    /// Appends proposals to an existing session, honoring the capacity
    /// bound; on overflow nothing is appended.
    fn add_proposals_to_session(
        &mut self,
        session_id: u64,
        proposals: Vec<(String, String)>,
    ) -> (r: Result<(), QuadraticVotingError>)
        requires
            old(self).wf(),
            has_session(old(self)@, session_id),
        ensures
            final(self).wf(),
            match r {
                Ok(u) => session_of(old(self)@, session_id).proposals.len() + proposals@.len()
                    <= SESSION_PROPOSAL_CAPACITY && final(self)@ == (QuadraticVotingView {
                    sessions: old(self)@.sessions.update(
                        session_id as int - 1,
                        (SessionView {
                            proposals: session_of(old(self)@, session_id).proposals
                                + proposals_of_pairs(proposals@),
                            ..session_of(old(self)@, session_id)
                        }),
                    ),
                    ..old(self)@
                }),
                Err(e) => e == QuadraticVotingError::InvalidProposalCount && session_of(
                    old(self)@,
                    session_id,
                ).proposals.len() + proposals@.len() > SESSION_PROPOSAL_CAPACITY && final(self)@
                    == old(self)@,
            },
    {
        // Calling `len` brings the fact that the vector's length fits in
        // `usize` into scope, so the id-to-index cast below is lossless.
        let _ = self.sessions.len();
        let idx = (session_id - 1) as usize;
        let ghost base = session_of(old(self)@, session_id);
        proof {
            assert(idx as int == session_id as int - 1);
            assert(old(self).sessions@[idx as int].wf());
            assert(old(self).sessions@[idx as int]@ == base);
        }
        let current = self.sessions[idx].proposals.len();
        if proposals.len() > SESSION_PROPOSAL_CAPACITY - current {
            return Err(QuadraticVotingError::InvalidProposalCount);
        }
        let s = &mut self.sessions[idx];
        s.add_proposal_batch(&proposals);
        proof {
            assert(self.sessions@[idx as int]@ == (SessionView {
                proposals: base.proposals + proposals_of_pairs(proposals@),
                ..base
            }));
            assert forall|j: int| 0 <= j < self.sessions@.len() implies (
            #[trigger] self.sessions@[j]).wf() by {
                if j != idx as int {
                    assert(self.sessions@[j] == old(self).sessions@[j]);
                }
            }
            assert(self@.sessions =~= old(self)@.sessions.update(
                session_id as int - 1,
                (SessionView { proposals: base.proposals + proposals_of_pairs(proposals@), ..base }),
            ));
            assert(self@ =~= (QuadraticVotingView {
                sessions: old(self)@.sessions.update(
                    session_id as int - 1,
                    (SessionView {
                        proposals: session_of(old(self)@, session_id).proposals
                            + proposals_of_pairs(proposals@),
                        ..session_of(old(self)@, session_id)
                    }),
                ),
                ..old(self)@
            }));
        }
        Ok(())
    }

    /// Runs the validation prefix of a vote in order: list lengths, voter
    /// registration, session existence, votability.
    fn validate_vote_inputs(
        &self,
        caller: u64,
        now: u64,
        session_id: u64,
        proposal_ids: &Vec<u8>,
        vote_counts: &Vec<u64>,
    ) -> (r: Result<(), QuadraticVotingError>)
        requires
            self.wf(),
        ensures
            r == validate_vote_outcome(
                self@,
                caller,
                now,
                session_id,
                proposal_ids@.len() as int,
                vote_counts@.len() as int,
            ),
    {
        if proposal_ids.len() != vote_counts.len() {
            return Err(QuadraticVotingError::InvalidVoteCount);
        }
        if !self.voters.is_registered(caller) {
            return Err(QuadraticVotingError::VoterNotRegistered);
        }
        let n = self.sessions.len();
        if session_id < 1 || session_id > n as u64 {
            return Err(QuadraticVotingError::SessionNotFound);
        }
        let idx = (session_id - 1) as usize;
        let s = &self.sessions[idx];
        if !(s.active && (now as u128) < s.end_time) {
            return Err(QuadraticVotingError::SessionNotActive);
        }
        Ok(())
    }

    /// The quadratic price of a weight list: the sum of the squared weights,
    /// accumulated with saturating arithmetic.
    pub fn calculate_quadratic_cost(&self, vote_counts: &Vec<u64>) -> (r: u64)
        ensures
            r == cost_of_weights(vote_counts@),
    {
        let n = vote_counts.len();
        let mut total: u64 = 0;
        let mut i: usize = 0;
        while i < n
            invariant
                i <= n,
                n == vote_counts@.len(),
                total == cost_of_weights(vote_counts@.take(i as int)),
            decreases n - i,
        {
            let sq = saturating_square(vote_counts[i]);
            proof {
                assert(vote_counts@.take(i as int + 1).drop_last() =~= vote_counts@.take(i as int));
                assert(vote_counts@.take(i as int + 1).last() == vote_counts@[i as int]);
            }
            total = total.saturating_add(sq);
            i = i + 1;
        }
        proof {
            assert(vote_counts@.take(n as int) =~= vote_counts@);
        }
        total
    }

    /// Resolves the voter's effective balance for the session — seeding the
    /// full budget if none is materialized yet — and checks it covers the
    /// cost.
    fn get_and_validate_voter_credits(
        &self,
        session_id: u64,
        caller: u64,
        total_credits_needed: u64,
    ) -> (r: Result<u8, QuadraticVotingError>)
        requires
            self.wf(),
            has_session(self@, session_id),
        ensures
            match r {
                Ok(c) => c == session_of(self@, session_id).balance_of(caller) && total_credits_needed
                    <= c as u64,
                Err(e) => e == QuadraticVotingError::InsufficientCredits && (session_of(
                    self@,
                    session_id,
                ).balance_of(caller) as u64) < total_credits_needed,
            },
    {
        // Calling `len` brings the fact that the vector's length fits in
        // `usize` into scope, so the id-to-index cast below is lossless.
        let _ = self.sessions.len();
        let idx = (session_id - 1) as usize;
        let voter_credits = self.sessions[idx].effective_credits(caller);
        if (voter_credits as u64) < total_credits_needed {
            return Err(QuadraticVotingError::InsufficientCredits);
        }
        Ok(voter_credits)
    }

    /// Validates every proposal id of the batch against the session, then
    /// records all pairs; nothing is recorded unless every id is valid.
    fn process_votes(
        &mut self,
        session_id: u64,
        caller: u64,
        proposal_ids: &Vec<u8>,
        vote_counts: &Vec<u64>,
    ) -> (r: Result<(), QuadraticVotingError>)
        requires
            old(self).wf(),
            has_session(old(self)@, session_id),
            proposal_ids@.len() == vote_counts@.len(),
        ensures
            final(self).wf(),
            match r {
                Ok(u) => (forall|i: int|
                    0 <= i < proposal_ids@.len() ==> session_of(
                        old(self)@,
                        session_id,
                    ).proposal_id_valid(proposal_ids@[i])) && final(self)@ == (QuadraticVotingView {
                    sessions: old(self)@.sessions.update(
                        session_id as int - 1,
                        session_of(old(self)@, session_id).apply_pairs(
                            caller,
                            proposal_ids@,
                            vote_counts@,
                        ),
                    ),
                    ..old(self)@
                }),
                Err(e) => e == QuadraticVotingError::ProposalNotFound && (exists|i: int|
                    0 <= i < proposal_ids@.len() && !session_of(
                        old(self)@,
                        session_id,
                    ).proposal_id_valid(proposal_ids@[i])) && final(self)@ == old(self)@,
            },
    {
        // Calling `len` brings the fact that the vector's length fits in
        // `usize` into scope, so the id-to-index cast below is lossless.
        let _ = self.sessions.len();
        let idx = (session_id - 1) as usize;
        let ghost base = session_of(old(self)@, session_id);
        proof {
            assert(idx as int == session_id as int - 1);
            assert(old(self).sessions@[idx as int].wf());
            assert(old(self).sessions@[idx as int]@ == base);
        }
        let count = self.sessions[idx].proposals.len();
        let m = proposal_ids.len();
        let mut i: usize = 0;
        while i < m
            invariant
                i <= m,
                m == proposal_ids@.len(),
                self.wf(),
                base == session_of(old(self)@, session_id),
                count == base.proposals.len(),
                forall|j: int| 0 <= j < i ==> base.proposal_id_valid(proposal_ids@[j]),
                *self == *old(self),
            decreases m - i,
        {
            let pid = proposal_ids[i];
            if pid < 1 || pid as usize > count {
                proof {
                    assert(!base.proposal_id_valid(proposal_ids@[i as int]));
                }
                return Err(QuadraticVotingError::ProposalNotFound);
            }
            i = i + 1;
        }
        let s = &mut self.sessions[idx];
        s.apply_all(caller, proposal_ids, vote_counts);
        proof {
            assert(self.sessions@[idx as int]@ == base.apply_pairs(
                caller,
                proposal_ids@,
                vote_counts@,
            ));
            assert forall|j: int| 0 <= j < self.sessions@.len() implies (
            #[trigger] self.sessions@[j]).wf() by {
                if j != idx as int {
                    assert(self.sessions@[j] == old(self).sessions@[j]);
                }
            }
            assert(self@.sessions =~= old(self)@.sessions.update(
                session_id as int - 1,
                base.apply_pairs(caller, proposal_ids@, vote_counts@),
            ));
            assert(self@ =~= (QuadraticVotingView {
                sessions: old(self)@.sessions.update(
                    session_id as int - 1,
                    session_of(old(self)@, session_id).apply_pairs(
                        caller,
                        proposal_ids@,
                        vote_counts@,
                    ),
                ),
                ..old(self)@
            }));
        }
        Ok(())
    }

    /// Debits the spent credits from the voter's balance and persists it.
    fn update_voter_credits(
        &mut self,
        session_id: u64,
        caller: u64,
        voter_credits: u8,
        total_credits_spent: u64,
    )
        requires
            old(self).wf(),
            has_session(old(self)@, session_id),
            total_credits_spent <= voter_credits as u64,
        ensures
            final(self).wf(),
            final(self)@ == (QuadraticVotingView {
                sessions: old(self)@.sessions.update(
                    session_id as int - 1,
                    (SessionView {
                        credits: session_of(old(self)@, session_id).credits.insert(
                            caller,
                            ((voter_credits - total_credits_spent) as u8),
                        ),
                        ..session_of(old(self)@, session_id)
                    }),
                ),
                ..old(self)@
            }),
    {
        // Calling `len` brings the fact that the vector's length fits in
        // `usize` into scope, so the id-to-index cast below is lossless.
        let _ = self.sessions.len();
        let idx = (session_id - 1) as usize;
        let ghost base = session_of(old(self)@, session_id);
        proof {
            assert(idx as int == session_id as int - 1);
            assert(old(self).sessions@[idx as int].wf());
            assert(old(self).sessions@[idx as int]@ == base);
        }
        let remaining = voter_credits.saturating_sub(total_credits_spent as u8);
        let s = &mut self.sessions[idx];
        s.record_credits(caller, remaining);
        proof {
            assert forall|j: int| 0 <= j < self.sessions@.len() implies (
            #[trigger] self.sessions@[j]).wf() by {
                if j != idx as int {
                    assert(self.sessions@[j] == old(self).sessions@[j]);
                }
            }
            assert(self@.sessions =~= old(self)@.sessions.update(
                session_id as int - 1,
                (SessionView { credits: base.credits.insert(caller, remaining), ..base }),
            ));
            assert(self@ =~= (QuadraticVotingView {
                sessions: old(self)@.sessions.update(
                    session_id as int - 1,
                    (SessionView {
                        credits: session_of(old(self)@, session_id).credits.insert(
                            caller,
                            ((voter_credits - total_credits_spent) as u8),
                        ),
                        ..session_of(old(self)@, session_id)
                    }),
                ),
                ..old(self)@
            }));
        }
    }

    /// Casts a batch of votes as one atomic transaction: validates the whole
    /// request, prices it, checks and seeds the voter's balance, records
    /// every pair (replacing previous weights), and debits the cost. Any
    /// failure leaves the state untouched.
    pub fn vote(
        &mut self,
        caller: u64,
        now: u64,
        session_id: u64,
        proposal_ids: Vec<u8>,
        vote_counts: Vec<u64>,
    ) -> (r: Result<(), QuadraticVotingError>)
        requires
            old(self).wf(),
        ensures
            final(self).wf(),
            r == vote_outcome(old(self)@, caller, now, session_id, proposal_ids@, vote_counts@),
            r is Ok ==> final(self)@ == vote_applied(
                old(self)@,
                caller,
                session_id,
                proposal_ids@,
                vote_counts@,
            ),
            r is Err ==> final(self)@ == old(self)@,
    {
        match self.validate_vote_inputs(caller, now, session_id, &proposal_ids, &vote_counts) {
            Ok(u) => {},
            Err(e) => {
                return Err(e);
            },
        }
        let total_credits_needed = self.calculate_quadratic_cost(&vote_counts);
        let voter_credits = match self.get_and_validate_voter_credits(
            session_id,
            caller,
            total_credits_needed,
        ) {
            Ok(c) => c,
            Err(e) => {
                return Err(e);
            },
        };
        let ghost mid = self@;
        match self.process_votes(session_id, caller, &proposal_ids, &vote_counts) {
            Ok(u) => {},
            Err(e) => {
                return Err(e);
            },
        }
        self.update_voter_credits(session_id, caller, voter_credits, total_credits_needed);
        proof {
            let applied = vote_applied(mid, caller, session_id, proposal_ids@, vote_counts@);
            assert(self@.sessions =~= applied.sessions);
            assert(self@ =~= applied);
        }
        Ok(())
    }

    /// Reads a session: name, description, start and end time, per-voter
    /// budget, active flag, creator, and proposal count.
    pub fn get_session(&self, session_id: u64) -> (r: Result<
        (String, String, u64, u128, u8, bool, u64, u8),
        QuadraticVotingError,
    >)
        requires
            self.wf(),
        ensures
            match r {
                Ok(info) => has_session(self@, session_id) && info.0@ == session_of(
                    self@,
                    session_id,
                ).name && info.1@ == session_of(self@, session_id).description && info.2
                    == session_of(self@, session_id).start_time && info.3 == session_of(
                    self@,
                    session_id,
                ).end_time && info.4 == session_of(self@, session_id).credits_per_voter && info.5
                    == session_of(self@, session_id).active && info.6 == session_of(
                    self@,
                    session_id,
                ).creator && info.7 == session_of(self@, session_id).proposals.len(),
                Err(e) => e == QuadraticVotingError::SessionNotFound && !has_session(
                    self@,
                    session_id,
                ),
            },
    {
        let n = self.sessions.len();
        if session_id < 1 || session_id > n as u64 {
            return Err(QuadraticVotingError::SessionNotFound);
        }
        let idx = (session_id - 1) as usize;
        let s = &self.sessions[idx];
        Ok(
            (
                s.name.clone(),
                s.description.clone(),
                s.start_time,
                s.end_time,
                s.credits_per_voter,
                s.active,
                s.creator,
                s.proposals.len() as u8,
            ),
        )
    }

    /// Reads one proposal of a session: title, description, and tally.
    pub fn get_proposal(&self, session_id: u64, proposal_id: u8) -> (r: Result<
        (String, String, u64),
        QuadraticVotingError,
    >)
        requires
            self.wf(),
        ensures
            match r {
                Ok(info) => has_session(self@, session_id) && session_of(
                    self@,
                    session_id,
                ).proposal_id_valid(proposal_id) && info.0@ == session_of(
                    self@,
                    session_id,
                ).proposals[proposal_id - 1].title && info.1@ == session_of(
                    self@,
                    session_id,
                ).proposals[proposal_id - 1].description && info.2 == session_of(
                    self@,
                    session_id,
                ).proposals[proposal_id - 1].vote_count,
                Err(e) => (e == QuadraticVotingError::SessionNotFound && !has_session(
                    self@,
                    session_id,
                )) || (e == QuadraticVotingError::ProposalNotFound && has_session(self@, session_id)
                    && !session_of(self@, session_id).proposal_id_valid(proposal_id)),
            },
    {
        let n = self.sessions.len();
        if session_id < 1 || session_id > n as u64 {
            return Err(QuadraticVotingError::SessionNotFound);
        }
        let idx = (session_id - 1) as usize;
        let s = &self.sessions[idx];
        if proposal_id < 1 || proposal_id as usize > s.proposals.len() {
            return Err(QuadraticVotingError::ProposalNotFound);
        }
        let p = &s.proposals[(proposal_id - 1) as usize];
        Ok((p.title.clone(), p.description.clone(), p.vote_count))
    }

    /// Reads the balance the ledger stores for a voter in a session; a voter
    /// whose balance was never materialized reads as zero.
    pub fn get_voter_session_credits(&self, session_id: u64, voter: u64) -> (r: Result<
        u8,
        QuadraticVotingError,
    >)
        requires
            self.wf(),
        ensures
            match r {
                Ok(c) => has_session(self@, session_id) && c == session_of(
                    self@,
                    session_id,
                ).stored_credits_of(voter),
                Err(e) => e == QuadraticVotingError::SessionNotFound && !has_session(
                    self@,
                    session_id,
                ),
            },
    {
        let n = self.sessions.len();
        if session_id < 1 || session_id > n as u64 {
            return Err(QuadraticVotingError::SessionNotFound);
        }
        let idx = (session_id - 1) as usize;
        Ok(self.sessions[idx].stored_credits(voter))
    }

    /// Reads the weight a voter currently assigns to a proposal; never having
    /// voted on it reads as zero.
    pub fn get_vote(&self, session_id: u64, voter: u64, proposal_id: u8) -> (r: Result<
        u64,
        QuadraticVotingError,
    >)
        requires
            self.wf(),
        ensures
            match r {
                Ok(w) => has_session(self@, session_id) && w == session_of(
                    self@,
                    session_id,
                ).weight_of(voter, proposal_id),
                Err(e) => e == QuadraticVotingError::SessionNotFound && !has_session(
                    self@,
                    session_id,
                ),
            },
    {
        let n = self.sessions.len();
        if session_id < 1 || session_id > n as u64 {
            return Err(QuadraticVotingError::SessionNotFound);
        }
        let idx = (session_id - 1) as usize;
        Ok(self.sessions[idx].lookup_weight(voter, proposal_id))
    }

    /// Lists a session's proposals as `(id, title, description, tally)`, in
    /// id order, returning at most [`PROPOSAL_QUERY_LIMIT`] entries even when
    /// more exist.
    pub fn get_session_proposals(&self, session_id: u64) -> (r: Result<
        Vec<(u8, String, String, u64)>,
        QuadraticVotingError,
    >)
        requires
            self.wf(),
        ensures
            match r {
                Ok(list) => has_session(self@, session_id) && list@.len()
                    <= PROPOSAL_QUERY_LIMIT && (session_of(self@, session_id).proposals.len()
                    <= PROPOSAL_QUERY_LIMIT ==> list@.len() == session_of(
                    self@,
                    session_id,
                ).proposals.len()) && (session_of(self@, session_id).proposals.len()
                    > PROPOSAL_QUERY_LIMIT ==> list@.len() == PROPOSAL_QUERY_LIMIT) && (forall|
                    j: int,
                |
                    0 <= j < list@.len() ==> (#[trigger] list@[j]).0 == j + 1 && list@[j].1@
                        == session_of(self@, session_id).proposals[j].title && list@[j].2@
                        == session_of(self@, session_id).proposals[j].description && list@[j].3
                        == session_of(self@, session_id).proposals[j].vote_count),
                Err(e) => e == QuadraticVotingError::SessionNotFound && !has_session(
                    self@,
                    session_id,
                ),
            },
    {
        let n = self.sessions.len();
        if session_id < 1 || session_id > n as u64 {
            return Err(QuadraticVotingError::SessionNotFound);
        }
        let idx = (session_id - 1) as usize;
        let s = &self.sessions[idx];
        let count = s.proposals.len();
        let limit = if count > PROPOSAL_QUERY_LIMIT {
            PROPOSAL_QUERY_LIMIT
        } else {
            count
        };
        let mut list: Vec<(u8, String, String, u64)> = Vec::new();
        let mut k: usize = 0;
        while k < limit
            invariant
                k <= limit,
                limit <= count,
                limit <= PROPOSAL_QUERY_LIMIT,
                count == s.proposals@.len(),
                count <= SESSION_PROPOSAL_CAPACITY,
                list@.len() == k,
                forall|j: int|
                    0 <= j < k ==> (#[trigger] list@[j]).0 == j + 1 && list@[j].1@
                        == s.proposals@[j]@.title && list@[j].2@ == s.proposals@[j]@.description
                        && list@[j].3 == s.proposals@[j]@.vote_count,
            decreases limit - k,
        {
            let p = &s.proposals[k];
            list.push(((k as u8) + 1, p.title.clone(), p.description.clone(), p.vote_count));
            k = k + 1;
        }
        Ok(list)
    }

    /// Summarizes a session's standings: `(winner id, proposal count,
    /// highest tally, total tally)`. The winner is the lowest-numbered
    /// proposal holding the strict maximum, or `0` while no votes are cast.
    pub fn get_session_results(&self, session_id: u64) -> (r: Result<
        (u8, u8, u64, u64),
        QuadraticVotingError,
    >)
        requires
            self.wf(),
        ensures
            match r {
                Ok(res) => has_session(self@, session_id) && res.0 == tally_results(
                    session_of(self@, session_id).proposals,
                ).0 && res.1 == session_of(self@, session_id).proposals.len() && res.2
                    == tally_results(session_of(self@, session_id).proposals).1 && res.3
                    == tally_results(session_of(self@, session_id).proposals).2,
                Err(e) => e == QuadraticVotingError::SessionNotFound && !has_session(
                    self@,
                    session_id,
                ),
            },
    {
        let n = self.sessions.len();
        if session_id < 1 || session_id > n as u64 {
            return Err(QuadraticVotingError::SessionNotFound);
        }
        let idx = (session_id - 1) as usize;
        let s = &self.sessions[idx];
        let count = s.proposals.len();
        let ghost pv = s@.proposals;
        let mut winner: u8 = 0;
        let mut max_votes: u64 = 0;
        let mut total_votes: u64 = 0;
        let mut k: usize = 0;
        proof {
            assert(pv.take(0) =~= Seq::<ProposalView>::empty());
        }
        while k < count
            invariant
                k <= count,
                count == s.proposals@.len(),
                count <= SESSION_PROPOSAL_CAPACITY,
                pv == s@.proposals,
                (winner, max_votes, total_votes) == tally_results(pv.take(k as int)),
            decreases count - k,
        {
            let vc = s.proposals[k].vote_count;
            proof {
                assert(pv.take(k as int + 1).drop_last() =~= pv.take(k as int));
                assert(pv.take(k as int + 1).last() == pv[k as int]);
            }
            total_votes = total_votes.saturating_add(vc);
            if vc > max_votes {
                max_votes = vc;
                winner = (k as u8) + 1;
            }
            k = k + 1;
        }
        proof {
            assert(pv.take(count as int) =~= pv);
        }
        Ok((winner, count as u8, max_votes, total_votes))
    }

    /// Whether a session exists and is votable at the given time: flagged
    /// active and before its end time.
    pub fn is_session_active(&self, session_id: u64, now: u64) -> (r: bool)
        requires
            self.wf(),
        ensures
            r == (has_session(self@, session_id) && session_of(self@, session_id).votable(now)),
    {
        let n = self.sessions.len();
        if session_id < 1 || session_id > n as u64 {
            return false;
        }
        let idx = (session_id - 1) as usize;
        let s = &self.sessions[idx];
        s.active && (now as u128) < s.end_time
    }

    /// Reads a voter: the e-mail registered under the identity (empty if
    /// none) and whether the identity has registered.
    pub fn get_voter(&self, voter: u64) -> (r: (String, bool))
        requires
            self.wf(),
        ensures
            r.1 == self@.voters.contains_key(voter),
            r.1 ==> r.0@ == self@.voters[voter],
            !r.1 ==> r.0@ == Seq::<char>::empty(),
    {
        self.voters.lookup_email(voter)
    }
}

} // verus!
