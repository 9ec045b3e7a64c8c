use vstd::prelude::*;

use crate::errors::{Decision, OpError};

verus! {

/// One recorded vote: the voter's identity, the choice (0 is against,
/// anything else is for), and the logical time at which it was cast.
pub struct Vote {
    pub address: String,
    pub vote: u8,
    pub time_of_vote: u64,
}

/// Mathematical image of a [`Vote`].
#[verifier::ext_equal]
pub struct VoteView {
    pub address: Seq<char>,
    pub vote: u8,
    pub time_of_vote: u64,
}

impl View for Vote {
    type V = VoteView;

    open spec fn view(&self) -> VoteView {
        VoteView { address: self.address@, vote: self.vote, time_of_vote: self.time_of_vote }
    }
}

impl DeepView for Vote {
    type V = VoteView;

    open spec fn deep_view(&self) -> VoteView {
        self.view()
    }
}

impl Vote {
    pub fn new() -> (v: Vote)
        ensures
            v@ == (VoteView { address: Seq::<char>::empty(), vote: 0, time_of_vote: 0 }),
    {
        let v = Vote { address: String::new(), vote: 0, time_of_vote: 0 };
        proof {
            assert(v@ =~= VoteView { address: Seq::<char>::empty(), vote: 0, time_of_vote: 0 });
        }
        v
    }
}

impl Clone for Vote {
    fn clone(&self) -> (r: Self)
        ensures
            r@ == self@,
    {
        Vote { address: self.address.clone(), vote: self.vote, time_of_vote: self.time_of_vote }
    }
}

/// Whether some entry of `list` reads as the identity `who`.
pub open spec fn contains_name(list: Seq<Seq<char>>, who: Seq<char>) -> bool {
    exists|i: int| 0 <= i < list.len() && list[i] == who
}

/// Linear scan for an identity in a list of identities.
pub fn contains_voter(list: &Vec<String>, who: &String) -> (r: bool)
    ensures
        r == contains_name(list.deep_view(), who@),
{
    let mut k: usize = 0;
    while k < list.len()
        invariant
            k <= list@.len(),
            forall|i: int| 0 <= i < k ==> list.deep_view()[i] != who@,
        decreases list@.len() - k,
    {
        if list[k] == *who {
            proof {
                assert(list.deep_view()[k as int] == who@);
            }
            return true;
        }
        k = k + 1;
    }
    false
}

/// How many of the recorded votes are in favour.
pub open spec fn count_for(votes: Seq<VoteView>) -> int
    decreases votes.len(),
{
    if votes.len() == 0 {
        0
    } else {
        count_for(votes.drop_last()) + if votes.last().vote != 0 {
            1int
        } else {
            0int
        }
    }
}

/// How many of the recorded votes are against.
pub open spec fn count_against(votes: Seq<VoteView>) -> int
    decreases votes.len(),
{
    if votes.len() == 0 {
        0
    } else {
        count_against(votes.drop_last()) + if votes.last().vote == 0 {
            1int
        } else {
            0int
        }
    }
}

/// The per-proposal vote accumulator: counters, the voter list used for the
/// one-vote-per-identity check, and the ordered list of cast votes.
pub struct Tally {
    pub votes_for: u32,
    pub votes_against: u32,
    pub list_voters: Vec<String>,
    pub votes: Vec<Vote>,
}

/// Mathematical image of a [`Tally`].
#[verifier::ext_equal]
pub struct TallyView {
    pub votes_for: u32,
    pub votes_against: u32,
    pub list_voters: Seq<Seq<char>>,
    pub votes: Seq<VoteView>,
}

impl View for Tally {
    type V = TallyView;

    open spec fn view(&self) -> TallyView {
        TallyView {
            votes_for: self.votes_for,
            votes_against: self.votes_against,
            list_voters: self.list_voters.deep_view(),
            votes: self.votes.deep_view(),
        }
    }
}

impl DeepView for Tally {
    type V = TallyView;

    open spec fn deep_view(&self) -> TallyView {
        self.view()
    }
}

impl TallyView {
    /// Internal consistency: the counters agree with the recorded votes,
    /// the voter list mirrors the votes one to one, and no identity
    /// appears twice in the voter list.
    pub open spec fn wf(self) -> bool {
        &&& self.votes_for as int == count_for(self.votes)
        &&& self.votes_against as int == count_against(self.votes)
        &&& self.votes_for as int + self.votes_against as int == self.votes.len()
        &&& self.list_voters.len() == self.votes.len()
        &&& forall|i: int| 0 <= i < self.votes.len() ==> self.list_voters[i] == self.votes[i].address
        &&& forall|i: int, j: int|
            0 <= i < j < self.list_voters.len() ==> self.list_voters[i] != self.list_voters[j]
    }

    pub open spec fn empty() -> TallyView {
        TallyView {
            votes_for: 0,
            votes_against: 0,
            list_voters: Seq::empty(),
            votes: Seq::empty(),
        }
    }
}

/// The outcome `Tally::cast` reports: a duplicate identity is refused,
/// anything else is accepted.
pub open spec fn cast_err(t: TallyView, caller: Seq<char>) -> Result<(), OpError> {
    if contains_name(t.list_voters, caller) {
        Err(OpError::DuplicateVote)
    } else {
        Ok(())
    }
}

/// The tally after `Tally::cast`: unchanged on a refused duplicate, and
/// extended by exactly the new vote otherwise.
pub open spec fn cast_next(t: TallyView, caller: Seq<char>, now: u64, choice: u8) -> TallyView {
    if contains_name(t.list_voters, caller) {
        t
    } else {
        TallyView {
            votes_for: if choice != 0 {
                (t.votes_for + 1) as u32
            } else {
                t.votes_for
            },
            votes_against: if choice == 0 {
                (t.votes_against + 1) as u32
            } else {
                t.votes_against
            },
            list_voters: t.list_voters.push(caller),
            votes: t.votes.push((VoteView { address: caller, vote: choice, time_of_vote: now })),
        }
    }
}

/// The decision rule: pending until strictly after the deadline; accepted
/// exactly when the votes in favour strictly outnumber the votes against.
pub open spec fn decision(votes_for: u32, votes_against: u32, deadline: u64, now: u64) -> Decision {
    if now <= deadline {
        Decision::Pending
    } else if votes_for > votes_against {
        Decision::Accepted
    } else {
        Decision::Rejected
    }
}

impl Tally {
    pub fn new() -> (t: Tally)
        ensures
            t@ == TallyView::empty(),
            t@.wf(),
    {
        let t = Tally {
            votes_for: 0,
            votes_against: 0,
            list_voters: Vec::new(),
            votes: Vec::new(),
        };
        proof {
            assert(t@ =~= TallyView::empty());
        }
        t
    }

    /// Records one vote, or refuses it. Success is owed exactly when the
    /// caller has not voted on this tally before.
    pub fn cast(&mut self, caller: String, now: u64, choice: u8) -> (r: Result<(), OpError>)
        requires
            old(self)@.wf(),
            old(self)@.votes.len() < u32::MAX,
        ensures
            final(self)@ == cast_next(old(self)@, caller@, now, choice),
            r == cast_err(old(self)@, caller@),
            final(self)@.wf(),
    {
        if contains_voter(&self.list_voters, &caller) {
            return Err(OpError::DuplicateVote);
        }
        let ghost pre = self@;
        let v = Vote { address: caller.clone(), vote: choice, time_of_vote: now };
        self.votes.push(v);
        if choice == 0 {
            self.votes_against = self.votes_against + 1;
        } else {
            self.votes_for = self.votes_for + 1;
        }
        self.list_voters.push(caller);
        proof {
            assert(self.votes.deep_view() =~= pre.votes.push(
                (VoteView { address: caller@, vote: choice, time_of_vote: now }),
            ));
            assert(self.list_voters.deep_view() =~= pre.list_voters.push(caller@));
            assert(self@ =~= cast_next(pre, caller@, now, choice));
            assert(self@.votes.drop_last() =~= pre.votes);
        }
        Ok(())
    }

    /// Reads the tally against the deadline: pending until the deadline has
    /// strictly passed, then accepted exactly on a strict majority in favour.
    pub fn decide(&self, deadline: u64, now: u64) -> (d: Decision)
        ensures
            d == decision(self.votes_for, self.votes_against, deadline, now),
    {
        if now <= deadline {
            Decision::Pending
        } else if self.votes_for > self.votes_against {
            Decision::Accepted
        } else {
            Decision::Rejected
        }
    }
}

impl Clone for Tally {
    fn clone(&self) -> (r: Self)
        ensures
            r@ == self@,
    {
        let r = Tally {
            votes_for: self.votes_for,
            votes_against: self.votes_against,
            list_voters: self.list_voters.clone(),
            votes: self.votes.clone(),
        };
        proof {
            assert(r.list_voters.deep_view() =~= self.list_voters.deep_view());
            assert(r.votes.deep_view() =~= self.votes.deep_view());
            assert(r@ =~= self@);
        }
        r
    }
}

/// Law: voting is one-shot per identity. If a vote by `caller` was accepted
/// on some tally, then a second vote by the same identity on the resulting
/// tally is refused with `DuplicateVote`, whatever its time and choice.
pub proof fn lemma_vote_at_most_once(
    t: TallyView,
    caller: Seq<char>,
    now: u64,
    choice: u8,
)
    requires
        cast_err(t, caller) == Ok::<(), OpError>(()),
    ensures
        cast_err(cast_next(t, caller, now, choice), caller) == Err::<(), OpError>(
            OpError::DuplicateVote,
        ),
{
    let t2 = cast_next(t, caller, now, choice);
    assert(t2.list_voters[t.list_voters.len() as int] == caller);
}

/// Law: no proposal reads as accepted at or before its deadline; strictly
/// after the deadline it reads as accepted exactly when the votes in favour
/// strictly outnumber the votes against (a tie rejects).
pub proof fn lemma_decision_gated_by_deadline(
    votes_for: u32,
    votes_against: u32,
    deadline: u64,
    now: u64,
)
    ensures
        now <= deadline ==> decision(votes_for, votes_against, deadline, now)
            != Decision::Accepted,
        now > deadline ==> (decision(votes_for, votes_against, deadline, now)
            == Decision::Accepted <==> votes_for > votes_against),
{
}

/// A deadline resolved from a creation time and a duration given in days,
/// hours and minutes, at a per-variant scale for each unit.
pub open spec fn end_time_of(
    creation: u64,
    dd: u64,
    dh: u64,
    dm: u64,
    day: u64,
    hour: u64,
    min: u64,
) -> int {
    creation + dd * day + dh * hour + dm * min
}

/// Resolves a duration to its deadline timestamp, refusing one that does
/// not fit the timestamp width.
pub fn checked_end_time(
    creation: u64,
    dd: u64,
    dh: u64,
    dm: u64,
    day: u64,
    hour: u64,
    min: u64,
) -> (r: Option<u64>)
    ensures
        match r {
            Some(t) => t == end_time_of(creation, dd, dh, dm, day, hour, min),
            None => end_time_of(creation, dd, dh, dm, day, hour, min) > u64::MAX,
        },
{
    let d = dd.checked_mul(day)?;
    let h = dh.checked_mul(hour)?;
    let m = dm.checked_mul(min)?;
    let s = creation.checked_add(d)?;
    let s = s.checked_add(h)?;
    s.checked_add(m)
}

} // verus!
