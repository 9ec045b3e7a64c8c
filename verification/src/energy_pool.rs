use vstd::prelude::*;

use crate::errors::{Decision, OpError};
use crate::platform::{DAY_TICKS, HOUR_TICKS, MIN_TICKS};
use crate::remote::{RemoteCall, RemoteCallView};
use crate::tally::{
    cast_err, cast_next, contains_name, contains_voter, decision, end_time_of, checked_end_time,
    Tally, TallyView,
};

verus! {

/// Base-currency scale: one token of a proposal's amount is paid out as
/// this many minimal units.
pub const NEAR_SCALE: u128 = 1000000000000000000000000;

/// A treasury proposal: pay `amount` tokens to `benificiary` once the
/// voting window has elapsed.
pub struct Proposals {
    pub title: String,
    pub description: String,
    pub proposal_creator: String,
    pub amount: u128,
    pub benificiary: String,
    pub time_of_creation: u64,
    pub duration_days: u64,
    pub duration_hours: u64,
    pub duration_min: u64,
    pub tally: Tally,
    pub finalized: bool,
}

/// Mathematical image of a treasury [`Proposals`].
#[verifier::ext_equal]
pub struct ProposalsView {
    pub title: Seq<char>,
    pub description: Seq<char>,
    pub proposal_creator: Seq<char>,
    pub amount: u128,
    pub benificiary: Seq<char>,
    pub time_of_creation: u64,
    pub duration_days: u64,
    pub duration_hours: u64,
    pub duration_min: u64,
    pub tally: TallyView,
    pub finalized: bool,
}

impl View for Proposals {
    type V = ProposalsView;

    open spec fn view(&self) -> ProposalsView {
        ProposalsView {
            title: self.title@,
            description: self.description@,
            proposal_creator: self.proposal_creator@,
            amount: self.amount,
            benificiary: self.benificiary@,
            time_of_creation: self.time_of_creation,
            duration_days: self.duration_days,
            duration_hours: self.duration_hours,
            duration_min: self.duration_min,
            tally: self.tally@,
            finalized: self.finalized,
        }
    }
}

impl DeepView for Proposals {
    type V = ProposalsView;

    open spec fn deep_view(&self) -> ProposalsView {
        self.view()
    }
}

impl ProposalsView {
    pub open spec fn end_time(self) -> int {
        end_time_of(
            self.time_of_creation,
            self.duration_days,
            self.duration_hours,
            self.duration_min,
            DAY_TICKS,
            HOUR_TICKS,
            MIN_TICKS,
        )
    }

    pub open spec fn deadline(self) -> u64 {
        self.end_time() as u64
    }

    pub open spec fn wf(self) -> bool {
        &&& self.tally.wf()
        &&& self.end_time() <= u64::MAX
    }

    pub open spec fn decision_at(self, now: u64) -> Decision {
        decision(self.tally.votes_for, self.tally.votes_against, self.deadline(), now)
    }

    pub open spec fn empty() -> ProposalsView {
        ProposalsView {
            title: Seq::empty(),
            description: Seq::empty(),
            proposal_creator: Seq::empty(),
            amount: 0,
            benificiary: Seq::empty(),
            time_of_creation: 0,
            duration_days: 0,
            duration_hours: 0,
            duration_min: 0,
            tally: TallyView::empty(),
            finalized: false,
        }
    }
}

impl Proposals {
    pub fn new() -> (p: Proposals)
        ensures
            p@ == ProposalsView::empty(),
            p@.wf(),
    {
        let p = Proposals {
            title: String::new(),
            description: String::new(),
            proposal_creator: String::new(),
            amount: 0,
            benificiary: String::new(),
            time_of_creation: 0,
            duration_days: 0,
            duration_hours: 0,
            duration_min: 0,
            tally: Tally::new(),
            finalized: false,
        };
        proof {
            assert(p@ =~= ProposalsView::empty());
        }
        p
    }

    /// Records one vote, or refuses a duplicate identity. This variant does
    /// not gate voting by the deadline.
    pub fn create_vote(&mut self, caller: String, now: u64, choice: u8) -> (r: Result<
        (),
        OpError,
    >)
        requires
            old(self)@.wf(),
            old(self)@.tally.votes.len() < u32::MAX,
        ensures
            final(self)@ == (ProposalsView {
                tally: cast_next(old(self)@.tally, caller@, now, choice),
                ..old(self)@
            }),
            r == cast_err(old(self)@.tally, caller@),
            final(self)@.wf(),
    {
        let r = self.tally.cast(caller, now, choice);
        proof {
            assert(self@ =~= (ProposalsView { tally: self@.tally, ..old(self)@ }));
        }
        r
    }

    pub fn get_amount(&self) -> (a: u128)
        ensures
            a == self@.amount,
    {
        self.amount
    }

    pub fn get_benificiary(&self) -> (b: String)
        ensures
            b@ == self@.benificiary,
    {
        self.benificiary.clone()
    }

    pub fn end_time(&self) -> (t: u64)
        requires
            self@.wf(),
        ensures
            t == self@.deadline(),
    {
        self.time_of_creation + (self.duration_days * DAY_TICKS + self.duration_hours * HOUR_TICKS
            + self.duration_min * MIN_TICKS)
    }

    /// Whether the proposal reads as accepted: strictly past its deadline
    /// with a strict majority in favour.
    pub fn check_proposal(&self, now: u64) -> (b: bool)
        requires
            self@.wf(),
        ensures
            b == (self@.decision_at(now) == Decision::Accepted),
    {
        let end = self.end_time();
        now > end && self.tally.votes_for > self.tally.votes_against
    }
}

impl Clone for Proposals {
    fn clone(&self) -> (r: Self)
        ensures
            r@ == self@,
    {
        let r = Proposals {
            title: self.title.clone(),
            description: self.description.clone(),
            proposal_creator: self.proposal_creator.clone(),
            amount: self.amount,
            benificiary: self.benificiary.clone(),
            time_of_creation: self.time_of_creation,
            duration_days: self.duration_days,
            duration_hours: self.duration_hours,
            duration_min: self.duration_min,
            tally: self.tally.clone(),
            finalized: self.finalized,
        };
        proof {
            assert(r@ =~= self@);
        }
        r
    }
}

pub open spec fn has_prop(s: Seq<ProposalsView>, title: Seq<char>) -> bool {
    exists|i: int| 0 <= i < s.len() && s[i].title == title
}

pub open spec fn prop_at(s: Seq<ProposalsView>, title: Seq<char>) -> int {
    choose|i: int| 0 <= i < s.len() && s[i].title == title
}

pub open spec fn props_unique(s: Seq<ProposalsView>) -> bool {
    forall|i: int, j: int| 0 <= i < j < s.len() ==> s[i].title != s[j].title
}

pub proof fn lemma_prop_at_pins(s: Seq<ProposalsView>, title: Seq<char>, i: int)
    requires
        props_unique(s),
        0 <= i < s.len(),
        s[i].title == title,
    ensures
        has_prop(s, title),
        prop_at(s, title) == i,
{
    assert(has_prop(s, title));
    let j = prop_at(s, title);
    assert(0 <= j < s.len() && s[j].title == title);
    if i < j {
        assert(s[i].title != s[j].title);
    } else if j < i {
        assert(s[j].title != s[i].title);
    }
}

/// The pooled treasury: a member list that gates proposal creation, and the
/// payment proposals themselves.
pub struct EnergiePoolContract {
    pub self_account: String,
    pub members: Vec<String>,
    pub records: Vec<Proposals>,
}

/// Mathematical image of the [`EnergiePoolContract`] state.
#[verifier::ext_equal]
pub struct EnergiePoolView {
    pub self_account: Seq<char>,
    pub members: Seq<Seq<char>>,
    pub records: Seq<ProposalsView>,
}

impl View for EnergiePoolContract {
    type V = EnergiePoolView;

    open spec fn view(&self) -> EnergiePoolView {
        EnergiePoolView {
            self_account: self.self_account@,
            members: self.members.deep_view(),
            records: self.records.deep_view(),
        }
    }
}

impl EnergiePoolView {
    pub open spec fn wf(self) -> bool {
        &&& forall|i: int| 0 <= i < self.records.len() ==> (#[trigger] self.records[i]).wf()
        &&& props_unique(self.records)
    }
}

impl EnergiePoolContract {
    /// A fresh treasury owned by `self_account`, with no members and no
    /// proposals.
    pub fn new(self_account: String) -> (s: EnergiePoolContract)
        ensures
            s@.wf(),
            s@.self_account == self_account@,
            s@.members.len() == 0,
            s@.records.len() == 0,
    {
        EnergiePoolContract { self_account, members: Vec::new(), records: Vec::new() }
    }

    /// Drops every proposal. Restricted to the treasury's own identity.
    pub fn delete_all(&mut self, caller: &String) -> (r: Result<(), OpError>)
        ensures
            match r {
                Ok(()) => caller@ == old(self)@.self_account && final(self)@ == (EnergiePoolView {
                    records: Seq::empty(),
                    ..old(self)@
                }),
                Err(e) => e == OpError::Unauthorized && caller@ != old(self)@.self_account
                    && *final(self) == *old(self),
            },
    {
        if !(*caller == self.self_account) {
            return Err(OpError::Unauthorized);
        }
        self.records.clear();
        proof {
            assert(self@ =~= (EnergiePoolView { records: Seq::empty(), ..old(self)@ }));
        }
        Ok(())
    }

    /// Adds a member identity; a duplicate is refused.
    pub fn add_member(&mut self, account: String) -> (r: Result<(), OpError>)
        ensures
            match r {
                Ok(()) => !contains_name(old(self)@.members, account@) && final(self)@
                    == (EnergiePoolView {
                    members: old(self)@.members.push(account@),
                    ..old(self)@
                }),
                Err(e) => e == OpError::AlreadyExists && contains_name(
                    old(self)@.members,
                    account@,
                ) && *final(self) == *old(self),
            },
    {
        if contains_voter(&self.members, &account) {
            return Err(OpError::AlreadyExists);
        }
        self.members.push(account);
        proof {
            assert(self@.members =~= old(self)@.members.push(account@));
            assert(self@ =~= (EnergiePoolView { members: self@.members, ..old(self)@ }));
        }
        Ok(())
    }

    /// Removes the first occurrence of a member identity by swapping in the
    /// last entry; an absent identity leaves the list unchanged.
    pub fn remove_member(&mut self, account: String) -> (found: bool)
        ensures
            found == contains_name(old(self)@.members, account@),
            !found ==> *final(self) == *old(self),
            found ==> exists|i: int|
                0 <= i < old(self)@.members.len() && old(self)@.members[i] == account@
                    && final(self)@ == (EnergiePoolView {
                    members: old(self)@.members.update(
                        i,
                        old(self)@.members.last(),
                    ).drop_last(),
                    ..old(self)@
                }),
    {
        let mut k: usize = 0;
        while k < self.members.len()
            invariant
                k <= self@.members.len(),
                forall|i: int| 0 <= i < k ==> self@.members[i] != account@,
                *self == *old(self),
            decreases self@.members.len() - k,
        {
            if self.members[k] == account {
                let ghost pre = self@;
                let ghost ki = k as int;
                self.members.swap_remove(k);
                proof {
                    assert(self@.members =~= pre.members.update(ki, pre.members.last()).drop_last());
                    assert(self@ =~= (EnergiePoolView { members: self@.members, ..pre }));
                    assert(pre.members[ki] == account@);
                }
                return true;
            }
            k = k + 1;
        }
        false
    }

    /// Creates a payment proposal. Only a member may create one; the
    /// duration must resolve to a representable deadline; the title must be
    /// fresh.
    pub fn create_proposal(
        &mut self,
        caller: String,
        now: u64,
        title: String,
        description: String,
        amount: u128,
        benificiary: String,
        duration_days: u64,
        duration_hours: u64,
        duration_min: u64,
    ) -> (r: Result<(), OpError>)
        requires
            old(self)@.wf(),
        ensures
            final(self)@.wf(),
            match r {
                Ok(()) => {
                    &&& contains_name(old(self)@.members, caller@)
                    &&& end_time_of(
                        now,
                        duration_days,
                        duration_hours,
                        duration_min,
                        DAY_TICKS,
                        HOUR_TICKS,
                        MIN_TICKS,
                    ) <= u64::MAX
                    &&& !has_prop(old(self)@.records, title@)
                    &&& final(self)@ == (EnergiePoolView {
                        records: old(self)@.records.push(
                            (ProposalsView {
                                title: title@,
                                description: description@,
                                proposal_creator: caller@,
                                amount: amount,
                                benificiary: benificiary@,
                                time_of_creation: now,
                                duration_days: duration_days,
                                duration_hours: duration_hours,
                                duration_min: duration_min,
                                tally: TallyView::empty(),
                                finalized: false,
                            }),
                        ),
                        ..old(self)@
                    })
                },
                Err(e) => *final(self) == *old(self) && if !contains_name(
                    old(self)@.members,
                    caller@,
                ) {
                    e == OpError::Unauthorized
                } else if end_time_of(
                    now,
                    duration_days,
                    duration_hours,
                    duration_min,
                    DAY_TICKS,
                    HOUR_TICKS,
                    MIN_TICKS,
                ) > u64::MAX {
                    e == OpError::InvalidDuration
                } else {
                    e == OpError::AlreadyExists && has_prop(old(self)@.records, title@)
                },
            },
    {
        if !contains_voter(&self.members, &caller) {
            return Err(OpError::Unauthorized);
        }
        if checked_end_time(
            now,
            duration_days,
            duration_hours,
            duration_min,
            DAY_TICKS,
            HOUR_TICKS,
            MIN_TICKS,
        ).is_none() {
            return Err(OpError::InvalidDuration);
        }
        if self.find_proposal(&title).is_some() {
            return Err(OpError::AlreadyExists);
        }
        let ghost pre = self@;
        let proposal = Proposals {
            title: title,
            description: description,
            proposal_creator: caller,
            amount: amount,
            benificiary: benificiary,
            time_of_creation: now,
            duration_days: duration_days,
            duration_hours: duration_hours,
            duration_min: duration_min,
            tally: Tally::new(),
            finalized: false,
        };
        let ghost pv = proposal@;
        self.records.push(proposal);
        proof {
            assert(self@.records =~= pre.records.push(pv));
            assert(self@ =~= (EnergiePoolView { records: pre.records.push(pv), ..pre }));
            assert(pv.tally =~= TallyView::empty());
        }
        Ok(())
    }

    /// Finds the index of the proposal bearing `title`, if any.
    fn find_proposal(&self, title: &String) -> (r: Option<usize>)
        ensures
            match r {
                Some(i) => i < self@.records.len() && self@.records[i as int].title == title@,
                None => !has_prop(self@.records, title@),
            },
    {
        let mut k: usize = 0;
        while k < self.records.len()
            invariant
                k <= self@.records.len(),
                forall|i: int| 0 <= i < k ==> self@.records[i].title != title@,
            decreases self@.records.len() - k,
        {
            if self.records[k].title == *title {
                proof {
                    assert(self@.records[k as int].title == title@);
                }
                return Some(k);
            }
            k = k + 1;
        }
        None
    }

    /// Swaps the stored proposal bearing the same title for `proposal`.
    pub fn replace_proposal(&mut self, proposal: Proposals) -> (r: Result<(), OpError>)
        requires
            old(self)@.wf(),
            proposal@.wf(),
        ensures
            final(self)@.wf(),
            match r {
                Ok(()) => has_prop(old(self)@.records, proposal@.title) && final(self)@
                    == (EnergiePoolView {
                    records: old(self)@.records.update(
                        prop_at(old(self)@.records, proposal@.title),
                        proposal@,
                    ),
                    ..old(self)@
                }),
                Err(e) => e == OpError::NotFound && !has_prop(old(self)@.records, proposal@.title)
                    && *final(self) == *old(self),
            },
    {
        let idx = match self.find_proposal(&proposal.title) {
            None => {
                return Err(OpError::NotFound);
            },
            Some(i) => i,
        };
        let ghost pre = self@;
        proof {
            lemma_prop_at_pins(pre.records, proposal@.title, idx as int);
        }
        self.records.set(idx, proposal);
        proof {
            assert(self@.records =~= pre.records.update(idx as int, proposal@));
            assert(self@ =~= (EnergiePoolView {
                records: pre.records.update(idx as int, proposal@),
                ..pre
            }));
        }
        Ok(())
    }

    /// A snapshot of all proposals, in creation order.
    pub fn get_proposals(&self) -> (r: Vec<Proposals>)
        ensures
            r.deep_view() == self@.records,
    {
        let r = self.records.clone();
        proof {
            assert forall|i: int| 0 <= i < r@.len() implies r.deep_view()[i]
                == self@.records[i] by {
                assert(vstd::pervasive::cloned(self.records[i], r[i]));
            }
            assert(r.deep_view() =~= self@.records);
        }
        r
    }

    /// The proposal bearing `title`, or `NotFound`.
    pub fn get_specific_proposal(&self, title: String) -> (r: Result<Proposals, OpError>)
        requires
            self@.wf(),
        ensures
            match r {
                Ok(p) => has_prop(self@.records, title@) && p@ == self@.records[prop_at(
                    self@.records,
                    title@,
                )],
                Err(e) => e == OpError::NotFound && !has_prop(self@.records, title@),
            },
    {
        match self.find_proposal(&title) {
            None => Err(OpError::NotFound),
            Some(i) => {
                proof {
                    lemma_prop_at_pins(self@.records, title@, i as int);
                }
                Ok(self.records[i].clone())
            },
        }
    }

    /// The deadline of the proposal bearing `title`.
    pub fn get_end_time(&self, title: String) -> (r: Result<u64, OpError>)
        requires
            self@.wf(),
        ensures
            match r {
                Ok(t) => has_prop(self@.records, title@) && t == self@.records[prop_at(
                    self@.records,
                    title@,
                )].deadline(),
                Err(e) => e == OpError::NotFound && !has_prop(self@.records, title@),
            },
    {
        let p = self.get_specific_proposal(title)?;
        Ok(p.end_time())
    }

    /// Casts a vote on the proposal bearing `title`.
    pub fn add_vote(&mut self, caller: String, now: u64, title: String, vote: u8) -> (r: Result<
        (),
        OpError,
    >)
        requires
            old(self)@.wf(),
            forall|i: int|
                0 <= i < old(self)@.records.len() ==> (#[trigger] old(
                    self,
                )@.records[i]).tally.votes.len() < u32::MAX,
        ensures
            final(self)@.wf(),
            match r {
                Ok(()) => {
                    &&& has_prop(old(self)@.records, title@)
                    &&& {
                        let i = prop_at(old(self)@.records, title@);
                        let p = old(self)@.records[i];
                        cast_err(p.tally, caller@) == Ok::<(), OpError>(()) && final(self)@
                            == (EnergiePoolView {
                            records: old(self)@.records.update(
                                i,
                                (ProposalsView {
                                    tally: cast_next(p.tally, caller@, now, vote),
                                    ..p
                                }),
                            ),
                            ..old(self)@
                        })
                    }
                },
                Err(e) => *final(self) == *old(self) && if !has_prop(old(self)@.records, title@) {
                    e == OpError::NotFound
                } else {
                    Err::<(), OpError>(e) == cast_err(
                        old(self)@.records[prop_at(old(self)@.records, title@)].tally,
                        caller@,
                    )
                },
            },
    {
        let idx = match self.find_proposal(&title) {
            None => {
                return Err(OpError::NotFound);
            },
            Some(i) => i,
        };
        let ghost pre = self@;
        proof {
            lemma_prop_at_pins(pre.records, title@, idx as int);
        }
        let mut p = self.records[idx].clone();
        match p.create_vote(caller, now, vote) {
            Err(e) => {
                return Err(e);
            },
            Ok(()) => {},
        }
        self.records.set(idx, p);
        proof {
            assert(self@.records =~= pre.records.update(
                idx as int,
                (ProposalsView {
                    tally: cast_next(pre.records[idx as int].tally, caller@, now, vote),
                    ..pre.records[idx as int]
                }),
            ));
            assert(self@ =~= (EnergiePoolView { records: self@.records, ..pre }));
        }
        Ok(())
    }

    /// The votes in favour on the proposal bearing `title`.
    pub fn get_votes_for(&self, title: String) -> (r: Result<u32, OpError>)
        requires
            self@.wf(),
        ensures
            match r {
                Ok(n) => has_prop(self@.records, title@) && n == self@.records[prop_at(
                    self@.records,
                    title@,
                )].tally.votes_for,
                Err(e) => e == OpError::NotFound && !has_prop(self@.records, title@),
            },
    {
        let p = self.get_specific_proposal(title)?;
        Ok(p.tally.votes_for)
    }

    /// The votes against on the proposal bearing `title`.
    pub fn get_votes_against(&self, title: String) -> (r: Result<u32, OpError>)
        requires
            self@.wf(),
        ensures
            match r {
                Ok(n) => has_prop(self@.records, title@) && n == self@.records[prop_at(
                    self@.records,
                    title@,
                )].tally.votes_against,
                Err(e) => e == OpError::NotFound && !has_prop(self@.records, title@),
            },
    {
        let p = self.get_specific_proposal(title)?;
        Ok(p.tally.votes_against)
    }

    /// The total number of votes on the proposal bearing `title`.
    pub fn get_nember_votes(&self, title: String) -> (r: Result<u32, OpError>)
        requires
            self@.wf(),
        ensures
            match r {
                Ok(n) => has_prop(self@.records, title@) && {
                    let p = self@.records[prop_at(self@.records, title@)];
                    n == p.tally.votes_against + p.tally.votes_for
                },
                Err(e) => if !has_prop(self@.records, title@) {
                    e == OpError::NotFound
                } else {
                    let p = self@.records[prop_at(self@.records, title@)];
                    e == OpError::Overflow && p.tally.votes_against + p.tally.votes_for
                        > u32::MAX
                },
            },
    {
        let p = self.get_specific_proposal(title)?;
        match p.tally.votes_against.checked_add(p.tally.votes_for) {
            None => Err(OpError::Overflow),
            Some(n) => Ok(n),
        }
    }

    /// The payment call for `amount` minimal units to `to`.
    pub fn pay(&self, amount: u128, to: String) -> (r: RemoteCall)
        ensures
            r@ == (RemoteCallView::NearTransfer { receiver: to@, amount: amount }),
    {
        RemoteCall::NearTransfer { receiver: to, amount }
    }

    /// Settles the proposal bearing `title`: once it reads as accepted —
    /// strictly past its deadline with a strict majority in favour — marks
    /// it finalized and hands back the one payment call, scaled to minimal
    /// units; otherwise reports it refused without any effect. A settled
    /// proposal is terminal: a second attempt fails.
    pub fn check_and_send_near(&mut self, title: String, now: u64) -> (r: Result<
        (String, Option<RemoteCall>),
        OpError,
    >)
        requires
            old(self)@.wf(),
        ensures
            final(self)@.wf(),
            match r {
                Ok((msg, action)) => has_prop(old(self)@.records, title@) && {
                    let i = prop_at(old(self)@.records, title@);
                    let p = old(self)@.records[i];
                    &&& !p.finalized
                    &&& if p.decision_at(now) == Decision::Accepted {
                        &&& msg@ == "Proposal accepted and amount was sent"@
                        &&& action matches Some(a) && a@ == (RemoteCallView::NearTransfer {
                            receiver: p.benificiary,
                            amount: (p.amount * NEAR_SCALE) as u128,
                        })
                        &&& p.amount * NEAR_SCALE <= u128::MAX
                        &&& final(self)@ == (EnergiePoolView {
                            records: old(self)@.records.update(
                                i,
                                (ProposalsView { finalized: true, ..p }),
                            ),
                            ..old(self)@
                        })
                    } else {
                        &&& msg@ == "Proposal refused"@
                        &&& action is None
                        &&& *final(self) == *old(self)
                    }
                },
                Err(e) => *final(self) == *old(self) && if !has_prop(
                    old(self)@.records,
                    title@,
                ) {
                    e == OpError::NotFound
                } else {
                    let p = old(self)@.records[prop_at(old(self)@.records, title@)];
                    if p.finalized {
                        e == OpError::AlreadyFinalized
                    } else {
                        e == OpError::Overflow && p.decision_at(now) == Decision::Accepted
                            && p.amount * NEAR_SCALE > u128::MAX
                    }
                },
            },
    {
        let idx = match self.find_proposal(&title) {
            None => {
                return Err(OpError::NotFound);
            },
            Some(i) => i,
        };
        let ghost pre = self@;
        proof {
            lemma_prop_at_pins(pre.records, title@, idx as int);
        }
        let p = self.records[idx].clone();
        if p.finalized {
            return Err(OpError::AlreadyFinalized);
        }
        if p.check_proposal(now) {
            let amount = match p.get_amount().checked_mul(NEAR_SCALE) {
                None => {
                    return Err(OpError::Overflow);
                },
                Some(a) => a,
            };
            let benificiary = p.get_benificiary();
            let action = self.pay(amount, benificiary);
            let mut marked = p;
            marked.finalized = true;
            self.records.set(idx, marked);
            proof {
                assert(self@.records =~= pre.records.update(
                    idx as int,
                    (ProposalsView { finalized: true, ..pre.records[idx as int] }),
                ));
                assert(self@ =~= (EnergiePoolView { records: self@.records, ..pre }));
            }
            Ok((String::from_str("Proposal accepted and amount was sent"), Some(action)))
        } else {
            Ok((String::from_str("Proposal refused"), None))
        }
    }
}

} // verus!
