use vstd::prelude::*;

use crate::errors::{Decision, OpError};
use crate::platform::{DAY_TICKS, HOUR_TICKS, MIN_TICKS};
use crate::remote::{RemoteCall, RemoteCallView};
use crate::tally::{
    cast_err, cast_next, decision, end_time_of, checked_end_time, Tally, TallyView,
};

verus! {

/// A council-membership proposal: enrol `beneficiary` as a council member
/// of the owning organisation once accepted.
pub struct MemberProposal {
    pub proposal_name: String,
    pub description: String,
    pub proposal_creator: String,
    pub beneficiary: String,
    pub time_of_creation: u64,
    pub duration_days: u64,
    pub duration_hours: u64,
    pub duration_min: u64,
    pub tally: Tally,
}

/// Mathematical image of a [`MemberProposal`].
#[verifier::ext_equal]
pub struct MemberProposalView {
    pub proposal_name: Seq<char>,
    pub description: Seq<char>,
    pub proposal_creator: Seq<char>,
    pub beneficiary: Seq<char>,
    pub time_of_creation: u64,
    pub duration_days: u64,
    pub duration_hours: u64,
    pub duration_min: u64,
    pub tally: TallyView,
}

impl View for MemberProposal {
    type V = MemberProposalView;

    open spec fn view(&self) -> MemberProposalView {
        MemberProposalView {
            proposal_name: self.proposal_name@,
            description: self.description@,
            proposal_creator: self.proposal_creator@,
            beneficiary: self.beneficiary@,
            time_of_creation: self.time_of_creation,
            duration_days: self.duration_days,
            duration_hours: self.duration_hours,
            duration_min: self.duration_min,
            tally: self.tally@,
        }
    }
}

impl DeepView for MemberProposal {
    type V = MemberProposalView;

    open spec fn deep_view(&self) -> MemberProposalView {
        self.view()
    }
}

impl MemberProposalView {
    pub open spec fn end_time(self) -> int {
        end_time_of(
            self.time_of_creation,
            self.duration_days,
            self.duration_hours,
            self.duration_min,
            DAY_TICKS,
            HOUR_TICKS,
            MIN_TICKS,
        )
    }

    pub open spec fn deadline(self) -> u64 {
        self.end_time() as u64
    }

    pub open spec fn wf(self) -> bool {
        &&& self.tally.wf()
        &&& self.end_time() <= u64::MAX
    }

    pub open spec fn decision_at(self, now: u64) -> Decision {
        decision(self.tally.votes_for, self.tally.votes_against, self.deadline(), now)
    }

    pub open spec fn empty() -> MemberProposalView {
        MemberProposalView {
            proposal_name: Seq::empty(),
            description: Seq::empty(),
            proposal_creator: Seq::empty(),
            beneficiary: Seq::empty(),
            time_of_creation: 0,
            duration_days: 0,
            duration_hours: 0,
            duration_min: 0,
            tally: TallyView::empty(),
        }
    }
}

impl MemberProposal {
    pub fn new() -> (p: MemberProposal)
        ensures
            p@ == MemberProposalView::empty(),
            p@.wf(),
    {
        let p = MemberProposal {
            proposal_name: String::new(),
            description: String::new(),
            proposal_creator: String::new(),
            beneficiary: String::new(),
            time_of_creation: 0,
            duration_days: 0,
            duration_hours: 0,
            duration_min: 0,
            tally: Tally::new(),
        };
        proof {
            assert(p@ =~= MemberProposalView::empty());
        }
        p
    }

    /// Records one vote, or refuses a duplicate identity.
    pub fn create_vote(&mut self, caller: String, now: u64, choice: u8) -> (r: Result<
        (),
        OpError,
    >)
        requires
            old(self)@.wf(),
            old(self)@.tally.votes.len() < u32::MAX,
        ensures
            final(self)@ == (MemberProposalView {
                tally: cast_next(old(self)@.tally, caller@, now, choice),
                ..old(self)@
            }),
            r == cast_err(old(self)@.tally, caller@),
            final(self)@.wf(),
    {
        let r = self.tally.cast(caller, now, choice);
        proof {
            assert(self@ =~= (MemberProposalView { tally: self@.tally, ..old(self)@ }));
        }
        r
    }

    pub fn end_time(&self) -> (t: u64)
        requires
            self@.wf(),
        ensures
            t == self@.deadline(),
    {
        self.time_of_creation + (self.duration_days * DAY_TICKS + self.duration_hours * HOUR_TICKS
            + self.duration_min * MIN_TICKS)
    }

    /// Whether the proposal reads as accepted: strictly past its deadline
    /// with a strict majority in favour.
    pub fn check_proposal(&self, now: u64) -> (b: bool)
        requires
            self@.wf(),
        ensures
            b == (self@.decision_at(now) == Decision::Accepted),
    {
        let end = self.end_time();
        now > end && self.tally.votes_for > self.tally.votes_against
    }
}

impl Clone for MemberProposal {
    fn clone(&self) -> (r: Self)
        ensures
            r@ == self@,
    {
        let r = MemberProposal {
            proposal_name: self.proposal_name.clone(),
            description: self.description.clone(),
            proposal_creator: self.proposal_creator.clone(),
            beneficiary: self.beneficiary.clone(),
            time_of_creation: self.time_of_creation,
            duration_days: self.duration_days,
            duration_hours: self.duration_hours,
            duration_min: self.duration_min,
            tally: self.tally.clone(),
        };
        proof {
            assert(r@ =~= self@);
        }
        r
    }
}

/// An organisation-scoped governance proposal.
pub struct Proposals {
    pub proposal_type: u8,
    pub proposal_name: String,
    pub description: String,
    pub proposal_creator: String,
    pub time_of_creation: u64,
    pub duration_days: u64,
    pub duration_hours: u64,
    pub duration_min: u64,
    pub tally: Tally,
}

/// Mathematical image of an organisation-scoped [`Proposals`].
#[verifier::ext_equal]
pub struct ProposalsView {
    pub proposal_type: u8,
    pub proposal_name: Seq<char>,
    pub description: Seq<char>,
    pub proposal_creator: Seq<char>,
    pub time_of_creation: u64,
    pub duration_days: u64,
    pub duration_hours: u64,
    pub duration_min: u64,
    pub tally: TallyView,
}

impl View for Proposals {
    type V = ProposalsView;

    open spec fn view(&self) -> ProposalsView {
        ProposalsView {
            proposal_type: self.proposal_type,
            proposal_name: self.proposal_name@,
            description: self.description@,
            proposal_creator: self.proposal_creator@,
            time_of_creation: self.time_of_creation,
            duration_days: self.duration_days,
            duration_hours: self.duration_hours,
            duration_min: self.duration_min,
            tally: self.tally@,
        }
    }
}

impl DeepView for Proposals {
    type V = ProposalsView;

    open spec fn deep_view(&self) -> ProposalsView {
        self.view()
    }
}

impl ProposalsView {
    pub open spec fn end_time(self) -> int {
        end_time_of(
            self.time_of_creation,
            self.duration_days,
            self.duration_hours,
            self.duration_min,
            DAY_TICKS,
            HOUR_TICKS,
            MIN_TICKS,
        )
    }

    pub open spec fn deadline(self) -> u64 {
        self.end_time() as u64
    }

    pub open spec fn wf(self) -> bool {
        &&& self.tally.wf()
        &&& self.end_time() <= u64::MAX
    }

    pub open spec fn decision_at(self, now: u64) -> Decision {
        decision(self.tally.votes_for, self.tally.votes_against, self.deadline(), now)
    }

    pub open spec fn empty() -> ProposalsView {
        ProposalsView {
            proposal_type: 0,
            proposal_name: Seq::empty(),
            description: Seq::empty(),
            proposal_creator: Seq::empty(),
            time_of_creation: 0,
            duration_days: 0,
            duration_hours: 0,
            duration_min: 0,
            tally: TallyView::empty(),
        }
    }
}

impl Proposals {
    pub fn new() -> (p: Proposals)
        ensures
            p@ == ProposalsView::empty(),
            p@.wf(),
    {
        let p = Proposals {
            proposal_type: 0,
            proposal_name: String::new(),
            description: String::new(),
            proposal_creator: String::new(),
            time_of_creation: 0,
            duration_days: 0,
            duration_hours: 0,
            duration_min: 0,
            tally: Tally::new(),
        };
        proof {
            assert(p@ =~= ProposalsView::empty());
        }
        p
    }

    /// Records one vote, or refuses a duplicate identity.
    pub fn create_vote(&mut self, caller: String, now: u64, choice: u8) -> (r: Result<
        (),
        OpError,
    >)
        requires
            old(self)@.wf(),
            old(self)@.tally.votes.len() < u32::MAX,
        ensures
            final(self)@ == (ProposalsView {
                tally: cast_next(old(self)@.tally, caller@, now, choice),
                ..old(self)@
            }),
            r == cast_err(old(self)@.tally, caller@),
            final(self)@.wf(),
    {
        let r = self.tally.cast(caller, now, choice);
        proof {
            assert(self@ =~= (ProposalsView { tally: self@.tally, ..old(self)@ }));
        }
        r
    }

    pub fn end_time(&self) -> (t: u64)
        requires
            self@.wf(),
        ensures
            t == self@.deadline(),
    {
        self.time_of_creation + (self.duration_days * DAY_TICKS + self.duration_hours * HOUR_TICKS
            + self.duration_min * MIN_TICKS)
    }

    /// Whether the proposal reads as accepted: strictly past its deadline
    /// with a strict majority in favour.
    pub fn check_proposal(&self, now: u64) -> (b: bool)
        requires
            self@.wf(),
        ensures
            b == (self@.decision_at(now) == Decision::Accepted),
    {
        let end = self.end_time();
        now > end && self.tally.votes_for > self.tally.votes_against
    }
}

impl Clone for Proposals {
    fn clone(&self) -> (r: Self)
        ensures
            r@ == self@,
    {
        let r = Proposals {
            proposal_type: self.proposal_type,
            proposal_name: self.proposal_name.clone(),
            description: self.description.clone(),
            proposal_creator: self.proposal_creator.clone(),
            time_of_creation: self.time_of_creation,
            duration_days: self.duration_days,
            duration_hours: self.duration_hours,
            duration_min: self.duration_min,
            tally: self.tally.clone(),
        };
        proof {
            assert(r@ =~= self@);
        }
        r
    }
}

pub open spec fn has_prop(s: Seq<ProposalsView>, name: Seq<char>) -> bool {
    exists|i: int| 0 <= i < s.len() && s[i].proposal_name == name
}

pub open spec fn prop_at(s: Seq<ProposalsView>, name: Seq<char>) -> int {
    choose|i: int| 0 <= i < s.len() && s[i].proposal_name == name
}

pub open spec fn props_unique(s: Seq<ProposalsView>) -> bool {
    forall|i: int, j: int| 0 <= i < j < s.len() ==> s[i].proposal_name != s[j].proposal_name
}

pub open spec fn has_mprop(s: Seq<MemberProposalView>, name: Seq<char>) -> bool {
    exists|i: int| 0 <= i < s.len() && s[i].proposal_name == name
}

pub open spec fn mprop_at(s: Seq<MemberProposalView>, name: Seq<char>) -> int {
    choose|i: int| 0 <= i < s.len() && s[i].proposal_name == name
}

pub open spec fn mprops_unique(s: Seq<MemberProposalView>) -> bool {
    forall|i: int, j: int| 0 <= i < j < s.len() ==> s[i].proposal_name != s[j].proposal_name
}

pub proof fn lemma_prop_at_pins(s: Seq<ProposalsView>, name: Seq<char>, i: int)
    requires
        props_unique(s),
        0 <= i < s.len(),
        s[i].proposal_name == name,
    ensures
        has_prop(s, name),
        prop_at(s, name) == i,
{
    assert(has_prop(s, name));
    let j = prop_at(s, name);
    assert(0 <= j < s.len() && s[j].proposal_name == name);
    if i < j {
        assert(s[i].proposal_name != s[j].proposal_name);
    } else if j < i {
        assert(s[j].proposal_name != s[i].proposal_name);
    }
}

pub proof fn lemma_mprop_at_pins(s: Seq<MemberProposalView>, name: Seq<char>, i: int)
    requires
        mprops_unique(s),
        0 <= i < s.len(),
        s[i].proposal_name == name,
    ensures
        has_mprop(s, name),
        mprop_at(s, name) == i,
{
    assert(has_mprop(s, name));
    let j = mprop_at(s, name);
    assert(0 <= j < s.len() && s[j].proposal_name == name);
    if i < j {
        assert(s[i].proposal_name != s[j].proposal_name);
    } else if j < i {
        assert(s[j].proposal_name != s[i].proposal_name);
    }
}

/// An inactive record of a metering device, kept for registry bookkeeping.
pub struct Device {
    pub address: String,
    pub data: String,
    pub time_of_generation: String,
}

/// One registered organisation: its identity and purpose, role-partitioned
/// member lists with their counters, and the proposals it owns.
pub struct Dao {
    pub council_members: Vec<String>,
    pub community_members: Vec<String>,
    pub dao_name: String,
    pub dao_purpose: String,
    pub founder: String,
    pub numb_council_members: u64,
    pub numb_community_members: u64,
    pub number_of_proposals: u16,
    pub proposals: Vec<Proposals>,
    pub member_proposals: Vec<MemberProposal>,
    pub duration_days: u64,
    pub duration_hours: u64,
    pub duration_min: u64,
}

/// Mathematical image of a [`Dao`].
#[verifier::ext_equal]
pub struct DaoView {
    pub council_members: Seq<Seq<char>>,
    pub community_members: Seq<Seq<char>>,
    pub dao_name: Seq<char>,
    pub dao_purpose: Seq<char>,
    pub founder: Seq<char>,
    pub numb_council_members: u64,
    pub numb_community_members: u64,
    pub number_of_proposals: u16,
    pub proposals: Seq<ProposalsView>,
    pub member_proposals: Seq<MemberProposalView>,
    pub duration_days: u64,
    pub duration_hours: u64,
    pub duration_min: u64,
}

impl View for Dao {
    type V = DaoView;

    open spec fn view(&self) -> DaoView {
        DaoView {
            council_members: self.council_members.deep_view(),
            community_members: self.community_members.deep_view(),
            dao_name: self.dao_name@,
            dao_purpose: self.dao_purpose@,
            founder: self.founder@,
            numb_council_members: self.numb_council_members,
            numb_community_members: self.numb_community_members,
            number_of_proposals: self.number_of_proposals,
            proposals: self.proposals.deep_view(),
            member_proposals: self.member_proposals.deep_view(),
            duration_days: self.duration_days,
            duration_hours: self.duration_hours,
            duration_min: self.duration_min,
        }
    }
}

impl DeepView for Dao {
    type V = DaoView;

    open spec fn deep_view(&self) -> DaoView {
        self.view()
    }
}

impl DaoView {
    /// The member counters track the list lengths, and both proposal
    /// collections are well formed with unique names.
    pub open spec fn wf(self) -> bool {
        &&& self.numb_council_members == self.council_members.len()
        &&& self.numb_community_members == self.community_members.len()
        &&& forall|i: int| 0 <= i < self.proposals.len() ==> (#[trigger] self.proposals[i]).wf()
        &&& props_unique(self.proposals)
        &&& forall|i: int|
            0 <= i < self.member_proposals.len() ==> (#[trigger] self.member_proposals[i]).wf()
        &&& mprops_unique(self.member_proposals)
    }

    pub open spec fn empty() -> DaoView {
        DaoView {
            council_members: Seq::empty(),
            community_members: Seq::empty(),
            dao_name: Seq::empty(),
            dao_purpose: Seq::empty(),
            founder: Seq::empty(),
            numb_council_members: 0,
            numb_community_members: 0,
            number_of_proposals: 0,
            proposals: Seq::empty(),
            member_proposals: Seq::empty(),
            duration_days: 0,
            duration_hours: 0,
            duration_min: 0,
        }
    }
}

impl Dao {
    pub fn new() -> (d: Dao)
        ensures
            d@ == DaoView::empty(),
            d@.wf(),
    {
        let d = Dao {
            council_members: Vec::new(),
            community_members: Vec::new(),
            dao_name: String::new(),
            dao_purpose: String::new(),
            founder: String::new(),
            numb_council_members: 0,
            numb_community_members: 0,
            number_of_proposals: 0,
            proposals: Vec::new(),
            member_proposals: Vec::new(),
            duration_days: 0,
            duration_hours: 0,
            duration_min: 0,
        };
        proof {
            assert(d@ =~= DaoView::empty());
        }
        d
    }

    /// Creates a membership proposal with the organisation's configured
    /// duration and an empty tally.
    pub fn create_member_proposal(
        &mut self,
        caller: String,
        now: u64,
        proposal_name: String,
        beneficiary: String,
        description: String,
    ) -> (r: Result<(), OpError>)
        requires
            old(self)@.wf(),
        ensures
            final(self)@.wf(),
            match r {
                Ok(()) => {
                    &&& end_time_of(
                        now,
                        old(self)@.duration_days,
                        old(self)@.duration_hours,
                        old(self)@.duration_min,
                        DAY_TICKS,
                        HOUR_TICKS,
                        MIN_TICKS,
                    ) <= u64::MAX
                    &&& !has_mprop(old(self)@.member_proposals, proposal_name@)
                    &&& final(self)@ == (DaoView {
                        member_proposals: old(self)@.member_proposals.push(
                            (MemberProposalView {
                                proposal_name: proposal_name@,
                                description: description@,
                                proposal_creator: caller@,
                                beneficiary: beneficiary@,
                                time_of_creation: now,
                                duration_days: old(self)@.duration_days,
                                duration_hours: old(self)@.duration_hours,
                                duration_min: old(self)@.duration_min,
                                tally: TallyView::empty(),
                            }),
                        ),
                        ..old(self)@
                    })
                },
                Err(e) => *final(self) == *old(self) && if end_time_of(
                    now,
                    old(self)@.duration_days,
                    old(self)@.duration_hours,
                    old(self)@.duration_min,
                    DAY_TICKS,
                    HOUR_TICKS,
                    MIN_TICKS,
                ) > u64::MAX {
                    e == OpError::InvalidDuration
                } else {
                    e == OpError::AlreadyExists && has_mprop(
                        old(self)@.member_proposals,
                        proposal_name@,
                    )
                },
            },
    {
        if checked_end_time(
            now,
            self.duration_days,
            self.duration_hours,
            self.duration_min,
            DAY_TICKS,
            HOUR_TICKS,
            MIN_TICKS,
        ).is_none() {
            return Err(OpError::InvalidDuration);
        }
        if self.find_member_proposal(&proposal_name).is_some() {
            return Err(OpError::AlreadyExists);
        }
        let ghost pre = self@;
        let proposal = MemberProposal {
            proposal_name: proposal_name,
            description: description,
            proposal_creator: caller,
            beneficiary: beneficiary,
            time_of_creation: now,
            duration_days: self.duration_days,
            duration_hours: self.duration_hours,
            duration_min: self.duration_min,
            tally: Tally::new(),
        };
        let ghost pv = proposal@;
        self.member_proposals.push(proposal);
        proof {
            assert(self@.member_proposals =~= pre.member_proposals.push(pv));
            assert(self@ =~= (DaoView {
                member_proposals: pre.member_proposals.push(pv),
                ..pre
            }));
            assert(pv.tally =~= TallyView::empty());
        }
        Ok(())
    }

    /// Creates an organisation-scoped proposal with the organisation's
    /// configured duration and an empty tally.
    pub fn create_proposal(
        &mut self,
        caller: String,
        now: u64,
        proposal_type: u8,
        proposal_name: String,
        description: String,
    ) -> (r: Result<(), OpError>)
        requires
            old(self)@.wf(),
        ensures
            final(self)@.wf(),
            match r {
                Ok(()) => {
                    &&& end_time_of(
                        now,
                        old(self)@.duration_days,
                        old(self)@.duration_hours,
                        old(self)@.duration_min,
                        DAY_TICKS,
                        HOUR_TICKS,
                        MIN_TICKS,
                    ) <= u64::MAX
                    &&& !has_prop(old(self)@.proposals, proposal_name@)
                    &&& final(self)@ == (DaoView {
                        proposals: old(self)@.proposals.push(
                            (ProposalsView {
                                proposal_type: proposal_type,
                                proposal_name: proposal_name@,
                                description: description@,
                                proposal_creator: caller@,
                                time_of_creation: now,
                                duration_days: old(self)@.duration_days,
                                duration_hours: old(self)@.duration_hours,
                                duration_min: old(self)@.duration_min,
                                tally: TallyView::empty(),
                            }),
                        ),
                        ..old(self)@
                    })
                },
                Err(e) => *final(self) == *old(self) && if end_time_of(
                    now,
                    old(self)@.duration_days,
                    old(self)@.duration_hours,
                    old(self)@.duration_min,
                    DAY_TICKS,
                    HOUR_TICKS,
                    MIN_TICKS,
                ) > u64::MAX {
                    e == OpError::InvalidDuration
                } else {
                    e == OpError::AlreadyExists && has_prop(old(self)@.proposals, proposal_name@)
                },
            },
    {
        if checked_end_time(
            now,
            self.duration_days,
            self.duration_hours,
            self.duration_min,
            DAY_TICKS,
            HOUR_TICKS,
            MIN_TICKS,
        ).is_none() {
            return Err(OpError::InvalidDuration);
        }
        if self.find_proposal(&proposal_name).is_some() {
            return Err(OpError::AlreadyExists);
        }
        let ghost pre = self@;
        let proposal = Proposals {
            proposal_type: proposal_type,
            proposal_name: proposal_name,
            description: description,
            proposal_creator: caller,
            time_of_creation: now,
            duration_days: self.duration_days,
            duration_hours: self.duration_hours,
            duration_min: self.duration_min,
            tally: Tally::new(),
        };
        let ghost pv = proposal@;
        self.proposals.push(proposal);
        proof {
            assert(self@.proposals =~= pre.proposals.push(pv));
            assert(self@ =~= (DaoView { proposals: pre.proposals.push(pv), ..pre }));
            assert(pv.tally =~= TallyView::empty());
        }
        Ok(())
    }

    /// Finds the index of the proposal bearing `name`, if any.
    fn find_proposal(&self, name: &String) -> (r: Option<usize>)
        ensures
            match r {
                Some(i) => i < self@.proposals.len() && self@.proposals[i as int].proposal_name
                    == name@,
                None => !has_prop(self@.proposals, name@),
            },
    {
        let mut k: usize = 0;
        while k < self.proposals.len()
            invariant
                k <= self@.proposals.len(),
                forall|i: int| 0 <= i < k ==> self@.proposals[i].proposal_name != name@,
            decreases self@.proposals.len() - k,
        {
            if self.proposals[k].proposal_name == *name {
                proof {
                    assert(self@.proposals[k as int].proposal_name == name@);
                }
                return Some(k);
            }
            k = k + 1;
        }
        None
    }

    /// Finds the index of the membership proposal bearing `name`, if any.
    fn find_member_proposal(&self, name: &String) -> (r: Option<usize>)
        ensures
            match r {
                Some(i) => i < self@.member_proposals.len() && self@.member_proposals[
                    i as int
                ].proposal_name == name@,
                None => !has_mprop(self@.member_proposals, name@),
            },
    {
        let mut k: usize = 0;
        while k < self.member_proposals.len()
            invariant
                k <= self@.member_proposals.len(),
                forall|i: int| 0 <= i < k ==> self@.member_proposals[i].proposal_name != name@,
            decreases self@.member_proposals.len() - k,
        {
            if self.member_proposals[k].proposal_name == *name {
                proof {
                    assert(self@.member_proposals[k as int].proposal_name == name@);
                }
                return Some(k);
            }
            k = k + 1;
        }
        None
    }

    /// Swaps the stored proposal bearing the same name for `proposal`.
    pub fn replace_proposal(&mut self, proposal: Proposals) -> (r: Result<(), OpError>)
        requires
            old(self)@.wf(),
            proposal@.wf(),
        ensures
            final(self)@.wf(),
            match r {
                Ok(()) => has_prop(old(self)@.proposals, proposal@.proposal_name) && final(self)@
                    == (DaoView {
                    proposals: old(self)@.proposals.update(
                        prop_at(old(self)@.proposals, proposal@.proposal_name),
                        proposal@,
                    ),
                    ..old(self)@
                }),
                Err(e) => e == OpError::NotFound && !has_prop(
                    old(self)@.proposals,
                    proposal@.proposal_name,
                ) && *final(self) == *old(self),
            },
    {
        let idx = match self.find_proposal(&proposal.proposal_name) {
            None => {
                return Err(OpError::NotFound);
            },
            Some(i) => i,
        };
        let ghost pre = self@;
        proof {
            lemma_prop_at_pins(pre.proposals, proposal@.proposal_name, idx as int);
        }
        self.proposals.set(idx, proposal);
        proof {
            assert(self@.proposals =~= pre.proposals.update(idx as int, proposal@));
            assert(self@ =~= (DaoView {
                proposals: pre.proposals.update(idx as int, proposal@),
                ..pre
            }));
        }
        Ok(())
    }

    /// A snapshot of all organisation-scoped proposals, in creation order.
    pub fn get_proposals(&self) -> (r: Vec<Proposals>)
        ensures
            r.deep_view() == self@.proposals,
    {
        let r = self.proposals.clone();
        proof {
            assert forall|i: int| 0 <= i < r@.len() implies r.deep_view()[i]
                == self@.proposals[i] by {
                assert(vstd::pervasive::cloned(self.proposals[i], r[i]));
            }
            assert(r.deep_view() =~= self@.proposals);
        }
        r
    }

    /// The proposal bearing `proposal_name`, or `NotFound`.
    pub fn get_specific_proposal(&self, proposal_name: String) -> (r: Result<Proposals, OpError>)
        requires
            self@.wf(),
        ensures
            match r {
                Ok(p) => has_prop(self@.proposals, proposal_name@) && p@ == self@.proposals[prop_at(
                    self@.proposals,
                    proposal_name@,
                )],
                Err(e) => e == OpError::NotFound && !has_prop(self@.proposals, proposal_name@),
            },
    {
        match self.find_proposal(&proposal_name) {
            None => Err(OpError::NotFound),
            Some(i) => {
                proof {
                    lemma_prop_at_pins(self@.proposals, proposal_name@, i as int);
                }
                Ok(self.proposals[i].clone())
            },
        }
    }

    /// Swaps the stored membership proposal bearing the same name for
    /// `proposal`.
    pub fn replace_member_proposal(&mut self, proposal: MemberProposal) -> (r: Result<
        (),
        OpError,
    >)
        requires
            old(self)@.wf(),
            proposal@.wf(),
        ensures
            final(self)@.wf(),
            match r {
                Ok(()) => has_mprop(old(self)@.member_proposals, proposal@.proposal_name)
                    && final(self)@ == (DaoView {
                    member_proposals: old(self)@.member_proposals.update(
                        mprop_at(old(self)@.member_proposals, proposal@.proposal_name),
                        proposal@,
                    ),
                    ..old(self)@
                }),
                Err(e) => e == OpError::NotFound && !has_mprop(
                    old(self)@.member_proposals,
                    proposal@.proposal_name,
                ) && *final(self) == *old(self),
            },
    {
        let idx = match self.find_member_proposal(&proposal.proposal_name) {
            None => {
                return Err(OpError::NotFound);
            },
            Some(i) => i,
        };
        let ghost pre = self@;
        proof {
            lemma_mprop_at_pins(pre.member_proposals, proposal@.proposal_name, idx as int);
        }
        self.member_proposals.set(idx, proposal);
        proof {
            assert(self@.member_proposals =~= pre.member_proposals.update(idx as int, proposal@));
            assert(self@ =~= (DaoView {
                member_proposals: pre.member_proposals.update(idx as int, proposal@),
                ..pre
            }));
        }
        Ok(())
    }

    /// A snapshot of all membership proposals, in creation order.
    pub fn get_member_proposals(&self) -> (r: Vec<MemberProposal>)
        ensures
            r.deep_view() == self@.member_proposals,
    {
        let r = self.member_proposals.clone();
        proof {
            assert forall|i: int| 0 <= i < r@.len() implies r.deep_view()[i]
                == self@.member_proposals[i] by {
                assert(vstd::pervasive::cloned(self.member_proposals[i], r[i]));
            }
            assert(r.deep_view() =~= self@.member_proposals);
        }
        r
    }

    /// The membership proposal bearing `proposal_name`, or `NotFound`.
    pub fn get_specific_member_proposal(&self, proposal_name: String) -> (r: Result<
        MemberProposal,
        OpError,
    >)
        requires
            self@.wf(),
        ensures
            match r {
                Ok(p) => has_mprop(self@.member_proposals, proposal_name@) && p@
                    == self@.member_proposals[mprop_at(self@.member_proposals, proposal_name@)],
                Err(e) => e == OpError::NotFound && !has_mprop(
                    self@.member_proposals,
                    proposal_name@,
                ),
            },
    {
        match self.find_member_proposal(&proposal_name) {
            None => Err(OpError::NotFound),
            Some(i) => {
                proof {
                    lemma_mprop_at_pins(self@.member_proposals, proposal_name@, i as int);
                }
                Ok(self.member_proposals[i].clone())
            },
        }
    }
}

impl Clone for Dao {
    fn clone(&self) -> (r: Self)
        ensures
            r@ == self@,
    {
        let r = Dao {
            council_members: self.council_members.clone(),
            community_members: self.community_members.clone(),
            dao_name: self.dao_name.clone(),
            dao_purpose: self.dao_purpose.clone(),
            founder: self.founder.clone(),
            numb_council_members: self.numb_council_members,
            numb_community_members: self.numb_community_members,
            number_of_proposals: self.number_of_proposals,
            proposals: self.get_proposals(),
            member_proposals: self.get_member_proposals(),
            duration_days: self.duration_days,
            duration_hours: self.duration_hours,
            duration_min: self.duration_min,
        };
        proof {
            assert(r.council_members.deep_view() =~= self.council_members.deep_view());
            assert(r.community_members.deep_view() =~= self.community_members.deep_view());
            assert(r@ =~= self@);
        }
        r
    }
}

pub open spec fn has_dao(s: Seq<DaoView>, name: Seq<char>) -> bool {
    exists|i: int| 0 <= i < s.len() && s[i].dao_name == name
}

pub open spec fn dao_at(s: Seq<DaoView>, name: Seq<char>) -> int {
    choose|i: int| 0 <= i < s.len() && s[i].dao_name == name
}

pub open spec fn daos_unique(s: Seq<DaoView>) -> bool {
    forall|i: int, j: int| 0 <= i < j < s.len() ==> s[i].dao_name != s[j].dao_name
}

pub proof fn lemma_dao_at_pins(s: Seq<DaoView>, name: Seq<char>, i: int)
    requires
        daos_unique(s),
        0 <= i < s.len(),
        s[i].dao_name == name,
    ensures
        has_dao(s, name),
        dao_at(s, name) == i,
{
    assert(has_dao(s, name));
    let j = dao_at(s, name);
    assert(0 <= j < s.len() && s[j].dao_name == name);
    if i < j {
        assert(s[i].dao_name != s[j].dao_name);
    } else if j < i {
        assert(s[j].dao_name != s[i].dao_name);
    }
}

/// Removing an organisation by swap-and-pop keeps the remaining names unique.
proof fn lemma_swap_remove_keeps_daos_unique(s: Seq<DaoView>, j: int)
    requires
        daos_unique(s),
        0 <= j < s.len(),
    ensures
        daos_unique(s.update(j, s.last()).drop_last()),
{
    let t = s.update(j, s.last()).drop_last();
    assert forall|a: int, b: int| 0 <= a < b < t.len() implies t[a].dao_name != t[b].dao_name by {
        assert(t[a] == if a == j {
            s[s.len() - 1]
        } else {
            s[a]
        });
        assert(t[b] == if b == j {
            s[s.len() - 1]
        } else {
            s[b]
        });
    }
}

/// The registry of organisations: maps each unique name to its governance
/// state, under a privileged owner identity and a privileged platform
/// identity.
pub struct RegistrationDao {
    pub self_account: String,
    pub platform_account: String,
    pub daos: Vec<Dao>,
}

/// Mathematical image of the [`RegistrationDao`] state.
#[verifier::ext_equal]
pub struct RegistrationDaoView {
    pub self_account: Seq<char>,
    pub platform_account: Seq<char>,
    pub daos: Seq<DaoView>,
}

impl View for RegistrationDao {
    type V = RegistrationDaoView;

    open spec fn view(&self) -> RegistrationDaoView {
        RegistrationDaoView {
            self_account: self.self_account@,
            platform_account: self.platform_account@,
            daos: self.daos.deep_view(),
        }
    }
}

impl RegistrationDaoView {
    pub open spec fn wf(self) -> bool {
        &&& daos_unique(self.daos)
        &&& forall|i: int| 0 <= i < self.daos.len() ==> (#[trigger] self.daos[i]).wf()
    }
}

impl RegistrationDao {
    /// A fresh registry owned by `self_account`, administered through the
    /// platform identity `platform_account`, with no entries.
    pub fn new(self_account: String, platform_account: String) -> (s: RegistrationDao)
        ensures
            s@.wf(),
            s@.self_account == self_account@,
            s@.platform_account == platform_account@,
            s@.daos.len() == 0,
    {
        let s = RegistrationDao { self_account, platform_account, daos: Vec::new() };
        proof {
            assert(s@.daos =~= Seq::<DaoView>::empty());
        }
        s
    }

    /// Finds the index of the entry bearing `name`, if any.
    fn find_dao(&self, name: &String) -> (r: Option<usize>)
        ensures
            match r {
                Some(i) => i < self@.daos.len() && self@.daos[i as int].dao_name == name@,
                None => !has_dao(self@.daos, name@),
            },
    {
        let mut k: usize = 0;
        while k < self.daos.len()
            invariant
                k <= self@.daos.len(),
                forall|i: int| 0 <= i < k ==> self@.daos[i].dao_name != name@,
            decreases self@.daos.len() - k,
        {
            if self.daos[k].dao_name == *name {
                proof {
                    assert(self@.daos[k as int].dao_name == name@);
                }
                return Some(k);
            }
            k = k + 1;
        }
        None
    }

    /// Drops every entry. Restricted to the registry's own identity.
    pub fn delete_all(&mut self, caller: &String) -> (r: Result<(), OpError>)
        requires
            old(self)@.wf(),
        ensures
            final(self)@.wf(),
            match r {
                Ok(()) => caller@ == old(self)@.self_account && final(self)@
                    == (RegistrationDaoView { daos: Seq::empty(), ..old(self)@ }),
                Err(e) => e == OpError::Unauthorized && caller@ != old(self)@.self_account
                    && *final(self) == *old(self),
            },
    {
        if !(*caller == self.self_account) {
            return Err(OpError::Unauthorized);
        }
        self.daos.clear();
        proof {
            assert(self@.daos =~= Seq::<DaoView>::empty());
            assert(self@ =~= (RegistrationDaoView { daos: Seq::empty(), ..old(self)@ }));
        }
        Ok(())
    }

    /// Deletes the entry bearing `dao_name` by swapping in the last entry.
    /// Restricted to the platform identity; a missing name is a first-class
    /// failure.
    pub fn delete(&mut self, caller: &String, dao_name: String) -> (r: Result<(), OpError>)
        requires
            old(self)@.wf(),
        ensures
            final(self)@.wf(),
            match r {
                Ok(()) => caller@ == old(self)@.platform_account && has_dao(
                    old(self)@.daos,
                    dao_name@,
                ) && final(self)@ == (RegistrationDaoView {
                    daos: old(self)@.daos.update(
                        dao_at(old(self)@.daos, dao_name@),
                        old(self)@.daos.last(),
                    ).drop_last(),
                    ..old(self)@
                }),
                Err(e) => *final(self) == *old(self) && if caller@
                    != old(self)@.platform_account {
                    e == OpError::Unauthorized
                } else {
                    e == OpError::NotFound && !has_dao(old(self)@.daos, dao_name@)
                },
            },
    {
        if !(*caller == self.platform_account) {
            return Err(OpError::Unauthorized);
        }
        let idx = match self.find_dao(&dao_name) {
            None => {
                return Err(OpError::NotFound);
            },
            Some(i) => i,
        };
        let ghost pre = self@;
        proof {
            lemma_dao_at_pins(pre.daos, dao_name@, idx as int);
        }
        self.daos.swap_remove(idx);
        proof {
            assert(self@.daos =~= pre.daos.update(idx as int, pre.daos.last()).drop_last());
            assert(self@ =~= (RegistrationDaoView { daos: self@.daos, ..pre }));
            lemma_swap_remove_keeps_daos_unique(pre.daos, idx as int);
        }
        Ok(())
    }

    /// Registers a fresh entry whose founder and sole council member is the
    /// caller. Restricted to the platform identity; a taken name is
    /// refused.
    pub fn add_dao(
        &mut self,
        caller: String,
        dao_name: String,
        dao_purpose: String,
        duration_days: u64,
        duration_hours: u64,
        duration_min: u64,
    ) -> (r: Result<(), OpError>)
        requires
            old(self)@.wf(),
        ensures
            final(self)@.wf(),
            match r {
                Ok(()) => {
                    &&& caller@ == old(self)@.platform_account
                    &&& !has_dao(old(self)@.daos, dao_name@)
                    &&& final(self)@ == (RegistrationDaoView {
                        daos: old(self)@.daos.push(
                            (DaoView {
                                council_members: Seq::empty().push(caller@),
                                community_members: Seq::empty(),
                                dao_name: dao_name@,
                                dao_purpose: dao_purpose@,
                                founder: caller@,
                                numb_council_members: 1,
                                numb_community_members: 0,
                                number_of_proposals: 0,
                                proposals: Seq::empty(),
                                member_proposals: Seq::empty(),
                                duration_days: duration_days,
                                duration_hours: duration_hours,
                                duration_min: duration_min,
                            }),
                        ),
                        ..old(self)@
                    })
                },
                Err(e) => *final(self) == *old(self) && if caller@
                    != old(self)@.platform_account {
                    e == OpError::Unauthorized
                } else {
                    e == OpError::AlreadyExists && has_dao(old(self)@.daos, dao_name@)
                },
            },
    {
        if !(caller == self.platform_account) {
            return Err(OpError::Unauthorized);
        }
        if self.find_dao(&dao_name).is_some() {
            return Err(OpError::AlreadyExists);
        }
        let ghost pre = self@;
        let mut council: Vec<String> = Vec::new();
        council.push(caller.clone());
        let dao = Dao {
            council_members: council,
            community_members: Vec::new(),
            dao_name: dao_name,
            dao_purpose: dao_purpose,
            founder: caller,
            numb_council_members: 1,
            numb_community_members: 0,
            number_of_proposals: 0,
            proposals: Vec::new(),
            member_proposals: Vec::new(),
            duration_days: duration_days,
            duration_hours: duration_hours,
            duration_min: duration_min,
        };
        let ghost dv = dao@;
        self.daos.push(dao);
        proof {
            assert(dv.council_members =~= Seq::<Seq<char>>::empty().push(pre.platform_account));
            assert(dv.community_members =~= Seq::<Seq<char>>::empty());
            assert(dv.proposals =~= Seq::<ProposalsView>::empty());
            assert(dv.member_proposals =~= Seq::<MemberProposalView>::empty());
            assert(self@.daos =~= pre.daos.push(dv));
            assert(self@ =~= (RegistrationDaoView { daos: pre.daos.push(dv), ..pre }));
        }
        Ok(())
    }

    /// A snapshot of all entries, in registration order.
    pub fn get_all_daos(&self) -> (r: Vec<Dao>)
        ensures
            r.deep_view() == self@.daos,
    {
        let r = self.daos.clone();
        proof {
            assert forall|i: int| 0 <= i < r@.len() implies r.deep_view()[i] == self@.daos[i] by {
                assert(vstd::pervasive::cloned(self.daos[i], r[i]));
            }
            assert(r.deep_view() =~= self@.daos);
        }
        r
    }

    /// The entry bearing `dao_name`, or `NotFound`.
    pub fn get_dao(&self, dao_name: String) -> (r: Result<Dao, OpError>)
        requires
            self@.wf(),
        ensures
            match r {
                Ok(d) => has_dao(self@.daos, dao_name@) && d@ == self@.daos[dao_at(
                    self@.daos,
                    dao_name@,
                )],
                Err(e) => e == OpError::NotFound && !has_dao(self@.daos, dao_name@),
            },
    {
        match self.find_dao(&dao_name) {
            None => Err(OpError::NotFound),
            Some(i) => {
                proof {
                    lemma_dao_at_pins(self@.daos, dao_name@, i as int);
                }
                Ok(self.daos[i].clone())
            },
        }
    }

    /// Whether an entry bearing `dao_name` is registered.
    pub fn check_existance_dao(&self, dao_name: String) -> (b: bool)
        ensures
            b == has_dao(self@.daos, dao_name@),
    {
        self.find_dao(&dao_name).is_some()
    }

    /// Files a membership proposal with the entry bearing `dao_name`.
    pub fn create_member_proposal(
        &mut self,
        caller: String,
        now: u64,
        dao_name: String,
        beneficiary: String,
        proposal_name: String,
        description: String,
    ) -> (r: Result<(), OpError>)
        requires
            old(self)@.wf(),
        ensures
            final(self)@.wf(),
            match r {
                Ok(()) => has_dao(old(self)@.daos, dao_name@) && {
                    let di = dao_at(old(self)@.daos, dao_name@);
                    let d = old(self)@.daos[di];
                    final(self)@ == (RegistrationDaoView {
                        daos: old(self)@.daos.update(
                            di,
                            (DaoView {
                                member_proposals: d.member_proposals.push(
                                    (MemberProposalView {
                                        proposal_name: proposal_name@,
                                        description: description@,
                                        proposal_creator: caller@,
                                        beneficiary: beneficiary@,
                                        time_of_creation: now,
                                        duration_days: d.duration_days,
                                        duration_hours: d.duration_hours,
                                        duration_min: d.duration_min,
                                        tally: TallyView::empty(),
                                    }),
                                ),
                                ..d
                            }),
                        ),
                        ..old(self)@
                    })
                },
                Err(e) => *final(self) == *old(self) && if !has_dao(old(self)@.daos, dao_name@) {
                    e == OpError::NotFound
                } else {
                    let d = old(self)@.daos[dao_at(old(self)@.daos, dao_name@)];
                    if end_time_of(
                        now,
                        d.duration_days,
                        d.duration_hours,
                        d.duration_min,
                        DAY_TICKS,
                        HOUR_TICKS,
                        MIN_TICKS,
                    ) > u64::MAX {
                        e == OpError::InvalidDuration
                    } else {
                        e == OpError::AlreadyExists && has_mprop(
                            d.member_proposals,
                            proposal_name@,
                        )
                    }
                },
            },
    {
        let idx = match self.find_dao(&dao_name) {
            None => {
                return Err(OpError::NotFound);
            },
            Some(i) => i,
        };
        let ghost pre = self@;
        proof {
            lemma_dao_at_pins(pre.daos, dao_name@, idx as int);
        }
        let mut d = self.daos[idx].clone();
        match d.create_member_proposal(caller, now, proposal_name, beneficiary, description) {
            Err(e) => {
                return Err(e);
            },
            Ok(()) => {},
        }
        self.daos.set(idx, d);
        proof {
            assert(self@.daos =~= pre.daos.update(idx as int, self@.daos[idx as int]));
            assert(self@ =~= (RegistrationDaoView { daos: self@.daos, ..pre }));
        }
        Ok(())
    }

    /// Files an organisation-scoped proposal with the entry bearing
    /// `dao_name`.
    pub fn create_proposal(
        &mut self,
        caller: String,
        now: u64,
        dao_name: String,
        proposal_type: u8,
        proposal_name: String,
        description: String,
    ) -> (r: Result<(), OpError>)
        requires
            old(self)@.wf(),
        ensures
            final(self)@.wf(),
            match r {
                Ok(()) => has_dao(old(self)@.daos, dao_name@) && {
                    let di = dao_at(old(self)@.daos, dao_name@);
                    let d = old(self)@.daos[di];
                    final(self)@ == (RegistrationDaoView {
                        daos: old(self)@.daos.update(
                            di,
                            (DaoView {
                                proposals: d.proposals.push(
                                    (ProposalsView {
                                        proposal_type: proposal_type,
                                        proposal_name: proposal_name@,
                                        description: description@,
                                        proposal_creator: caller@,
                                        time_of_creation: now,
                                        duration_days: d.duration_days,
                                        duration_hours: d.duration_hours,
                                        duration_min: d.duration_min,
                                        tally: TallyView::empty(),
                                    }),
                                ),
                                ..d
                            }),
                        ),
                        ..old(self)@
                    })
                },
                Err(e) => *final(self) == *old(self) && if !has_dao(old(self)@.daos, dao_name@) {
                    e == OpError::NotFound
                } else {
                    let d = old(self)@.daos[dao_at(old(self)@.daos, dao_name@)];
                    if end_time_of(
                        now,
                        d.duration_days,
                        d.duration_hours,
                        d.duration_min,
                        DAY_TICKS,
                        HOUR_TICKS,
                        MIN_TICKS,
                    ) > u64::MAX {
                        e == OpError::InvalidDuration
                    } else {
                        e == OpError::AlreadyExists && has_prop(d.proposals, proposal_name@)
                    }
                },
            },
    {
        let idx = match self.find_dao(&dao_name) {
            None => {
                return Err(OpError::NotFound);
            },
            Some(i) => i,
        };
        let ghost pre = self@;
        proof {
            lemma_dao_at_pins(pre.daos, dao_name@, idx as int);
        }
        let mut d = self.daos[idx].clone();
        match d.create_proposal(caller, now, proposal_type, proposal_name, description) {
            Err(e) => {
                return Err(e);
            },
            Ok(()) => {},
        }
        self.daos.set(idx, d);
        proof {
            assert(self@.daos =~= pre.daos.update(idx as int, self@.daos[idx as int]));
            assert(self@ =~= (RegistrationDaoView { daos: self@.daos, ..pre }));
        }
        Ok(())
    }

    /// The platform-registry call that asks for a new entry: a
    /// registration proposal filed with the platform `platform`.
    pub fn request_dao(
        &self,
        platform: &String,
        proposal_type: u16,
        proposal_name: String,
        description: String,
        dao_name: String,
        dao_purpose: String,
        duration_days: u64,
        duration_hours: u64,
        duration_min: u64,
    ) -> (r: RemoteCall)
        ensures
            r@ == (RemoteCallView::CreateRegistrationProposal {
                platform: platform@,
                proposal_type: proposal_type,
                proposal_name: proposal_name@,
                description: description@,
                dao_name: dao_name@,
                dao_purpose: dao_purpose@,
                duration_days: duration_days,
                duration_hours: duration_hours,
                duration_min: duration_min,
            }),
    {
        RemoteCall::CreateRegistrationProposal {
            platform: platform.clone(),
            proposal_type,
            proposal_name,
            description,
            dao_name,
            dao_purpose,
            duration_days,
            duration_hours,
            duration_min,
        }
    }

    /// All proposals of the entry bearing `dao_name`.
    pub fn get_all_proposals(&self, dao_name: String) -> (r: Result<Vec<Proposals>, OpError>)
        requires
            self@.wf(),
        ensures
            match r {
                Ok(v) => has_dao(self@.daos, dao_name@) && v.deep_view() == self@.daos[dao_at(
                    self@.daos,
                    dao_name@,
                )].proposals,
                Err(e) => e == OpError::NotFound && !has_dao(self@.daos, dao_name@),
            },
    {
        let d = self.get_dao(dao_name)?;
        Ok(d.get_proposals())
    }

    /// The proposal bearing `proposal_name` in the entry bearing
    /// `dao_name`.
    pub fn get_proposal(&self, dao_name: String, proposal_name: String) -> (r: Result<
        Proposals,
        OpError,
    >)
        requires
            self@.wf(),
        ensures
            match r {
                Ok(p) => has_dao(self@.daos, dao_name@) && {
                    let d = self@.daos[dao_at(self@.daos, dao_name@)];
                    has_prop(d.proposals, proposal_name@) && p@ == d.proposals[prop_at(
                        d.proposals,
                        proposal_name@,
                    )]
                },
                Err(e) => e == OpError::NotFound && (!has_dao(self@.daos, dao_name@) || !has_prop(
                    self@.daos[dao_at(self@.daos, dao_name@)].proposals,
                    proposal_name@,
                )),
            },
    {
        let d = self.get_dao(dao_name)?;
        d.get_specific_proposal(proposal_name)
    }

    /// The deadline of the proposal bearing `proposal_name` in the entry
    /// bearing `dao_name`.
    pub fn get_end_time(&self, dao_name: String, proposal_name: String) -> (r: Result<
        u64,
        OpError,
    >)
        requires
            self@.wf(),
        ensures
            match r {
                Ok(t) => has_dao(self@.daos, dao_name@) && {
                    let d = self@.daos[dao_at(self@.daos, dao_name@)];
                    has_prop(d.proposals, proposal_name@) && t == d.proposals[prop_at(
                        d.proposals,
                        proposal_name@,
                    )].deadline()
                },
                Err(e) => e == OpError::NotFound && (!has_dao(self@.daos, dao_name@)
                    || !has_prop(
                    self@.daos[dao_at(self@.daos, dao_name@)].proposals,
                    proposal_name@,
                )),
            },
    {
        let p = self.get_proposal(dao_name, proposal_name)?;
        Ok(p.end_time())
    }

    /// All membership proposals of the entry bearing `dao_name`.
    pub fn get_all_member_proposals(&self, dao_name: String) -> (r: Result<
        Vec<MemberProposal>,
        OpError,
    >)
        requires
            self@.wf(),
        ensures
            match r {
                Ok(v) => has_dao(self@.daos, dao_name@) && v.deep_view() == self@.daos[dao_at(
                    self@.daos,
                    dao_name@,
                )].member_proposals,
                Err(e) => e == OpError::NotFound && !has_dao(self@.daos, dao_name@),
            },
    {
        let d = self.get_dao(dao_name)?;
        Ok(d.get_member_proposals())
    }

    /// The membership proposal bearing `proposal_name` in the entry
    /// bearing `dao_name`.
    pub fn get_member_proposal(&self, dao_name: String, proposal_name: String) -> (r: Result<
        MemberProposal,
        OpError,
    >)
        requires
            self@.wf(),
        ensures
            match r {
                Ok(p) => has_dao(self@.daos, dao_name@) && {
                    let d = self@.daos[dao_at(self@.daos, dao_name@)];
                    has_mprop(d.member_proposals, proposal_name@) && p@ == d.member_proposals[
                        mprop_at(d.member_proposals, proposal_name@)
                    ]
                },
                Err(e) => e == OpError::NotFound && (!has_dao(self@.daos, dao_name@) || !has_mprop(
                    self@.daos[dao_at(self@.daos, dao_name@)].member_proposals,
                    proposal_name@,
                )),
            },
    {
        let d = self.get_dao(dao_name)?;
        d.get_specific_member_proposal(proposal_name)
    }

    /// The deadline of the membership proposal bearing `proposal_name` in
    /// the entry bearing `dao_name`.
    pub fn get_end_time_member(&self, dao_name: String, proposal_name: String) -> (r: Result<
        u64,
        OpError,
    >)
        requires
            self@.wf(),
        ensures
            match r {
                Ok(t) => has_dao(self@.daos, dao_name@) && {
                    let d = self@.daos[dao_at(self@.daos, dao_name@)];
                    has_mprop(d.member_proposals, proposal_name@) && t == d.member_proposals[
                        mprop_at(d.member_proposals, proposal_name@)
                    ].deadline()
                },
                Err(e) => e == OpError::NotFound && (!has_dao(self@.daos, dao_name@)
                    || !has_mprop(
                    self@.daos[dao_at(self@.daos, dao_name@)].member_proposals,
                    proposal_name@,
                )),
            },
    {
        let p = self.get_member_proposal(dao_name, proposal_name)?;
        Ok(p.end_time())
    }

    /// Casts a vote on the named proposal of the named entry.
    pub fn add_vote(
        &mut self,
        caller: String,
        now: u64,
        dao_name: String,
        proposal_name: String,
        vote: u8,
    ) -> (r: Result<(), OpError>)
        requires
            old(self)@.wf(),
            forall|i: int, j: int|
                0 <= i < old(self)@.daos.len() && 0 <= j < old(self)@.daos[i].proposals.len()
                    ==> (#[trigger] old(self)@.daos[i].proposals[j]).tally.votes.len() < u32::MAX,
        ensures
            final(self)@.wf(),
            match r {
                Ok(()) => has_dao(old(self)@.daos, dao_name@) && {
                    let di = dao_at(old(self)@.daos, dao_name@);
                    let d = old(self)@.daos[di];
                    &&& has_prop(d.proposals, proposal_name@)
                    &&& {
                        let pi = prop_at(d.proposals, proposal_name@);
                        let p = d.proposals[pi];
                        &&& cast_err(p.tally, caller@) == Ok::<(), OpError>(())
                        &&& final(self)@ == (RegistrationDaoView {
                            daos: old(self)@.daos.update(
                                di,
                                (DaoView {
                                    proposals: d.proposals.update(
                                        pi,
                                        (ProposalsView {
                                            tally: cast_next(p.tally, caller@, now, vote),
                                            ..p
                                        }),
                                    ),
                                    ..d
                                }),
                            ),
                            ..old(self)@
                        })
                    }
                },
                Err(e) => *final(self) == *old(self) && if !has_dao(old(self)@.daos, dao_name@) {
                    e == OpError::NotFound
                } else {
                    let d = old(self)@.daos[dao_at(old(self)@.daos, dao_name@)];
                    if !has_prop(d.proposals, proposal_name@) {
                        e == OpError::NotFound
                    } else {
                        Err::<(), OpError>(e) == cast_err(
                            d.proposals[prop_at(d.proposals, proposal_name@)].tally,
                            caller@,
                        )
                    }
                },
            },
    {
        let idx = match self.find_dao(&dao_name) {
            None => {
                return Err(OpError::NotFound);
            },
            Some(i) => i,
        };
        let ghost pre = self@;
        proof {
            lemma_dao_at_pins(pre.daos, dao_name@, idx as int);
        }
        let mut d = self.daos[idx].clone();
        let mut p = match d.get_specific_proposal(proposal_name) {
            Err(e) => {
                return Err(e);
            },
            Ok(p) => p,
        };
        match p.create_vote(caller, now, vote) {
            Err(e) => {
                return Err(e);
            },
            Ok(()) => {},
        }
        match d.replace_proposal(p) {
            Err(e) => {
                proof {
                    assert(false);
                }
                return Err(e);
            },
            Ok(()) => {},
        }
        self.daos.set(idx, d);
        proof {
            assert(self@.daos =~= pre.daos.update(idx as int, self@.daos[idx as int]));
            assert(self@ =~= (RegistrationDaoView { daos: self@.daos, ..pre }));
        }
        Ok(())
    }

    /// The votes in favour on the named proposal of the named entry.
    pub fn get_votes_for(&self, dao_name: String, proposal_name: String) -> (r: Result<
        u32,
        OpError,
    >)
        requires
            self@.wf(),
        ensures
            match r {
                Ok(n) => has_dao(self@.daos, dao_name@) && {
                    let d = self@.daos[dao_at(self@.daos, dao_name@)];
                    has_prop(d.proposals, proposal_name@) && n == d.proposals[prop_at(
                        d.proposals,
                        proposal_name@,
                    )].tally.votes_for
                },
                Err(e) => e == OpError::NotFound && (!has_dao(self@.daos, dao_name@)
                    || !has_prop(
                    self@.daos[dao_at(self@.daos, dao_name@)].proposals,
                    proposal_name@,
                )),
            },
    {
        let p = self.get_proposal(dao_name, proposal_name)?;
        Ok(p.tally.votes_for)
    }

    /// The votes against on the named proposal of the named entry.
    pub fn get_votes_against(&self, dao_name: String, proposal_name: String) -> (r: Result<
        u32,
        OpError,
    >)
        requires
            self@.wf(),
        ensures
            match r {
                Ok(n) => has_dao(self@.daos, dao_name@) && {
                    let d = self@.daos[dao_at(self@.daos, dao_name@)];
                    has_prop(d.proposals, proposal_name@) && n == d.proposals[prop_at(
                        d.proposals,
                        proposal_name@,
                    )].tally.votes_against
                },
                Err(e) => e == OpError::NotFound && (!has_dao(self@.daos, dao_name@)
                    || !has_prop(
                    self@.daos[dao_at(self@.daos, dao_name@)].proposals,
                    proposal_name@,
                )),
            },
    {
        let p = self.get_proposal(dao_name, proposal_name)?;
        Ok(p.tally.votes_against)
    }

    /// The total number of votes on the named proposal of the named entry.
    pub fn get_number_votes(&self, dao_name: String, proposal_name: String) -> (r: Result<
        u32,
        OpError,
    >)
        requires
            self@.wf(),
        ensures
            match r {
                Ok(n) => has_dao(self@.daos, dao_name@) && {
                    let d = self@.daos[dao_at(self@.daos, dao_name@)];
                    has_prop(d.proposals, proposal_name@) && {
                        let p = d.proposals[prop_at(d.proposals, proposal_name@)];
                        n == p.tally.votes_against + p.tally.votes_for
                    }
                },
                Err(e) => if !has_dao(self@.daos, dao_name@) || !has_prop(
                    self@.daos[dao_at(self@.daos, dao_name@)].proposals,
                    proposal_name@,
                ) {
                    e == OpError::NotFound
                } else {
                    let p = self@.daos[dao_at(self@.daos, dao_name@)].proposals[prop_at(
                        self@.daos[dao_at(self@.daos, dao_name@)].proposals,
                        proposal_name@,
                    )];
                    e == OpError::Overflow && p.tally.votes_against + p.tally.votes_for
                        > u32::MAX
                },
            },
    {
        let p = self.get_proposal(dao_name, proposal_name)?;
        match p.tally.votes_against.checked_add(p.tally.votes_for) {
            None => Err(OpError::Overflow),
            Some(n) => Ok(n),
        }
    }

    /// Reads the named proposal of the named entry and reports in words
    /// whether it is accepted.
    pub fn check_the_proposal(&self, dao_name: String, proposal_name: String, now: u64) -> (r:
        Result<String, OpError>)
        requires
            self@.wf(),
        ensures
            match r {
                Ok(msg) => has_dao(self@.daos, dao_name@) && {
                    let d = self@.daos[dao_at(self@.daos, dao_name@)];
                    has_prop(d.proposals, proposal_name@) && {
                        let p = d.proposals[prop_at(d.proposals, proposal_name@)];
                        if p.decision_at(now) == Decision::Accepted {
                            msg@ == "Proposal accepted"@
                        } else {
                            msg@ == "Proposal refused"@
                        }
                    }
                },
                Err(e) => e == OpError::NotFound && (!has_dao(self@.daos, dao_name@)
                    || !has_prop(
                    self@.daos[dao_at(self@.daos, dao_name@)].proposals,
                    proposal_name@,
                )),
            },
    {
        let p = self.get_proposal(dao_name, proposal_name)?;
        if p.check_proposal(now) {
            Ok(String::from_str("Proposal accepted"))
        } else {
            Ok(String::from_str("Proposal refused"))
        }
    }

    /// Casts a vote on the named membership proposal of the named entry.
    pub fn add_member_vote(
        &mut self,
        caller: String,
        now: u64,
        dao_name: String,
        proposal_name: String,
        vote: u8,
    ) -> (r: Result<(), OpError>)
        requires
            old(self)@.wf(),
            forall|i: int, j: int|
                0 <= i < old(self)@.daos.len() && 0 <= j < old(
                    self,
                )@.daos[i].member_proposals.len() ==> (#[trigger] old(
                    self,
                )@.daos[i].member_proposals[j]).tally.votes.len() < u32::MAX,
        ensures
            final(self)@.wf(),
            match r {
                Ok(()) => has_dao(old(self)@.daos, dao_name@) && {
                    let di = dao_at(old(self)@.daos, dao_name@);
                    let d = old(self)@.daos[di];
                    &&& has_mprop(d.member_proposals, proposal_name@)
                    &&& {
                        let pi = mprop_at(d.member_proposals, proposal_name@);
                        let p = d.member_proposals[pi];
                        &&& cast_err(p.tally, caller@) == Ok::<(), OpError>(())
                        &&& final(self)@ == (RegistrationDaoView {
                            daos: old(self)@.daos.update(
                                di,
                                (DaoView {
                                    member_proposals: d.member_proposals.update(
                                        pi,
                                        (MemberProposalView {
                                            tally: cast_next(p.tally, caller@, now, vote),
                                            ..p
                                        }),
                                    ),
                                    ..d
                                }),
                            ),
                            ..old(self)@
                        })
                    }
                },
                Err(e) => *final(self) == *old(self) && if !has_dao(old(self)@.daos, dao_name@) {
                    e == OpError::NotFound
                } else {
                    let d = old(self)@.daos[dao_at(old(self)@.daos, dao_name@)];
                    if !has_mprop(d.member_proposals, proposal_name@) {
                        e == OpError::NotFound
                    } else {
                        Err::<(), OpError>(e) == cast_err(
                            d.member_proposals[mprop_at(d.member_proposals, proposal_name@)].tally,
                            caller@,
                        )
                    }
                },
            },
    {
        let idx = match self.find_dao(&dao_name) {
            None => {
                return Err(OpError::NotFound);
            },
            Some(i) => i,
        };
        let ghost pre = self@;
        proof {
            lemma_dao_at_pins(pre.daos, dao_name@, idx as int);
        }
        let mut d = self.daos[idx].clone();
        let mut p = match d.get_specific_member_proposal(proposal_name) {
            Err(e) => {
                return Err(e);
            },
            Ok(p) => p,
        };
        match p.create_vote(caller, now, vote) {
            Err(e) => {
                return Err(e);
            },
            Ok(()) => {},
        }
        match d.replace_member_proposal(p) {
            Err(e) => {
                proof {
                    assert(false);
                }
                return Err(e);
            },
            Ok(()) => {},
        }
        self.daos.set(idx, d);
        proof {
            assert(self@.daos =~= pre.daos.update(idx as int, self@.daos[idx as int]));
            assert(self@ =~= (RegistrationDaoView { daos: self@.daos, ..pre }));
        }
        Ok(())
    }

    /// The votes in favour on the named membership proposal.
    pub fn get_member_votes_for(&self, dao_name: String, proposal_name: String) -> (r: Result<
        u32,
        OpError,
    >)
        requires
            self@.wf(),
        ensures
            match r {
                Ok(n) => has_dao(self@.daos, dao_name@) && {
                    let d = self@.daos[dao_at(self@.daos, dao_name@)];
                    has_mprop(d.member_proposals, proposal_name@) && n == d.member_proposals[
                        mprop_at(d.member_proposals, proposal_name@)
                    ].tally.votes_for
                },
                Err(e) => e == OpError::NotFound && (!has_dao(self@.daos, dao_name@)
                    || !has_mprop(
                    self@.daos[dao_at(self@.daos, dao_name@)].member_proposals,
                    proposal_name@,
                )),
            },
    {
        let p = self.get_member_proposal(dao_name, proposal_name)?;
        Ok(p.tally.votes_for)
    }

    /// The votes against on the named membership proposal.
    pub fn get_member_votes_against(&self, dao_name: String, proposal_name: String) -> (r: Result<
        u32,
        OpError,
    >)
        requires
            self@.wf(),
        ensures
            match r {
                Ok(n) => has_dao(self@.daos, dao_name@) && {
                    let d = self@.daos[dao_at(self@.daos, dao_name@)];
                    has_mprop(d.member_proposals, proposal_name@) && n == d.member_proposals[
                        mprop_at(d.member_proposals, proposal_name@)
                    ].tally.votes_against
                },
                Err(e) => e == OpError::NotFound && (!has_dao(self@.daos, dao_name@)
                    || !has_mprop(
                    self@.daos[dao_at(self@.daos, dao_name@)].member_proposals,
                    proposal_name@,
                )),
            },
    {
        let p = self.get_member_proposal(dao_name, proposal_name)?;
        Ok(p.tally.votes_against)
    }

    /// The total number of votes on the named membership proposal.
    pub fn get_number_member_votes(&self, dao_name: String, proposal_name: String) -> (r: Result<
        u32,
        OpError,
    >)
        requires
            self@.wf(),
        ensures
            match r {
                Ok(n) => has_dao(self@.daos, dao_name@) && {
                    let d = self@.daos[dao_at(self@.daos, dao_name@)];
                    has_mprop(d.member_proposals, proposal_name@) && {
                        let p = d.member_proposals[mprop_at(d.member_proposals, proposal_name@)];
                        n == p.tally.votes_against + p.tally.votes_for
                    }
                },
                Err(e) => if !has_dao(self@.daos, dao_name@) || !has_mprop(
                    self@.daos[dao_at(self@.daos, dao_name@)].member_proposals,
                    proposal_name@,
                ) {
                    e == OpError::NotFound
                } else {
                    let p = self@.daos[dao_at(self@.daos, dao_name@)].member_proposals[mprop_at(
                        self@.daos[dao_at(self@.daos, dao_name@)].member_proposals,
                        proposal_name@,
                    )];
                    e == OpError::Overflow && p.tally.votes_against + p.tally.votes_for
                        > u32::MAX
                },
            },
    {
        let p = self.get_member_proposal(dao_name, proposal_name)?;
        match p.tally.votes_against.checked_add(p.tally.votes_for) {
            None => Err(OpError::Overflow),
            Some(n) => Ok(n),
        }
    }

    /// Reads the named membership proposal and reports in words whether it
    /// is accepted.
    pub fn check_the_member_proposal(
        &self,
        dao_name: String,
        proposal_name: String,
        now: u64,
    ) -> (r: Result<String, OpError>)
        requires
            self@.wf(),
        ensures
            match r {
                Ok(msg) => has_dao(self@.daos, dao_name@) && {
                    let d = self@.daos[dao_at(self@.daos, dao_name@)];
                    has_mprop(d.member_proposals, proposal_name@) && {
                        let p = d.member_proposals[mprop_at(d.member_proposals, proposal_name@)];
                        if p.decision_at(now) == Decision::Accepted {
                            msg@ == "Proposal accepted"@
                        } else {
                            msg@ == "Proposal refused"@
                        }
                    }
                },
                Err(e) => e == OpError::NotFound && (!has_dao(self@.daos, dao_name@)
                    || !has_mprop(
                    self@.daos[dao_at(self@.daos, dao_name@)].member_proposals,
                    proposal_name@,
                )),
            },
    {
        let p = self.get_member_proposal(dao_name, proposal_name)?;
        if p.check_proposal(now) {
            Ok(String::from_str("Proposal accepted"))
        } else {
            Ok(String::from_str("Proposal refused"))
        }
    }

    /// Enrols `account` as a council member of the named entry.
    pub fn process_member_proposal(&mut self, dao_name: String, account: String) -> (r: Result<
        (),
        OpError,
    >)
        requires
            old(self)@.wf(),
        ensures
            final(self)@.wf(),
            match r {
                Ok(()) => has_dao(old(self)@.daos, dao_name@) && {
                    let di = dao_at(old(self)@.daos, dao_name@);
                    let d = old(self)@.daos[di];
                    d.numb_council_members < u64::MAX && final(self)@ == (RegistrationDaoView {
                        daos: old(self)@.daos.update(
                            di,
                            (DaoView {
                                council_members: d.council_members.push(account@),
                                numb_council_members: (d.numb_council_members + 1) as u64,
                                ..d
                            }),
                        ),
                        ..old(self)@
                    })
                },
                Err(e) => *final(self) == *old(self) && if !has_dao(old(self)@.daos, dao_name@) {
                    e == OpError::NotFound
                } else {
                    e == OpError::Overflow && old(self)@.daos[dao_at(
                        old(self)@.daos,
                        dao_name@,
                    )].numb_council_members == u64::MAX
                },
            },
    {
        let idx = match self.find_dao(&dao_name) {
            None => {
                return Err(OpError::NotFound);
            },
            Some(i) => i,
        };
        let ghost pre = self@;
        proof {
            lemma_dao_at_pins(pre.daos, dao_name@, idx as int);
        }
        if self.daos[idx].numb_council_members == u64::MAX {
            return Err(OpError::Overflow);
        }
        let mut d = self.daos[idx].clone();
        d.council_members.push(account);
        d.numb_council_members = d.numb_council_members + 1;
        self.daos.set(idx, d);
        proof {
            assert(self@.daos[idx as int].council_members =~= pre.daos[idx as int].council_members
                .push(self@.daos[idx as int].council_members.last()));
            assert(self@.daos =~= pre.daos.update(idx as int, self@.daos[idx as int]));
            assert(self@ =~= (RegistrationDaoView { daos: self@.daos, ..pre }));
        }
        Ok(())
    }

    /// Enrols `account` as a community member of the named entry.
    pub fn add_community_member(&mut self, dao_name: String, account: String) -> (r: Result<
        (),
        OpError,
    >)
        requires
            old(self)@.wf(),
        ensures
            final(self)@.wf(),
            match r {
                Ok(()) => has_dao(old(self)@.daos, dao_name@) && {
                    let di = dao_at(old(self)@.daos, dao_name@);
                    let d = old(self)@.daos[di];
                    d.numb_community_members < u64::MAX && final(self)@ == (RegistrationDaoView {
                        daos: old(self)@.daos.update(
                            di,
                            (DaoView {
                                community_members: d.community_members.push(account@),
                                numb_community_members: (d.numb_community_members + 1) as u64,
                                ..d
                            }),
                        ),
                        ..old(self)@
                    })
                },
                Err(e) => *final(self) == *old(self) && if !has_dao(old(self)@.daos, dao_name@) {
                    e == OpError::NotFound
                } else {
                    e == OpError::Overflow && old(self)@.daos[dao_at(
                        old(self)@.daos,
                        dao_name@,
                    )].numb_community_members == u64::MAX
                },
            },
    {
        let idx = match self.find_dao(&dao_name) {
            None => {
                return Err(OpError::NotFound);
            },
            Some(i) => i,
        };
        let ghost pre = self@;
        proof {
            lemma_dao_at_pins(pre.daos, dao_name@, idx as int);
        }
        if self.daos[idx].numb_community_members == u64::MAX {
            return Err(OpError::Overflow);
        }
        let mut d = self.daos[idx].clone();
        d.community_members.push(account);
        d.numb_community_members = d.numb_community_members + 1;
        self.daos.set(idx, d);
        proof {
            assert(self@.daos[idx as int].community_members =~= pre.daos[
                idx as int
            ].community_members.push(self@.daos[idx as int].community_members.last()));
            assert(self@.daos =~= pre.daos.update(idx as int, self@.daos[idx as int]));
            assert(self@ =~= (RegistrationDaoView { daos: self@.daos, ..pre }));
        }
        Ok(())
    }
}

} // verus!
