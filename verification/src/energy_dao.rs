use vstd::prelude::*;

use crate::errors::{Decision, OpError};
use crate::remote::{RemoteCall, RemoteCallView, LTS_SCALE};
use crate::tally::{
    cast_err, cast_next, decision, end_time_of, checked_end_time, Tally, TallyView,
};

verus! {

/// Duration unit scales of this governance variant, in ticks of the
/// logical clock per day, hour and minute.
pub const DAY_NS: u64 = 86400000000000;

pub const HOUR_NS: u64 = 3600000000000;

pub const MIN_NS: u64 = 60000000000;

/// Role tag of a decision-making member.
pub const ROLE_COUNCIL: u8 = 0;

/// Role tag of a non-voting community member.
pub const ROLE_COMMUNITY: u8 = 1;

/// A governance proposal of this variant, with a funding amount.
pub struct Proposal {
    pub proposal_type: u8,
    pub proposal_name: String,
    pub description: String,
    pub amount: u128,
    pub proposal_creator: String,
    pub time_of_creation: u64,
    pub duration_days: u64,
    pub duration_hours: u64,
    pub duration_min: u64,
    pub tally: Tally,
}

/// Mathematical image of a [`Proposal`].
#[verifier::ext_equal]
pub struct ProposalView {
    pub proposal_type: u8,
    pub proposal_name: Seq<char>,
    pub description: Seq<char>,
    pub amount: u128,
    pub proposal_creator: Seq<char>,
    pub time_of_creation: u64,
    pub duration_days: u64,
    pub duration_hours: u64,
    pub duration_min: u64,
    pub tally: TallyView,
}

impl View for Proposal {
    type V = ProposalView;

    open spec fn view(&self) -> ProposalView {
        ProposalView {
            proposal_type: self.proposal_type,
            proposal_name: self.proposal_name@,
            description: self.description@,
            amount: self.amount,
            proposal_creator: self.proposal_creator@,
            time_of_creation: self.time_of_creation,
            duration_days: self.duration_days,
            duration_hours: self.duration_hours,
            duration_min: self.duration_min,
            tally: self.tally@,
        }
    }
}

impl DeepView for Proposal {
    type V = ProposalView;

    open spec fn deep_view(&self) -> ProposalView {
        self.view()
    }
}

impl ProposalView {
    pub open spec fn end_time(self) -> int {
        end_time_of(
            self.time_of_creation,
            self.duration_days,
            self.duration_hours,
            self.duration_min,
            DAY_NS,
            HOUR_NS,
            MIN_NS,
        )
    }

    pub open spec fn deadline(self) -> u64 {
        self.end_time() as u64
    }

    pub open spec fn wf(self) -> bool {
        &&& self.tally.wf()
        &&& self.end_time() <= u64::MAX
    }

    pub open spec fn decision_at(self, now: u64) -> Decision {
        decision(self.tally.votes_for, self.tally.votes_against, self.deadline(), now)
    }

    pub open spec fn empty() -> ProposalView {
        ProposalView {
            proposal_type: 0,
            proposal_name: Seq::empty(),
            description: Seq::empty(),
            amount: 0,
            proposal_creator: Seq::empty(),
            time_of_creation: 0,
            duration_days: 0,
            duration_hours: 0,
            duration_min: 0,
            tally: TallyView::empty(),
        }
    }
}

impl Proposal {
    pub fn new() -> (p: Proposal)
        ensures
            p@ == ProposalView::empty(),
            p@.wf(),
    {
        let p = Proposal {
            proposal_type: 0,
            proposal_name: String::new(),
            description: String::new(),
            amount: 0,
            proposal_creator: String::new(),
            time_of_creation: 0,
            duration_days: 0,
            duration_hours: 0,
            duration_min: 0,
            tally: Tally::new(),
        };
        proof {
            assert(p@ =~= ProposalView::empty());
        }
        p
    }

    /// Records one vote, or refuses a duplicate identity.
    pub fn create_vote(&mut self, caller: String, now: u64, choice: u8) -> (r: Result<
        (),
        OpError,
    >)
        requires
            old(self)@.wf(),
            old(self)@.tally.votes.len() < u32::MAX,
        ensures
            final(self)@ == (ProposalView {
                tally: cast_next(old(self)@.tally, caller@, now, choice),
                ..old(self)@
            }),
            r == cast_err(old(self)@.tally, caller@),
            final(self)@.wf(),
    {
        let r = self.tally.cast(caller, now, choice);
        proof {
            assert(self@ =~= (ProposalView { tally: self@.tally, ..old(self)@ }));
        }
        r
    }

    pub fn end_time(&self) -> (t: u64)
        requires
            self@.wf(),
        ensures
            t == self@.deadline(),
    {
        self.time_of_creation + (self.duration_days * DAY_NS + self.duration_hours * HOUR_NS
            + self.duration_min * MIN_NS)
    }

    /// Whether the proposal reads as accepted: strictly past its deadline
    /// with a strict majority in favour.
    pub fn check_proposal(&self, now: u64) -> (b: bool)
        requires
            self@.wf(),
        ensures
            b == (self@.decision_at(now) == Decision::Accepted),
    {
        let end = self.end_time();
        now > end && self.tally.votes_for > self.tally.votes_against
    }
}

impl Clone for Proposal {
    fn clone(&self) -> (r: Self)
        ensures
            r@ == self@,
    {
        let r = Proposal {
            proposal_type: self.proposal_type,
            proposal_name: self.proposal_name.clone(),
            description: self.description.clone(),
            amount: self.amount,
            proposal_creator: self.proposal_creator.clone(),
            time_of_creation: self.time_of_creation,
            duration_days: self.duration_days,
            duration_hours: self.duration_hours,
            duration_min: self.duration_min,
            tally: self.tally.clone(),
        };
        proof {
            assert(r@ =~= self@);
        }
        r
    }
}

pub open spec fn has_prop(s: Seq<ProposalView>, name: Seq<char>) -> bool {
    exists|i: int| 0 <= i < s.len() && s[i].proposal_name == name
}

pub open spec fn prop_at(s: Seq<ProposalView>, name: Seq<char>) -> int {
    choose|i: int| 0 <= i < s.len() && s[i].proposal_name == name
}

pub open spec fn props_unique(s: Seq<ProposalView>) -> bool {
    forall|i: int, j: int| 0 <= i < j < s.len() ==> s[i].proposal_name != s[j].proposal_name
}

pub proof fn lemma_prop_at_pins(s: Seq<ProposalView>, name: Seq<char>, i: int)
    requires
        props_unique(s),
        0 <= i < s.len(),
        s[i].proposal_name == name,
    ensures
        has_prop(s, name),
        prop_at(s, name) == i,
{
    assert(has_prop(s, name));
    let j = prop_at(s, name);
    assert(0 <= j < s.len() && s[j].proposal_name == name);
    if i < j {
        assert(s[i].proposal_name != s[j].proposal_name);
    } else if j < i {
        assert(s[j].proposal_name != s[i].proposal_name);
    }
}

/// Whether the role map holds an entry for identity `k`.
pub open spec fn has_key(s: Seq<(Seq<char>, u8)>, k: Seq<char>) -> bool {
    exists|i: int| 0 <= i < s.len() && s[i].0 == k
}

/// The index of identity `k` in the role map (unique under well-formedness).
pub open spec fn key_at(s: Seq<(Seq<char>, u8)>, k: Seq<char>) -> int {
    choose|i: int| 0 <= i < s.len() && s[i].0 == k
}

/// The role recorded for identity `k`.
pub open spec fn role_of(s: Seq<(Seq<char>, u8)>, k: Seq<char>) -> u8 {
    s[key_at(s, k)].1
}

/// Whether identity `k` is a recorded council member.
pub open spec fn is_council(s: Seq<(Seq<char>, u8)>, k: Seq<char>) -> bool {
    has_key(s, k) && role_of(s, k) == ROLE_COUNCIL
}

pub open spec fn keys_unique(s: Seq<(Seq<char>, u8)>) -> bool {
    forall|i: int, j: int| 0 <= i < j < s.len() ==> s[i].0 != s[j].0
}

/// The role map after recording identity `k` with role `v`: the existing
/// entry is overwritten, or a fresh entry is appended.
pub open spec fn upsert(s: Seq<(Seq<char>, u8)>, k: Seq<char>, v: u8) -> Seq<(Seq<char>, u8)> {
    if has_key(s, k) {
        s.update(key_at(s, k), (k, v))
    } else {
        s.push((k, v))
    }
}

pub proof fn lemma_key_at_pins(s: Seq<(Seq<char>, u8)>, k: Seq<char>, i: int)
    requires
        keys_unique(s),
        0 <= i < s.len(),
        s[i].0 == k,
    ensures
        has_key(s, k),
        key_at(s, k) == i,
{
    assert(has_key(s, k));
    let j = key_at(s, k);
    assert(0 <= j < s.len() && s[j].0 == k);
    if i < j {
        assert(s[i].0 != s[j].0);
    } else if j < i {
        assert(s[j].0 != s[i].0);
    }
}

/// The identities of the entries bearing role `role`, in map order.
pub open spec fn names_with_role(s: Seq<(Seq<char>, u8)>, role: u8) -> Seq<Seq<char>>
    decreases s.len(),
{
    if s.len() == 0 {
        Seq::empty()
    } else {
        let rest = names_with_role(s.drop_last(), role);
        if s.last().1 == role {
            rest.push(s.last().0)
        } else {
            rest
        }
    }
}

/// The governance state of this variant: a role map over members and the
/// proposals.
pub struct EnergyDao {
    pub self_account: String,
    pub members: Vec<(String, u8)>,
    pub proposals: Vec<Proposal>,
}

/// Mathematical image of the [`EnergyDao`] state.
#[verifier::ext_equal]
pub struct EnergyDaoView {
    pub self_account: Seq<char>,
    pub members: Seq<(Seq<char>, u8)>,
    pub proposals: Seq<ProposalView>,
}

impl View for EnergyDao {
    type V = EnergyDaoView;

    open spec fn view(&self) -> EnergyDaoView {
        EnergyDaoView {
            self_account: self.self_account@,
            members: self.members.deep_view(),
            proposals: self.proposals.deep_view(),
        }
    }
}

impl EnergyDaoView {
    pub open spec fn wf(self) -> bool {
        &&& keys_unique(self.members)
        &&& forall|i: int| 0 <= i < self.proposals.len() ==> (#[trigger] self.proposals[i]).wf()
        &&& props_unique(self.proposals)
    }
}

impl EnergyDao {
    /// A fresh governance state owned by `self_account`, with no members
    /// and no proposals.
    pub fn new(self_account: String) -> (s: EnergyDao)
        ensures
            s@.wf(),
            s@.self_account == self_account@,
            s@.members.len() == 0,
            s@.proposals.len() == 0,
    {
        let s = EnergyDao { self_account, members: Vec::new(), proposals: Vec::new() };
        proof {
            assert(s@.members =~= Seq::<(Seq<char>, u8)>::empty());
            assert(s@.proposals =~= Seq::<ProposalView>::empty());
        }
        s
    }

    /// Finds the index of the member entry for `account`, if any.
    fn find_member(&self, account: &String) -> (r: Option<usize>)
        ensures
            match r {
                Some(i) => i < self@.members.len() && self@.members[i as int].0 == account@,
                None => !has_key(self@.members, account@),
            },
    {
        let mut k: usize = 0;
        while k < self.members.len()
            invariant
                k <= self@.members.len(),
                forall|i: int| 0 <= i < k ==> self@.members[i].0 != account@,
            decreases self@.members.len() - k,
        {
            if self.members[k].0 == *account {
                proof {
                    assert(self@.members[k as int].0 == account@);
                }
                return Some(k);
            }
            k = k + 1;
        }
        None
    }

    /// Records `account` with `role`, overwriting an existing entry.
    fn set_member(&mut self, account: String, role: u8)
        requires
            keys_unique(old(self)@.members),
        ensures
            final(self)@ == (EnergyDaoView {
                members: upsert(old(self)@.members, account@, role),
                ..old(self)@
            }),
            keys_unique(final(self)@.members),
    {
        let ghost pre = self@;
        match self.find_member(&account) {
            Some(i) => {
                proof {
                    lemma_key_at_pins(pre.members, account@, i as int);
                }
                self.members.set(i, (account, role));
                proof {
                    assert(self@.members =~= pre.members.update(
                        key_at(pre.members, account@),
                        (account@, role),
                    ));
                    assert(self@ =~= (EnergyDaoView { members: self@.members, ..pre }));
                }
            },
            None => {
                self.members.push((account, role));
                proof {
                    assert(self@.members =~= pre.members.push((account@, role)));
                    assert(self@ =~= (EnergyDaoView { members: self@.members, ..pre }));
                }
            },
        }
    }

    /// Enrols the governance state's own identity as a council member.
    /// Restricted to that identity itself.
    pub fn init(&mut self, caller: &String) -> (r: Result<(), OpError>)
        requires
            old(self)@.wf(),
        ensures
            final(self)@.wf(),
            match r {
                Ok(()) => caller@ == old(self)@.self_account && final(self)@ == (EnergyDaoView {
                    members: upsert(old(self)@.members, old(self)@.self_account, ROLE_COUNCIL),
                    ..old(self)@
                }),
                Err(e) => e == OpError::Unauthorized && caller@ != old(self)@.self_account
                    && *final(self) == *old(self),
            },
    {
        if !(*caller == self.self_account) {
            return Err(OpError::Unauthorized);
        }
        let own = self.self_account.clone();
        self.set_member(own, ROLE_COUNCIL);
        Ok(())
    }

    /// Drops every member entry. Restricted to the state's own identity.
    pub fn delete_all(&mut self, caller: &String) -> (r: Result<(), OpError>)
        requires
            old(self)@.wf(),
        ensures
            final(self)@.wf(),
            match r {
                Ok(()) => caller@ == old(self)@.self_account && final(self)@ == (EnergyDaoView {
                    members: Seq::empty(),
                    ..old(self)@
                }),
                Err(e) => e == OpError::Unauthorized && caller@ != old(self)@.self_account
                    && *final(self) == *old(self),
            },
    {
        if !(*caller == self.self_account) {
            return Err(OpError::Unauthorized);
        }
        self.members.clear();
        proof {
            assert(self@.members =~= Seq::<(Seq<char>, u8)>::empty());
            assert(self@ =~= (EnergyDaoView { members: Seq::empty(), ..old(self)@ }));
        }
        Ok(())
    }

    /// The identities of all council members, in map order.
    pub fn get_councils(&self) -> (r: Vec<String>)
        ensures
            r.deep_view() == names_with_role(self@.members, ROLE_COUNCIL),
    {
        self.members_with_role(ROLE_COUNCIL)
    }

    /// The identities of all community members, in map order.
    pub fn get_communities(&self) -> (r: Vec<String>)
        ensures
            r.deep_view() == names_with_role(self@.members, ROLE_COMMUNITY),
    {
        self.members_with_role(ROLE_COMMUNITY)
    }

    fn members_with_role(&self, role: u8) -> (r: Vec<String>)
        ensures
            r.deep_view() == names_with_role(self@.members, role),
    {
        let mut r: Vec<String> = Vec::new();
        let mut k: usize = 0;
        while k < self.members.len()
            invariant
                k <= self@.members.len(),
                r.deep_view() == names_with_role(self@.members.take(k as int), role),
            decreases self@.members.len() - k,
        {
            let ghost pre = r.deep_view();
            if self.members[k].1 == role {
                let name = self.members[k].0.clone();
                r.push(name);
                proof {
                    assert(r.deep_view() =~= pre.push(self@.members[k as int].0));
                }
            }
            proof {
                assert(self@.members.take(k as int + 1).drop_last() =~= self@.members.take(
                    k as int,
                ));
                assert(self@.members.take(k as int + 1).last() == self@.members[k as int]);
            }
            k = k + 1;
        }
        proof {
            assert(self@.members.take(self@.members.len() as int) =~= self@.members);
        }
        r
    }

    /// Whether `account` is a recorded member of any role.
    pub fn check_member(&self, account: String) -> (b: bool)
        ensures
            b == has_key(self@.members, account@),
    {
        self.find_member(&account).is_some()
    }

    /// Whether `account` is a recorded council member.
    pub fn check_council(&self, account: String) -> (b: bool)
        requires
            self@.wf(),
        ensures
            b == is_council(self@.members, account@),
    {
        match self.find_member(&account) {
            None => false,
            Some(i) => {
                proof {
                    lemma_key_at_pins(self@.members, account@, i as int);
                }
                self.members[i].1 == ROLE_COUNCIL
            },
        }
    }

    /// Creates a proposal in the open state with an empty tally. Only a
    /// council member may create one.
    pub fn create_proposal(
        &mut self,
        caller: String,
        now: u64,
        proposal_type: u8,
        proposal_name: String,
        description: String,
        amount: u128,
        duration_days: u64,
        duration_hours: u64,
        duration_min: u64,
    ) -> (r: Result<(), OpError>)
        requires
            old(self)@.wf(),
        ensures
            final(self)@.wf(),
            match r {
                Ok(()) => {
                    &&& is_council(old(self)@.members, caller@)
                    &&& end_time_of(
                        now,
                        duration_days,
                        duration_hours,
                        duration_min,
                        DAY_NS,
                        HOUR_NS,
                        MIN_NS,
                    ) <= u64::MAX
                    &&& !has_prop(old(self)@.proposals, proposal_name@)
                    &&& final(self)@ == (EnergyDaoView {
                        proposals: old(self)@.proposals.push(
                            (ProposalView {
                                proposal_type: proposal_type,
                                proposal_name: proposal_name@,
                                description: description@,
                                amount: amount,
                                proposal_creator: caller@,
                                time_of_creation: now,
                                duration_days: duration_days,
                                duration_hours: duration_hours,
                                duration_min: duration_min,
                                tally: TallyView::empty(),
                            }),
                        ),
                        ..old(self)@
                    })
                },
                Err(e) => *final(self) == *old(self) && if !is_council(
                    old(self)@.members,
                    caller@,
                ) {
                    e == OpError::Unauthorized
                } else if end_time_of(
                    now,
                    duration_days,
                    duration_hours,
                    duration_min,
                    DAY_NS,
                    HOUR_NS,
                    MIN_NS,
                ) > u64::MAX {
                    e == OpError::InvalidDuration
                } else {
                    e == OpError::AlreadyExists && has_prop(old(self)@.proposals, proposal_name@)
                },
            },
    {
        let caller_copy = caller.clone();
        if !self.check_council(caller_copy) {
            return Err(OpError::Unauthorized);
        }
        if checked_end_time(
            now,
            duration_days,
            duration_hours,
            duration_min,
            DAY_NS,
            HOUR_NS,
            MIN_NS,
        ).is_none() {
            return Err(OpError::InvalidDuration);
        }
        if self.find_proposal(&proposal_name).is_some() {
            return Err(OpError::AlreadyExists);
        }
        let ghost pre = self@;
        let proposal = Proposal {
            proposal_type: proposal_type,
            proposal_name: proposal_name,
            description: description,
            amount: amount,
            proposal_creator: caller,
            time_of_creation: now,
            duration_days: duration_days,
            duration_hours: duration_hours,
            duration_min: duration_min,
            tally: Tally::new(),
        };
        let ghost pv = proposal@;
        self.proposals.push(proposal);
        proof {
            assert(self@.proposals =~= pre.proposals.push(pv));
            assert(self@ =~= (EnergyDaoView { proposals: pre.proposals.push(pv), ..pre }));
            assert(pv.tally =~= TallyView::empty());
        }
        Ok(())
    }

    /// Finds the index of the proposal bearing `name`, if any.
    fn find_proposal(&self, name: &String) -> (r: Option<usize>)
        ensures
            match r {
                Some(i) => i < self@.proposals.len() && self@.proposals[i as int].proposal_name
                    == name@,
                None => !has_prop(self@.proposals, name@),
            },
    {
        let mut k: usize = 0;
        while k < self.proposals.len()
            invariant
                k <= self@.proposals.len(),
                forall|i: int| 0 <= i < k ==> self@.proposals[i].proposal_name != name@,
            decreases self@.proposals.len() - k,
        {
            if self.proposals[k].proposal_name == *name {
                proof {
                    assert(self@.proposals[k as int].proposal_name == name@);
                }
                return Some(k);
            }
            k = k + 1;
        }
        None
    }

    /// Swaps the stored proposal bearing the same name for `proposal`.
    pub fn replace_proposal(&mut self, proposal: Proposal) -> (r: Result<(), OpError>)
        requires
            old(self)@.wf(),
            proposal@.wf(),
        ensures
            final(self)@.wf(),
            match r {
                Ok(()) => has_prop(old(self)@.proposals, proposal@.proposal_name) && final(self)@
                    == (EnergyDaoView {
                    proposals: old(self)@.proposals.update(
                        prop_at(old(self)@.proposals, proposal@.proposal_name),
                        proposal@,
                    ),
                    ..old(self)@
                }),
                Err(e) => e == OpError::NotFound && !has_prop(
                    old(self)@.proposals,
                    proposal@.proposal_name,
                ) && *final(self) == *old(self),
            },
    {
        let idx = match self.find_proposal(&proposal.proposal_name) {
            None => {
                return Err(OpError::NotFound);
            },
            Some(i) => i,
        };
        let ghost pre = self@;
        proof {
            lemma_prop_at_pins(pre.proposals, proposal@.proposal_name, idx as int);
        }
        self.proposals.set(idx, proposal);
        proof {
            assert(self@.proposals =~= pre.proposals.update(idx as int, proposal@));
            assert(self@ =~= (EnergyDaoView {
                proposals: pre.proposals.update(idx as int, proposal@),
                ..pre
            }));
        }
        Ok(())
    }

    /// A snapshot of all proposals, in creation order.
    pub fn get_proposals(&self) -> (r: Vec<Proposal>)
        ensures
            r.deep_view() == self@.proposals,
    {
        let r = self.proposals.clone();
        proof {
            assert forall|i: int| 0 <= i < r@.len() implies r.deep_view()[i]
                == self@.proposals[i] by {
                assert(vstd::pervasive::cloned(self.proposals[i], r[i]));
            }
            assert(r.deep_view() =~= self@.proposals);
        }
        r
    }

    /// The proposal bearing `proposal_name`, or `NotFound`.
    pub fn get_specific_proposal(&self, proposal_name: String) -> (r: Result<Proposal, OpError>)
        requires
            self@.wf(),
        ensures
            match r {
                Ok(p) => has_prop(self@.proposals, proposal_name@) && p@ == self@.proposals[prop_at(
                    self@.proposals,
                    proposal_name@,
                )],
                Err(e) => e == OpError::NotFound && !has_prop(self@.proposals, proposal_name@),
            },
    {
        match self.find_proposal(&proposal_name) {
            None => Err(OpError::NotFound),
            Some(i) => {
                proof {
                    lemma_prop_at_pins(self@.proposals, proposal_name@, i as int);
                }
                Ok(self.proposals[i].clone())
            },
        }
    }

    /// Casts a vote on the named proposal. This variant gates voting by the
    /// deadline: at or past it the vote is refused with `ProposalExpired`.
    /// Only recorded members may vote.
    pub fn add_vote(&mut self, caller: String, now: u64, proposal_name: String, vote: u8) -> (r:
        Result<(), OpError>)
        requires
            old(self)@.wf(),
            forall|i: int|
                0 <= i < old(self)@.proposals.len() ==> (#[trigger] old(
                    self,
                )@.proposals[i]).tally.votes.len() < u32::MAX,
        ensures
            final(self)@.wf(),
            match r {
                Ok(()) => {
                    &&& has_prop(old(self)@.proposals, proposal_name@)
                    &&& {
                        let i = prop_at(old(self)@.proposals, proposal_name@);
                        let p = old(self)@.proposals[i];
                        &&& now < p.deadline()
                        &&& has_key(old(self)@.members, caller@)
                        &&& cast_err(p.tally, caller@) == Ok::<(), OpError>(())
                        &&& final(self)@ == (EnergyDaoView {
                            proposals: old(self)@.proposals.update(
                                i,
                                (ProposalView {
                                    tally: cast_next(p.tally, caller@, now, vote),
                                    ..p
                                }),
                            ),
                            ..old(self)@
                        })
                    }
                },
                Err(e) => *final(self) == *old(self) && if !has_prop(
                    old(self)@.proposals,
                    proposal_name@,
                ) {
                    e == OpError::NotFound
                } else {
                    let p = old(self)@.proposals[prop_at(old(self)@.proposals, proposal_name@)];
                    if now >= p.deadline() {
                        e == OpError::ProposalExpired
                    } else if !has_key(old(self)@.members, caller@) {
                        e == OpError::Unauthorized
                    } else {
                        Err::<(), OpError>(e) == cast_err(p.tally, caller@)
                    }
                },
            },
    {
        let idx = match self.find_proposal(&proposal_name) {
            None => {
                return Err(OpError::NotFound);
            },
            Some(i) => i,
        };
        let ghost pre = self@;
        proof {
            lemma_prop_at_pins(pre.proposals, proposal_name@, idx as int);
        }
        let end = self.proposals[idx].end_time();
        if now >= end {
            return Err(OpError::ProposalExpired);
        }
        if self.find_member(&caller).is_none() {
            return Err(OpError::Unauthorized);
        }
        let mut p = self.proposals[idx].clone();
        match p.create_vote(caller, now, vote) {
            Err(e) => {
                return Err(e);
            },
            Ok(()) => {},
        }
        self.proposals.set(idx, p);
        proof {
            assert(self@.proposals =~= pre.proposals.update(
                idx as int,
                (ProposalView {
                    tally: cast_next(pre.proposals[idx as int].tally, caller@, now, vote),
                    ..pre.proposals[idx as int]
                }),
            ));
            assert(self@ =~= (EnergyDaoView { proposals: self@.proposals, ..pre }));
        }
        Ok(())
    }

    /// Enrols `account` as a council member. Only a council member may do
    /// so.
    pub fn add_council(&mut self, caller: String, account: String) -> (r: Result<(), OpError>)
        requires
            old(self)@.wf(),
        ensures
            final(self)@.wf(),
            match r {
                Ok(()) => is_council(old(self)@.members, caller@) && final(self)@
                    == (EnergyDaoView {
                    members: upsert(old(self)@.members, account@, ROLE_COUNCIL),
                    ..old(self)@
                }),
                Err(e) => e == OpError::Unauthorized && !is_council(old(self)@.members, caller@)
                    && *final(self) == *old(self),
            },
    {
        if !self.check_council(caller) {
            return Err(OpError::Unauthorized);
        }
        self.set_member(account, ROLE_COUNCIL);
        Ok(())
    }

    /// Enrols `account` as a community member; open to anyone.
    pub fn add_community(&mut self, account: String)
        requires
            old(self)@.wf(),
        ensures
            final(self)@.wf(),
            final(self)@ == (EnergyDaoView {
                members: upsert(old(self)@.members, account@, ROLE_COMMUNITY),
                ..old(self)@
            }),
    {
        self.set_member(account, ROLE_COMMUNITY);
    }

    /// Reads the named proposal and reports in words whether it is
    /// accepted.
    pub fn check_the_proposal(&self, proposal_name: String, now: u64) -> (r: Result<
        String,
        OpError,
    >)
        requires
            self@.wf(),
        ensures
            match r {
                Ok(msg) => has_prop(self@.proposals, proposal_name@) && {
                    let p = self@.proposals[prop_at(self@.proposals, proposal_name@)];
                    if p.decision_at(now) == Decision::Accepted {
                        msg@ == "Proposal accepted"@
                    } else {
                        msg@ == "Proposal refused"@
                    }
                },
                Err(e) => e == OpError::NotFound && !has_prop(self@.proposals, proposal_name@),
            },
    {
        let p = self.get_specific_proposal(proposal_name)?;
        if p.check_proposal(now) {
            Ok(String::from_str("Proposal accepted"))
        } else {
            Ok(String::from_str("Proposal refused"))
        }
    }

    /// The token transfer that funds `account` with `amount` tokens from
    /// the token ledger `lts`, scaled to minimal units.
    pub fn fund(&self, lts: &String, account: String, amount: u128) -> (r: Result<
        RemoteCall,
        OpError,
    >)
        ensures
            match r {
                Ok(a) => amount * LTS_SCALE <= u128::MAX && a@ == (RemoteCallView::FtTransfer {
                    token: lts@,
                    receiver: account@,
                    amount: (amount * LTS_SCALE) as u128,
                    memo: Seq::empty(),
                }),
                Err(e) => e == OpError::Overflow && amount * LTS_SCALE > u128::MAX,
            },
    {
        let scaled = match amount.checked_mul(LTS_SCALE) {
            None => {
                return Err(OpError::Overflow);
            },
            Some(a) => a,
        };
        let r = RemoteCall::FtTransfer {
            token: lts.clone(),
            receiver: account,
            amount: scaled,
            memo: String::new(),
        };
        Ok(r)
    }
}

} // verus!
