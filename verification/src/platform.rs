use vstd::prelude::*;

use crate::errors::{Decision, OpError};
use crate::remote::{RemoteCall, RemoteCallView};
use crate::tally::{
    cast_err, cast_next, decision, end_time_of, checked_end_time, Tally, TallyView,
};

verus! {

/// Duration unit scales of the platform registry family, in ticks of the
/// logical clock per day, hour and minute.
pub const DAY_TICKS: u64 = 86400000000;

pub const HOUR_TICKS: u64 = 3600000000;

pub const MIN_TICKS: u64 = 60000000;

/// A registered organisation: a synthetic id, the unique name, and a member
/// counter.
pub struct Organisations {
    pub id: u32,
    pub name: String,
    pub number_members: u32,
}

/// Mathematical image of an [`Organisations`] entry.
#[verifier::ext_equal]
pub struct OrganisationsView {
    pub id: u32,
    pub name: Seq<char>,
    pub number_members: u32,
}

impl View for Organisations {
    type V = OrganisationsView;

    open spec fn view(&self) -> OrganisationsView {
        OrganisationsView { id: self.id, name: self.name@, number_members: self.number_members }
    }
}

impl DeepView for Organisations {
    type V = OrganisationsView;

    open spec fn deep_view(&self) -> OrganisationsView {
        self.view()
    }
}

impl Organisations {
    pub fn new() -> (o: Organisations)
        ensures
            o@ == (OrganisationsView { id: 0, name: Seq::<char>::empty(), number_members: 1 }),
    {
        let o = Organisations { id: 0, name: String::new(), number_members: 1 };
        proof {
            assert(o@ =~= OrganisationsView {
                id: 0,
                name: Seq::<char>::empty(),
                number_members: 1,
            });
        }
        o
    }
}

impl Clone for Organisations {
    fn clone(&self) -> (r: Self)
        ensures
            r@ == self@,
    {
        Organisations { id: self.id, name: self.name.clone(), number_members: self.number_members }
    }
}

/// A platform-level proposal: register an organisation (kind 0) or delete
/// one (any other kind), with its description, scope and vote tally.
pub struct Proposals {
    pub proposal_name: String,
    pub description: String,
    pub proposal_creator: String,
    pub proposal_type: u16,
    pub dao_name: String,
    pub dao_purpose: String,
    pub time_of_creation: u64,
    pub duration_days: u64,
    pub duration_hours: u64,
    pub duration_min: u64,
    pub tally: Tally,
    pub finalized: bool,
}

/// Mathematical image of a platform [`Proposals`].
#[verifier::ext_equal]
pub struct ProposalsView {
    pub proposal_name: Seq<char>,
    pub description: Seq<char>,
    pub proposal_creator: Seq<char>,
    pub proposal_type: u16,
    pub dao_name: Seq<char>,
    pub dao_purpose: Seq<char>,
    pub time_of_creation: u64,
    pub duration_days: u64,
    pub duration_hours: u64,
    pub duration_min: u64,
    pub tally: TallyView,
    pub finalized: bool,
}

impl View for Proposals {
    type V = ProposalsView;

    open spec fn view(&self) -> ProposalsView {
        ProposalsView {
            proposal_name: self.proposal_name@,
            description: self.description@,
            proposal_creator: self.proposal_creator@,
            proposal_type: self.proposal_type,
            dao_name: self.dao_name@,
            dao_purpose: self.dao_purpose@,
            time_of_creation: self.time_of_creation,
            duration_days: self.duration_days,
            duration_hours: self.duration_hours,
            duration_min: self.duration_min,
            tally: self.tally@,
            finalized: self.finalized,
        }
    }
}

impl DeepView for Proposals {
    type V = ProposalsView;

    open spec fn deep_view(&self) -> ProposalsView {
        self.view()
    }
}

impl ProposalsView {
    /// The deadline: fixed at creation as the creation time plus the
    /// resolved duration, and never mutated afterwards.
    pub open spec fn end_time(self) -> int {
        end_time_of(
            self.time_of_creation,
            self.duration_days,
            self.duration_hours,
            self.duration_min,
            DAY_TICKS,
            HOUR_TICKS,
            MIN_TICKS,
        )
    }

    pub open spec fn deadline(self) -> u64 {
        self.end_time() as u64
    }

    /// A proposal is well formed when its tally is consistent and its
    /// deadline fits the timestamp width.
    pub open spec fn wf(self) -> bool {
        &&& self.tally.wf()
        &&& self.end_time() <= u64::MAX
    }

    pub open spec fn decision_at(self, now: u64) -> Decision {
        decision(self.tally.votes_for, self.tally.votes_against, self.deadline(), now)
    }

    pub open spec fn empty() -> ProposalsView {
        ProposalsView {
            proposal_name: Seq::empty(),
            description: Seq::empty(),
            proposal_creator: Seq::empty(),
            proposal_type: 0,
            dao_name: Seq::empty(),
            dao_purpose: Seq::empty(),
            time_of_creation: 0,
            duration_days: 0,
            duration_hours: 0,
            duration_min: 0,
            tally: TallyView::empty(),
            finalized: false,
        }
    }
}

impl Proposals {
    pub fn new() -> (p: Proposals)
        ensures
            p@ == ProposalsView::empty(),
            p@.wf(),
    {
        let p = Proposals {
            proposal_name: String::new(),
            description: String::new(),
            proposal_creator: String::new(),
            proposal_type: 0,
            dao_name: String::new(),
            dao_purpose: String::new(),
            time_of_creation: 0,
            duration_days: 0,
            duration_hours: 0,
            duration_min: 0,
            tally: Tally::new(),
            finalized: false,
        };
        proof {
            assert(p@ =~= ProposalsView::empty());
        }
        p
    }

    /// Records one vote on this proposal, or refuses a duplicate identity.
    /// This registry variant does not gate voting by the deadline.
    pub fn create_vote(&mut self, caller: String, now: u64, choice: u8) -> (r: Result<
        (),
        OpError,
    >)
        requires
            old(self)@.wf(),
            old(self)@.tally.votes.len() < u32::MAX,
        ensures
            final(self)@ == (ProposalsView {
                tally: cast_next(old(self)@.tally, caller@, now, choice),
                ..old(self)@
            }),
            r == cast_err(old(self)@.tally, caller@),
            final(self)@.wf(),
    {
        let r = self.tally.cast(caller, now, choice);
        proof {
            assert(self@ =~= (ProposalsView { tally: self@.tally, ..old(self)@ }));
        }
        r
    }

    /// The proposal's deadline timestamp.
    pub fn end_time(&self) -> (t: u64)
        requires
            self@.wf(),
        ensures
            t == self@.deadline(),
    {
        self.time_of_creation + (self.duration_days * DAY_TICKS + self.duration_hours * HOUR_TICKS
            + self.duration_min * MIN_TICKS)
    }

    /// Three-valued reading of the proposal against the current time.
    pub fn decide(&self, now: u64) -> (d: Decision)
        requires
            self@.wf(),
        ensures
            d == self@.decision_at(now),
    {
        let end = self.end_time();
        self.tally.decide(end, now)
    }

    /// Whether the proposal reads as accepted: strictly past its deadline
    /// with a strict majority in favour.
    pub fn check_proposal(&self, now: u64) -> (b: bool)
        requires
            self@.wf(),
        ensures
            b == (self@.decision_at(now) == Decision::Accepted),
    {
        let end = self.end_time();
        now > end && self.tally.votes_for > self.tally.votes_against
    }
}

impl Clone for Proposals {
    fn clone(&self) -> (r: Self)
        ensures
            r@ == self@,
    {
        let r = Proposals {
            proposal_name: self.proposal_name.clone(),
            description: self.description.clone(),
            proposal_creator: self.proposal_creator.clone(),
            proposal_type: self.proposal_type,
            dao_name: self.dao_name.clone(),
            dao_purpose: self.dao_purpose.clone(),
            time_of_creation: self.time_of_creation,
            duration_days: self.duration_days,
            duration_hours: self.duration_hours,
            duration_min: self.duration_min,
            tally: self.tally.clone(),
            finalized: self.finalized,
        };
        proof {
            assert(r@ =~= self@);
        }
        r
    }
}

/// Whether some proposal in `s` bears `name`.
pub open spec fn has_prop(s: Seq<ProposalsView>, name: Seq<char>) -> bool {
    exists|i: int| 0 <= i < s.len() && s[i].proposal_name == name
}

/// The index of the proposal bearing `name` (unique under well-formedness).
pub open spec fn prop_at(s: Seq<ProposalsView>, name: Seq<char>) -> int {
    choose|i: int| 0 <= i < s.len() && s[i].proposal_name == name
}

/// Whether some organisation in `s` bears `name`.
pub open spec fn has_org(s: Seq<OrganisationsView>, name: Seq<char>) -> bool {
    exists|i: int| 0 <= i < s.len() && s[i].name == name
}

/// The index of the organisation bearing `name` (unique under well-formedness).
pub open spec fn org_at(s: Seq<OrganisationsView>, name: Seq<char>) -> int {
    choose|i: int| 0 <= i < s.len() && s[i].name == name
}

pub open spec fn props_unique(s: Seq<ProposalsView>) -> bool {
    forall|i: int, j: int| 0 <= i < j < s.len() ==> s[i].proposal_name != s[j].proposal_name
}

pub open spec fn orgs_unique(s: Seq<OrganisationsView>) -> bool {
    forall|i: int, j: int| 0 <= i < j < s.len() ==> s[i].name != s[j].name
}

pub proof fn lemma_prop_at_pins(s: Seq<ProposalsView>, name: Seq<char>, i: int)
    requires
        props_unique(s),
        0 <= i < s.len(),
        s[i].proposal_name == name,
    ensures
        has_prop(s, name),
        prop_at(s, name) == i,
{
    assert(has_prop(s, name));
    let j = prop_at(s, name);
    assert(0 <= j < s.len() && s[j].proposal_name == name);
    if i < j {
        assert(s[i].proposal_name != s[j].proposal_name);
    } else if j < i {
        assert(s[j].proposal_name != s[i].proposal_name);
    }
}

pub proof fn lemma_org_at_pins(s: Seq<OrganisationsView>, name: Seq<char>, i: int)
    requires
        orgs_unique(s),
        0 <= i < s.len(),
        s[i].name == name,
    ensures
        has_org(s, name),
        org_at(s, name) == i,
{
    assert(has_org(s, name));
    let j = org_at(s, name);
    assert(0 <= j < s.len() && s[j].name == name);
    if i < j {
        assert(s[i].name != s[j].name);
    } else if j < i {
        assert(s[j].name != s[i].name);
    }
}

/// The platform registry: the collection of organisations and the
/// platform-level proposals that register or delete them.
pub struct PlatformDao {
    pub dao_name: String,
    pub dao_purpose: String,
    pub founder: String,
    pub dao_members: Vec<String>,
    pub numb_members: u64,
    pub numb_of_organisations: u32,
    pub organisations: Vec<Organisations>,
    pub number_of_proposals: u16,
    pub proposals: Vec<Proposals>,
    pub threshold: u8,
    pub duration_days: u64,
    pub duration_hours: u64,
    pub duration_min: u64,
}

/// Mathematical image of the [`PlatformDao`] state.
#[verifier::ext_equal]
pub struct PlatformDaoView {
    pub dao_name: Seq<char>,
    pub dao_purpose: Seq<char>,
    pub founder: Seq<char>,
    pub dao_members: Seq<Seq<char>>,
    pub numb_members: u64,
    pub numb_of_organisations: u32,
    pub organisations: Seq<OrganisationsView>,
    pub number_of_proposals: u16,
    pub proposals: Seq<ProposalsView>,
    pub threshold: u8,
    pub duration_days: u64,
    pub duration_hours: u64,
    pub duration_min: u64,
}

impl View for PlatformDao {
    type V = PlatformDaoView;

    open spec fn view(&self) -> PlatformDaoView {
        PlatformDaoView {
            dao_name: self.dao_name@,
            dao_purpose: self.dao_purpose@,
            founder: self.founder@,
            dao_members: self.dao_members.deep_view(),
            numb_members: self.numb_members,
            numb_of_organisations: self.numb_of_organisations,
            organisations: self.organisations.deep_view(),
            number_of_proposals: self.number_of_proposals,
            proposals: self.proposals.deep_view(),
            threshold: self.threshold,
            duration_days: self.duration_days,
            duration_hours: self.duration_hours,
            duration_min: self.duration_min,
        }
    }
}

impl PlatformDaoView {
    /// The freshly initialised registry: every collection empty, every
    /// counter zero, every name blank.
    pub open spec fn empty() -> PlatformDaoView {
        PlatformDaoView {
            dao_name: Seq::empty(),
            dao_purpose: Seq::empty(),
            founder: Seq::empty(),
            dao_members: Seq::empty(),
            numb_members: 0,
            numb_of_organisations: 0,
            organisations: Seq::empty(),
            number_of_proposals: 0,
            proposals: Seq::empty(),
            threshold: 0,
            duration_days: 0,
            duration_hours: 0,
            duration_min: 0,
        }
    }

    /// Every proposal is well formed, and both proposal and organisation
    /// names are unique keys.
    pub open spec fn wf(self) -> bool {
        &&& forall|i: int| 0 <= i < self.proposals.len() ==> (#[trigger] self.proposals[i]).wf()
        &&& props_unique(self.proposals)
        &&& orgs_unique(self.organisations)
    }
}

/// The error `PlatformDao::create_proposal` reports, if any: a duration
/// that does not resolve to a representable deadline is refused, then a
/// proposal name that is already taken.
pub open spec fn create_proposal_err(
    s: PlatformDaoView,
    name: Seq<char>,
    now: u64,
    dd: u64,
    dh: u64,
    dm: u64,
) -> Option<OpError> {
    if end_time_of(now, dd, dh, dm, DAY_TICKS, HOUR_TICKS, MIN_TICKS) > u64::MAX {
        Some(OpError::InvalidDuration)
    } else if has_prop(s.proposals, name) {
        Some(OpError::AlreadyExists)
    } else {
        None
    }
}

/// The error `PlatformDao::process_proposal` reports, if any. Success is
/// owed exactly when the named proposal exists, has not been finalized,
/// reads as accepted, and its effect on the organisation collection is
/// possible.
pub open spec fn process_err(s: PlatformDaoView, name: Seq<char>, now: u64) -> Option<OpError> {
    if !has_prop(s.proposals, name) {
        Some(OpError::NotFound)
    } else {
        let p = s.proposals[prop_at(s.proposals, name)];
        if p.finalized {
            Some(OpError::AlreadyFinalized)
        } else if p.decision_at(now) != Decision::Accepted {
            Some(OpError::NotYetDecidable)
        } else if p.proposal_type == 0 {
            if has_org(s.organisations, p.dao_name) {
                Some(OpError::AlreadyExists)
            } else if s.numb_of_organisations == u32::MAX {
                Some(OpError::Overflow)
            } else {
                None
            }
        } else {
            if !has_org(s.organisations, p.dao_name) {
                Some(OpError::NotFound)
            } else {
                None
            }
        }
    }
}

/// The state after a successful `PlatformDao::process_proposal`: the named
/// proposal is marked finalized, and the accepted effect is applied to the
/// organisation collection. On any refused call the state is unchanged.
pub open spec fn process_next(s: PlatformDaoView, name: Seq<char>, now: u64) -> PlatformDaoView {
    if process_err(s, name, now) is Some {
        s
    } else {
        let i = prop_at(s.proposals, name);
        let p = s.proposals[i];
        let marked = s.proposals.update(i, (ProposalsView { finalized: true, ..p }));
        if p.proposal_type == 0 {
            PlatformDaoView {
                proposals: marked,
                organisations: s.organisations.push(
                    (OrganisationsView {
                        id: s.numb_of_organisations,
                        name: p.dao_name,
                        number_members: 1,
                    }),
                ),
                numb_of_organisations: (s.numb_of_organisations + 1) as u32,
                ..s
            }
        } else {
            let j = org_at(s.organisations, p.dao_name);
            PlatformDaoView {
                proposals: marked,
                organisations: s.organisations.update(j, s.organisations.last()).drop_last(),
                ..s
            }
        }
    }
}

/// The remote calls a successful `PlatformDao::process_proposal` hands
/// back for dispatch: exactly one registry operation.
pub open spec fn process_actions(
    s: PlatformDaoView,
    name: Seq<char>,
    now: u64,
    registry: Seq<char>,
) -> Seq<RemoteCallView> {
    let p = s.proposals[prop_at(s.proposals, name)];
    if p.proposal_type == 0 {
        seq![
            RemoteCallView::AddDao {
                registry: registry,
                dao_name: p.dao_name,
                dao_purpose: p.dao_purpose,
                duration_days: p.duration_days,
                duration_hours: p.duration_hours,
                duration_min: p.duration_min,
            },
        ]
    } else {
        seq![RemoteCallView::DeleteDao { registry: registry, dao_name: p.dao_name }]
    }
}

impl PlatformDao {
    pub fn new() -> (s: PlatformDao)
        ensures
            s@ == PlatformDaoView::empty(),
            s@.wf(),
    {
        let s = PlatformDao {
            dao_name: String::new(),
            dao_purpose: String::new(),
            founder: String::new(),
            dao_members: Vec::new(),
            numb_members: 0,
            numb_of_organisations: 0,
            organisations: Vec::new(),
            number_of_proposals: 0,
            proposals: Vec::new(),
            threshold: 0,
            duration_days: 0,
            duration_hours: 0,
            duration_min: 0,
        };
        proof {
            assert(s@ =~= PlatformDaoView::empty());
        }
        s
    }

    /// Finds the index of the proposal bearing `name`, if any.
    fn find_proposal(&self, name: &String) -> (r: Option<usize>)
        ensures
            match r {
                Some(i) => i < self@.proposals.len() && self@.proposals[i as int].proposal_name
                    == name@,
                None => !has_prop(self@.proposals, name@),
            },
    {
        let mut k: usize = 0;
        while k < self.proposals.len()
            invariant
                k <= self@.proposals.len(),
                forall|i: int| 0 <= i < k ==> self@.proposals[i].proposal_name != name@,
            decreases self@.proposals.len() - k,
        {
            if self.proposals[k].proposal_name == *name {
                proof {
                    assert(self@.proposals[k as int].proposal_name == name@);
                }
                return Some(k);
            }
            k = k + 1;
        }
        None
    }

    /// Finds the index of the organisation bearing `name`, if any.
    fn find_organisation(&self, name: &String) -> (r: Option<usize>)
        ensures
            match r {
                Some(i) => i < self@.organisations.len() && self@.organisations[i as int].name
                    == name@,
                None => !has_org(self@.organisations, name@),
            },
    {
        let mut k: usize = 0;
        while k < self.organisations.len()
            invariant
                k <= self@.organisations.len(),
                forall|i: int| 0 <= i < k ==> self@.organisations[i].name != name@,
            decreases self@.organisations.len() - k,
        {
            if self.organisations[k].name == *name {
                proof {
                    assert(self@.organisations[k as int].name == name@);
                }
                return Some(k);
            }
            k = k + 1;
        }
        None
    }

    /// Creates a platform-level proposal in the open state with an empty
    /// tally. Kind 0 asks to register the named organisation; any other
    /// kind asks to delete it. Creation is unrestricted at platform level.
    pub fn create_proposal(
        &mut self,
        caller: String,
        now: u64,
        proposal_type: u16,
        proposal_name: String,
        description: String,
        dao_name: String,
        dao_purpose: String,
        duration_days: u64,
        duration_hours: u64,
        duration_min: u64,
    ) -> (r: Result<(), OpError>)
        requires
            old(self)@.wf(),
        ensures
            final(self)@.wf(),
            match r {
                Ok(()) => create_proposal_err(
                    old(self)@,
                    proposal_name@,
                    now,
                    duration_days,
                    duration_hours,
                    duration_min,
                ) is None && final(self)@ == (PlatformDaoView {
                    proposals: old(self)@.proposals.push(
                        (ProposalsView {
                            proposal_name: proposal_name@,
                            description: description@,
                            proposal_creator: caller@,
                            proposal_type: proposal_type,
                            dao_name: dao_name@,
                            dao_purpose: dao_purpose@,
                            time_of_creation: now,
                            duration_days: duration_days,
                            duration_hours: duration_hours,
                            duration_min: duration_min,
                            tally: TallyView::empty(),
                            finalized: false,
                        }),
                    ),
                    ..old(self)@
                }),
                Err(e) => create_proposal_err(
                    old(self)@,
                    proposal_name@,
                    now,
                    duration_days,
                    duration_hours,
                    duration_min,
                ) == Some(e) && *final(self) == *old(self),
            },
    {
        if checked_end_time(
            now,
            duration_days,
            duration_hours,
            duration_min,
            DAY_TICKS,
            HOUR_TICKS,
            MIN_TICKS,
        ).is_none() {
            return Err(OpError::InvalidDuration);
        }
        if self.find_proposal(&proposal_name).is_some() {
            return Err(OpError::AlreadyExists);
        }
        let ghost pre = self@;
        let proposal = Proposals {
            proposal_name: proposal_name,
            description: description,
            proposal_creator: caller,
            proposal_type: proposal_type,
            dao_name: dao_name,
            dao_purpose: dao_purpose,
            time_of_creation: now,
            duration_days: duration_days,
            duration_hours: duration_hours,
            duration_min: duration_min,
            tally: Tally::new(),
            finalized: false,
        };
        let ghost pv = proposal@;
        self.proposals.push(proposal);
        proof {
            assert(self@.proposals =~= pre.proposals.push(pv));
            assert(self@ =~= (PlatformDaoView { proposals: pre.proposals.push(pv), ..pre }));
            assert(pv.tally =~= TallyView::empty());
            assert(pv =~= (ProposalsView {
                proposal_name: pv.proposal_name,
                description: pv.description,
                proposal_creator: pv.proposal_creator,
                proposal_type: proposal_type,
                dao_name: pv.dao_name,
                dao_purpose: pv.dao_purpose,
                time_of_creation: now,
                duration_days: duration_days,
                duration_hours: duration_hours,
                duration_min: duration_min,
                tally: TallyView::empty(),
                finalized: false,
            }));
        }
        Ok(())
    }

    /// Swaps the stored proposal bearing the same name for `proposal`.
    /// A missing name is a first-class failure, never ignored.
    pub fn replace_proposal(&mut self, proposal: Proposals) -> (r: Result<(), OpError>)
        requires
            old(self)@.wf(),
            proposal@.wf(),
        ensures
            final(self)@.wf(),
            match r {
                Ok(()) => has_prop(old(self)@.proposals, proposal@.proposal_name) && final(self)@
                    == (PlatformDaoView {
                    proposals: old(self)@.proposals.update(
                        prop_at(old(self)@.proposals, proposal@.proposal_name),
                        proposal@,
                    ),
                    ..old(self)@
                }),
                Err(e) => e == OpError::NotFound && !has_prop(
                    old(self)@.proposals,
                    proposal@.proposal_name,
                ) && *final(self) == *old(self),
            },
    {
        let idx = match self.find_proposal(&proposal.proposal_name) {
            None => {
                return Err(OpError::NotFound);
            },
            Some(i) => i,
        };
        let ghost pre = self@;
        proof {
            lemma_prop_at_pins(pre.proposals, proposal@.proposal_name, idx as int);
        }
        self.proposals.set(idx, proposal);
        proof {
            assert(self@.proposals =~= pre.proposals.update(idx as int, proposal@));
            assert(self@ =~= (PlatformDaoView {
                proposals: pre.proposals.update(idx as int, proposal@),
                ..pre
            }));
        }
        Ok(())
    }

    /// A snapshot of all proposals, in creation order.
    pub fn get_proposals(&self) -> (r: Vec<Proposals>)
        ensures
            r.deep_view() == self@.proposals,
    {
        let r = self.proposals.clone();
        proof {
            assert forall|i: int| 0 <= i < r@.len() implies r.deep_view()[i]
                == self@.proposals[i] by {
                assert(vstd::pervasive::cloned(self.proposals[i], r[i]));
            }
            assert(r.deep_view() =~= self@.proposals);
        }
        r
    }

    /// The proposal bearing `proposal_name`, or `NotFound`.
    pub fn get_specific_proposal(&self, proposal_name: String) -> (r: Result<Proposals, OpError>)
        requires
            self@.wf(),
        ensures
            match r {
                Ok(p) => has_prop(self@.proposals, proposal_name@) && p@ == self@.proposals[prop_at(
                    self@.proposals,
                    proposal_name@,
                )],
                Err(e) => e == OpError::NotFound && !has_prop(self@.proposals, proposal_name@),
            },
    {
        match self.find_proposal(&proposal_name) {
            None => Err(OpError::NotFound),
            Some(i) => {
                proof {
                    lemma_prop_at_pins(self@.proposals, proposal_name@, i as int);
                }
                Ok(self.proposals[i].clone())
            },
        }
    }

    /// Casts a vote on the named proposal: looks it up, records the vote,
    /// and swaps the mutated proposal back in place.
    pub fn add_vote(&mut self, caller: String, now: u64, proposal_name: String, vote: u8) -> (r:
        Result<(), OpError>)
        requires
            old(self)@.wf(),
            forall|i: int|
                0 <= i < old(self)@.proposals.len() ==> (#[trigger] old(
                    self,
                )@.proposals[i]).tally.votes.len() < u32::MAX,
        ensures
            final(self)@.wf(),
            match r {
                Ok(()) => {
                    &&& has_prop(old(self)@.proposals, proposal_name@)
                    &&& {
                        let i = prop_at(old(self)@.proposals, proposal_name@);
                        let p = old(self)@.proposals[i];
                        cast_err(p.tally, caller@) == Ok::<(), OpError>(()) && final(self)@
                            == (PlatformDaoView {
                            proposals: old(self)@.proposals.update(
                                i,
                                (ProposalsView {
                                    tally: cast_next(p.tally, caller@, now, vote),
                                    ..p
                                }),
                            ),
                            ..old(self)@
                        })
                    }
                },
                Err(e) => *final(self) == *old(self) && if !has_prop(
                    old(self)@.proposals,
                    proposal_name@,
                ) {
                    e == OpError::NotFound
                } else {
                    Err::<(), OpError>(e) == cast_err(
                        old(self)@.proposals[prop_at(old(self)@.proposals, proposal_name@)].tally,
                        caller@,
                    )
                },
            },
    {
        let idx = match self.find_proposal(&proposal_name) {
            None => {
                return Err(OpError::NotFound);
            },
            Some(i) => i,
        };
        let ghost pre = self@;
        proof {
            lemma_prop_at_pins(pre.proposals, proposal_name@, idx as int);
        }
        let mut p = self.proposals[idx].clone();
        match p.create_vote(caller, now, vote) {
            Err(e) => {
                return Err(e);
            },
            Ok(()) => {},
        }
        self.proposals.set(idx, p);
        proof {
            assert(self@.proposals =~= pre.proposals.update(
                idx as int,
                (ProposalsView {
                    tally: cast_next(pre.proposals[idx as int].tally, caller@, now, vote),
                    ..pre.proposals[idx as int]
                }),
            ));
            assert(self@ =~= (PlatformDaoView { proposals: self@.proposals, ..pre }));
        }
        Ok(())
    }

    /// A snapshot of all organisations, in registration order.
    pub fn get_organisations(&self) -> (r: Vec<Organisations>)
        ensures
            r.deep_view() == self@.organisations,
    {
        let r = self.organisations.clone();
        proof {
            assert forall|i: int| 0 <= i < r@.len() implies r.deep_view()[i]
                == self@.organisations[i] by {
                assert(vstd::pervasive::cloned(self.organisations[i], r[i]));
            }
            assert(r.deep_view() =~= self@.organisations);
        }
        r
    }

    /// The organisation bearing `organisation_name`, or `NotFound`.
    pub fn get_specific_organisation(&self, organisation_name: String) -> (r: Result<
        Organisations,
        OpError,
    >)
        requires
            self@.wf(),
        ensures
            match r {
                Ok(o) => has_org(self@.organisations, organisation_name@) && o@
                    == self@.organisations[org_at(self@.organisations, organisation_name@)],
                Err(e) => e == OpError::NotFound && !has_org(
                    self@.organisations,
                    organisation_name@,
                ),
            },
    {
        match self.find_organisation(&organisation_name) {
            None => Err(OpError::NotFound),
            Some(i) => {
                proof {
                    lemma_org_at_pins(self@.organisations, organisation_name@, i as int);
                }
                Ok(self.organisations[i].clone())
            },
        }
    }

    /// Executes the named proposal's accepted effect exactly once: marks it
    /// finalized, applies the local registry change, and hands back the one
    /// remote registry call to dispatch against `registry`.
    pub fn process_proposal(&mut self, registry: &String, proposal_name: String, now: u64) -> (r:
        Result<Vec<RemoteCall>, OpError>)
        requires
            old(self)@.wf(),
        ensures
            final(self)@.wf(),
            final(self)@ == process_next(old(self)@, proposal_name@, now),
            match r {
                Ok(actions) => process_err(old(self)@, proposal_name@, now) is None
                    && actions.deep_view() == process_actions(
                    old(self)@,
                    proposal_name@,
                    now,
                    registry@,
                ),
                Err(e) => process_err(old(self)@, proposal_name@, now) == Some(e),
            },
    {
        let ghost pre = self@;
        let idx = match self.find_proposal(&proposal_name) {
            None => {
                return Err(OpError::NotFound);
            },
            Some(i) => i,
        };
        proof {
            lemma_prop_at_pins(pre.proposals, proposal_name@, idx as int);
        }
        let p = self.proposals[idx].clone();
        if p.finalized {
            return Err(OpError::AlreadyFinalized);
        }
        if !p.check_proposal(now) {
            return Err(OpError::NotYetDecidable);
        }
        let mut marked = p.clone();
        marked.finalized = true;
        if p.proposal_type == 0 {
            if self.find_organisation(&p.dao_name).is_some() {
                return Err(OpError::AlreadyExists);
            }
            if self.numb_of_organisations == u32::MAX {
                return Err(OpError::Overflow);
            }
            let org = Organisations {
                id: self.numb_of_organisations,
                name: p.dao_name.clone(),
                number_members: 1,
            };
            self.organisations.push(org);
            self.numb_of_organisations = self.numb_of_organisations + 1;
            self.proposals.set(idx, marked);
            let action = RemoteCall::AddDao {
                registry: registry.clone(),
                dao_name: p.dao_name,
                dao_purpose: p.dao_purpose,
                duration_days: p.duration_days,
                duration_hours: p.duration_hours,
                duration_min: p.duration_min,
            };
            let mut actions: Vec<RemoteCall> = Vec::new();
            actions.push(action);
            proof {
                assert(self@.proposals =~= pre.proposals.update(
                    idx as int,
                    (ProposalsView { finalized: true, ..pre.proposals[idx as int] }),
                ));
                assert(self@.organisations =~= pre.organisations.push(
                    (OrganisationsView {
                        id: pre.numb_of_organisations,
                        name: pre.proposals[idx as int].dao_name,
                        number_members: 1,
                    }),
                ));
                assert(self@ =~= process_next(pre, proposal_name@, now));
                assert(actions.deep_view() =~= process_actions(pre, proposal_name@, now, registry@));
            }
            Ok(actions)
        } else {
            let j = match self.find_organisation(&p.dao_name) {
                None => {
                    return Err(OpError::NotFound);
                },
                Some(j) => j,
            };
            proof {
                lemma_org_at_pins(pre.organisations, pre.proposals[idx as int].dao_name, j as int);
            }
            self.organisations.swap_remove(j);
            self.proposals.set(idx, marked);
            let action = RemoteCall::DeleteDao {
                registry: registry.clone(),
                dao_name: p.dao_name,
            };
            let mut actions: Vec<RemoteCall> = Vec::new();
            actions.push(action);
            proof {
                assert(self@.proposals =~= pre.proposals.update(
                    idx as int,
                    (ProposalsView { finalized: true, ..pre.proposals[idx as int] }),
                ));
                assert(self@.organisations =~= pre.organisations.update(
                    j as int,
                    pre.organisations.last(),
                ).drop_last());
                assert(self@ =~= process_next(pre, proposal_name@, now));
                assert(actions.deep_view() =~= process_actions(pre, proposal_name@, now, registry@));
                lemma_swap_remove_keeps_orgs_unique(pre.organisations, j as int);
            }
            Ok(actions)
        }
    }
}

/// Removing an organisation by swap-and-pop keeps the remaining names unique.
proof fn lemma_swap_remove_keeps_orgs_unique(s: Seq<OrganisationsView>, j: int)
    requires
        orgs_unique(s),
        0 <= j < s.len(),
    ensures
        orgs_unique(s.update(j, s.last()).drop_last()),
{
    let t = s.update(j, s.last()).drop_last();
    assert forall|a: int, b: int| 0 <= a < b < t.len() implies t[a].name != t[b].name by {
        assert(t[a] == if a == j {
            s[s.len() - 1]
        } else {
            s[a]
        });
        assert(t[b] == if b == j {
            s[s.len() - 1]
        } else {
            s[b]
        });
    }
}

/// Law: finalization runs at most once. After a successful execution of the
/// named proposal's effect, a second execution request is refused with
/// `AlreadyFinalized` and leaves the state exactly as it was: the effect is
/// applied once, whatever the time of the second call.
pub proof fn lemma_finalize_at_most_once(
    s: PlatformDaoView,
    name: Seq<char>,
    now: u64,
    now2: u64,
)
    requires
        s.wf(),
        process_err(s, name, now) is None,
    ensures
        process_err(process_next(s, name, now), name, now2) == Some(OpError::AlreadyFinalized),
        process_next(process_next(s, name, now), name, now2) == process_next(s, name, now),
{
    let s2 = process_next(s, name, now);
    let i = prop_at(s.proposals, name);
    assert(0 <= i < s.proposals.len() && s.proposals[i].proposal_name == name);
    assert(s2.proposals[i].proposal_name == name);
    assert(s2.proposals[i].finalized);
    assert(props_unique(s2.proposals));
    lemma_prop_at_pins(s2.proposals, name, i);
    assert(process_err(s2, name, now2) == Some(OpError::AlreadyFinalized));
}

} // verus!
