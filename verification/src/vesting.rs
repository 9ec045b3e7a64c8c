use vstd::prelude::*;

use crate::errors::OpError;
use crate::remote::{RemoteCall, RemoteCallView, LTS_SCALE};

verus! {

/// Number of equal vesting installments; the first unlocks at creation.
pub const VEST_STEPS: u8 = 4;

/// Time between installments, in ticks of the millisecond clock.
pub const VEST_STEP_MS: u64 = 120000;

/// Storage deposit attached when registering a vestor with the token
/// ledger, in minimal base-currency units.
pub const STORAGE_DEPOSIT: u128 = 1000000000000000000000000;

/// One vesting schedule: the principal, its locked and unlocked parts, and
/// how many installments have been paid.
pub struct Vestors {
    pub id: String,
    pub owner_id: String,
    pub amount_of_token: u128,
    pub locked_amount: u128,
    pub unlocked_amount: u128,
    pub duration: u64,
    pub timestamp: u64,
    pub nb_time_payment: u8,
}

/// Mathematical image of a [`Vestors`] record.
#[verifier::ext_equal]
pub struct VestorsView {
    pub id: Seq<char>,
    pub owner_id: Seq<char>,
    pub amount_of_token: u128,
    pub locked_amount: u128,
    pub unlocked_amount: u128,
    pub duration: u64,
    pub timestamp: u64,
    pub nb_time_payment: u8,
}

impl View for Vestors {
    type V = VestorsView;

    open spec fn view(&self) -> VestorsView {
        VestorsView {
            id: self.id@,
            owner_id: self.owner_id@,
            amount_of_token: self.amount_of_token,
            locked_amount: self.locked_amount,
            unlocked_amount: self.unlocked_amount,
            duration: self.duration,
            timestamp: self.timestamp,
            nb_time_payment: self.nb_time_payment,
        }
    }
}

impl DeepView for Vestors {
    type V = VestorsView;

    open spec fn deep_view(&self) -> VestorsView {
        self.view()
    }
}

impl VestorsView {
    /// One installment: a quarter of the principal, rounded down.
    pub open spec fn installment(self) -> int {
        self.amount_of_token as int / VEST_STEPS as int
    }

    /// The locked and unlocked parts always mirror the paid installment
    /// count: each paid installment moved one quarter of the principal
    /// from locked to unlocked.
    pub open spec fn wf(self) -> bool {
        &&& self.nb_time_payment <= VEST_STEPS
        &&& self.locked_amount == (VEST_STEPS - self.nb_time_payment) * self.installment()
        &&& self.unlocked_amount == self.nb_time_payment * self.installment()
    }

    pub open spec fn empty() -> VestorsView {
        VestorsView {
            id: Seq::empty(),
            owner_id: Seq::empty(),
            amount_of_token: 0,
            locked_amount: 0,
            unlocked_amount: 0,
            duration: 4,
            timestamp: 0,
            nb_time_payment: 0,
        }
    }
}

impl Vestors {
    pub fn new() -> (v: Vestors)
        ensures
            v@ == VestorsView::empty(),
            v@.wf(),
    {
        let v = Vestors {
            id: String::new(),
            owner_id: String::new(),
            amount_of_token: 0,
            locked_amount: 0,
            unlocked_amount: 0,
            duration: 4,
            timestamp: 0,
            nb_time_payment: 0,
        };
        proof {
            assert(v@ =~= VestorsView::empty());
        }
        v
    }
}

impl Clone for Vestors {
    fn clone(&self) -> (r: Self)
        ensures
            r@ == self@,
    {
        Vestors {
            id: self.id.clone(),
            owner_id: self.owner_id.clone(),
            amount_of_token: self.amount_of_token,
            locked_amount: self.locked_amount,
            unlocked_amount: self.unlocked_amount,
            duration: self.duration,
            timestamp: self.timestamp,
            nb_time_payment: self.nb_time_payment,
        }
    }
}

/// Law: a well-formed vesting record keeps its sub-amounts within the
/// principal. The locked and unlocked parts each stay between zero and the
/// principal, and together never exceed it, in every reachable state.
pub proof fn lemma_vestor_amounts_bounded(v: VestorsView)
    requires
        v.wf(),
    ensures
        v.locked_amount + v.unlocked_amount <= v.amount_of_token,
        v.locked_amount <= v.amount_of_token,
        v.unlocked_amount <= v.amount_of_token,
{
    let q = v.installment();
    assert(v.locked_amount + v.unlocked_amount == 4 * q) by {
        assert((4 - v.nb_time_payment) * q + v.nb_time_payment * q == 4 * q) by (nonlinear_arith);
    }
    assert(4 * q <= v.amount_of_token);
}

pub open spec fn has_vestor(s: Seq<VestorsView>, id: Seq<char>) -> bool {
    exists|i: int| 0 <= i < s.len() && s[i].id == id
}

pub open spec fn vestor_at(s: Seq<VestorsView>, id: Seq<char>) -> int {
    choose|i: int| 0 <= i < s.len() && s[i].id == id
}

pub open spec fn vestors_unique(s: Seq<VestorsView>) -> bool {
    forall|i: int, j: int| 0 <= i < j < s.len() ==> s[i].id != s[j].id
}

pub proof fn lemma_vestor_at_pins(s: Seq<VestorsView>, id: Seq<char>, i: int)
    requires
        vestors_unique(s),
        0 <= i < s.len(),
        s[i].id == id,
    ensures
        has_vestor(s, id),
        vestor_at(s, id) == i,
{
    assert(has_vestor(s, id));
    let j = vestor_at(s, id);
    assert(0 <= j < s.len() && s[j].id == id);
    if i < j {
        assert(s[i].id != s[j].id);
    } else if j < i {
        assert(s[j].id != s[i].id);
    }
}

/// The records that do not belong to `owner`, in their original order.
pub open spec fn without_owner(s: Seq<VestorsView>, owner: Seq<char>) -> Seq<VestorsView>
    decreases s.len(),
{
    if s.len() == 0 {
        Seq::empty()
    } else {
        let rest = without_owner(s.drop_last(), owner);
        if s.last().owner_id == owner {
            rest
        } else {
            rest.push(s.last())
        }
    }
}

/// The sum of all locked sub-amounts.
pub open spec fn total_locked(s: Seq<VestorsView>) -> int
    decreases s.len(),
{
    if s.len() == 0 {
        0
    } else {
        total_locked(s.drop_last()) + s.last().locked_amount
    }
}

/// The sum of all unlocked sub-amounts.
pub open spec fn total_unlocked(s: Seq<VestorsView>) -> int
    decreases s.len(),
{
    if s.len() == 0 {
        0
    } else {
        total_unlocked(s.drop_last()) + s.last().unlocked_amount
    }
}

/// The vesting ledger: one record per lockup id, each advancing through
/// four equal installments.
pub struct VestingContract {
    pub owner: String,
    pub lts_account: String,
    pub records: Vec<Vestors>,
}

/// Mathematical image of the [`VestingContract`] state.
#[verifier::ext_equal]
pub struct VestingView {
    pub owner: Seq<char>,
    pub lts_account: Seq<char>,
    pub records: Seq<VestorsView>,
}

impl View for VestingContract {
    type V = VestingView;

    open spec fn view(&self) -> VestingView {
        VestingView {
            owner: self.owner@,
            lts_account: self.lts_account@,
            records: self.records.deep_view(),
        }
    }
}

impl VestingView {
    pub open spec fn wf(self) -> bool {
        &&& vestors_unique(self.records)
        &&& forall|i: int| 0 <= i < self.records.len() ==> (#[trigger] self.records[i]).wf()
    }
}

impl VestingContract {
    /// A fresh vesting ledger owned by `owner`, minting through the token
    /// ledger `lts_account`.
    pub fn new(owner: String, lts_account: String) -> (s: VestingContract)
        ensures
            s@.wf(),
            s@.owner == owner@,
            s@.lts_account == lts_account@,
            s@.records.len() == 0,
    {
        let s = VestingContract { owner, lts_account, records: Vec::new() };
        proof {
            assert(s@.records =~= Seq::<VestorsView>::empty());
        }
        s
    }

    /// Finds the index of the record bearing `id`, if any.
    fn find_vestor(&self, id: &String) -> (r: Option<usize>)
        ensures
            match r {
                Some(i) => i < self@.records.len() && self@.records[i as int].id == id@,
                None => !has_vestor(self@.records, id@),
            },
    {
        let mut k: usize = 0;
        while k < self.records.len()
            invariant
                k <= self@.records.len(),
                forall|i: int| 0 <= i < k ==> self@.records[i].id != id@,
            decreases self@.records.len() - k,
        {
            if self.records[k].id == *id {
                proof {
                    assert(self@.records[k as int].id == id@);
                }
                return Some(k);
            }
            k = k + 1;
        }
        None
    }

    /// Drops every record. Restricted to the ledger's own identity.
    pub fn delete_all(&mut self, caller: &String) -> (r: Result<(), OpError>)
        requires
            old(self)@.wf(),
        ensures
            final(self)@.wf(),
            match r {
                Ok(()) => caller@ == old(self)@.owner && final(self)@ == (VestingView {
                    records: Seq::empty(),
                    ..old(self)@
                }),
                Err(e) => e == OpError::Unauthorized && caller@ != old(self)@.owner
                    && *final(self) == *old(self),
            },
    {
        if !(*caller == self.owner) {
            return Err(OpError::Unauthorized);
        }
        self.records.clear();
        proof {
            assert(self@.records =~= Seq::<VestorsView>::empty());
            assert(self@ =~= (VestingView { records: Seq::empty(), ..old(self)@ }));
        }
        Ok(())
    }

    /// Deletes every record of one owner: the named one, or the caller's
    /// own records when `name` is empty.
    pub fn delete_a_vestor(&mut self, caller: &String, name: String)
        requires
            old(self)@.wf(),
        ensures
            final(self)@.wf(),
            final(self)@ == (VestingView {
                records: without_owner(
                    old(self)@.records,
                    if name@.len() == 0 {
                        caller@
                    } else {
                        name@
                    },
                ),
                ..old(self)@
            }),
    {
        let target: &String = if name.as_str().is_empty() {
            caller
        } else {
            &name
        };
        let ghost t = target@;
        let ghost pre = self@;
        let mut kept: Vec<Vestors> = Vec::new();
        let mut k: usize = 0;
        while k < self.records.len()
            invariant
                k <= self@.records.len(),
                self@ == pre,
                t == target@,
                kept.deep_view() == without_owner(pre.records.take(k as int), t),
            decreases self@.records.len() - k,
        {
            let ghost kv = kept.deep_view();
            if !(self.records[k].owner_id == *target) {
                let item = self.records[k].clone();
                kept.push(item);
                proof {
                    assert(kept.deep_view() =~= kv.push(pre.records[k as int]));
                }
            }
            proof {
                assert(pre.records.take(k as int + 1).drop_last() =~= pre.records.take(k as int));
                assert(pre.records.take(k as int + 1).last() == pre.records[k as int]);
            }
            k = k + 1;
        }
        proof {
            assert(pre.records.take(pre.records.len() as int) =~= pre.records);
        }
        self.records = kept;
        proof {
            assert(self@ =~= (VestingView { records: without_owner(pre.records, t), ..pre }));
            lemma_without_owner_wf(pre.records, t);
        }
    }

    /// A snapshot of all records, in creation order.
    pub fn get_all_vestors(&self) -> (r: Vec<Vestors>)
        ensures
            r.deep_view() == self@.records,
    {
        let r = self.records.clone();
        proof {
            assert forall|i: int| 0 <= i < r@.len() implies r.deep_view()[i]
                == self@.records[i] by {
                assert(vstd::pervasive::cloned(self.records[i], r[i]));
            }
            assert(r.deep_view() =~= self@.records);
        }
        r
    }

    /// The record bearing `id`, or `NotFound`.
    pub fn get_vestor(&self, id: &String) -> (r: Result<Vestors, OpError>)
        requires
            self@.wf(),
        ensures
            match r {
                Ok(v) => has_vestor(self@.records, id@) && v@ == self@.records[vestor_at(
                    self@.records,
                    id@,
                )],
                Err(e) => e == OpError::NotFound && !has_vestor(self@.records, id@),
            },
    {
        match self.find_vestor(id) {
            None => Err(OpError::NotFound),
            Some(i) => {
                proof {
                    lemma_vestor_at_pins(self@.records, id@, i as int);
                }
                Ok(self.records[i].clone())
            },
        }
    }

    /// The sum of all locked sub-amounts, or `Overflow` when it does not
    /// fit.
    pub fn get_total_locked_amount(&self) -> (r: Result<u128, OpError>)
        ensures
            match r {
                Ok(t) => t == total_locked(self@.records),
                Err(e) => e == OpError::Overflow && total_locked(self@.records) > u128::MAX,
            },
    {
        let mut sum: u128 = 0;
        let mut k: usize = 0;
        while k < self.records.len()
            invariant
                k <= self@.records.len(),
                sum == total_locked(self@.records.take(k as int)),
            decreases self@.records.len() - k,
        {
            proof {
                assert(self@.records.take(k as int + 1).drop_last() =~= self@.records.take(
                    k as int,
                ));
                assert(self@.records.take(k as int + 1).last() == self@.records[k as int]);
            }
            sum = match sum.checked_add(self.records[k].locked_amount) {
                None => {
                    proof {
                        lemma_total_locked_monotonic(self@.records, k as int + 1);
                    }
                    return Err(OpError::Overflow);
                },
                Some(s) => s,
            };
            k = k + 1;
        }
        proof {
            assert(self@.records.take(self@.records.len() as int) =~= self@.records);
        }
        Ok(sum)
    }

    /// The sum of all unlocked sub-amounts, or `Overflow` when it does not
    /// fit.
    pub fn get_total_unlocked_amount(&self) -> (r: Result<u128, OpError>)
        ensures
            match r {
                Ok(t) => t == total_unlocked(self@.records),
                Err(e) => e == OpError::Overflow && total_unlocked(self@.records) > u128::MAX,
            },
    {
        let mut sum: u128 = 0;
        let mut k: usize = 0;
        while k < self.records.len()
            invariant
                k <= self@.records.len(),
                sum == total_unlocked(self@.records.take(k as int)),
            decreases self@.records.len() - k,
        {
            proof {
                assert(self@.records.take(k as int + 1).drop_last() =~= self@.records.take(
                    k as int,
                ));
                assert(self@.records.take(k as int + 1).last() == self@.records[k as int]);
            }
            sum = match sum.checked_add(self.records[k].unlocked_amount) {
                None => {
                    proof {
                        lemma_total_unlocked_monotonic(self@.records, k as int + 1);
                    }
                    return Err(OpError::Overflow);
                },
                Some(s) => s,
            };
            k = k + 1;
        }
        proof {
            assert(self@.records.take(self@.records.len() as int) =~= self@.records);
        }
        Ok(sum)
    }

    /// Opens a lockup of `amount_of_token` for the caller: one quarter
    /// unlocks immediately and is minted, the rest stays locked. Hands back
    /// the storage registration and the first mint, in order.
    pub fn add_lockup(&mut self, caller: String, now: u64, id: String, amount_of_token: u128) -> (r:
        Result<Vec<RemoteCall>, OpError>)
        requires
            old(self)@.wf(),
        ensures
            final(self)@.wf(),
            match r {
                Ok(actions) => {
                    &&& !has_vestor(old(self)@.records, id@)
                    &&& (amount_of_token / 4) * LTS_SCALE <= u128::MAX
                    &&& final(self)@ == (VestingView {
                        records: old(self)@.records.push(
                            (VestorsView {
                                id: id@,
                                owner_id: caller@,
                                amount_of_token: amount_of_token,
                                locked_amount: (3 * (amount_of_token / 4)) as u128,
                                unlocked_amount: amount_of_token / 4,
                                duration: 4,
                                timestamp: now,
                                nb_time_payment: 1,
                            }),
                        ),
                        ..old(self)@
                    })
                    &&& actions.deep_view() =~= seq![
                        (RemoteCallView::StorageDeposit {
                            token: old(self)@.lts_account,
                            account: caller@,
                            deposit: STORAGE_DEPOSIT,
                        }),
                        (RemoteCallView::MintToken {
                            token: old(self)@.lts_account,
                            account: caller@,
                            amount: ((amount_of_token / 4) * LTS_SCALE) as u128,
                        }),
                    ]
                },
                Err(e) => *final(self) == *old(self) && if has_vestor(old(self)@.records, id@) {
                    e == OpError::AlreadyExists
                } else {
                    e == OpError::Overflow && (amount_of_token / 4) * LTS_SCALE > u128::MAX
                },
            },
    {
        if self.find_vestor(&id).is_some() {
            return Err(OpError::AlreadyExists);
        }
        let quarter = amount_of_token / 4;
        let minted = match quarter.checked_mul(LTS_SCALE) {
            None => {
                return Err(OpError::Overflow);
            },
            Some(m) => m,
        };
        let ghost pre = self@;
        let vestor = Vestors {
            id: id,
            owner_id: caller.clone(),
            amount_of_token: amount_of_token,
            locked_amount: 3 * quarter,
            unlocked_amount: quarter,
            duration: 4,
            timestamp: now,
            nb_time_payment: 1,
        };
        let ghost vv = vestor@;
        self.records.push(vestor);
        let mut actions: Vec<RemoteCall> = Vec::new();
        actions.push(
            RemoteCall::StorageDeposit {
                token: self.lts_account.clone(),
                account: caller.clone(),
                deposit: STORAGE_DEPOSIT,
            },
        );
        actions.push(
            RemoteCall::MintToken { token: self.lts_account.clone(), account: caller, amount: minted },
        );
        proof {
            assert(3 * quarter <= amount_of_token);
            assert(vv.wf()) by {
                assert((4 - 1) * (amount_of_token as int / 4 as int) == 3 * (amount_of_token
                    as int / 4 as int));
            }
            assert(self@.records =~= pre.records.push(vv));
            assert(self@ =~= (VestingView { records: pre.records.push(vv), ..pre }));
        }
        Ok(actions)
    }

    /// Advances the named schedule by at most one installment: when the
    /// next offset from creation has strictly elapsed and installments
    /// remain, one quarter moves from locked to unlocked and is minted to
    /// the caller; otherwise the call is a no-op. The record itself — its
    /// owner included — changes only by that one step. A fully paid
    /// schedule stays a no-op.
    pub fn refresh(&mut self, caller: String, now: u64, v_id: String) -> (r: Result<
        Option<RemoteCall>,
        OpError,
    >)
        requires
            old(self)@.wf(),
        ensures
            final(self)@.wf(),
            match r {
                Ok(action) => has_vestor(old(self)@.records, v_id@) && {
                    let i = vestor_at(old(self)@.records, v_id@);
                    let v = old(self)@.records[i];
                    if 1 <= v.nb_time_payment < VEST_STEPS && now > v.timestamp + (
                    v.nb_time_payment as u64) * VEST_STEP_MS {
                        &&& (v.amount_of_token / 4) * LTS_SCALE <= u128::MAX
                        &&& action matches Some(a) && a@ == (RemoteCallView::MintToken {
                            token: old(self)@.lts_account,
                            account: caller@,
                            amount: ((v.amount_of_token / 4) * LTS_SCALE) as u128,
                        })
                        &&& final(self)@ == (VestingView {
                            records: old(self)@.records.update(
                                i,
                                (VestorsView {
                                    locked_amount: (v.locked_amount - v.amount_of_token
                                        / 4) as u128,
                                    unlocked_amount: (v.unlocked_amount + v.amount_of_token
                                        / 4) as u128,
                                    nb_time_payment: (v.nb_time_payment + 1) as u8,
                                    duration: 4,
                                    ..v
                                }),
                            ),
                            ..old(self)@
                        })
                    } else {
                        action is None && *final(self) == *old(self)
                    }
                },
                Err(e) => *final(self) == *old(self) && if !has_vestor(
                    old(self)@.records,
                    v_id@,
                ) {
                    e == OpError::NotFound
                } else {
                    let v = old(self)@.records[vestor_at(old(self)@.records, v_id@)];
                    &&& e == OpError::Overflow
                    &&& 1 <= v.nb_time_payment < VEST_STEPS
                    &&& now > v.timestamp + (v.nb_time_payment as u64) * VEST_STEP_MS
                    &&& (v.amount_of_token / 4) * LTS_SCALE > u128::MAX
                },
            },
    {
        let idx = match self.find_vestor(&v_id) {
            None => {
                return Err(OpError::NotFound);
            },
            Some(i) => i,
        };
        let ghost pre = self@;
        proof {
            lemma_vestor_at_pins(pre.records, v_id@, idx as int);
        }
        let v = self.records[idx].clone();
        let due = 1 <= v.nb_time_payment && v.nb_time_payment < VEST_STEPS && (now as u128) > (
        v.timestamp as u128) + (v.nb_time_payment as u128) * (VEST_STEP_MS as u128);
        if !due {
            return Ok(None);
        }
        let quarter = v.amount_of_token / 4;
        let minted = match quarter.checked_mul(LTS_SCALE) {
            None => {
                return Err(OpError::Overflow);
            },
            Some(m) => m,
        };
        proof {
            assert(pre.records[idx as int].wf());
            assert(v@.locked_amount == (4 - v@.nb_time_payment) * v@.installment());
            assert(v@.locked_amount >= v@.installment()) by {
                assert((4 - v@.nb_time_payment) * v@.installment() >= 1 * v@.installment())
                    by (nonlinear_arith)
                    requires
                        1 <= v@.nb_time_payment < 4,
                        v@.installment() >= 0,
                        v@.locked_amount == (4 - v@.nb_time_payment) * v@.installment(),
                ;
            }
            assert(v@.unlocked_amount + v@.installment() <= v@.amount_of_token) by {
                lemma_vestor_amounts_bounded(v@);
            }
        }
        let updated = Vestors {
            id: v.id,
            owner_id: v.owner_id,
            amount_of_token: v.amount_of_token,
            locked_amount: v.locked_amount - quarter,
            unlocked_amount: v.unlocked_amount + quarter,
            duration: 4,
            timestamp: v.timestamp,
            nb_time_payment: v.nb_time_payment + 1,
        };
        let ghost uv = updated@;
        self.records.set(idx, updated);
        let action = RemoteCall::MintToken {
            token: self.lts_account.clone(),
            account: caller,
            amount: minted,
        };
        proof {
            assert(uv.wf()) by {
                let q = uv.installment();
                let n = pre.records[idx as int].nb_time_payment as int;
                assert((4 - n) * q - q == (4 - (n + 1)) * q) by (nonlinear_arith);
                assert(n * q + q == (n + 1) * q) by (nonlinear_arith);
            }
            assert(self@.records =~= pre.records.update(idx as int, uv));
            assert(self@ =~= (VestingView { records: self@.records, ..pre }));
        }
        Ok(Some(action))
    }

    /// The mint of `amount` tokens for `account`, scaled to minimal units.
    pub fn mint_lts(&self, account: &String, amount: u128) -> (r: Result<RemoteCall, OpError>)
        ensures
            match r {
                Ok(a) => amount * LTS_SCALE <= u128::MAX && a@ == (RemoteCallView::MintToken {
                    token: self@.lts_account,
                    account: account@,
                    amount: (amount * LTS_SCALE) as u128,
                }),
                Err(e) => e == OpError::Overflow && amount * LTS_SCALE > u128::MAX,
            },
    {
        let scaled = match amount.checked_mul(LTS_SCALE) {
            None => {
                return Err(OpError::Overflow);
            },
            Some(a) => a,
        };
        Ok(RemoteCall::MintToken {
            token: self.lts_account.clone(),
            account: account.clone(),
            amount: scaled,
        })
    }

    /// The storage registration of `account` with the token ledger.
    pub fn add_storage_deposit(&self, account: &String) -> (r: RemoteCall)
        ensures
            r@ == (RemoteCallView::StorageDeposit {
                token: self@.lts_account,
                account: account@,
                deposit: STORAGE_DEPOSIT,
            }),
    {
        RemoteCall::StorageDeposit {
            token: self.lts_account.clone(),
            account: account.clone(),
            deposit: STORAGE_DEPOSIT,
        }
    }

    /// Swaps the stored record bearing the same id for `vestor`.
    pub fn replace_vestor(&mut self, vestor: Vestors) -> (r: Result<(), OpError>)
        requires
            old(self)@.wf(),
            vestor@.wf(),
        ensures
            final(self)@.wf(),
            match r {
                Ok(()) => has_vestor(old(self)@.records, vestor@.id) && final(self)@
                    == (VestingView {
                    records: old(self)@.records.update(
                        vestor_at(old(self)@.records, vestor@.id),
                        vestor@,
                    ),
                    ..old(self)@
                }),
                Err(e) => e == OpError::NotFound && !has_vestor(old(self)@.records, vestor@.id)
                    && *final(self) == *old(self),
            },
    {
        let idx = match self.find_vestor(&vestor.id) {
            None => {
                return Err(OpError::NotFound);
            },
            Some(i) => i,
        };
        let ghost pre = self@;
        proof {
            lemma_vestor_at_pins(pre.records, vestor@.id, idx as int);
        }
        self.records.set(idx, vestor);
        proof {
            assert(self@.records =~= pre.records.update(idx as int, self@.records[idx as int]));
            assert(self@ =~= (VestingView { records: self@.records, ..pre }));
        }
        Ok(())
    }

    /// Advances the named schedule by one installment unconditionally,
    /// leaving its owner and its creation time untouched. Refused once the
    /// schedule is fully paid or before it has begun.
    pub fn change_data(&mut self, v_id: &String) -> (r: Result<(), OpError>)
        requires
            old(self)@.wf(),
        ensures
            final(self)@.wf(),
            match r {
                Ok(()) => has_vestor(old(self)@.records, v_id@) && {
                    let i = vestor_at(old(self)@.records, v_id@);
                    let v = old(self)@.records[i];
                    1 <= v.nb_time_payment < VEST_STEPS && final(self)@ == (VestingView {
                        records: old(self)@.records.update(
                            i,
                            (VestorsView {
                                locked_amount: (v.locked_amount - v.amount_of_token / 4) as u128,
                                unlocked_amount: (v.unlocked_amount + v.amount_of_token
                                    / 4) as u128,
                                nb_time_payment: (v.nb_time_payment + 1) as u8,
                                duration: 4,
                                ..v
                            }),
                        ),
                        ..old(self)@
                    })
                },
                Err(e) => *final(self) == *old(self) && if !has_vestor(
                    old(self)@.records,
                    v_id@,
                ) {
                    e == OpError::NotFound
                } else {
                    let v = old(self)@.records[vestor_at(old(self)@.records, v_id@)];
                    e == OpError::AlreadyFinalized && !(1 <= v.nb_time_payment < VEST_STEPS)
                },
            },
    {
        let idx = match self.find_vestor(v_id) {
            None => {
                return Err(OpError::NotFound);
            },
            Some(i) => i,
        };
        let ghost pre = self@;
        proof {
            lemma_vestor_at_pins(pre.records, v_id@, idx as int);
        }
        let v = self.records[idx].clone();
        if !(1 <= v.nb_time_payment && v.nb_time_payment < VEST_STEPS) {
            return Err(OpError::AlreadyFinalized);
        }
        let quarter = v.amount_of_token / 4;
        proof {
            assert(pre.records[idx as int].wf());
            assert(v@.locked_amount >= v@.installment()) by {
                assert((4 - v@.nb_time_payment) * v@.installment() >= 1 * v@.installment())
                    by (nonlinear_arith)
                    requires
                        1 <= v@.nb_time_payment < 4,
                        v@.installment() >= 0,
                        v@.locked_amount == (4 - v@.nb_time_payment) * v@.installment(),
                ;
            }
            assert(v@.unlocked_amount + v@.installment() <= v@.amount_of_token) by {
                lemma_vestor_amounts_bounded(v@);
            }
        }
        let updated = Vestors {
            id: v.id,
            owner_id: v.owner_id,
            amount_of_token: v.amount_of_token,
            locked_amount: v.locked_amount - quarter,
            unlocked_amount: v.unlocked_amount + quarter,
            duration: 4,
            timestamp: v.timestamp,
            nb_time_payment: v.nb_time_payment + 1,
        };
        let ghost uv = updated@;
        self.records.set(idx, updated);
        proof {
            assert(uv.wf()) by {
                let q = uv.installment();
                let n = pre.records[idx as int].nb_time_payment as int;
                assert((4 - n) * q - q == (4 - (n + 1)) * q) by (nonlinear_arith);
                assert(n * q + q == (n + 1) * q) by (nonlinear_arith);
            }
            assert(self@.records =~= pre.records.update(idx as int, uv));
            assert(self@ =~= (VestingView { records: self@.records, ..pre }));
        }
        Ok(())
    }
}

/// Dropping all records of one owner keeps the rest well formed and their
/// ids unique.
proof fn lemma_without_owner_wf(s: Seq<VestorsView>, owner: Seq<char>)
    requires
        vestors_unique(s),
        forall|i: int| 0 <= i < s.len() ==> (#[trigger] s[i]).wf(),
    ensures
        vestors_unique(without_owner(s, owner)),
        forall|i: int|
            0 <= i < without_owner(s, owner).len() ==> (#[trigger] without_owner(s, owner)[i]).wf(),
    decreases s.len(),
{
    if s.len() > 0 {
        lemma_without_owner_contained(s.drop_last(), owner);
        lemma_without_owner_wf(s.drop_last(), owner);
    }
}

/// Every record kept by `without_owner` stands somewhere in the original.
proof fn lemma_without_owner_contained(s: Seq<VestorsView>, owner: Seq<char>)
    ensures
        forall|i: int|
            0 <= i < without_owner(s, owner).len() ==> exists|j: int|
                0 <= j < s.len() && #[trigger] without_owner(s, owner)[i] == s[j],
    decreases s.len(),
{
    if s.len() > 0 {
        lemma_without_owner_contained(s.drop_last(), owner);
        let rest = without_owner(s.drop_last(), owner);
        let w = without_owner(s, owner);
        assert forall|i: int| 0 <= i < w.len() implies exists|j: int|
            0 <= j < s.len() && #[trigger] w[i] == s[j] by {
            if i < rest.len() {
                assert(exists|j: int| 0 <= j < s.drop_last().len() && rest[i] == s.drop_last()[j]);
                let j = choose|j: int| 0 <= j < s.drop_last().len() && rest[i] == s.drop_last()[j];
                assert(s.drop_last()[j] == s[j]);
                assert(w[i] == s[j]);
            } else {
                assert(w[i] == s[s.len() - 1]);
            }
        }
    }
}

/// Prefix sums of the locked amounts never exceed the whole sum.
proof fn lemma_total_locked_monotonic(s: Seq<VestorsView>, k: int)
    requires
        0 <= k <= s.len(),
    ensures
        total_locked(s.take(k)) <= total_locked(s),
    decreases s.len() - k,
{
    if k < s.len() {
        lemma_total_locked_monotonic(s, k + 1);
        assert(s.take(k + 1).drop_last() =~= s.take(k));
        assert(s.take(k + 1).last() == s[k]);
    } else {
        assert(s.take(k) =~= s);
    }
}

/// Prefix sums of the unlocked amounts never exceed the whole sum.
proof fn lemma_total_unlocked_monotonic(s: Seq<VestorsView>, k: int)
    requires
        0 <= k <= s.len(),
    ensures
        total_unlocked(s.take(k)) <= total_unlocked(s),
    decreases s.len() - k,
{
    if k < s.len() {
        lemma_total_unlocked_monotonic(s, k + 1);
        assert(s.take(k + 1).drop_last() =~= s.take(k));
        assert(s.take(k + 1).last() == s[k]);
    } else {
        assert(s.take(k) =~= s);
    }
}

} // verus!
