use vstd::prelude::*;

use crate::errors::OpError;
use crate::remote::{RemoteCall, RemoteCallView, LTS_SCALE};

verus! {

/// Ticks of the logical clock between two reward accruals.
pub const REWARD_PERIOD: u64 = 120000000;

/// Ticks of the logical clock an unstaked amount must rest before it can
/// be withdrawn.
pub const UNSTAKE_COOLDOWN: u64 = 180000000;

/// The reward pool emitted over the whole emission schedule, in tokens.
pub const REWARD_POOL: u128 = 100;

/// The number of emission periods the pool is spread over.
pub const REWARD_EMISSION_PERIODS: u128 = 1095;

/// One staker's ledger record. Amounts are in tokens; the accrued reward
/// is a fixed-point value in minimal units (tokens times `LTS_SCALE`).
#[derive(Clone, Copy, Debug, PartialEq, Eq, Structural)]
pub struct Data {
    pub amount: u128,
    pub time: u64,
    pub reward: u128,
    pub next_reward_time: u64,
    pub unstaked_amount: u128,
    pub unstake_timestamp: u64,
}

impl DeepView for Data {
    type V = Data;

    open spec fn deep_view(&self) -> Data {
        *self
    }
}

/// A staker's position in minimal units: the staked tokens plus the
/// accrued reward.
pub open spec fn staked_of(d: Data) -> int {
    d.amount * LTS_SCALE + d.reward
}

/// The sum of every staker's position, in minimal units.
pub open spec fn total_staked(s: Seq<(Seq<char>, Data)>) -> int
    decreases s.len(),
{
    if s.len() == 0 {
        0
    } else {
        total_staked(s.drop_last()) + staked_of(s.last().1)
    }
}

/// The pro-rata reward for one accrual period, in minimal units: the
/// staker's share of one period's emission from the fixed pool.
pub open spec fn reward_of(staked: int, total: int) -> int {
    (REWARD_POOL * LTS_SCALE * staked) / (REWARD_EMISSION_PERIODS * total)
}

/// Why computing the pro-rata reward for `k` is refused, if it is: the
/// record must exist, the staker's position, the ledger total and the two
/// fixed-point products must fit the machine integer, and a share of
/// nothing staked is undefined.
pub open spec fn reward_calc_err(s: Seq<(Seq<char>, Data)>, k: Seq<char>) -> Option<OpError> {
    if !has_staker(s, k) {
        Some(OpError::NotFound)
    } else if staked_of(data_of(s, k)) > u128::MAX {
        Some(OpError::Overflow)
    } else if total_staked(s) > u128::MAX {
        Some(OpError::Overflow)
    } else if total_staked(s) == 0 {
        Some(OpError::ZeroTotalStaked)
    } else if REWARD_POOL * LTS_SCALE * staked_of(data_of(s, k)) > u128::MAX {
        Some(OpError::Overflow)
    } else if REWARD_EMISSION_PERIODS * total_staked(s) > u128::MAX {
        Some(OpError::Overflow)
    } else {
        None
    }
}

pub open spec fn has_staker(s: Seq<(Seq<char>, Data)>, k: Seq<char>) -> bool {
    exists|i: int| 0 <= i < s.len() && s[i].0 == k
}

pub open spec fn staker_at(s: Seq<(Seq<char>, Data)>, k: Seq<char>) -> int {
    choose|i: int| 0 <= i < s.len() && s[i].0 == k
}

pub open spec fn data_of(s: Seq<(Seq<char>, Data)>, k: Seq<char>) -> Data {
    s[staker_at(s, k)].1
}

pub open spec fn stakers_unique(s: Seq<(Seq<char>, Data)>) -> bool {
    forall|i: int, j: int| 0 <= i < j < s.len() ==> s[i].0 != s[j].0
}

pub proof fn lemma_staker_at_pins(s: Seq<(Seq<char>, Data)>, k: Seq<char>, i: int)
    requires
        stakers_unique(s),
        0 <= i < s.len(),
        s[i].0 == k,
    ensures
        has_staker(s, k),
        staker_at(s, k) == i,
{
    assert(has_staker(s, k));
    let j = staker_at(s, k);
    assert(0 <= j < s.len() && s[j].0 == k);
    if i < j {
        assert(s[i].0 != s[j].0);
    } else if j < i {
        assert(s[j].0 != s[i].0);
    }
}

/// The reward ledger: one record per staker, accruing a pro-rata share of
/// a fixed-rate emission, with an unstake cooldown.
pub struct Rewardercontract {
    pub self_account: String,
    pub redeemers: Vec<String>,
    pub staker_data: Vec<(String, Data)>,
}

/// Mathematical image of the [`Rewardercontract`] state.
#[verifier::ext_equal]
pub struct RewarderView {
    pub self_account: Seq<char>,
    pub redeemers: Seq<Seq<char>>,
    pub staker_data: Seq<(Seq<char>, Data)>,
}

impl View for Rewardercontract {
    type V = RewarderView;

    open spec fn view(&self) -> RewarderView {
        RewarderView {
            self_account: self.self_account@,
            redeemers: self.redeemers.deep_view(),
            staker_data: self.staker_data.deep_view(),
        }
    }
}

impl RewarderView {
    pub open spec fn wf(self) -> bool {
        stakers_unique(self.staker_data)
    }
}

impl Rewardercontract {
    /// A fresh reward ledger owned by `self_account`.
    pub fn new(self_account: String) -> (s: Rewardercontract)
        ensures
            s@.wf(),
            s@.self_account == self_account@,
            s@.redeemers.len() == 0,
            s@.staker_data.len() == 0,
    {
        let s = Rewardercontract { self_account, redeemers: Vec::new(), staker_data: Vec::new() };
        proof {
            assert(s@.redeemers =~= Seq::<Seq<char>>::empty());
            assert(s@.staker_data =~= Seq::<(Seq<char>, Data)>::empty());
        }
        s
    }

    /// Finds the index of the record for `account`, if any.
    fn find_staker(&self, account: &String) -> (r: Option<usize>)
        ensures
            match r {
                Some(i) => i < self@.staker_data.len() && self@.staker_data[i as int].0
                    == account@,
                None => !has_staker(self@.staker_data, account@),
            },
    {
        let mut k: usize = 0;
        while k < self.staker_data.len()
            invariant
                k <= self@.staker_data.len(),
                forall|i: int| 0 <= i < k ==> self@.staker_data[i].0 != account@,
            decreases self@.staker_data.len() - k,
        {
            if self.staker_data[k].0 == *account {
                proof {
                    assert(self@.staker_data[k as int].0 == account@);
                }
                return Some(k);
            }
            k = k + 1;
        }
        None
    }

    /// Drops every staker record. Restricted to the ledger's own identity.
    pub fn delete_all_stakers(&mut self, caller: &String) -> (r: Result<(), OpError>)
        requires
            old(self)@.wf(),
        ensures
            final(self)@.wf(),
            match r {
                Ok(()) => caller@ == old(self)@.self_account && final(self)@ == (RewarderView {
                    staker_data: Seq::empty(),
                    ..old(self)@
                }),
                Err(e) => e == OpError::Unauthorized && caller@ != old(self)@.self_account
                    && *final(self) == *old(self),
            },
    {
        if !(*caller == self.self_account) {
            return Err(OpError::Unauthorized);
        }
        self.staker_data.clear();
        proof {
            assert(self@.staker_data =~= Seq::<(Seq<char>, Data)>::empty());
            assert(self@ =~= (RewarderView { staker_data: Seq::empty(), ..old(self)@ }));
        }
        Ok(())
    }

    /// Records `account` as a redeemer.
    pub fn redeem(&mut self, account: String)
        ensures
            final(self)@ == (RewarderView {
                redeemers: old(self)@.redeemers.push(account@),
                ..old(self)@
            }),
    {
        self.redeemers.push(account);
        proof {
            assert(self@.redeemers =~= old(self)@.redeemers.push(account@));
            assert(self@ =~= (RewarderView { redeemers: self@.redeemers, ..old(self)@ }));
        }
    }

    /// Records a stake of `amount` for `account`: a fresh record starts a
    /// new accrual period, an existing one grows by the amount. Hands back
    /// the treasury announcement to dispatch.
    pub fn add_staker(&mut self, treasury: &String, account: String, amount: u128, now: u64) -> (r:
        Result<RemoteCall, OpError>)
        requires
            old(self)@.wf(),
        ensures
            final(self)@.wf(),
            match r {
                Ok(a) => {
                    &&& a@ == (RemoteCallView::TreasuryAddStaker {
                        treasury: treasury@,
                        account: account@,
                    })
                    &&& if !has_staker(old(self)@.staker_data, account@) {
                        &&& now + REWARD_PERIOD <= u64::MAX
                        &&& final(self)@ == (RewarderView {
                            staker_data: old(self)@.staker_data.push(
                                (
                                    account@,
                                    (Data {
                                        amount: amount,
                                        time: now,
                                        reward: 0,
                                        next_reward_time: (now + REWARD_PERIOD) as u64,
                                        unstaked_amount: 0,
                                        unstake_timestamp: 0,
                                    }),
                                ),
                            ),
                            ..old(self)@
                        })
                    } else {
                        let i = staker_at(old(self)@.staker_data, account@);
                        let d = old(self)@.staker_data[i].1;
                        &&& d.amount + amount <= u128::MAX
                        &&& final(self)@ == (RewarderView {
                            staker_data: old(self)@.staker_data.update(
                                i,
                                (
                                    account@,
                                    (Data {
                                        amount: (d.amount + amount) as u128,
                                        time: now,
                                        ..d
                                    }),
                                ),
                            ),
                            ..old(self)@
                        })
                    }
                },
                Err(e) => e == OpError::Overflow && *final(self) == *old(self) && if !has_staker(
                    old(self)@.staker_data,
                    account@,
                ) {
                    now + REWARD_PERIOD > u64::MAX
                } else {
                    old(self)@.staker_data[staker_at(old(self)@.staker_data, account@)].1.amount
                        + amount > u128::MAX
                },
            },
    {
        let ghost pre = self@;
        match self.find_staker(&account) {
            None => {
                let next = match now.checked_add(REWARD_PERIOD) {
                    None => {
                        return Err(OpError::Overflow);
                    },
                    Some(t) => t,
                };
                let data = Data {
                    amount: amount,
                    time: now,
                    reward: 0,
                    next_reward_time: next,
                    unstaked_amount: 0,
                    unstake_timestamp: 0,
                };
                let key = account.clone();
                self.staker_data.push((key, data));
                proof {
                    assert(self@.staker_data =~= pre.staker_data.push((account@, data)));
                    assert(self@ =~= (RewarderView { staker_data: self@.staker_data, ..pre }));
                }
                Ok(RemoteCall::TreasuryAddStaker { treasury: treasury.clone(), account })
            },
            Some(i) => {
                proof {
                    lemma_staker_at_pins(pre.staker_data, account@, i as int);
                }
                let d = self.staker_data[i].1;
                let grown = match d.amount.checked_add(amount) {
                    None => {
                        return Err(OpError::Overflow);
                    },
                    Some(a) => a,
                };
                let data = Data { amount: grown, time: now, ..d };
                let key = account.clone();
                self.staker_data.set(i, (key, data));
                proof {
                    assert(self@.staker_data =~= pre.staker_data.update(
                        i as int,
                        (account@, data),
                    ));
                    assert(self@ =~= (RewarderView { staker_data: self@.staker_data, ..pre }));
                }
                Ok(RemoteCall::TreasuryAddStaker { treasury: treasury.clone(), account })
            },
        }
    }

    /// Whether `account` holds a staker record.
    pub fn check_staker(&self, account: String) -> (b: bool)
        ensures
            b == has_staker(self@.staker_data, account@),
    {
        self.find_staker(&account).is_some()
    }

    /// The sum of every staker's position in minimal units, or `Overflow`
    /// when it does not fit.
    pub fn get_totalstaked(&self) -> (r: Result<u128, OpError>)
        ensures
            match r {
                Ok(t) => t == total_staked(self@.staker_data),
                Err(e) => e == OpError::Overflow && total_staked(self@.staker_data) > u128::MAX,
            },
    {
        let mut sum: u128 = 0;
        let mut k: usize = 0;
        while k < self.staker_data.len()
            invariant
                k <= self@.staker_data.len(),
                sum == total_staked(self@.staker_data.take(k as int)),
            decreases self@.staker_data.len() - k,
        {
            proof {
                assert(self@.staker_data.take(k as int + 1).drop_last() =~= self@.staker_data.take(
                    k as int,
                ));
                assert(self@.staker_data.take(k as int + 1).last() == self@.staker_data[k as int]);
            }
            let d = self.staker_data[k].1;
            let position = match d.amount.checked_mul(LTS_SCALE) {
                None => {
                    proof {
                        lemma_total_staked_monotonic(self@.staker_data, k as int + 1);
                    }
                    return Err(OpError::Overflow);
                },
                Some(p) => p,
            };
            let position = match position.checked_add(d.reward) {
                None => {
                    proof {
                        lemma_total_staked_monotonic(self@.staker_data, k as int + 1);
                    }
                    return Err(OpError::Overflow);
                },
                Some(p) => p,
            };
            sum = match sum.checked_add(position) {
                None => {
                    proof {
                        lemma_total_staked_monotonic(self@.staker_data, k as int + 1);
                    }
                    return Err(OpError::Overflow);
                },
                Some(s) => s,
            };
            k = k + 1;
        }
        proof {
            assert(self@.staker_data.take(self@.staker_data.len() as int) =~= self@.staker_data);
        }
        Ok(sum)
    }

    /// The record for `account`, or `NotFound`.
    pub fn get_data(&self, account: String) -> (r: Result<Data, OpError>)
        requires
            self@.wf(),
        ensures
            match r {
                Ok(d) => has_staker(self@.staker_data, account@) && d == data_of(
                    self@.staker_data,
                    account@,
                ),
                Err(e) => e == OpError::NotFound && !has_staker(self@.staker_data, account@),
            },
    {
        match self.find_staker(&account) {
            None => Err(OpError::NotFound),
            Some(i) => {
                proof {
                    lemma_staker_at_pins(self@.staker_data, account@, i as int);
                }
                Ok(self.staker_data[i].1)
            },
        }
    }

    /// Moves `amount` of the staked tokens into the resting unstaked
    /// bucket and starts the cooldown. A failed call leaves the ledger
    /// exactly as it was.
    pub fn unstake(&mut self, account: String, amount: u128, now: u64) -> (r: Result<(), OpError>)
        requires
            old(self)@.wf(),
        ensures
            final(self)@.wf(),
            match r {
                Ok(()) => has_staker(old(self)@.staker_data, account@) && {
                    let i = staker_at(old(self)@.staker_data, account@);
                    let d = old(self)@.staker_data[i].1;
                    &&& amount <= d.amount
                    &&& d.unstaked_amount + amount <= u128::MAX
                    &&& final(self)@ == (RewarderView {
                        staker_data: old(self)@.staker_data.update(
                            i,
                            (
                                account@,
                                (Data {
                                    amount: (d.amount - amount) as u128,
                                    unstaked_amount: (d.unstaked_amount + amount) as u128,
                                    unstake_timestamp: now,
                                    ..d
                                }),
                            ),
                        ),
                        ..old(self)@
                    })
                },
                Err(e) => *final(self) == *old(self) && if !has_staker(
                    old(self)@.staker_data,
                    account@,
                ) {
                    e == OpError::NotFound
                } else {
                    let d = old(self)@.staker_data[staker_at(
                        old(self)@.staker_data,
                        account@,
                    )].1;
                    if amount > d.amount {
                        e == OpError::InsufficientBalance
                    } else {
                        e == OpError::Overflow && d.unstaked_amount + amount > u128::MAX
                    }
                },
            },
    {
        let idx = match self.find_staker(&account) {
            None => {
                return Err(OpError::NotFound);
            },
            Some(i) => i,
        };
        let ghost pre = self@;
        proof {
            lemma_staker_at_pins(pre.staker_data, account@, idx as int);
        }
        let d = self.staker_data[idx].1;
        if amount > d.amount {
            return Err(OpError::InsufficientBalance);
        }
        let rested = match d.unstaked_amount.checked_add(amount) {
            None => {
                return Err(OpError::Overflow);
            },
            Some(u) => u,
        };
        let data = Data {
            amount: d.amount - amount,
            unstaked_amount: rested,
            unstake_timestamp: now,
            ..d
        };
        self.staker_data.set(idx, (account, data));
        proof {
            assert(self@.staker_data =~= pre.staker_data.update(
                idx as int,
                (pre.staker_data[idx as int].0, data),
            ));
            assert(self@ =~= (RewarderView { staker_data: self@.staker_data, ..pre }));
        }
        Ok(())
    }

    /// Withdraws `amount` from the rested unstaked bucket, only once the
    /// cooldown has strictly elapsed. A failed call leaves the ledger
    /// exactly as it was.
    pub fn withdraw(&mut self, account: String, amount: u128, now: u64) -> (r: Result<(), OpError>)
        requires
            old(self)@.wf(),
        ensures
            final(self)@.wf(),
            match r {
                Ok(()) => has_staker(old(self)@.staker_data, account@) && {
                    let i = staker_at(old(self)@.staker_data, account@);
                    let d = old(self)@.staker_data[i].1;
                    &&& now > d.unstake_timestamp + UNSTAKE_COOLDOWN
                    &&& amount <= d.unstaked_amount
                    &&& final(self)@ == (RewarderView {
                        staker_data: old(self)@.staker_data.update(
                            i,
                            (
                                account@,
                                (Data {
                                    unstaked_amount: (d.unstaked_amount - amount) as u128,
                                    ..d
                                }),
                            ),
                        ),
                        ..old(self)@
                    })
                },
                Err(e) => *final(self) == *old(self) && if !has_staker(
                    old(self)@.staker_data,
                    account@,
                ) {
                    e == OpError::NotFound
                } else {
                    let d = old(self)@.staker_data[staker_at(
                        old(self)@.staker_data,
                        account@,
                    )].1;
                    if now <= d.unstake_timestamp + UNSTAKE_COOLDOWN {
                        e == OpError::CooldownActive
                    } else {
                        e == OpError::InsufficientBalance && amount > d.unstaked_amount
                    }
                },
            },
    {
        let idx = match self.find_staker(&account) {
            None => {
                return Err(OpError::NotFound);
            },
            Some(i) => i,
        };
        let ghost pre = self@;
        proof {
            lemma_staker_at_pins(pre.staker_data, account@, idx as int);
        }
        let d = self.staker_data[idx].1;
        if !((now as u128) > (d.unstake_timestamp as u128) + (UNSTAKE_COOLDOWN as u128)) {
            return Err(OpError::CooldownActive);
        }
        if amount > d.unstaked_amount {
            return Err(OpError::InsufficientBalance);
        }
        let data = Data { unstaked_amount: d.unstaked_amount - amount, ..d };
        self.staker_data.set(idx, (account, data));
        proof {
            assert(self@.staker_data =~= pre.staker_data.update(
                idx as int,
                (pre.staker_data[idx as int].0, data),
            ));
            assert(self@ =~= (RewarderView { staker_data: self@.staker_data, ..pre }));
        }
        Ok(())
    }

    /// Opens a reward payout: hands back the token transfer of exactly the
    /// accrued minimal units, touching nothing. The accrued reward is
    /// cleared only by `withdraw_reward_callback`, once the transfer's
    /// outcome is reported — never eagerly.
    pub fn withdraw_reward(&self, lts: &String, account: String) -> (r: Result<
        RemoteCall,
        OpError,
    >)
        requires
            self@.wf(),
        ensures
            match r {
                Ok(a) => has_staker(self@.staker_data, account@) && a@
                    == (RemoteCallView::FtTransfer {
                    token: lts@,
                    receiver: account@,
                    amount: data_of(self@.staker_data, account@).reward,
                    memo: Seq::empty(),
                }),
                Err(e) => e == OpError::NotFound && !has_staker(self@.staker_data, account@),
            },
    {
        let idx = match self.find_staker(&account) {
            None => {
                return Err(OpError::NotFound);
            },
            Some(i) => i,
        };
        proof {
            lemma_staker_at_pins(self@.staker_data, account@, idx as int);
        }
        let d = self.staker_data[idx].1;
        Ok(RemoteCall::FtTransfer {
            token: lts.clone(),
            receiver: account,
            amount: d.reward,
            memo: String::new(),
        })
    }

    /// Closes a reward payout once the dispatched transfer's outcome is
    /// known: on reported success the paid amount leaves the accrued
    /// reward; on failure the ledger is untouched and the chain halts with
    /// `RemoteStepFailed`, so the accrued reward is never lost.
    pub fn withdraw_reward_callback(&mut self, account: String, amount: u128, ok: bool) -> (r:
        Result<(), OpError>)
        requires
            old(self)@.wf(),
        ensures
            final(self)@.wf(),
            match r {
                Ok(()) => has_staker(old(self)@.staker_data, account@) && ok && {
                    let i = staker_at(old(self)@.staker_data, account@);
                    let d = old(self)@.staker_data[i].1;
                    &&& amount <= d.reward
                    &&& final(self)@ == (RewarderView {
                        staker_data: old(self)@.staker_data.update(
                            i,
                            (account@, (Data { reward: (d.reward - amount) as u128, ..d })),
                        ),
                        ..old(self)@
                    })
                },
                Err(e) => *final(self) == *old(self) && if !has_staker(
                    old(self)@.staker_data,
                    account@,
                ) {
                    e == OpError::NotFound
                } else if !ok {
                    e == OpError::RemoteStepFailed
                } else {
                    e == OpError::InsufficientBalance && amount > data_of(
                        old(self)@.staker_data,
                        account@,
                    ).reward
                },
            },
    {
        let idx = match self.find_staker(&account) {
            None => {
                return Err(OpError::NotFound);
            },
            Some(i) => i,
        };
        let ghost pre = self@;
        proof {
            lemma_staker_at_pins(pre.staker_data, account@, idx as int);
        }
        if !ok {
            return Err(OpError::RemoteStepFailed);
        }
        let d = self.staker_data[idx].1;
        if amount > d.reward {
            return Err(OpError::InsufficientBalance);
        }
        let data = Data { reward: d.reward - amount, ..d };
        self.staker_data.set(idx, (account, data));
        proof {
            assert(self@.staker_data =~= pre.staker_data.update(
                idx as int,
                (pre.staker_data[idx as int].0, data),
            ));
            assert(self@ =~= (RewarderView { staker_data: self@.staker_data, ..pre }));
        }
        Ok(())
    }

    /// The staker's whole position in minimal units, or `Overflow` when it
    /// does not fit.
    pub fn get_total_amount_per_wallet(&self, account: String) -> (r: Result<u128, OpError>)
        requires
            self@.wf(),
        ensures
            match r {
                Ok(t) => has_staker(self@.staker_data, account@) && t == staked_of(
                    data_of(self@.staker_data, account@),
                ),
                Err(e) => if !has_staker(self@.staker_data, account@) {
                    e == OpError::NotFound
                } else {
                    e == OpError::Overflow && staked_of(data_of(self@.staker_data, account@))
                        > u128::MAX
                },
            },
    {
        let d = self.get_data(account)?;
        let position = match d.amount.checked_mul(LTS_SCALE) {
            None => {
                return Err(OpError::Overflow);
            },
            Some(p) => p,
        };
        match position.checked_add(d.reward) {
            None => Err(OpError::Overflow),
            Some(p) => Ok(p),
        }
    }

    /// One period's pro-rata reward for `account` in minimal units: the
    /// staker's share of the fixed emission. Success is owed exactly when
    /// `reward_calc_err` names no refusal.
    pub fn calculaterewards(&self, account: String) -> (r: Result<u128, OpError>)
        requires
            self@.wf(),
        ensures
            match r {
                Ok(t) => reward_calc_err(self@.staker_data, account@) is None && t == reward_of(
                    staked_of(data_of(self@.staker_data, account@)),
                    total_staked(self@.staker_data),
                ),
                Err(e) => reward_calc_err(self@.staker_data, account@) == Some(e),
            },
    {
        let d = self.get_data(account)?;
        let staked = match d.amount.checked_mul(LTS_SCALE) {
            None => {
                return Err(OpError::Overflow);
            },
            Some(p) => p,
        };
        let staked = match staked.checked_add(d.reward) {
            None => {
                return Err(OpError::Overflow);
            },
            Some(p) => p,
        };
        let total = self.get_totalstaked()?;
        if total == 0 {
            return Err(OpError::ZeroTotalStaked);
        }
        let numerator = match REWARD_POOL.checked_mul(LTS_SCALE) {
            None => {
                return Err(OpError::Overflow);
            },
            Some(n) => n,
        };
        let numerator = match numerator.checked_mul(staked) {
            None => {
                return Err(OpError::Overflow);
            },
            Some(n) => n,
        };
        let denominator = match REWARD_EMISSION_PERIODS.checked_mul(total) {
            None => {
                return Err(OpError::Overflow);
            },
            Some(n) => n,
        };
        Ok(numerator / denominator)
    }

    /// Accrues one period's reward once the eligible time has strictly
    /// passed, and schedules the next period; before that the call is
    /// refused with `TooEarly` and the ledger is unchanged.
    pub fn update_reward(&mut self, account: String, now: u64) -> (r: Result<(), OpError>)
        requires
            old(self)@.wf(),
        ensures
            final(self)@.wf(),
            match r {
                Ok(()) => has_staker(old(self)@.staker_data, account@) && {
                    let i = staker_at(old(self)@.staker_data, account@);
                    let d = old(self)@.staker_data[i].1;
                    let accrued = reward_of(staked_of(d), total_staked(old(self)@.staker_data));
                    &&& now > d.next_reward_time
                    &&& reward_calc_err(old(self)@.staker_data, account@) is None
                    &&& d.reward + accrued <= u128::MAX
                    &&& d.next_reward_time + REWARD_PERIOD <= u64::MAX
                    &&& final(self)@ == (RewarderView {
                        staker_data: old(self)@.staker_data.update(
                            i,
                            (
                                account@,
                                (Data {
                                    reward: (d.reward + accrued) as u128,
                                    next_reward_time: (d.next_reward_time
                                        + REWARD_PERIOD) as u64,
                                    ..d
                                }),
                            ),
                        ),
                        ..old(self)@
                    })
                },
                Err(e) => *final(self) == *old(self) && if !has_staker(
                    old(self)@.staker_data,
                    account@,
                ) {
                    e == OpError::NotFound
                } else {
                    let d = old(self)@.staker_data[staker_at(
                        old(self)@.staker_data,
                        account@,
                    )].1;
                    if now <= d.next_reward_time {
                        e == OpError::TooEarly
                    } else if reward_calc_err(old(self)@.staker_data, account@) is Some {
                        Some(e) == reward_calc_err(old(self)@.staker_data, account@)
                    } else {
                        let accrued = reward_of(
                            staked_of(d),
                            total_staked(old(self)@.staker_data),
                        );
                        e == OpError::Overflow && (d.reward + accrued > u128::MAX
                            || d.next_reward_time + REWARD_PERIOD > u64::MAX)
                    }
                },
            },
    {
        let idx = match self.find_staker(&account) {
            None => {
                return Err(OpError::NotFound);
            },
            Some(i) => i,
        };
        let ghost pre = self@;
        proof {
            lemma_staker_at_pins(pre.staker_data, account@, idx as int);
        }
        let d = self.staker_data[idx].1;
        if now <= d.next_reward_time {
            return Err(OpError::TooEarly);
        }
        let accrued = match self.calculaterewards(account.clone()) {
            Err(e) => {
                return Err(e);
            },
            Ok(a) => a,
        };
        let grown = match d.reward.checked_add(accrued) {
            None => {
                return Err(OpError::Overflow);
            },
            Some(g) => g,
        };
        let next = match d.next_reward_time.checked_add(REWARD_PERIOD) {
            None => {
                return Err(OpError::Overflow);
            },
            Some(n) => n,
        };
        let data = Data { reward: grown, next_reward_time: next, ..d };
        self.staker_data.set(idx, (account, data));
        proof {
            assert(self@.staker_data =~= pre.staker_data.update(
                idx as int,
                (pre.staker_data[idx as int].0, data),
            ));
            assert(self@ =~= (RewarderView { staker_data: self@.staker_data, ..pre }));
        }
        Ok(())
    }
}

/// Law: ledger amounts never read negative. Every staker's position — its
/// staked tokens plus its accrued reward — is at least zero and at most
/// the ledger's total, in every state.
pub proof fn lemma_position_within_total(s: Seq<(Seq<char>, Data)>, i: int)
    requires
        0 <= i < s.len(),
    ensures
        0 <= staked_of(s[i].1),
        staked_of(s[i].1) <= total_staked(s),
    decreases s.len(),
{
    lemma_staked_nonneg(s[i].1);
    if i == s.len() - 1 {
        lemma_total_staked_nonneg(s.drop_last());
    } else {
        lemma_position_within_total(s.drop_last(), i);
        assert(s.drop_last()[i] == s[i]);
        lemma_staked_nonneg(s.last().1);
    }
}

proof fn lemma_staked_nonneg(d: Data)
    ensures
        staked_of(d) >= 0,
{
    assert(d.amount * LTS_SCALE >= 0) by (nonlinear_arith);
}

proof fn lemma_total_staked_nonneg(s: Seq<(Seq<char>, Data)>)
    ensures
        total_staked(s) >= 0,
    decreases s.len(),
{
    if s.len() > 0 {
        lemma_total_staked_nonneg(s.drop_last());
        lemma_staked_nonneg(s.last().1);
    }
}

/// Prefix sums of the staked positions never exceed the whole sum.
proof fn lemma_total_staked_monotonic(s: Seq<(Seq<char>, Data)>, k: int)
    requires
        0 <= k <= s.len(),
    ensures
        total_staked(s.take(k)) <= total_staked(s),
    decreases s.len() - k,
{
    if k < s.len() {
        lemma_total_staked_monotonic(s, k + 1);
        assert(s.take(k + 1).drop_last() =~= s.take(k));
        assert(s.take(k + 1).last() == s[k]);
    } else {
        assert(s.take(k) =~= s);
    }
}

} // verus!
