use vstd::prelude::*;

use crate::errors::OpError;
use crate::remote::{RemoteCall, RemoteCallView, LTS_SCALE};

verus! {

/// Which two-step chain a record tracks.
#[derive(Clone, Copy, Debug, PartialEq, Eq, Structural)]
pub enum ChainKind {
    /// Burn the caller's tokens, then mint them to the staking ledger.
    Transfer,
    /// Move tokens to the pool, then record the stake with the rewarder.
    Stake,
    /// Ask the pool to release tokens, then record the unstake.
    Unstake,
    /// Pay tokens out, then record the withdrawal.
    Withdraw,
}

/// Where a chain stands. A chain is persisted before its first dispatch
/// and advanced only by reported outcomes, so an interrupted chain is
/// always inspectable.
#[derive(Clone, Copy, Debug, PartialEq, Eq, Structural)]
pub enum ChainState {
    /// Created; the first step has been handed out for dispatch.
    Pending,
    /// The first step succeeded; the second has been handed out.
    StepOneDone,
    /// The first step failed; nothing further was dispatched.
    FailedAtOne,
    /// The second step failed after the first took effect.
    FailedAtTwo,
    /// Both steps succeeded.
    Complete,
}

/// One in-flight chain: its kind, the acting identity, the token amount,
/// and how far it has come.
pub struct ChainRecord {
    pub kind: ChainKind,
    pub account: String,
    pub amount: u128,
    pub state: ChainState,
}

/// Mathematical image of a [`ChainRecord`].
#[verifier::ext_equal]
pub struct ChainRecordView {
    pub kind: ChainKind,
    pub account: Seq<char>,
    pub amount: u128,
    pub state: ChainState,
}

impl View for ChainRecord {
    type V = ChainRecordView;

    open spec fn view(&self) -> ChainRecordView {
        ChainRecordView {
            kind: self.kind,
            account: self.account@,
            amount: self.amount,
            state: self.state,
        }
    }
}

/// Where a chain stands after the first step's outcome is known.
pub open spec fn step_one_transition(ok: bool) -> ChainState {
    if ok {
        ChainState::StepOneDone
    } else {
        ChainState::FailedAtOne
    }
}

/// Where a chain stands after the second step's outcome is known.
pub open spec fn step_two_transition(ok: bool) -> ChainState {
    if ok {
        ChainState::Complete
    } else {
        ChainState::FailedAtTwo
    }
}

/// Law: a chain never reports partial success. A failed first step leaves
/// the chain failed at step one — never advanced, so the second step is
/// never dispatched; a failed second step leaves it failed at step two;
/// and a chain reads complete exactly when both steps succeeded.
pub proof fn lemma_no_partial_success(ok1: bool, ok2: bool)
    ensures
        !ok1 ==> step_one_transition(ok1) == ChainState::FailedAtOne,
        step_one_transition(ok1) == ChainState::StepOneDone <==> ok1,
        !ok2 ==> step_two_transition(ok2) == ChainState::FailedAtTwo,
        step_two_transition(ok2) == ChainState::Complete <==> ok2,
{
}

/// The staking front: it owns no balances itself, it only opens two-step
/// chains against the token ledger, the pool and the reward ledger, and
/// advances each chain as outcomes come back.
pub struct StakingContract {
    pub self_account: String,
    pub lts_account: String,
    pub pool_account: String,
    pub rewarder_account: String,
}

impl StakingContract {
    /// A fresh staking front under its own identity, wired to the token
    /// ledger, the pool and the reward ledger.
    pub fn new(
        self_account: String,
        lts_account: String,
        pool_account: String,
        rewarder_account: String,
    ) -> (s: StakingContract)
        ensures
            s.self_account@ == self_account@,
            s.lts_account@ == lts_account@,
            s.pool_account@ == pool_account@,
            s.rewarder_account@ == rewarder_account@,
    {
        StakingContract { self_account, lts_account, pool_account, rewarder_account }
    }

    /// Opens a transfer chain: burn the caller's tokens on the token
    /// ledger first; the mint follows only on its reported success.
    pub fn transfer(&self, caller: String, amount: u128) -> (r: Result<
        (ChainRecord, RemoteCall),
        OpError,
    >)
        ensures
            match r {
                Ok((record, action)) => {
                    &&& amount * LTS_SCALE <= u128::MAX
                    &&& record@ == (ChainRecordView {
                        kind: ChainKind::Transfer,
                        account: caller@,
                        amount: amount,
                        state: ChainState::Pending,
                    })
                    &&& action@ == (RemoteCallView::BurnToken {
                        token: self.lts_account@,
                        account: caller@,
                        amount: (amount * LTS_SCALE) as u128,
                    })
                },
                Err(e) => e == OpError::Overflow && amount * LTS_SCALE > u128::MAX,
            },
    {
        let scaled = match amount.checked_mul(LTS_SCALE) {
            None => {
                return Err(OpError::Overflow);
            },
            Some(a) => a,
        };
        let action = RemoteCall::BurnToken {
            token: self.lts_account.clone(),
            account: caller.clone(),
            amount: scaled,
        };
        let record = ChainRecord {
            kind: ChainKind::Transfer,
            account: caller,
            amount,
            state: ChainState::Pending,
        };
        Ok((record, action))
    }

    /// Continues a transfer chain once the burn's outcome is known: on
    /// success the mint to the staking ledger goes out; on failure the
    /// chain halts with `RemoteStepFailed` and nothing further is
    /// dispatched.
    pub fn transfer_callback(&self, record: &mut ChainRecord, ok: bool) -> (r: Result<
        RemoteCall,
        OpError,
    >)
        requires
            old(record)@.kind == ChainKind::Transfer,
            old(record)@.state == ChainState::Pending,
            old(record)@.amount * LTS_SCALE <= u128::MAX,
        ensures
            final(record)@ == (ChainRecordView { state: step_one_transition(ok), ..old(record)@ }),
            match r {
                Ok(a) => ok && a@ == (RemoteCallView::MintToken {
                    token: self.lts_account@,
                    account: self.self_account@,
                    amount: (old(record)@.amount * LTS_SCALE) as u128,
                }),
                Err(e) => !ok && e == OpError::RemoteStepFailed,
            },
    {
        if !ok {
            record.state = ChainState::FailedAtOne;
            return Err(OpError::RemoteStepFailed);
        }
        record.state = ChainState::StepOneDone;
        let scaled = record.amount * LTS_SCALE;
        Ok(RemoteCall::MintToken {
            token: self.lts_account.clone(),
            account: self.self_account.clone(),
            amount: scaled,
        })
    }

    /// Opens a staking chain: move the caller's tokens to the pool first;
    /// the reward-ledger registration follows only on reported success.
    pub fn stake(&self, caller: String, amount: u128) -> (r: Result<
        (ChainRecord, RemoteCall),
        OpError,
    >)
        ensures
            match r {
                Ok((record, action)) => {
                    &&& amount * LTS_SCALE <= u128::MAX
                    &&& record@ == (ChainRecordView {
                        kind: ChainKind::Stake,
                        account: caller@,
                        amount: amount,
                        state: ChainState::Pending,
                    })
                    &&& action@ == (RemoteCallView::FtTransfer {
                        token: self.lts_account@,
                        receiver: self.pool_account@,
                        amount: (amount * LTS_SCALE) as u128,
                        memo: Seq::empty(),
                    })
                },
                Err(e) => e == OpError::Overflow && amount * LTS_SCALE > u128::MAX,
            },
    {
        let scaled = match amount.checked_mul(LTS_SCALE) {
            None => {
                return Err(OpError::Overflow);
            },
            Some(a) => a,
        };
        let action = RemoteCall::FtTransfer {
            token: self.lts_account.clone(),
            receiver: self.pool_account.clone(),
            amount: scaled,
            memo: String::new(),
        };
        let record = ChainRecord {
            kind: ChainKind::Stake,
            account: caller,
            amount,
            state: ChainState::Pending,
        };
        Ok((record, action))
    }

    /// Continues a staking chain once the pool transfer's outcome is
    /// known: on success the stake is recorded with the reward ledger; on
    /// failure the chain halts with `RemoteStepFailed` and the reward
    /// ledger is never touched.
    pub fn staking_callback(&self, record: &mut ChainRecord, ok: bool) -> (r: Result<
        RemoteCall,
        OpError,
    >)
        requires
            old(record)@.kind == ChainKind::Stake,
            old(record)@.state == ChainState::Pending,
        ensures
            final(record)@ == (ChainRecordView { state: step_one_transition(ok), ..old(record)@ }),
            match r {
                Ok(a) => ok && a@ == (RemoteCallView::RewarderAddStaker {
                    rewarder: self.rewarder_account@,
                    account: old(record)@.account,
                    amount: old(record)@.amount,
                }),
                Err(e) => !ok && e == OpError::RemoteStepFailed,
            },
    {
        if !ok {
            record.state = ChainState::FailedAtOne;
            return Err(OpError::RemoteStepFailed);
        }
        record.state = ChainState::StepOneDone;
        Ok(RemoteCall::RewarderAddStaker {
            rewarder: self.rewarder_account.clone(),
            account: record.account.clone(),
            amount: record.amount,
        })
    }

    /// Opens an unstaking chain: ask the pool to release the tokens first;
    /// the reward-ledger unstake follows only on reported success.
    pub fn unstake(&self, caller: String, amount: u128) -> (r: (ChainRecord, RemoteCall))
        ensures
            r.0@ == (ChainRecordView {
                kind: ChainKind::Unstake,
                account: caller@,
                amount: amount,
                state: ChainState::Pending,
            }),
            r.1@ == (RemoteCallView::PoolTransferLts {
                pool: self.pool_account@,
                amount: amount,
            }),
    {
        let action = RemoteCall::PoolTransferLts { pool: self.pool_account.clone(), amount };
        let record = ChainRecord {
            kind: ChainKind::Unstake,
            account: caller,
            amount,
            state: ChainState::Pending,
        };
        (record, action)
    }

    /// Continues an unstaking chain once the pool release's outcome is
    /// known: on success the unstake is recorded with the reward ledger;
    /// on failure the chain halts with `RemoteStepFailed`.
    pub fn unstaking_callback(&self, record: &mut ChainRecord, ok: bool) -> (r: Result<
        RemoteCall,
        OpError,
    >)
        requires
            old(record)@.kind == ChainKind::Unstake,
            old(record)@.state == ChainState::Pending,
        ensures
            final(record)@ == (ChainRecordView { state: step_one_transition(ok), ..old(record)@ }),
            match r {
                Ok(a) => ok && a@ == (RemoteCallView::RewarderUnstake {
                    rewarder: self.rewarder_account@,
                    account: old(record)@.account,
                    amount: old(record)@.amount,
                }),
                Err(e) => !ok && e == OpError::RemoteStepFailed,
            },
    {
        if !ok {
            record.state = ChainState::FailedAtOne;
            return Err(OpError::RemoteStepFailed);
        }
        record.state = ChainState::StepOneDone;
        Ok(RemoteCall::RewarderUnstake {
            rewarder: self.rewarder_account.clone(),
            account: record.account.clone(),
            amount: record.amount,
        })
    }

    /// Opens a withdrawal chain: pay the caller's tokens out first; the
    /// reward-ledger withdrawal follows only on reported success.
    pub fn withdraw(&self, caller: String, amount: u128) -> (r: Result<
        (ChainRecord, RemoteCall),
        OpError,
    >)
        ensures
            match r {
                Ok((record, action)) => {
                    &&& amount * LTS_SCALE <= u128::MAX
                    &&& record@ == (ChainRecordView {
                        kind: ChainKind::Withdraw,
                        account: caller@,
                        amount: amount,
                        state: ChainState::Pending,
                    })
                    &&& action@ == (RemoteCallView::FtTransfer {
                        token: self.lts_account@,
                        receiver: caller@,
                        amount: (amount * LTS_SCALE) as u128,
                        memo: Seq::empty(),
                    })
                },
                Err(e) => e == OpError::Overflow && amount * LTS_SCALE > u128::MAX,
            },
    {
        let scaled = match amount.checked_mul(LTS_SCALE) {
            None => {
                return Err(OpError::Overflow);
            },
            Some(a) => a,
        };
        let action = RemoteCall::FtTransfer {
            token: self.lts_account.clone(),
            receiver: caller.clone(),
            amount: scaled,
            memo: String::new(),
        };
        let record = ChainRecord {
            kind: ChainKind::Withdraw,
            account: caller,
            amount,
            state: ChainState::Pending,
        };
        Ok((record, action))
    }

    /// Continues a withdrawal chain once the payout's outcome is known:
    /// on success the withdrawal is recorded with the reward ledger; on
    /// failure the chain halts with `RemoteStepFailed`.
    pub fn withdraw_callback(&self, record: &mut ChainRecord, ok: bool) -> (r: Result<
        RemoteCall,
        OpError,
    >)
        requires
            old(record)@.kind == ChainKind::Withdraw,
            old(record)@.state == ChainState::Pending,
        ensures
            final(record)@ == (ChainRecordView { state: step_one_transition(ok), ..old(record)@ }),
            match r {
                Ok(a) => ok && a@ == (RemoteCallView::RewarderWithdraw {
                    rewarder: self.rewarder_account@,
                    account: old(record)@.account,
                    amount: old(record)@.amount,
                }),
                Err(e) => !ok && e == OpError::RemoteStepFailed,
            },
    {
        if !ok {
            record.state = ChainState::FailedAtOne;
            return Err(OpError::RemoteStepFailed);
        }
        record.state = ChainState::StepOneDone;
        Ok(RemoteCall::RewarderWithdraw {
            rewarder: self.rewarder_account.clone(),
            account: record.account.clone(),
            amount: record.amount,
        })
    }

    /// Closes a chain once the second step's outcome is known: complete on
    /// success, failed at step two otherwise, reported as
    /// `RemoteStepFailed`.
    pub fn chain_step_two_result(&self, record: &mut ChainRecord, ok: bool) -> (r: Result<
        (),
        OpError,
    >)
        requires
            old(record)@.state == ChainState::StepOneDone,
        ensures
            final(record)@ == (ChainRecordView { state: step_two_transition(ok), ..old(record)@ }),
            match r {
                Ok(()) => ok,
                Err(e) => !ok && e == OpError::RemoteStepFailed,
            },
    {
        if !ok {
            record.state = ChainState::FailedAtTwo;
            return Err(OpError::RemoteStepFailed);
        }
        record.state = ChainState::Complete;
        Ok(())
    }
}

/// The pool side of the unstaking chain: it releases tokens back to the
/// staking ledger on request.
pub struct StakingPoolContract {
    pub lts_account: String,
    pub staking_account: String,
}

impl StakingPoolContract {
    /// A fresh pool front wired to the token ledger and the staking
    /// ledger.
    pub fn new(lts_account: String, staking_account: String) -> (s: StakingPoolContract)
        ensures
            s.lts_account@ == lts_account@,
            s.staking_account@ == staking_account@,
    {
        StakingPoolContract { lts_account, staking_account }
    }

    /// The token transfer that releases `amount` tokens to the staking
    /// ledger, scaled to minimal units.
    pub fn transfer_lts(&self, amount: u128) -> (r: Result<RemoteCall, OpError>)
        ensures
            match r {
                Ok(a) => amount * LTS_SCALE <= u128::MAX && a@ == (RemoteCallView::FtTransfer {
                    token: self.lts_account@,
                    receiver: self.staking_account@,
                    amount: (amount * LTS_SCALE) as u128,
                    memo: Seq::empty(),
                }),
                Err(e) => e == OpError::Overflow && amount * LTS_SCALE > u128::MAX,
            },
    {
        let scaled = match amount.checked_mul(LTS_SCALE) {
            None => {
                return Err(OpError::Overflow);
            },
            Some(a) => a,
        };
        Ok(RemoteCall::FtTransfer {
            token: self.lts_account.clone(),
            receiver: self.staking_account.clone(),
            amount: scaled,
            memo: String::new(),
        })
    }
}

} // verus!
