use govledger::errors::OpError;
use govledger::remote::RemoteCall;
use govledger::rewards::{Data, Rewardercontract};
use govledger::staking::{ChainKind, ChainState, StakingContract, StakingPoolContract};
use govledger::vesting::{Vestors, VestingContract};

fn staking_front() -> StakingContract {
    StakingContract::new(
        "staking.test".to_string(),
        "lts.test".to_string(),
        "pool.test".to_string(),
        "rewarder.test".to_string(),
    )
}

#[test]
fn stake_chain_success_registers_staker() {
    let t: u64 = 4_000_000_000_000;
    let staking = staking_front();
    let (mut record, step_one) = staking.stake("x.test".to_string(), 100).unwrap();
    assert_eq!(record.kind, ChainKind::Stake);
    assert_eq!(record.state, ChainState::Pending);
    assert_eq!(
        step_one,
        RemoteCall::FtTransfer {
            token: "lts.test".to_string(),
            receiver: "pool.test".to_string(),
            amount: 10_000_000_000,
            memo: "".to_string(),
        }
    );
    // the remote transfer succeeded; the chain hands out step two
    let step_two = staking.staking_callback(&mut record, true).unwrap();
    assert_eq!(record.state, ChainState::StepOneDone);
    assert_eq!(
        step_two,
        RemoteCall::RewarderAddStaker {
            rewarder: "rewarder.test".to_string(),
            account: "x.test".to_string(),
            amount: 100,
        }
    );
    // apply step two on the reward ledger, as the runtime would
    let mut rewarder = Rewardercontract::new("rewarder.test".to_string());
    let announce = rewarder
        .add_staker(&"treasury.test".to_string(), "x.test".to_string(), 100, t)
        .unwrap();
    assert_eq!(
        announce,
        RemoteCall::TreasuryAddStaker {
            treasury: "treasury.test".to_string(),
            account: "x.test".to_string(),
        }
    );
    let data = rewarder.get_data("x.test".to_string()).unwrap();
    assert_eq!(data.amount, 100);
    assert_eq!(data.next_reward_time, t + 120_000_000);
    assert_eq!(data.reward, 0);
    staking.chain_step_two_result(&mut record, true).unwrap();
    assert_eq!(record.state, ChainState::Complete);
}

#[test]
fn stake_chain_failed_second_step_keeps_first_effect_only() {
    let staking = staking_front();
    let mut pool_balance: u128 = 0;
    let (mut record, step_one) = staking.stake("x.test".to_string(), 100).unwrap();
    // the runtime performs step one against the pool ledger
    if let RemoteCall::FtTransfer { amount, .. } = &step_one {
        pool_balance += amount;
    }
    let step_two = staking.staking_callback(&mut record, true).unwrap();
    assert!(matches!(step_two, RemoteCall::RewarderAddStaker { .. }));
    // the runtime reports that step two failed: the chain halts, the
    // reward ledger shows nothing, and the pool keeps step one's effect
    let rewarder = Rewardercontract::new("rewarder.test".to_string());
    let outcome = staking.chain_step_two_result(&mut record, false);
    assert_eq!(outcome, Err(OpError::RemoteStepFailed));
    assert_eq!(record.state, ChainState::FailedAtTwo);
    assert_eq!(pool_balance, 10_000_000_000);
    assert!(!rewarder.check_staker("x.test".to_string()));
}

#[test]
fn stake_chain_failed_first_step_dispatches_nothing_more() {
    let staking = staking_front();
    let (mut record, _step_one) = staking.stake("x.test".to_string(), 7).unwrap();
    let outcome = staking.staking_callback(&mut record, false);
    assert_eq!(outcome, Err(OpError::RemoteStepFailed));
    assert_eq!(record.state, ChainState::FailedAtOne);
}

#[test]
fn transfer_unstake_and_withdraw_chains() {
    let staking = staking_front();
    let (mut record, burn) = staking.transfer("y.test".to_string(), 3).unwrap();
    assert_eq!(
        burn,
        RemoteCall::BurnToken {
            token: "lts.test".to_string(),
            account: "y.test".to_string(),
            amount: 300_000_000,
        }
    );
    let mint = staking.transfer_callback(&mut record, true).unwrap();
    assert_eq!(
        mint,
        RemoteCall::MintToken {
            token: "lts.test".to_string(),
            account: "staking.test".to_string(),
            amount: 300_000_000,
        }
    );
    let (mut record, release) = staking.unstake("y.test".to_string(), 4);
    assert_eq!(
        release,
        RemoteCall::PoolTransferLts { pool: "pool.test".to_string(), amount: 4 }
    );
    let note = staking.unstaking_callback(&mut record, true).unwrap();
    assert_eq!(
        note,
        RemoteCall::RewarderUnstake {
            rewarder: "rewarder.test".to_string(),
            account: "y.test".to_string(),
            amount: 4,
        }
    );
    let (mut record, payout) = staking.withdraw("y.test".to_string(), 5).unwrap();
    assert_eq!(
        payout,
        RemoteCall::FtTransfer {
            token: "lts.test".to_string(),
            receiver: "y.test".to_string(),
            amount: 500_000_000,
            memo: "".to_string(),
        }
    );
    let note = staking.withdraw_callback(&mut record, true).unwrap();
    assert_eq!(
        note,
        RemoteCall::RewarderWithdraw {
            rewarder: "rewarder.test".to_string(),
            account: "y.test".to_string(),
            amount: 5,
        }
    );
    assert!(matches!(
        staking.transfer("z.test".to_string(), u128::MAX),
        Err(OpError::Overflow)
    ));
    let pool = StakingPoolContract::new("lts.test".to_string(), "staking.test".to_string());
    let released = pool.transfer_lts(4).unwrap();
    assert_eq!(
        released,
        RemoteCall::FtTransfer {
            token: "lts.test".to_string(),
            receiver: "staking.test".to_string(),
            amount: 400_000_000,
            memo: "".to_string(),
        }
    );
}

#[test]
fn reward_accrual_formula_and_gating() {
    let t: u64 = 4_000_000_000_000;
    let mut rewarder = Rewardercontract::new("rewarder.test".to_string());
    rewarder
        .add_staker(&"treasury.test".to_string(), "x.test".to_string(), 100, t)
        .unwrap();
    // the whole pool is this one staker: one period's emission pro rata is
    // 100 tokens over 1095 periods, in minimal units
    assert_eq!(rewarder.get_totalstaked(), Ok(10_000_000_000));
    assert_eq!(rewarder.calculaterewards("x.test".to_string()), Ok(9_132_420));
    assert_eq!(
        rewarder.update_reward("x.test".to_string(), t + 120_000_000),
        Err(OpError::TooEarly)
    );
    rewarder.update_reward("x.test".to_string(), t + 120_000_001).unwrap();
    let data = rewarder.get_data("x.test".to_string()).unwrap();
    assert_eq!(data.reward, 9_132_420);
    assert_eq!(data.next_reward_time, t + 240_000_000);
    let payout = rewarder
        .withdraw_reward(&"lts.test".to_string(), "x.test".to_string())
        .unwrap();
    assert_eq!(
        payout,
        RemoteCall::FtTransfer {
            token: "lts.test".to_string(),
            receiver: "x.test".to_string(),
            amount: 9_132_420,
            memo: "".to_string(),
        }
    );
    // the accrued reward is untouched until the transfer's outcome is known
    assert_eq!(rewarder.get_data("x.test".to_string()).unwrap().reward, 9_132_420);
    // a failed transfer loses nothing
    assert_eq!(
        rewarder.withdraw_reward_callback("x.test".to_string(), 9_132_420, false),
        Err(OpError::RemoteStepFailed)
    );
    assert_eq!(rewarder.get_data("x.test".to_string()).unwrap().reward, 9_132_420);
    // on reported success the paid amount leaves the ledger
    rewarder.withdraw_reward_callback("x.test".to_string(), 9_132_420, true).unwrap();
    assert_eq!(rewarder.get_data("x.test".to_string()).unwrap().reward, 0);
}

#[test]
fn reward_ledger_refuses_what_it_cannot_pay() {
    let t: u64 = 4_000_000_000_000;
    let mut rewarder = Rewardercontract::new("rewarder.test".to_string());
    assert_eq!(
        rewarder.unstake("ghost.test".to_string(), 1, t),
        Err(OpError::NotFound)
    );
    rewarder
        .add_staker(&"treasury.test".to_string(), "x.test".to_string(), 50, t)
        .unwrap();
    // an over-large unstake fails and leaves the record exactly as it was
    let before = rewarder.get_data("x.test".to_string()).unwrap();
    assert_eq!(
        rewarder.unstake("x.test".to_string(), 51, t + 1),
        Err(OpError::InsufficientBalance)
    );
    let after = rewarder.get_data("x.test".to_string()).unwrap();
    assert_eq!(before, after);
    rewarder.unstake("x.test".to_string(), 20, t + 2).unwrap();
    let data = rewarder.get_data("x.test".to_string()).unwrap();
    assert_eq!(data.amount, 30);
    assert_eq!(data.unstaked_amount, 20);
    assert_eq!(data.unstake_timestamp, t + 2);
    // the cooldown gates withdrawal, and a refused withdrawal changes nothing
    assert_eq!(
        rewarder.withdraw("x.test".to_string(), 10, t + 2 + 180_000_000),
        Err(OpError::CooldownActive)
    );
    assert_eq!(rewarder.get_data("x.test".to_string()).unwrap(), data);
    assert_eq!(
        rewarder.withdraw("x.test".to_string(), 21, t + 3 + 180_000_000),
        Err(OpError::InsufficientBalance)
    );
    rewarder.withdraw("x.test".to_string(), 10, t + 3 + 180_000_000).unwrap();
    assert_eq!(rewarder.get_data("x.test".to_string()).unwrap().unstaked_amount, 10);
    // a second stake grows the existing record
    rewarder
        .add_staker(&"treasury.test".to_string(), "x.test".to_string(), 5, t + 9)
        .unwrap();
    let data = rewarder.get_data("x.test".to_string()).unwrap();
    assert_eq!(data.amount, 35);
    assert_eq!(data.time, t + 9);
    assert_eq!(
        rewarder.delete_all_stakers(&"stranger.test".to_string()),
        Err(OpError::Unauthorized)
    );
    rewarder.delete_all_stakers(&"rewarder.test".to_string()).unwrap();
    assert!(!rewarder.check_staker("x.test".to_string()));
}

#[test]
fn reward_undefined_while_nothing_staked() {
    let t: u64 = 4_000_000_000_000;
    let mut rewarder = Rewardercontract::new("rewarder.test".to_string());
    rewarder
        .add_staker(&"treasury.test".to_string(), "x.test".to_string(), 0, t)
        .unwrap();
    assert_eq!(
        rewarder.calculaterewards("x.test".to_string()),
        Err(OpError::ZeroTotalStaked)
    );
    rewarder.redeem("x.test".to_string());
    let total = rewarder.get_total_amount_per_wallet("x.test".to_string());
    assert_eq!(total, Ok(0));
}

#[test]
fn vesting_unlocks_one_quarter_per_elapsed_offset() {
    let t: u64 = 1_000_000;
    let mut vesting = VestingContract::new("vesting.test".to_string(), "lts.test".to_string());
    let actions = vesting
        .add_lockup("alice.test".to_string(), t, "id1".to_string(), 1000)
        .unwrap();
    assert_eq!(actions.len(), 2);
    assert_eq!(
        actions[0],
        RemoteCall::StorageDeposit {
            token: "lts.test".to_string(),
            account: "alice.test".to_string(),
            deposit: 1_000_000_000_000_000_000_000_000,
        }
    );
    assert_eq!(
        actions[1],
        RemoteCall::MintToken {
            token: "lts.test".to_string(),
            account: "alice.test".to_string(),
            amount: 25_000_000_000,
        }
    );
    let v = vesting.get_vestor(&"id1".to_string()).unwrap();
    assert_eq!(v.unlocked_amount, 250);
    assert_eq!(v.locked_amount, 750);
    assert_eq!(v.nb_time_payment, 1);
    // before the first offset elapses the call is a no-op
    let none = vesting
        .refresh("alice.test".to_string(), t + 120_000, "id1".to_string())
        .unwrap();
    assert!(none.is_none());
    assert_eq!(vesting.get_vestor(&"id1".to_string()).unwrap().nb_time_payment, 1);
    // after it elapses one more quarter unlocks
    let minted = vesting
        .refresh("alice.test".to_string(), t + 120_001, "id1".to_string())
        .unwrap();
    assert_eq!(
        minted,
        Some(RemoteCall::MintToken {
            token: "lts.test".to_string(),
            account: "alice.test".to_string(),
            amount: 25_000_000_000,
        })
    );
    let v = vesting.get_vestor(&"id1".to_string()).unwrap();
    assert_eq!(v.unlocked_amount, 500);
    assert_eq!(v.locked_amount, 500);
    assert_eq!(v.nb_time_payment, 2);
    // each call advances at most one step, against its own offset
    assert!(vesting
        .refresh("alice.test".to_string(), t + 120_002, "id1".to_string())
        .unwrap()
        .is_none());
    // a refresh by another caller mints to that caller but never takes the record over
    let minted = vesting
        .refresh("carol.test".to_string(), t + 240_001, "id1".to_string())
        .unwrap();
    assert_eq!(
        minted,
        Some(RemoteCall::MintToken {
            token: "lts.test".to_string(),
            account: "carol.test".to_string(),
            amount: 25_000_000_000,
        })
    );
    assert_eq!(vesting.get_vestor(&"id1".to_string()).unwrap().owner_id, "alice.test");
    assert!(vesting
        .refresh("alice.test".to_string(), t + 360_001, "id1".to_string())
        .unwrap()
        .is_some());
    let v = vesting.get_vestor(&"id1".to_string()).unwrap();
    assert_eq!(v.nb_time_payment, 4);
    assert_eq!(v.unlocked_amount, 1000);
    assert_eq!(v.locked_amount, 0);
    // a fully paid schedule stays a no-op
    assert!(vesting
        .refresh("alice.test".to_string(), t + 999_999_999, "id1".to_string())
        .unwrap()
        .is_none());
    let v = vesting.get_vestor(&"id1".to_string()).unwrap();
    assert_eq!(v.nb_time_payment, 4);
    assert_eq!(
        vesting.change_data(&"id1".to_string()),
        Err(OpError::AlreadyFinalized)
    );
}

#[test]
fn vesting_bookkeeping_and_deletion() {
    let t: u64 = 2_000_000;
    let mut vesting = VestingContract::new("vesting.test".to_string(), "lts.test".to_string());
    vesting
        .add_lockup("alice.test".to_string(), t, "id1".to_string(), 1000)
        .unwrap();
    vesting
        .add_lockup("bob.test".to_string(), t, "id2".to_string(), 400)
        .unwrap();
    assert_eq!(
        vesting.add_lockup("carol.test".to_string(), t, "id1".to_string(), 8),
        Err(OpError::AlreadyExists)
    );
    assert_eq!(vesting.get_total_locked_amount(), Ok(750 + 300));
    assert_eq!(vesting.get_total_unlocked_amount(), Ok(250 + 100));
    assert_eq!(vesting.get_all_vestors().len(), 2);
    assert!(matches!(
        vesting.get_vestor(&"ghost".to_string()),
        Err(OpError::NotFound)
    ));
    let mut replacement = Vestors::new();
    replacement.id = "id2".to_string();
    replacement.owner_id = "bob.test".to_string();
    vesting.replace_vestor(replacement).unwrap();
    assert_eq!(vesting.get_vestor(&"id2".to_string()).unwrap().amount_of_token, 0);
    // an empty name deletes the caller's own records
    vesting.delete_a_vestor(&"alice.test".to_string(), "".to_string());
    assert!(matches!(
        vesting.get_vestor(&"id1".to_string()),
        Err(OpError::NotFound)
    ));
    assert_eq!(vesting.get_all_vestors().len(), 1);
    vesting.delete_a_vestor(&"anyone.test".to_string(), "bob.test".to_string());
    assert_eq!(vesting.get_all_vestors().len(), 0);
    assert_eq!(
        vesting.delete_all(&"stranger.test".to_string()),
        Err(OpError::Unauthorized)
    );
    vesting.delete_all(&"vesting.test".to_string()).unwrap();
}

#[test]
fn mint_and_storage_actions_scale() {
    let vesting = VestingContract::new("vesting.test".to_string(), "lts.test".to_string());
    let mint = vesting.mint_lts(&"alice.test".to_string(), 250).unwrap();
    assert_eq!(
        mint,
        RemoteCall::MintToken {
            token: "lts.test".to_string(),
            account: "alice.test".to_string(),
            amount: 25_000_000_000,
        }
    );
    assert_eq!(
        vesting.mint_lts(&"alice.test".to_string(), u128::MAX),
        Err(OpError::Overflow)
    );
    let deposit = vesting.add_storage_deposit(&"alice.test".to_string());
    assert_eq!(
        deposit,
        RemoteCall::StorageDeposit {
            token: "lts.test".to_string(),
            account: "alice.test".to_string(),
            deposit: 1_000_000_000_000_000_000_000_000,
        }
    );
    let d = Data {
        amount: 1,
        time: 2,
        reward: 3,
        next_reward_time: 4,
        unstaked_amount: 5,
        unstake_timestamp: 6,
    };
    assert_eq!(d, d);
}
