use vstd::prelude::*;

verus! {

/// Token-ledger scale: one token is this many minimal units on the
/// fungible-token ledger.
pub const LTS_SCALE: u128 = 100000000;

/// One remote ledger operation that the library asks the surrounding
/// runtime to dispatch. The library never performs these itself: a
/// settlement function validates and mutates local state, then hands back
/// the calls that must go out, in order. Failure of a dispatched call comes
/// back as a plain outcome value to the function that continues the chain.
#[derive(Clone, Debug, PartialEq, Eq)]
pub enum RemoteCall {
    /// Move fungible tokens on the token ledger to a receiver.
    FtTransfer { token: String, receiver: String, amount: u128, memo: String },
    /// Mint fungible tokens on the token ledger for an account.
    MintToken { token: String, account: String, amount: u128 },
    /// Burn fungible tokens on the token ledger from an account.
    BurnToken { token: String, account: String, amount: u128 },
    /// Register an account with the token ledger's storage, with a deposit.
    StorageDeposit { token: String, account: String, deposit: u128 },
    /// Announce a staker to the treasury ledger.
    TreasuryAddStaker { treasury: String, account: String },
    /// Record a stake with the reward ledger.
    RewarderAddStaker { rewarder: String, account: String, amount: u128 },
    /// Record an unstake with the reward ledger.
    RewarderUnstake { rewarder: String, account: String, amount: u128 },
    /// Record a withdrawal with the reward ledger.
    RewarderWithdraw { rewarder: String, account: String, amount: u128 },
    /// Ask the staking pool to release tokens back to the staking ledger.
    PoolTransferLts { pool: String, amount: u128 },
    /// Create a registry entry on the organisation registry.
    AddDao {
        registry: String,
        dao_name: String,
        dao_purpose: String,
        duration_days: u64,
        duration_hours: u64,
        duration_min: u64,
    },
    /// Delete a registry entry on the organisation registry.
    DeleteDao { registry: String, dao_name: String },
    /// File a platform-level registration proposal with the platform registry.
    CreateRegistrationProposal {
        platform: String,
        proposal_type: u16,
        proposal_name: String,
        description: String,
        dao_name: String,
        dao_purpose: String,
        duration_days: u64,
        duration_hours: u64,
        duration_min: u64,
    },
    /// Transfer base-currency tokens to a receiver.
    NearTransfer { receiver: String, amount: u128 },
    /// Transfer a non-fungible token to a receiver.
    NftTransfer { nft_contract: String, receiver: String, token_id: String },
    /// Create the account for a shares ledger, fund it and deploy it.
    DeployShares { account: String, deposit: u128 },
    /// Initialise a freshly deployed shares ledger.
    CreateShares {
        shares_contract: String,
        nft_contract_address: String,
        nft_token_id: String,
        owner_id: String,
        shares_count: u128,
        decimals: u8,
        share_price: u128,
        share_holders: Vec<String>,
        n_shares: Vec<u128>,
    },
    /// Delete an account, sending its remaining balance to a beneficiary.
    DeleteAccount { account: String, beneficiary: String },
}

/// Mathematical image of a [`RemoteCall`]: the same shape with every
/// string read as its character sequence.
#[verifier::ext_equal]
pub enum RemoteCallView {
    FtTransfer { token: Seq<char>, receiver: Seq<char>, amount: u128, memo: Seq<char> },
    MintToken { token: Seq<char>, account: Seq<char>, amount: u128 },
    BurnToken { token: Seq<char>, account: Seq<char>, amount: u128 },
    StorageDeposit { token: Seq<char>, account: Seq<char>, deposit: u128 },
    TreasuryAddStaker { treasury: Seq<char>, account: Seq<char> },
    RewarderAddStaker { rewarder: Seq<char>, account: Seq<char>, amount: u128 },
    RewarderUnstake { rewarder: Seq<char>, account: Seq<char>, amount: u128 },
    RewarderWithdraw { rewarder: Seq<char>, account: Seq<char>, amount: u128 },
    PoolTransferLts { pool: Seq<char>, amount: u128 },
    AddDao {
        registry: Seq<char>,
        dao_name: Seq<char>,
        dao_purpose: Seq<char>,
        duration_days: u64,
        duration_hours: u64,
        duration_min: u64,
    },
    DeleteDao { registry: Seq<char>, dao_name: Seq<char> },
    CreateRegistrationProposal {
        platform: Seq<char>,
        proposal_type: u16,
        proposal_name: Seq<char>,
        description: Seq<char>,
        dao_name: Seq<char>,
        dao_purpose: Seq<char>,
        duration_days: u64,
        duration_hours: u64,
        duration_min: u64,
    },
    NearTransfer { receiver: Seq<char>, amount: u128 },
    NftTransfer { nft_contract: Seq<char>, receiver: Seq<char>, token_id: Seq<char> },
    DeployShares { account: Seq<char>, deposit: u128 },
    CreateShares {
        shares_contract: Seq<char>,
        nft_contract_address: Seq<char>,
        nft_token_id: Seq<char>,
        owner_id: Seq<char>,
        shares_count: u128,
        decimals: u8,
        share_price: u128,
        share_holders: Seq<Seq<char>>,
        n_shares: Seq<u128>,
    },
    DeleteAccount { account: Seq<char>, beneficiary: Seq<char> },
}

impl View for RemoteCall {
    type V = RemoteCallView;

    open spec fn view(&self) -> RemoteCallView {
        match self {
            RemoteCall::FtTransfer { token, receiver, amount, memo } => RemoteCallView::FtTransfer {
                token: token@,
                receiver: receiver@,
                amount: *amount,
                memo: memo@,
            },
            RemoteCall::MintToken { token, account, amount } => RemoteCallView::MintToken {
                token: token@,
                account: account@,
                amount: *amount,
            },
            RemoteCall::BurnToken { token, account, amount } => RemoteCallView::BurnToken {
                token: token@,
                account: account@,
                amount: *amount,
            },
            RemoteCall::StorageDeposit { token, account, deposit } => RemoteCallView::StorageDeposit {
                token: token@,
                account: account@,
                deposit: *deposit,
            },
            RemoteCall::TreasuryAddStaker { treasury, account } => RemoteCallView::TreasuryAddStaker {
                treasury: treasury@,
                account: account@,
            },
            RemoteCall::RewarderAddStaker { rewarder, account, amount } => RemoteCallView::RewarderAddStaker {
                rewarder: rewarder@,
                account: account@,
                amount: *amount,
            },
            RemoteCall::RewarderUnstake { rewarder, account, amount } => RemoteCallView::RewarderUnstake {
                rewarder: rewarder@,
                account: account@,
                amount: *amount,
            },
            RemoteCall::RewarderWithdraw { rewarder, account, amount } => RemoteCallView::RewarderWithdraw {
                rewarder: rewarder@,
                account: account@,
                amount: *amount,
            },
            RemoteCall::PoolTransferLts { pool, amount } => RemoteCallView::PoolTransferLts {
                pool: pool@,
                amount: *amount,
            },
            RemoteCall::AddDao {
                registry,
                dao_name,
                dao_purpose,
                duration_days,
                duration_hours,
                duration_min,
            } => RemoteCallView::AddDao {
                registry: registry@,
                dao_name: dao_name@,
                dao_purpose: dao_purpose@,
                duration_days: *duration_days,
                duration_hours: *duration_hours,
                duration_min: *duration_min,
            },
            RemoteCall::DeleteDao { registry, dao_name } => RemoteCallView::DeleteDao {
                registry: registry@,
                dao_name: dao_name@,
            },
            RemoteCall::CreateRegistrationProposal {
                platform,
                proposal_type,
                proposal_name,
                description,
                dao_name,
                dao_purpose,
                duration_days,
                duration_hours,
                duration_min,
            } => RemoteCallView::CreateRegistrationProposal {
                platform: platform@,
                proposal_type: *proposal_type,
                proposal_name: proposal_name@,
                description: description@,
                dao_name: dao_name@,
                dao_purpose: dao_purpose@,
                duration_days: *duration_days,
                duration_hours: *duration_hours,
                duration_min: *duration_min,
            },
            RemoteCall::NearTransfer { receiver, amount } => RemoteCallView::NearTransfer {
                receiver: receiver@,
                amount: *amount,
            },
            RemoteCall::NftTransfer { nft_contract, receiver, token_id } => RemoteCallView::NftTransfer {
                nft_contract: nft_contract@,
                receiver: receiver@,
                token_id: token_id@,
            },
            RemoteCall::DeployShares { account, deposit } => RemoteCallView::DeployShares {
                account: account@,
                deposit: *deposit,
            },
            RemoteCall::CreateShares {
                shares_contract,
                nft_contract_address,
                nft_token_id,
                owner_id,
                shares_count,
                decimals,
                share_price,
                share_holders,
                n_shares,
            } => RemoteCallView::CreateShares {
                shares_contract: shares_contract@,
                nft_contract_address: nft_contract_address@,
                nft_token_id: nft_token_id@,
                owner_id: owner_id@,
                shares_count: *shares_count,
                decimals: *decimals,
                share_price: *share_price,
                share_holders: share_holders.deep_view(),
                n_shares: n_shares.deep_view(),
            },
            RemoteCall::DeleteAccount { account, beneficiary } => RemoteCallView::DeleteAccount {
                account: account@,
                beneficiary: beneficiary@,
            },
        }
    }
}

impl DeepView for RemoteCall {
    type V = RemoteCallView;

    open spec fn deep_view(&self) -> RemoteCallView {
        self.view()
    }
}

} // verus!
