use vstd::prelude::*;

use crate::errors::OpError;
use crate::fractose::{
    assoc_has, assoc_at, assoc_unique, assoc_upsert, lemma_assoc_at_pins,
    lemma_assoc_upsert_unique,
};
use crate::remote::{RemoteCall, RemoteCallView};

verus! {

/// The descriptive and pricing metadata of one shares ledger. `released`
/// flips once the underlying token has been redeemed; the share price is
/// fixed at creation.
pub struct SharesMetadata {
    pub spec_version: String,
    pub name: String,
    pub symbol: String,
    pub icon: Option<String>,
    pub decimals: u8,
    pub nft_contract_address: String,
    pub nft_token_id: String,
    pub share_price: u128,
    pub released: bool,
}

/// Mathematical image of a [`SharesMetadata`].
#[verifier::ext_equal]
pub struct SharesMetadataView {
    pub spec_version: Seq<char>,
    pub name: Seq<char>,
    pub symbol: Seq<char>,
    pub icon: Option<Seq<char>>,
    pub decimals: u8,
    pub nft_contract_address: Seq<char>,
    pub nft_token_id: Seq<char>,
    pub share_price: u128,
    pub released: bool,
}

impl View for SharesMetadata {
    type V = SharesMetadataView;

    open spec fn view(&self) -> SharesMetadataView {
        SharesMetadataView {
            spec_version: self.spec_version@,
            name: self.name@,
            symbol: self.symbol@,
            icon: self.icon.deep_view(),
            decimals: self.decimals,
            nft_contract_address: self.nft_contract_address@,
            nft_token_id: self.nft_token_id@,
            share_price: self.share_price,
            released: self.released,
        }
    }
}

impl Clone for SharesMetadata {
    fn clone(&self) -> (r: Self)
        ensures
            r@ == self@,
    {
        let r = SharesMetadata {
            spec_version: self.spec_version.clone(),
            name: self.name.clone(),
            symbol: self.symbol.clone(),
            icon: match &self.icon {
                Some(s) => Some(s.clone()),
                None => None,
            },
            decimals: self.decimals,
            nft_contract_address: self.nft_contract_address.clone(),
            nft_token_id: self.nft_token_id.clone(),
            share_price: self.share_price,
            released: self.released,
        };
        proof {
            assert(r@ =~= self@);
        }
        r
    }
}

/// The sum of all recorded balances.
pub open spec fn sum_balances(s: Seq<(Seq<char>, u128)>) -> int
    decreases s.len(),
{
    if s.len() == 0 {
        0
    } else {
        sum_balances(s.drop_last()) + s.last().1
    }
}

/// The sum of a list of amounts.
pub open spec fn sum_amounts(a: Seq<u128>) -> int
    decreases a.len(),
{
    if a.len() == 0 {
        0
    } else {
        sum_amounts(a.drop_last()) + a.last()
    }
}

/// The balance recorded for `k`, zero when unregistered.
pub open spec fn balance_of(s: Seq<(Seq<char>, u128)>, k: Seq<char>) -> int {
    if assoc_has(s, k) {
        s[assoc_at(s, k)].1 as int
    } else {
        0
    }
}

/// The account rows a fresh ledger gives its initial holders.
pub open spec fn holders_accounts(h: Seq<Seq<char>>, a: Seq<u128>) -> Seq<(Seq<char>, u128)> {
    Seq::new(h.len(), |i: int| (h[i], a[i]))
}

pub proof fn lemma_sum_nonneg(s: Seq<(Seq<char>, u128)>)
    ensures
        sum_balances(s) >= 0,
    decreases s.len(),
{
    if s.len() > 0 {
        lemma_sum_nonneg(s.drop_last());
    }
}

/// Each recorded balance is at most the sum of all of them.
pub proof fn lemma_entry_le_sum(s: Seq<(Seq<char>, u128)>, i: int)
    requires
        0 <= i < s.len(),
    ensures
        s[i].1 <= sum_balances(s),
    decreases s.len(),
{
    if i == s.len() - 1 {
        lemma_sum_nonneg(s.drop_last());
    } else {
        lemma_entry_le_sum(s.drop_last(), i);
        assert(s.drop_last()[i] == s[i]);
    }
}

/// Updating one row changes the sum by the difference of that row's
/// balance.
pub proof fn lemma_sum_update(s: Seq<(Seq<char>, u128)>, i: int, p: (Seq<char>, u128))
    requires
        0 <= i < s.len(),
    ensures
        sum_balances(s.update(i, p)) == sum_balances(s) - s[i].1 + p.1,
    decreases s.len(),
{
    if i == s.len() - 1 {
        assert(s.update(i, p).drop_last() =~= s.drop_last());
    } else {
        assert(s.update(i, p).drop_last() =~= s.drop_last().update(i, p));
        lemma_sum_update(s.drop_last(), i, p);
        assert(s.drop_last()[i] == s[i]);
    }
}

/// Prepending a row adds its balance to the sum.
pub proof fn lemma_sum_prepend(p: (Seq<char>, u128), rest: Seq<(Seq<char>, u128)>)
    ensures
        sum_balances(seq![p] + rest) == p.1 + sum_balances(rest),
    decreases rest.len(),
{
    if rest.len() == 0 {
        assert(seq![p] + rest =~= seq![p]);
        assert(seq![p].drop_last() =~= Seq::<(Seq<char>, u128)>::empty());
        assert(seq![p].last() == p);
        assert(sum_balances(Seq::<(Seq<char>, u128)>::empty()) == 0);
        assert(sum_balances(seq![p]) == p.1);
    } else {
        assert((seq![p] + rest).drop_last() =~= seq![p] + rest.drop_last());
        assert((seq![p] + rest).last() == rest.last());
        lemma_sum_prepend(p, rest.drop_last());
    }
}

/// The rows handed to the initial holders sum to their amounts.
pub proof fn lemma_sum_holders(h: Seq<Seq<char>>, a: Seq<u128>)
    requires
        h.len() == a.len(),
    ensures
        sum_balances(holders_accounts(h, a)) == sum_amounts(a),
    decreases a.len(),
{
    if a.len() > 0 {
        assert(holders_accounts(h, a).drop_last() =~= holders_accounts(
            h.drop_last(),
            a.drop_last(),
        ));
        lemma_sum_holders(h.drop_last(), a.drop_last());
    }
}

/// Prefix sums of the amounts never exceed the whole sum.
proof fn lemma_sum_amounts_monotonic(a: Seq<u128>, k: int)
    requires
        0 <= k <= a.len(),
    ensures
        sum_amounts(a.take(k)) <= sum_amounts(a),
    decreases a.len() - k,
{
    if k < a.len() {
        lemma_sum_amounts_monotonic(a, k + 1);
        assert(a.take(k + 1).drop_last() =~= a.take(k));
        assert(a.take(k + 1).last() == a[k]);
    } else {
        assert(a.take(k) =~= a);
    }
}

/// One fractionalized token's shares ledger: the per-holder balances, the
/// total supply, and the pricing metadata.
pub struct Shares {
    pub accounts: Vec<(String, u128)>,
    pub total_supply: u128,
    pub metadata: SharesMetadata,
}

/// Mathematical image of the [`Shares`] state.
#[verifier::ext_equal]
pub struct SharesView {
    pub accounts: Seq<(Seq<char>, u128)>,
    pub total_supply: u128,
    pub metadata: SharesMetadataView,
}

impl View for Shares {
    type V = SharesView;

    open spec fn view(&self) -> SharesView {
        SharesView {
            accounts: self.accounts.deep_view(),
            total_supply: self.total_supply,
            metadata: self.metadata@,
        }
    }
}

impl SharesView {
    /// Account keys are unique and the total supply is exactly the sum of
    /// the recorded balances.
    pub open spec fn wf(self) -> bool {
        &&& assoc_unique(self.accounts)
        &&& self.total_supply as int == sum_balances(self.accounts)
    }
}

impl Shares {
    /// Initialises a fresh shares ledger: the owner receives the whole
    /// share count, then each initial holder is registered and receives
    /// its listed amount from the owner. Holders must be distinct and
    /// different from the owner, each listed amount positive, and their
    /// sum within the share count.
    pub fn create(
        nft_contract_address: String,
        nft_token_id: String,
        owner_id: String,
        shares_count: u128,
        decimals: u8,
        share_price: u128,
        share_holders: Vec<String>,
        n_shares: Vec<u128>,
    ) -> (r: Result<Shares, OpError>)
        requires
            share_holders@.len() == n_shares@.len(),
        ensures
            match r {
                Ok(s) => {
                    &&& (forall|i: int| 0 <= i < n_shares@.len() ==> n_shares@[i] > 0)
                    &&& (forall|i: int|
                        0 <= i < share_holders@.len() ==> share_holders.deep_view()[i]
                            != owner_id@)
                    &&& (forall|i: int, j: int|
                        0 <= i < j < share_holders@.len() ==> share_holders.deep_view()[i]
                            != share_holders.deep_view()[j])
                    &&& sum_amounts(n_shares@) <= shares_count
                    &&& s@.wf()
                    &&& s@.accounts == seq![
                        (owner_id@, (shares_count - sum_amounts(n_shares@)) as u128),
                    ] + holders_accounts(share_holders.deep_view(), n_shares@)
                    &&& s@.total_supply == shares_count
                    &&& s@.metadata.decimals == decimals
                    &&& s@.metadata.share_price == share_price
                    &&& s@.metadata.nft_contract_address == nft_contract_address@
                    &&& s@.metadata.nft_token_id == nft_token_id@
                    &&& s@.metadata.released == false
                },
                Err(e) => if exists|i: int| 0 <= i < n_shares@.len() && n_shares@[i] == 0 {
                    e == OpError::InvalidAmount
                } else if (exists|i: int|
                    0 <= i < share_holders@.len() && share_holders.deep_view()[i] == owner_id@)
                    || (exists|i: int, j: int|
                    0 <= i < j < share_holders@.len() && share_holders.deep_view()[i]
                        == share_holders.deep_view()[j]) {
                    e == OpError::AlreadyExists
                } else {
                    e == OpError::InsufficientBalance && sum_amounts(n_shares@) > shares_count
                },
            },
    {
        let ghost hs = share_holders.deep_view();
        let ghost amounts = n_shares@;
        let mut k: usize = 0;
        while k < n_shares.len()
            invariant
                k <= amounts.len(),
                amounts == n_shares@,
                forall|i: int| 0 <= i < k ==> amounts[i] > 0,
            decreases amounts.len() - k,
        {
            if n_shares[k] == 0 {
                return Err(OpError::InvalidAmount);
            }
            k = k + 1;
        }
        let mut j: usize = 0;
        while j < share_holders.len()
            invariant
                j <= hs.len(),
                hs == share_holders.deep_view(),
                amounts == n_shares@,
                forall|i: int| 0 <= i < amounts.len() ==> amounts[i] > 0,
                forall|i: int| 0 <= i < j ==> hs[i] != owner_id@,
                forall|a: int, b: int| 0 <= a < b < j ==> hs[a] != hs[b],
            decreases hs.len() - j,
        {
            if share_holders[j] == owner_id {
                proof {
                    assert(hs[j as int] == owner_id@);
                }
                return Err(OpError::AlreadyExists);
            }
            let mut i: usize = 0;
            while i < j
                invariant
                    i <= j < hs.len(),
                    hs == share_holders.deep_view(),
                    amounts == n_shares@,
                    forall|a: int| 0 <= a < amounts.len() ==> amounts[a] > 0,
                    forall|a: int| 0 <= a < i ==> hs[a] != hs[j as int],
                decreases j - i,
            {
                if share_holders[i] == share_holders[j] {
                    proof {
                        assert(hs[i as int] == hs[j as int]);
                    }
                    return Err(OpError::AlreadyExists);
                }
                i = i + 1;
            }
            j = j + 1;
        }
        let mut sum: u128 = 0;
        let mut k2: usize = 0;
        while k2 < n_shares.len()
            invariant
                k2 <= amounts.len(),
                amounts == n_shares@,
                hs == share_holders.deep_view(),
                forall|i: int| 0 <= i < amounts.len() ==> amounts[i] > 0,
                forall|i: int| 0 <= i < hs.len() ==> hs[i] != owner_id@,
                forall|a: int, b: int| 0 <= a < b < hs.len() ==> hs[a] != hs[b],
                sum == sum_amounts(amounts.take(k2 as int)),
                sum <= shares_count,
            decreases amounts.len() - k2,
        {
            proof {
                assert(amounts.take(k2 as int + 1).drop_last() =~= amounts.take(k2 as int));
                assert(amounts.take(k2 as int + 1).last() == amounts[k2 as int]);
            }
            let grown = match sum.checked_add(n_shares[k2]) {
                None => {
                    proof {
                        lemma_sum_amounts_monotonic(amounts, k2 as int + 1);
                    }
                    return Err(OpError::InsufficientBalance);
                },
                Some(g) => g,
            };
            if grown > shares_count {
                proof {
                    lemma_sum_amounts_monotonic(amounts, k2 as int + 1);
                }
                return Err(OpError::InsufficientBalance);
            }
            sum = grown;
            k2 = k2 + 1;
        }
        proof {
            assert(amounts.take(amounts.len() as int) =~= amounts);
        }
        let mut accounts: Vec<(String, u128)> = Vec::new();
        accounts.push((owner_id, shares_count - sum));
        let ghost owner_row = accounts.deep_view()[0];
        let mut m: usize = 0;
        while m < share_holders.len()
            invariant
                m <= hs.len(),
                hs == share_holders.deep_view(),
                amounts == n_shares@,
                hs.len() == amounts.len(),
                accounts.deep_view() =~= seq![owner_row] + holders_accounts(
                    hs.take(m as int),
                    amounts.take(m as int),
                ),
            decreases hs.len() - m,
        {
            let ghost prev = accounts.deep_view();
            let holder = share_holders[m].clone();
            let amount = n_shares[m];
            accounts.push((holder, amount));
            proof {
                assert(accounts.deep_view() =~= prev.push((hs[m as int], amounts[m as int])));
                assert(accounts.deep_view() =~= seq![owner_row] + holders_accounts(
                    hs.take(m as int + 1),
                    amounts.take(m as int + 1),
                ));
            }
            m = m + 1;
        }
        proof {
            assert(hs.take(hs.len() as int) =~= hs);
            assert(amounts.take(amounts.len() as int) =~= amounts);
        }
        let metadata = SharesMetadata {
            spec_version: String::from_str("ft-1.0.0"),
            name: String::from_str("Example NEAR fungible token"),
            symbol: String::from_str("EXAMPLE"),
            icon: None,
            decimals: decimals,
            nft_contract_address: nft_contract_address,
            nft_token_id: nft_token_id,
            share_price: share_price,
            released: false,
        };
        let s = Shares { accounts, total_supply: shares_count, metadata };
        proof {
            let rows = s@.accounts;
            assert(rows == seq![owner_row] + holders_accounts(hs, amounts));
            lemma_sum_prepend(owner_row, holders_accounts(hs, amounts));
            lemma_sum_holders(hs, amounts);
            assert(assoc_unique(rows)) by {
                assert forall|a: int, b: int| 0 <= a < b < rows.len() implies rows[a].0
                    != rows[b].0 by {
                    if a == 0 {
                        assert(rows[b].0 == hs[b - 1]);
                    } else {
                        assert(rows[a].0 == hs[a - 1] && rows[b].0 == hs[b - 1]);
                    }
                }
            }
        }
        Ok(s)
    }

    /// The total share supply.
    pub fn ft_total_supply(&self) -> (r: u128)
        ensures
            r == self@.total_supply,
    {
        self.total_supply
    }

    /// The balance recorded for `account`; an unregistered account reads
    /// as zero.
    pub fn ft_balance_of(&self, account: &String) -> (r: u128)
        requires
            self@.wf(),
        ensures
            r == balance_of(self@.accounts, account@),
    {
        let mut k: usize = 0;
        while k < self.accounts.len()
            invariant
                k <= self@.accounts.len(),
                assoc_unique(self@.accounts),
                forall|i: int| 0 <= i < k ==> self@.accounts[i].0 != account@,
            decreases self@.accounts.len() - k,
        {
            if self.accounts[k].0 == *account {
                proof {
                    lemma_assoc_at_pins(self@.accounts, account@, k as int);
                }
                return self.accounts[k].1;
            }
            k = k + 1;
        }
        0
    }

    /// A copy of the ledger's metadata.
    pub fn ft_metadata(&self) -> (r: SharesMetadata)
        ensures
            r@ == self@.metadata,
    {
        self.metadata.clone()
    }

    /// The price of redeeming the underlying token: the whole supply at
    /// the fixed share price.
    pub fn exit_price(&self) -> (r: Result<u128, OpError>)
        ensures
            match r {
                Ok(t) => self@.total_supply * self@.metadata.share_price <= u128::MAX && t
                    == self@.total_supply * self@.metadata.share_price,
                Err(e) => e == OpError::Overflow && self@.total_supply
                    * self@.metadata.share_price > u128::MAX,
            },
    {
        match self.total_supply.checked_mul(self.metadata.share_price) {
            None => Err(OpError::Overflow),
            Some(t) => Ok(t),
        }
    }

    /// What `from` must still pay, beyond the shares it holds, to redeem
    /// the underlying token. Refused once the token is redeemed.
    pub fn redeem_amount_of(&self, from: &String) -> (r: Result<u128, OpError>)
        requires
            self@.wf(),
        ensures
            match r {
                Ok(t) => !self@.metadata.released && self@.total_supply
                    * self@.metadata.share_price <= u128::MAX && t == self@.total_supply
                    * self@.metadata.share_price - balance_of(self@.accounts, from@)
                    * self@.metadata.share_price,
                Err(e) => if self@.metadata.released {
                    e == OpError::AlreadyFinalized
                } else {
                    e == OpError::Overflow && self@.total_supply * self@.metadata.share_price
                        > u128::MAX
                },
            },
    {
        if self.metadata.released {
            return Err(OpError::AlreadyFinalized);
        }
        let exit = self.exit_price()?;
        let user_shares = self.ft_balance_of(from);
        proof {
            lemma_user_value_within_exit(self@, from@);
        }
        let user_value = user_shares * self.metadata.share_price;
        Ok(exit - user_value)
    }

    /// The base-currency tokens backing the shares: zero before the
    /// redemption, the whole supply at the share price after it.
    pub fn vault_balance(&self) -> (r: Result<u128, OpError>)
        ensures
            match r {
                Ok(t) => if !self@.metadata.released {
                    t == 0
                } else {
                    t == self@.total_supply * self@.metadata.share_price
                },
                Err(e) => e == OpError::Overflow && self@.metadata.released && self@.total_supply
                    * self@.metadata.share_price > u128::MAX,
            },
    {
        if !self.metadata.released {
            return Ok(0);
        }
        match self.total_supply.checked_mul(self.metadata.share_price) {
            None => Err(OpError::Overflow),
            Some(t) => Ok(t),
        }
    }

    /// The share of the vault a holder can claim after the redemption:
    /// zero before it, the held shares at the share price after it.
    pub fn vault_balance_of(&self, from: &String) -> (r: Result<u128, OpError>)
        requires
            self@.wf(),
        ensures
            match r {
                Ok(t) => if !self@.metadata.released {
                    t == 0
                } else {
                    t == balance_of(self@.accounts, from@) * self@.metadata.share_price
                },
                Err(e) => e == OpError::Overflow && self@.metadata.released && balance_of(
                    self@.accounts,
                    from@,
                ) * self@.metadata.share_price > u128::MAX,
            },
    {
        if !self.metadata.released {
            return Ok(0);
        }
        let user_shares = self.ft_balance_of(from);
        match user_shares.checked_mul(self.metadata.share_price) {
            None => Err(OpError::Overflow),
            Some(t) => Ok(t),
        }
    }

    /// Redeems the underlying token: the caller pays at least the exit
    /// price less the value of its own shares, its shares are burnt, the
    /// ledger is marked released, and the change transfer, the token
    /// transfer and — once the supply is empty — the account deletion are
    /// handed back, in order. A second redemption is refused.
    pub fn redeem(&mut self, self_account: &String, caller: String, payment: u128) -> (r: Result<
        Vec<RemoteCall>,
        OpError,
    >)
        requires
            old(self)@.wf(),
        ensures
            final(self)@.wf(),
            match r {
                Ok(actions) => {
                    &&& !old(self)@.metadata.released
                    &&& old(self)@.total_supply * old(self)@.metadata.share_price <= u128::MAX
                    &&& {
                        let user = balance_of(old(self)@.accounts, caller@);
                        let owed = old(self)@.total_supply * old(self)@.metadata.share_price
                            - user * old(self)@.metadata.share_price;
                        &&& payment >= owed
                        &&& final(self)@ == (SharesView {
                            accounts: assoc_upsert(old(self)@.accounts, caller@, 0),
                            total_supply: (old(self)@.total_supply - user) as u128,
                            metadata: (SharesMetadataView {
                                released: true,
                                ..old(self)@.metadata
                            }),
                        })
                        &&& if old(self)@.total_supply == user {
                            actions.deep_view() =~= seq![
                                (RemoteCallView::NearTransfer {
                                    receiver: caller@,
                                    amount: (payment - owed) as u128,
                                }),
                                (RemoteCallView::NftTransfer {
                                    nft_contract: old(self)@.metadata.nft_contract_address,
                                    receiver: caller@,
                                    token_id: old(self)@.metadata.nft_token_id,
                                }),
                                (RemoteCallView::DeleteAccount {
                                    account: self_account@,
                                    beneficiary: caller@,
                                }),
                            ]
                        } else {
                            actions.deep_view() =~= seq![
                                (RemoteCallView::NearTransfer {
                                    receiver: caller@,
                                    amount: (payment - owed) as u128,
                                }),
                                (RemoteCallView::NftTransfer {
                                    nft_contract: old(self)@.metadata.nft_contract_address,
                                    receiver: caller@,
                                    token_id: old(self)@.metadata.nft_token_id,
                                }),
                            ]
                        }
                    }
                },
                Err(e) => *final(self) == *old(self) && if old(self)@.metadata.released {
                    e == OpError::AlreadyFinalized
                } else if old(self)@.total_supply * old(self)@.metadata.share_price
                    > u128::MAX {
                    e == OpError::Overflow
                } else {
                    e == OpError::InsufficientBalance && payment < old(self)@.total_supply * old(
                        self,
                    )@.metadata.share_price - balance_of(old(self)@.accounts, caller@) * old(
                        self,
                    )@.metadata.share_price
                },
            },
    {
        let owed = match self.redeem_amount_of(&caller) {
            Err(e) => {
                return Err(e);
            },
            Ok(a) => a,
        };
        if payment < owed {
            return Err(OpError::InsufficientBalance);
        }
        let change = payment - owed;
        let ghost pre = self@;
        self.metadata.released = true;
        let caller_key = caller.clone();
        self.burn_all_of(caller_key);
        proof {
            assert(self@ =~= (SharesView {
                accounts: assoc_upsert(pre.accounts, caller@, 0),
                total_supply: (pre.total_supply - balance_of(pre.accounts, caller@)) as u128,
                metadata: (SharesMetadataView { released: true, ..pre.metadata }),
            }));
        }
        let mut actions: Vec<RemoteCall> = Vec::new();
        actions.push(RemoteCall::NearTransfer { receiver: caller.clone(), amount: change });
        actions.push(
            RemoteCall::NftTransfer {
                nft_contract: self.metadata.nft_contract_address.clone(),
                receiver: caller.clone(),
                token_id: self.metadata.nft_token_id.clone(),
            },
        );
        if self.total_supply == 0 {
            actions.push(
                RemoteCall::DeleteAccount { account: self_account.clone(), beneficiary: caller },
            );
        }
        Ok(actions)
    }

    /// Claims the caller's share of the vault after the redemption: the
    /// caller's shares are burnt and the payout — and, once the supply is
    /// empty, the account deletion — are handed back. Refused before the
    /// redemption, with nothing to claim, or with a worthless claim.
    pub fn claim(&mut self, self_account: &String, caller: String) -> (r: Result<
        Vec<RemoteCall>,
        OpError,
    >)
        requires
            old(self)@.wf(),
        ensures
            final(self)@.wf(),
            match r {
                Ok(actions) => {
                    &&& old(self)@.metadata.released
                    &&& {
                        let user = balance_of(old(self)@.accounts, caller@);
                        let owed = user * old(self)@.metadata.share_price;
                        &&& user > 0
                        &&& owed > 0
                        &&& owed <= u128::MAX
                        &&& final(self)@ == (SharesView {
                            accounts: assoc_upsert(old(self)@.accounts, caller@, 0),
                            total_supply: (old(self)@.total_supply - user) as u128,
                            metadata: old(self)@.metadata,
                        })
                        &&& if old(self)@.total_supply == user {
                            actions.deep_view() =~= seq![
                                (RemoteCallView::NearTransfer {
                                    receiver: caller@,
                                    amount: owed as u128,
                                }),
                                (RemoteCallView::DeleteAccount {
                                    account: self_account@,
                                    beneficiary: caller@,
                                }),
                            ]
                        } else {
                            actions.deep_view() =~= seq![
                                (RemoteCallView::NearTransfer {
                                    receiver: caller@,
                                    amount: owed as u128,
                                }),
                            ]
                        }
                    }
                },
                Err(e) => *final(self) == *old(self) && if !old(self)@.metadata.released {
                    e == OpError::TooEarly
                } else {
                    let user = balance_of(old(self)@.accounts, caller@);
                    if user == 0 {
                        e == OpError::InsufficientBalance
                    } else if user * old(self)@.metadata.share_price > u128::MAX {
                        e == OpError::Overflow
                    } else {
                        e == OpError::InsufficientBalance && user
                            * old(self)@.metadata.share_price == 0
                    }
                },
            },
    {
        if !self.metadata.released {
            return Err(OpError::TooEarly);
        }
        let user_shares = self.ft_balance_of(&caller);
        if user_shares == 0 {
            return Err(OpError::InsufficientBalance);
        }
        let owed = match user_shares.checked_mul(self.metadata.share_price) {
            None => {
                return Err(OpError::Overflow);
            },
            Some(a) => a,
        };
        if owed == 0 {
            return Err(OpError::InsufficientBalance);
        }
        let ghost pre = self@;
        let caller_key = caller.clone();
        self.burn_all_of(caller_key);
        proof {
            assert(self@ =~= (SharesView {
                accounts: assoc_upsert(pre.accounts, caller@, 0),
                total_supply: (pre.total_supply - balance_of(pre.accounts, caller@)) as u128,
                metadata: pre.metadata,
            }));
        }
        let mut actions: Vec<RemoteCall> = Vec::new();
        actions.push(RemoteCall::NearTransfer { receiver: caller.clone(), amount: owed });
        if self.total_supply == 0 {
            actions.push(
                RemoteCall::DeleteAccount { account: self_account.clone(), beneficiary: caller },
            );
        }
        Ok(actions)
    }

    /// The account deletion that retires an emptied ledger, if the supply
    /// is zero.
    pub fn cleanup(&self, self_account: &String, beneficiary: &String) -> (r: Option<RemoteCall>)
        ensures
            match r {
                Some(a) => self@.total_supply == 0 && a@ == (RemoteCallView::DeleteAccount {
                    account: self_account@,
                    beneficiary: beneficiary@,
                }),
                None => self@.total_supply != 0,
            },
    {
        if self.total_supply == 0 {
            Some(
                RemoteCall::DeleteAccount {
                    account: self_account.clone(),
                    beneficiary: beneficiary.clone(),
                },
            )
        } else {
            None
        }
    }

    /// Sets the caller's balance to zero and removes it from the supply.
    fn burn_all_of(&mut self, account: String)
        requires
            assoc_unique(old(self)@.accounts),
            old(self)@.total_supply as int == sum_balances(old(self)@.accounts),
        ensures
            final(self)@.accounts == assoc_upsert(old(self)@.accounts, account@, 0),
            final(self)@.total_supply == old(self)@.total_supply - balance_of(
                old(self)@.accounts,
                account@,
            ),
            final(self)@.metadata == old(self)@.metadata,
            assoc_unique(final(self)@.accounts),
            final(self)@.total_supply as int == sum_balances(final(self)@.accounts),
    {
        let mut k: usize = 0;
        while k < self.accounts.len()
            invariant
                k <= self@.accounts.len(),
                *self == *old(self),
                assoc_unique(old(self)@.accounts),
                old(self)@.total_supply as int == sum_balances(old(self)@.accounts),
                forall|i: int| 0 <= i < k ==> old(self)@.accounts[i].0 != account@,
            decreases self@.accounts.len() - k,
        {
            if self.accounts[k].0 == *(&account) {
                proof {
                    lemma_assoc_at_pins(old(self)@.accounts, account@, k as int);
                    lemma_entry_le_sum(old(self)@.accounts, k as int);
                }
                let burnt = self.accounts[k].1;
                self.total_supply = self.total_supply - burnt;
                self.accounts.set(k, (account, 0));
                proof {
                    assert(self@.accounts =~= old(self)@.accounts.update(
                        k as int,
                        (account@, 0u128),
                    ));
                    lemma_sum_update(old(self)@.accounts, k as int, (account@, 0u128));
                    lemma_assoc_upsert_unique(old(self)@.accounts, account@, 0u128);
                }
                return ;
            }
            k = k + 1;
        }
        self.accounts.push((account, 0));
        proof {
            assert(self@.accounts =~= old(self)@.accounts.push((account@, 0u128)));
            assert(self@.accounts.drop_last() =~= old(self)@.accounts);
            assert(self@.accounts.last() == (account@, 0u128));
            assert(sum_balances(self@.accounts) == sum_balances(old(self)@.accounts));
            lemma_assoc_upsert_unique(old(self)@.accounts, account@, 0u128);
        }
    }
}

/// A holder's shares are worth at most the whole exit price: its balance
/// is within the supply, so its value is within the supply's value.
proof fn lemma_user_value_within_exit(s: SharesView, who: Seq<char>)
    requires
        s.wf(),
    ensures
        balance_of(s.accounts, who) * s.metadata.share_price <= s.total_supply as int
            * s.metadata.share_price,
{
    if assoc_has(s.accounts, who) {
        lemma_entry_le_sum(s.accounts, assoc_at(s.accounts, who));
        assert(balance_of(s.accounts, who) <= s.total_supply as int);
        assert(balance_of(s.accounts, who) * s.metadata.share_price <= s.total_supply as int
            * s.metadata.share_price) by (nonlinear_arith)
            requires
                0 <= balance_of(s.accounts, who) <= s.total_supply as int,
                s.metadata.share_price >= 0,
        ;
    } else {
        lemma_sum_nonneg(s.accounts);
        assert(0 * s.metadata.share_price == 0) by (nonlinear_arith);
        assert(s.total_supply as int * s.metadata.share_price >= 0) by (nonlinear_arith)
            requires
                s.total_supply as int >= 0,
                s.metadata.share_price >= 0,
        ;
    }
}

} // verus!
