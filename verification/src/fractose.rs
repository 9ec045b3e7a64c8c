use vstd::prelude::*;

use crate::errors::OpError;
use crate::remote::{RemoteCall, RemoteCallView};

verus! {

/// Deposit placed on a freshly created shares account, in minimal
/// base-currency units.
pub const SHARES_DEPLOY_DEPOSIT: u128 = 2500000000000000000000000;

/// Whether the association list holds an entry for key `k`.
pub open spec fn assoc_has<V>(s: Seq<(Seq<char>, V)>, k: Seq<char>) -> bool {
    exists|i: int| 0 <= i < s.len() && s[i].0 == k
}

/// The index of key `k` (unique under well-formedness).
pub open spec fn assoc_at<V>(s: Seq<(Seq<char>, V)>, k: Seq<char>) -> int {
    choose|i: int| 0 <= i < s.len() && s[i].0 == k
}

/// The value recorded under key `k`.
pub open spec fn assoc_val<V>(s: Seq<(Seq<char>, V)>, k: Seq<char>) -> V {
    s[assoc_at(s, k)].1
}

pub open spec fn assoc_unique<V>(s: Seq<(Seq<char>, V)>) -> bool {
    forall|i: int, j: int| 0 <= i < j < s.len() ==> s[i].0 != s[j].0
}

/// The association list after recording `v` under `k`: the existing entry
/// is overwritten, or a fresh entry is appended.
pub open spec fn assoc_upsert<V>(s: Seq<(Seq<char>, V)>, k: Seq<char>, v: V) -> Seq<
    (Seq<char>, V),
> {
    if assoc_has(s, k) {
        s.update(assoc_at(s, k), (k, v))
    } else {
        s.push((k, v))
    }
}

/// The keys, in list order.
pub open spec fn assoc_keys<V>(s: Seq<(Seq<char>, V)>) -> Seq<Seq<char>> {
    s.map_values(|p: (Seq<char>, V)| p.0)
}

/// The values, in list order.
pub open spec fn assoc_vals<V>(s: Seq<(Seq<char>, V)>) -> Seq<V> {
    s.map_values(|p: (Seq<char>, V)| p.1)
}

pub proof fn lemma_assoc_at_pins<V>(s: Seq<(Seq<char>, V)>, k: Seq<char>, i: int)
    requires
        assoc_unique(s),
        0 <= i < s.len(),
        s[i].0 == k,
    ensures
        assoc_has(s, k),
        assoc_at(s, k) == i,
{
    assert(assoc_has(s, k));
    let j = assoc_at(s, k);
    assert(0 <= j < s.len() && s[j].0 == k);
    if i < j {
        assert(s[i].0 != s[j].0);
    } else if j < i {
        assert(s[j].0 != s[i].0);
    }
}

pub proof fn lemma_assoc_upsert_unique<V>(s: Seq<(Seq<char>, V)>, k: Seq<char>, v: V)
    requires
        assoc_unique(s),
    ensures
        assoc_unique(assoc_upsert(s, k, v)),
{
    let t = assoc_upsert(s, k, v);
    if assoc_has(s, k) {
        let at = assoc_at(s, k);
        assert forall|i: int, j: int| 0 <= i < j < t.len() implies t[i].0 != t[j].0 by {
            if i != at && j != at {
                assert(t[i].0 == s[i].0 && t[j].0 == s[j].0);
            } else if i == at {
                assert(t[i].0 == s[at].0 && t[j].0 == s[j].0);
            } else {
                assert(t[i].0 == s[i].0 && t[j].0 == s[at].0);
            }
        }
    } else {
        assert forall|i: int, j: int| 0 <= i < j < t.len() implies t[i].0 != t[j].0 by {
            if j == s.len() {
                assert(t[j].0 == k && t[i].0 == s[i].0);
            }
        }
    }
}

/// The character sequence with every '.' replaced by '-'.
pub open spec fn dashed(s: Seq<char>) -> Seq<char> {
    s.map_values(
        |c: char|
            if c == '.' {
                '-'
            } else {
                c
            },
    )
}

/// Relies on str::replace with the one-character pattern "." and the
/// one-character replacement "-": the result replaces each '.' of the
/// input by '-' and leaves every other character in place.
#[verifier::external_body]
fn replace_dots(s: &str) -> (r: String)
    ensures
        r@ == dashed(s@),
{
    s.replace(".", "-")
}

/// The account name of the shares ledger for one securitized token:
/// the token's home contract with its dots dashed, the token id, and the
/// registry's own account, joined as "<dashed-contract>-<token>.<registry>".
pub open spec fn shares_contract_name(
    target: Seq<char>,
    token: Seq<char>,
    account: Seq<char>,
) -> Seq<char> {
    dashed(target) + seq!['-'] + token + seq!['.'] + account
}

/// The registry key of one securitized token: "<contract>/<token>".
pub open spec fn nft_address_of(contract: Seq<char>, token: Seq<char>) -> Seq<char> {
    contract + seq!['/'] + token
}

/// Builds the shares-ledger account name for a token.
pub fn get_shares_contract_name(target: &String, token_id: &String, current_account: &String) -> (r:
    String)
    ensures
        r@ == shares_contract_name(target@, token_id@, current_account@),
{
    let mut r = replace_dots(target.as_str());
    r.append("-");
    r.append(token_id.as_str());
    r.append(".");
    r.append(current_account.as_str());
    proof {
        reveal_strlit("-");
        reveal_strlit(".");
        assert(r@ =~= shares_contract_name(target@, token_id@, current_account@));
    }
    r
}

/// Builds the registry key for a token.
pub fn get_nft_address(contract_address: &String, token_id: &String) -> (r: String)
    ensures
        r@ == nft_address_of(contract_address@, token_id@),
{
    let mut r = contract_address.clone();
    r.append("/");
    r.append(token_id.as_str());
    proof {
        reveal_strlit("/");
        assert(r@ =~= nft_address_of(contract_address@, token_id@));
    }
    r
}

/// Records `val` under `key`, overwriting an existing entry.
fn upsert_pair(v: &mut Vec<(String, String)>, key: String, val: String)
    requires
        assoc_unique(old(v).deep_view()),
    ensures
        final(v).deep_view() == assoc_upsert(old(v).deep_view(), key@, val@),
        assoc_unique(final(v).deep_view()),
{
    let ghost pre = v.deep_view();
    let mut k: usize = 0;
    while k < v.len()
        invariant
            k <= v@.len(),
            *v == *old(v),
            assoc_unique(old(v).deep_view()),
            forall|i: int| 0 <= i < k ==> old(v).deep_view()[i].0 != key@,
        decreases v@.len() - k,
    {
        if v[k].0 == key {
            proof {
                lemma_assoc_at_pins(old(v).deep_view(), key@, k as int);
            }
            v.set(k, (key, val));
            proof {
                assert(v.deep_view() =~= old(v).deep_view().update(k as int, (key@, val@)));
                lemma_assoc_upsert_unique(old(v).deep_view(), key@, val@);
            }
            return ;
        }
        k = k + 1;
    }
    v.push((key, val));
    proof {
        assert(v.deep_view() =~= pre.push((key@, val@)));
        lemma_assoc_upsert_unique(pre, key@, val@);
    }
}

/// The securitization registry: the two-way association between
/// securitized tokens and their shares ledgers, and the standing list of
/// share holders handed to each freshly created ledger.
pub struct Fractose {
    pub nft_to_shares_address: Vec<(String, String)>,
    pub shares_to_nft_address: Vec<(String, String)>,
    pub sharess_holders: Vec<(String, u128)>,
}

/// Mathematical image of the [`Fractose`] state.
#[verifier::ext_equal]
pub struct FractoseView {
    pub nft_to_shares_address: Seq<(Seq<char>, Seq<char>)>,
    pub shares_to_nft_address: Seq<(Seq<char>, Seq<char>)>,
    pub sharess_holders: Seq<(Seq<char>, u128)>,
}

impl View for Fractose {
    type V = FractoseView;

    open spec fn view(&self) -> FractoseView {
        FractoseView {
            nft_to_shares_address: self.nft_to_shares_address.deep_view(),
            shares_to_nft_address: self.shares_to_nft_address.deep_view(),
            sharess_holders: self.sharess_holders.deep_view(),
        }
    }
}

impl FractoseView {
    pub open spec fn wf(self) -> bool {
        &&& assoc_unique(self.nft_to_shares_address)
        &&& assoc_unique(self.shares_to_nft_address)
        &&& assoc_unique(self.sharess_holders)
    }
}

impl Default for Fractose {
    /// An empty registry.
    fn default() -> (s: Self)
        ensures
            s@.wf(),
            s@.nft_to_shares_address.len() == 0,
            s@.shares_to_nft_address.len() == 0,
            s@.sharess_holders.len() == 0,
    {
        let s = Fractose {
            nft_to_shares_address: Vec::new(),
            shares_to_nft_address: Vec::new(),
            sharess_holders: Vec::new(),
        };
        proof {
            assert(s@.nft_to_shares_address =~= Seq::<(Seq<char>, Seq<char>)>::empty());
            assert(s@.shares_to_nft_address =~= Seq::<(Seq<char>, Seq<char>)>::empty());
            assert(s@.sharess_holders =~= Seq::<(Seq<char>, u128)>::empty());
        }
        s
    }
}

impl Fractose {
    /// Securitizes one approved token into fungible shares: validates the
    /// pricing, derives the shares ledger's account name, records the
    /// two-way association, and hands back the deployment, the ledger
    /// initialisation and the token transfer, in order. The price checks
    /// refuse a zero exit price, a zero share count, and an exit price
    /// that is not a whole multiple of the share count.
    pub fn securitize(
        &mut self,
        caller: String,
        self_account: &String,
        nft_ledger: &String,
        nft_contract_address: String,
        nft_token_id: String,
        shares_count: u128,
        decimals: u8,
        exit_price: u128,
    ) -> (r: Result<Vec<RemoteCall>, OpError>)
        requires
            old(self)@.wf(),
        ensures
            final(self)@.wf(),
            match r {
                Ok(actions) => {
                    &&& exit_price > 0
                    &&& shares_count > 0
                    &&& exit_price % shares_count == 0
                    &&& {
                        let sc = shares_contract_name(
                            nft_contract_address@,
                            nft_token_id@,
                            self_account@,
                        );
                        let na = nft_address_of(nft_contract_address@, nft_token_id@);
                        &&& final(self)@ == (FractoseView {
                            nft_to_shares_address: assoc_upsert(
                                old(self)@.nft_to_shares_address,
                                na,
                                sc,
                            ),
                            shares_to_nft_address: assoc_upsert(
                                old(self)@.shares_to_nft_address,
                                sc,
                                na,
                            ),
                            ..old(self)@
                        })
                        &&& actions.deep_view() =~= seq![
                            (RemoteCallView::DeployShares {
                                account: sc,
                                deposit: SHARES_DEPLOY_DEPOSIT,
                            }),
                            (RemoteCallView::CreateShares {
                                shares_contract: sc,
                                nft_contract_address: nft_contract_address@,
                                nft_token_id: nft_token_id@,
                                owner_id: caller@,
                                shares_count: shares_count,
                                decimals: decimals,
                                share_price: exit_price / shares_count,
                                share_holders: assoc_keys(old(self)@.sharess_holders),
                                n_shares: assoc_vals(old(self)@.sharess_holders),
                            }),
                            (RemoteCallView::NftTransfer {
                                nft_contract: nft_ledger@,
                                receiver: sc,
                                token_id: nft_token_id@,
                            }),
                        ]
                    }
                },
                Err(e) => e == OpError::InvalidAmount && *final(self) == *old(self) && (exit_price
                    == 0 || shares_count == 0 || exit_price % shares_count != 0),
            },
    {
        if exit_price == 0 {
            return Err(OpError::InvalidAmount);
        }
        if shares_count == 0 {
            return Err(OpError::InvalidAmount);
        }
        if exit_price % shares_count != 0 {
            return Err(OpError::InvalidAmount);
        }
        let share_price = exit_price / shares_count;
        let shares_contract = get_shares_contract_name(
            &nft_contract_address,
            &nft_token_id,
            self_account,
        );
        let nft_address = get_nft_address(&nft_contract_address, &nft_token_id);
        let ghost pre = self@;
        upsert_pair(&mut self.nft_to_shares_address, nft_address.clone(), shares_contract.clone());
        upsert_pair(&mut self.shares_to_nft_address, shares_contract.clone(), nft_address);
        let holders = self.holder_names();
        let amounts = self.holder_amounts();
        let mut actions: Vec<RemoteCall> = Vec::new();
        actions.push(
            RemoteCall::DeployShares {
                account: shares_contract.clone(),
                deposit: SHARES_DEPLOY_DEPOSIT,
            },
        );
        actions.push(
            RemoteCall::CreateShares {
                shares_contract: shares_contract.clone(),
                nft_contract_address: nft_contract_address,
                nft_token_id: nft_token_id.clone(),
                owner_id: caller,
                shares_count: shares_count,
                decimals: decimals,
                share_price: share_price,
                share_holders: holders,
                n_shares: amounts,
            },
        );
        actions.push(
            RemoteCall::NftTransfer {
                nft_contract: nft_ledger.clone(),
                receiver: shares_contract,
                token_id: nft_token_id,
            },
        );
        proof {
            assert(self@ =~= (FractoseView {
                nft_to_shares_address: self@.nft_to_shares_address,
                shares_to_nft_address: self@.shares_to_nft_address,
                ..pre
            }));
        }
        Ok(actions)
    }

    /// The standing holder names, in list order.
    fn holder_names(&self) -> (r: Vec<String>)
        ensures
            r.deep_view() == assoc_keys(self@.sharess_holders),
    {
        let mut r: Vec<String> = Vec::new();
        let mut k: usize = 0;
        while k < self.sharess_holders.len()
            invariant
                k <= self@.sharess_holders.len(),
                r.deep_view() =~= assoc_keys(self@.sharess_holders.take(k as int)),
            decreases self@.sharess_holders.len() - k,
        {
            let ghost prev = r.deep_view();
            let name = self.sharess_holders[k].0.clone();
            r.push(name);
            proof {
                assert(r.deep_view() =~= prev.push(self@.sharess_holders[k as int].0));
                assert(r.deep_view() =~= assoc_keys(self@.sharess_holders.take(k as int + 1)));
            }
            k = k + 1;
        }
        proof {
            assert(self@.sharess_holders.take(self@.sharess_holders.len() as int)
                =~= self@.sharess_holders);
            assert(r.deep_view() =~= assoc_keys(self@.sharess_holders));
        }
        r
    }

    /// The standing holder amounts, in list order.
    fn holder_amounts(&self) -> (r: Vec<u128>)
        ensures
            r.deep_view() == assoc_vals(self@.sharess_holders),
    {
        let mut r: Vec<u128> = Vec::new();
        let mut k: usize = 0;
        while k < self.sharess_holders.len()
            invariant
                k <= self@.sharess_holders.len(),
                r.deep_view() =~= assoc_vals(self@.sharess_holders.take(k as int)),
            decreases self@.sharess_holders.len() - k,
        {
            let ghost prev = r.deep_view();
            let amount = self.sharess_holders[k].1;
            r.push(amount);
            proof {
                assert(r.deep_view() =~= prev.push(self@.sharess_holders[k as int].1));
                assert(r.deep_view() =~= assoc_vals(self@.sharess_holders.take(k as int + 1)));
            }
            k = k + 1;
        }
        proof {
            assert(self@.sharess_holders.take(self@.sharess_holders.len() as int)
                =~= self@.sharess_holders);
            assert(r.deep_view() =~= assoc_vals(self@.sharess_holders));
        }
        r
    }

    /// Records a standing share holder, overwriting an existing entry.
    pub fn fill_share_holders(&mut self, sh_id: String, nshares: u128)
        requires
            old(self)@.wf(),
        ensures
            final(self)@.wf(),
            final(self)@ == (FractoseView {
                sharess_holders: assoc_upsert(old(self)@.sharess_holders, sh_id@, nshares),
                ..old(self)@
            }),
    {
        let ghost pre = self@;
        let mut k: usize = 0;
        while k < self.sharess_holders.len()
            invariant
                k <= self@.sharess_holders.len(),
                *self == *old(self),
                old(self)@.wf(),
                forall|i: int| 0 <= i < k ==> old(self)@.sharess_holders[i].0 != sh_id@,
            decreases self@.sharess_holders.len() - k,
        {
            if self.sharess_holders[k].0 == sh_id {
                proof {
                    lemma_assoc_at_pins(old(self)@.sharess_holders, sh_id@, k as int);
                }
                self.sharess_holders.set(k, (sh_id, nshares));
                proof {
                    assert(self@.sharess_holders =~= old(self)@.sharess_holders.update(
                        k as int,
                        (sh_id@, nshares),
                    ));
                    assert(self@ =~= (FractoseView {
                        sharess_holders: self@.sharess_holders,
                        ..old(self)@
                    }));
                    lemma_assoc_upsert_unique(old(self)@.sharess_holders, sh_id@, nshares);
                }
                return ;
            }
            k = k + 1;
        }
        self.sharess_holders.push((sh_id, nshares));
        proof {
            assert(self@.sharess_holders =~= pre.sharess_holders.push((sh_id@, nshares)));
            assert(self@ =~= (FractoseView { sharess_holders: self@.sharess_holders, ..pre }));
            lemma_assoc_upsert_unique(pre.sharess_holders, sh_id@, nshares);
        }
    }

    /// The shares-ledger account recorded for a registry key, if any.
    pub fn shares_address_of(&self, nft_address: &String) -> (r: Option<String>)
        requires
            self@.wf(),
        ensures
            match r {
                Some(a) => assoc_has(self@.nft_to_shares_address, nft_address@) && a@ == assoc_val(
                    self@.nft_to_shares_address,
                    nft_address@,
                ),
                None => !assoc_has(self@.nft_to_shares_address, nft_address@),
            },
    {
        let mut k: usize = 0;
        while k < self.nft_to_shares_address.len()
            invariant
                k <= self@.nft_to_shares_address.len(),
                assoc_unique(self@.nft_to_shares_address),
                forall|i: int| 0 <= i < k ==> self@.nft_to_shares_address[i].0 != nft_address@,
            decreases self@.nft_to_shares_address.len() - k,
        {
            if self.nft_to_shares_address[k].0 == *nft_address {
                proof {
                    lemma_assoc_at_pins(self@.nft_to_shares_address, nft_address@, k as int);
                }
                return Some(self.nft_to_shares_address[k].1.clone());
            }
            k = k + 1;
        }
        None
    }

    /// The registry key recorded for a shares-ledger account, if any.
    pub fn nft_address_for(&self, shares_address: &String) -> (r: Option<String>)
        requires
            self@.wf(),
        ensures
            match r {
                Some(a) => assoc_has(self@.shares_to_nft_address, shares_address@) && a@
                    == assoc_val(self@.shares_to_nft_address, shares_address@),
                None => !assoc_has(self@.shares_to_nft_address, shares_address@),
            },
    {
        let mut k: usize = 0;
        while k < self.shares_to_nft_address.len()
            invariant
                k <= self@.shares_to_nft_address.len(),
                assoc_unique(self@.shares_to_nft_address),
                forall|i: int| 0 <= i < k ==> self@.shares_to_nft_address[i].0 != shares_address@,
            decreases self@.shares_to_nft_address.len() - k,
        {
            if self.shares_to_nft_address[k].0 == *shares_address {
                proof {
                    lemma_assoc_at_pins(self@.shares_to_nft_address, shares_address@, k as int);
                }
                return Some(self.shares_to_nft_address[k].1.clone());
            }
            k = k + 1;
        }
        None
    }
}

} // verus!
