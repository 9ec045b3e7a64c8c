use govledger::errors::OpError;
use govledger::fractose::{get_nft_address, get_shares_contract_name, Fractose};
use govledger::remote::RemoteCall;
use govledger::shares::Shares;

#[test]
fn securitize_nft() {
    let current_account = "alice.testnet".to_string();
    let signer_account = "robert.testnet".to_string();
    let nft_ledger = "nft-lightency.testnet".to_string();

    let target_nft_contract = "nft.testnet".to_string();
    let nft_token_id = "0".to_string();

    let mut contract = Fractose::default();

    contract
        .securitize(
            signer_account,
            &current_account,
            &nft_ledger,
            target_nft_contract.clone(),
            nft_token_id.clone(),
            1000,
            18,
            10u128.pow(30),
        )
        .unwrap();

    let nft_address = get_nft_address(&target_nft_contract, &nft_token_id);
    let expected_shares_contract =
        get_shares_contract_name(&target_nft_contract, &nft_token_id, &current_account);

    let saved_shares_address = contract.shares_address_of(&nft_address);
    let saved_nft_address = contract.nft_address_for(&expected_shares_contract);

    // Ensure that mappings are correctly saved
    assert_eq!(
        saved_shares_address.expect("Saved shares address did not match"),
        expected_shares_contract
    );
    assert_eq!(
        saved_nft_address.expect("Saved NFT address did not match"),
        nft_address
    );
}

#[test]
fn shares_contract_name_dashes_the_contract_dots() {
    let name = get_shares_contract_name(
        &"nft.testnet".to_string(),
        &"0".to_string(),
        &"alice.testnet".to_string(),
    );
    assert_eq!(name, "nft-testnet-0.alice.testnet");
    assert_eq!(
        get_nft_address(&"nft.testnet".to_string(), &"0".to_string()),
        "nft.testnet/0"
    );
}

#[test]
fn securitize_validates_pricing_and_emits_the_chain() {
    let mut contract = Fractose::default();
    contract.fill_share_holders("holder1.test".to_string(), 40);
    contract.fill_share_holders("holder2.test".to_string(), 10);
    contract.fill_share_holders("holder1.test".to_string(), 60);
    let zero_price = contract.securitize(
        "owner.test".to_string(),
        &"fractose.test".to_string(),
        &"nft-ledger.test".to_string(),
        "art.test".to_string(),
        "7".to_string(),
        100,
        8,
        0,
    );
    assert_eq!(zero_price, Err(OpError::InvalidAmount));
    let zero_count = contract.securitize(
        "owner.test".to_string(),
        &"fractose.test".to_string(),
        &"nft-ledger.test".to_string(),
        "art.test".to_string(),
        "7".to_string(),
        0,
        8,
        1000,
    );
    assert_eq!(zero_count, Err(OpError::InvalidAmount));
    let fractional = contract.securitize(
        "owner.test".to_string(),
        &"fractose.test".to_string(),
        &"nft-ledger.test".to_string(),
        "art.test".to_string(),
        "7".to_string(),
        3,
        8,
        1000,
    );
    assert_eq!(fractional, Err(OpError::InvalidAmount));
    let actions = contract
        .securitize(
            "owner.test".to_string(),
            &"fractose.test".to_string(),
            &"nft-ledger.test".to_string(),
            "art.test".to_string(),
            "7".to_string(),
            100,
            8,
            1000,
        )
        .unwrap();
    let shares_contract = "art-test-7.fractose.test".to_string();
    assert_eq!(actions.len(), 3);
    assert_eq!(
        actions[0],
        RemoteCall::DeployShares {
            account: shares_contract.clone(),
            deposit: 2_500_000_000_000_000_000_000_000,
        }
    );
    assert_eq!(
        actions[1],
        RemoteCall::CreateShares {
            shares_contract: shares_contract.clone(),
            nft_contract_address: "art.test".to_string(),
            nft_token_id: "7".to_string(),
            owner_id: "owner.test".to_string(),
            shares_count: 100,
            decimals: 8,
            share_price: 10,
            share_holders: vec!["holder1.test".to_string(), "holder2.test".to_string()],
            n_shares: vec![60, 10],
        }
    );
    assert_eq!(
        actions[2],
        RemoteCall::NftTransfer {
            nft_contract: "nft-ledger.test".to_string(),
            receiver: shares_contract,
            token_id: "7".to_string(),
        }
    );
}

fn fresh_shares() -> Shares {
    Shares::create(
        "art.test".to_string(),
        "7".to_string(),
        "owner.test".to_string(),
        100,
        8,
        10,
        vec!["holder1.test".to_string(), "holder2.test".to_string()],
        vec![60, 10],
    )
    .unwrap()
}

#[test]
fn shares_create_distributes_the_supply() {
    let s = fresh_shares();
    assert_eq!(s.ft_total_supply(), 100);
    assert_eq!(s.ft_balance_of(&"owner.test".to_string()), 30);
    assert_eq!(s.ft_balance_of(&"holder1.test".to_string()), 60);
    assert_eq!(s.ft_balance_of(&"holder2.test".to_string()), 10);
    assert_eq!(s.ft_balance_of(&"ghost.test".to_string()), 0);
    let meta = s.ft_metadata();
    assert_eq!(meta.share_price, 10);
    assert_eq!(meta.decimals, 8);
    assert!(!meta.released);
    assert_eq!(meta.nft_contract_address, "art.test");
    assert_eq!(meta.nft_token_id, "7");
    assert_eq!(s.exit_price(), Ok(1000));
}

#[test]
fn shares_create_refuses_bad_holders() {
    let zero_amount = Shares::create(
        "art.test".to_string(),
        "7".to_string(),
        "owner.test".to_string(),
        100,
        8,
        10,
        vec!["holder1.test".to_string()],
        vec![0],
    );
    assert!(matches!(zero_amount, Err(OpError::InvalidAmount)));
    let owner_among_holders = Shares::create(
        "art.test".to_string(),
        "7".to_string(),
        "owner.test".to_string(),
        100,
        8,
        10,
        vec!["owner.test".to_string()],
        vec![5],
    );
    assert!(matches!(owner_among_holders, Err(OpError::AlreadyExists)));
    let duplicate_holder = Shares::create(
        "art.test".to_string(),
        "7".to_string(),
        "owner.test".to_string(),
        100,
        8,
        10,
        vec!["holder1.test".to_string(), "holder1.test".to_string()],
        vec![5, 5],
    );
    assert!(matches!(duplicate_holder, Err(OpError::AlreadyExists)));
    let oversubscribed = Shares::create(
        "art.test".to_string(),
        "7".to_string(),
        "owner.test".to_string(),
        100,
        8,
        10,
        vec!["holder1.test".to_string(), "holder2.test".to_string()],
        vec![60, 41],
    );
    assert!(matches!(oversubscribed, Err(OpError::InsufficientBalance)));
}

#[test]
fn shares_redeem_burns_pays_change_and_is_terminal() {
    let mut s = fresh_shares();
    // holder1 holds 60 of 100 shares at price 10: it owes 400 more
    assert_eq!(s.redeem_amount_of(&"holder1.test".to_string()), Ok(400));
    assert_eq!(s.vault_balance(), Ok(0));
    assert_eq!(s.vault_balance_of(&"holder2.test".to_string()), Ok(0));
    let underpaid = s.redeem(&"shares.test".to_string(), "holder1.test".to_string(), 399);
    assert!(matches!(underpaid, Err(OpError::InsufficientBalance)));
    assert!(!s.ft_metadata().released);
    let actions = s
        .redeem(&"shares.test".to_string(), "holder1.test".to_string(), 450)
        .unwrap();
    assert_eq!(actions.len(), 2);
    assert_eq!(
        actions[0],
        RemoteCall::NearTransfer { receiver: "holder1.test".to_string(), amount: 50 }
    );
    assert_eq!(
        actions[1],
        RemoteCall::NftTransfer {
            nft_contract: "art.test".to_string(),
            receiver: "holder1.test".to_string(),
            token_id: "7".to_string(),
        }
    );
    assert!(s.ft_metadata().released);
    assert_eq!(s.ft_total_supply(), 40);
    assert_eq!(s.ft_balance_of(&"holder1.test".to_string()), 0);
    let again = s.redeem(&"shares.test".to_string(), "holder2.test".to_string(), 1000);
    assert!(matches!(again, Err(OpError::AlreadyFinalized)));
    assert!(matches!(
        s.redeem_amount_of(&"holder2.test".to_string()),
        Err(OpError::AlreadyFinalized)
    ));
    // after the redemption the vault backs the remaining shares
    assert_eq!(s.vault_balance(), Ok(400));
    assert_eq!(s.vault_balance_of(&"holder2.test".to_string()), Ok(100));
}

#[test]
fn shares_claim_pays_the_vault_share_and_retires_the_ledger() {
    let mut s = fresh_shares();
    let early = s.claim(&"shares.test".to_string(), "holder2.test".to_string());
    assert!(matches!(early, Err(OpError::TooEarly)));
    s.redeem(&"shares.test".to_string(), "holder1.test".to_string(), 400).unwrap();
    let nothing = s.claim(&"shares.test".to_string(), "holder1.test".to_string());
    assert!(matches!(nothing, Err(OpError::InsufficientBalance)));
    let actions = s
        .claim(&"shares.test".to_string(), "holder2.test".to_string())
        .unwrap();
    assert_eq!(
        actions[0],
        RemoteCall::NearTransfer { receiver: "holder2.test".to_string(), amount: 100 }
    );
    assert_eq!(s.ft_balance_of(&"holder2.test".to_string()), 0);
    assert_eq!(s.ft_total_supply(), 30);
    assert!(s.cleanup(&"shares.test".to_string(), &"holder2.test".to_string()).is_none());
    let actions = s
        .claim(&"shares.test".to_string(), "owner.test".to_string())
        .unwrap();
    assert_eq!(actions.len(), 2);
    assert_eq!(
        actions[1],
        RemoteCall::DeleteAccount {
            account: "shares.test".to_string(),
            beneficiary: "owner.test".to_string(),
        }
    );
    assert_eq!(s.ft_total_supply(), 0);
    assert_eq!(
        s.cleanup(&"shares.test".to_string(), &"owner.test".to_string()),
        Some(RemoteCall::DeleteAccount {
            account: "shares.test".to_string(),
            beneficiary: "owner.test".to_string(),
        })
    );
}
