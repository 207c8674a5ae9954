use marketplace::error::EscrowError;
use marketplace::market::Market;

fn id(n: u8) -> [u8; 32] {
    [n; 32]
}

const NAMESPACE: u8 = 9;
const MAKER: u8 = 1;
const TAKER: u8 = 2;
const ASSET_A: u8 = 10;
const ASSET_B: u8 = 11;
const USD: u8 = 20;
const MAKER_ASSET_ACCT: u8 = 101;
const TAKER_USD_ACCT: u8 = 102;
const MAKER_USD_ACCT: u8 = 103;
const TAKER_ASSET_ACCT: u8 = 104;

/// A market where the maker holds one unit of asset A and the taker holds
/// `taker_usd` units of USD, with empty receiving accounts on both sides.
fn funded_market(taker_usd: u64) -> Market {
    let mut m = Market::new(id(NAMESPACE));
    m.create_account(&id(MAKER_ASSET_ACCT), &id(MAKER), &id(ASSET_A), 1).unwrap();
    m.create_account(&id(TAKER_USD_ACCT), &id(TAKER), &id(USD), taker_usd).unwrap();
    m.create_account(&id(MAKER_USD_ACCT), &id(MAKER), &id(USD), 0).unwrap();
    m.create_account(&id(TAKER_ASSET_ACCT), &id(TAKER), &id(ASSET_A), 0).unwrap();
    m
}

fn balance(m: &Market, addr: u8) -> u64 {
    m.holding(&id(addr)).unwrap().amount
}

#[test]
fn open_locks_one_unit_in_vault() {
    let mut m = funded_market(500);
    let escrow_address = m
        .initialize(&id(MAKER), &id(ASSET_A), &id(USD), 500, &id(MAKER_ASSET_ACCT))
        .unwrap();

    let rec = m.escrow_for_asset(&id(ASSET_A)).expect("record must be open");
    assert_eq!(rec.escrow_address, escrow_address);
    assert_eq!(rec.maker, id(MAKER));
    assert_eq!(rec.asset_id, id(ASSET_A));
    assert_eq!(rec.payment_asset_id, id(USD));
    assert_eq!(rec.price_amount, 500);

    let vault = m.holding(&rec.vault_address).expect("vault must exist");
    assert_eq!(vault.amount, 1);
    assert_eq!(vault.owner, rec.escrow_address);
    assert_eq!(vault.asset_id, id(ASSET_A));
    assert_eq!(balance(&m, MAKER_ASSET_ACCT), 0);
}

#[test]
fn open_rejects_empty_source_with_insufficient_balance() {
    let mut m = funded_market(500);
    m.create_account(&id(105), &id(TAKER), &id(ASSET_B), 0).unwrap();
    let r = m.initialize(&id(TAKER), &id(ASSET_B), &id(USD), 5, &id(105));
    assert_eq!(r, Err(EscrowError::InsufficientBalance));
    assert!(m.escrow_for_asset(&id(ASSET_B)).is_none());
}

#[test]
fn open_rejects_missing_source_with_precondition_violation() {
    let mut m = funded_market(500);
    let r = m.initialize(&id(MAKER), &id(ASSET_B), &id(USD), 5, &id(106));
    assert_eq!(r, Err(EscrowError::PreconditionViolation));
}

#[test]
fn open_rejects_source_owned_by_someone_else() {
    let mut m = funded_market(500);
    let r = m.initialize(&id(TAKER), &id(ASSET_A), &id(USD), 5, &id(MAKER_ASSET_ACCT));
    assert_eq!(r, Err(EscrowError::PreconditionViolation));
}

#[test]
fn second_open_for_same_asset_collides() {
    let mut m = funded_market(500);
    m.initialize(&id(MAKER), &id(ASSET_A), &id(USD), 500, &id(MAKER_ASSET_ACCT)).unwrap();

    // Even a different maker with their own funded account is turned away
    // while a record for the asset is open.
    m.create_account(&id(107), &id(TAKER), &id(ASSET_A), 1).unwrap();
    let r = m.initialize(&id(TAKER), &id(ASSET_A), &id(USD), 7, &id(107));
    assert_eq!(r, Err(EscrowError::AddressCollision));
    assert_eq!(balance(&m, 107), 1);
}

#[test]
fn create_account_rejects_occupied_address() {
    let mut m = funded_market(500);
    let r = m.create_account(&id(MAKER_ASSET_ACCT), &id(TAKER), &id(USD), 3);
    assert_eq!(r, Err(EscrowError::AddressCollision));
}

#[test]
fn derived_addresses_differ_from_inputs_and_per_asset() {
    let mut m = funded_market(500);
    let escrow_a = m
        .initialize(&id(MAKER), &id(ASSET_A), &id(USD), 500, &id(MAKER_ASSET_ACCT))
        .unwrap();
    m.create_account(&id(108), &id(MAKER), &id(ASSET_B), 1).unwrap();
    let escrow_b = m.initialize(&id(MAKER), &id(ASSET_B), &id(USD), 5, &id(108)).unwrap();

    // The deriver really hashes: the custody address is neither of its
    // inputs, differs per asset, and the vault lands elsewhere again.
    assert_ne!(escrow_a, id(ASSET_A));
    assert_ne!(escrow_a, id(NAMESPACE));
    assert_ne!(escrow_a, escrow_b);
    let rec_a = m.escrow_at(&escrow_a).unwrap();
    assert_ne!(rec_a.vault_address, rec_a.escrow_address);
}

#[test]
fn cancel_round_trip_restores_maker() {
    let mut m = funded_market(500);
    let escrow_address = m
        .initialize(&id(MAKER), &id(ASSET_A), &id(USD), 500, &id(MAKER_ASSET_ACCT))
        .unwrap();
    let vault_address = m.escrow_at(&escrow_address).unwrap().vault_address;

    m.cancel(&id(MAKER), &escrow_address, &id(MAKER_ASSET_ACCT)).unwrap();

    assert_eq!(balance(&m, MAKER_ASSET_ACCT), 1);
    assert!(m.escrow_for_asset(&id(ASSET_A)).is_none());
    assert!(m.escrow_at(&escrow_address).is_none());
    assert!(m.holding(&vault_address).is_none());

    // The slot is free again: the same asset opens again, at the same
    // derived address.
    let again = m
        .initialize(&id(MAKER), &id(ASSET_A), &id(USD), 500, &id(MAKER_ASSET_ACCT))
        .unwrap();
    assert_eq!(again, escrow_address);
}

#[test]
fn cancel_by_anyone_but_the_maker_is_rejected_without_effect() {
    let mut m = funded_market(500);
    let escrow_address = m
        .initialize(&id(MAKER), &id(ASSET_A), &id(USD), 500, &id(MAKER_ASSET_ACCT))
        .unwrap();
    let vault_address = m.escrow_at(&escrow_address).unwrap().vault_address;

    let r = m.cancel(&id(TAKER), &escrow_address, &id(MAKER_ASSET_ACCT));
    assert_eq!(r, Err(EscrowError::PreconditionViolation));

    // Zero side effects: record and vault still stand, balances untouched.
    assert!(m.escrow_at(&escrow_address).is_some());
    assert_eq!(m.holding(&vault_address).unwrap().amount, 1);
    assert_eq!(balance(&m, MAKER_ASSET_ACCT), 0);
}

#[test]
fn cancel_of_missing_record_is_rejected() {
    let mut m = funded_market(500);
    let r = m.cancel(&id(MAKER), &id(120), &id(MAKER_ASSET_ACCT));
    assert_eq!(r, Err(EscrowError::PreconditionViolation));
}

#[test]
fn exchange_settles_the_concrete_scenario() {
    let mut m = funded_market(500);
    let escrow_address = m
        .initialize(&id(MAKER), &id(ASSET_A), &id(USD), 500, &id(MAKER_ASSET_ACCT))
        .unwrap();
    let vault_address = m.escrow_at(&escrow_address).unwrap().vault_address;

    m.exchange(
        &id(TAKER),
        &escrow_address,
        &id(TAKER_USD_ACCT),
        &id(TAKER_ASSET_ACCT),
        &id(MAKER_USD_ACCT),
    )
    .unwrap();

    // Taker holds the asset and no USD; maker holds the full price.
    assert_eq!(balance(&m, TAKER_ASSET_ACCT), 1);
    assert_eq!(balance(&m, TAKER_USD_ACCT), 0);
    assert_eq!(balance(&m, MAKER_USD_ACCT), 500);
    // Escrow and vault are gone.
    assert!(m.escrow_for_asset(&id(ASSET_A)).is_none());
    assert!(m.escrow_at(&escrow_address).is_none());
    assert!(m.holding(&vault_address).is_none());

    // The maker can open the asset again once they hold a unit again.
    m.transfer(&id(TAKER_ASSET_ACCT), &id(MAKER_ASSET_ACCT), &id(TAKER), 1).unwrap();
    let again = m
        .initialize(&id(MAKER), &id(ASSET_A), &id(USD), 500, &id(MAKER_ASSET_ACCT))
        .unwrap();
    assert_eq!(again, escrow_address);
}

#[test]
fn exchange_rejects_short_payment_without_effect() {
    let mut m = funded_market(499);
    let escrow_address = m
        .initialize(&id(MAKER), &id(ASSET_A), &id(USD), 500, &id(MAKER_ASSET_ACCT))
        .unwrap();

    let r = m.exchange(
        &id(TAKER),
        &escrow_address,
        &id(TAKER_USD_ACCT),
        &id(TAKER_ASSET_ACCT),
        &id(MAKER_USD_ACCT),
    );
    assert_eq!(r, Err(EscrowError::InsufficientBalance));
    assert_eq!(balance(&m, TAKER_USD_ACCT), 499);
    assert_eq!(balance(&m, MAKER_USD_ACCT), 0);
    assert_eq!(balance(&m, TAKER_ASSET_ACCT), 0);
    assert!(m.escrow_at(&escrow_address).is_some());
}

#[test]
fn exchange_with_corrupted_vault_authority_changes_nothing() {
    let mut m = funded_market(500);
    let escrow_address = m
        .initialize(&id(MAKER), &id(ASSET_A), &id(USD), 500, &id(MAKER_ASSET_ACCT))
        .unwrap();
    let vault_address = m.escrow_at(&escrow_address).unwrap().vault_address;

    // Corrupt the vault's authority behind the controller's back: the
    // payment leg alone would still succeed, the custody leg cannot.
    for acct in m.accounts.iter_mut() {
        if acct.address == vault_address {
            acct.owner = id(99);
        }
    }

    let r = m.exchange(
        &id(TAKER),
        &escrow_address,
        &id(TAKER_USD_ACCT),
        &id(TAKER_ASSET_ACCT),
        &id(MAKER_USD_ACCT),
    );
    assert_eq!(r, Err(EscrowError::PreconditionViolation));
    // All balances unchanged: no partial payment went through.
    assert_eq!(balance(&m, TAKER_USD_ACCT), 500);
    assert_eq!(balance(&m, MAKER_USD_ACCT), 0);
    assert_eq!(balance(&m, TAKER_ASSET_ACCT), 0);
    assert_eq!(m.holding(&vault_address).unwrap().amount, 1);
    assert!(m.escrow_at(&escrow_address).is_some());
}

#[test]
fn exchange_by_non_owner_of_payment_account_is_rejected() {
    let mut m = funded_market(500);
    let escrow_address = m
        .initialize(&id(MAKER), &id(ASSET_A), &id(USD), 500, &id(MAKER_ASSET_ACCT))
        .unwrap();
    // The maker cannot spend the taker's payment account.
    let r = m.exchange(
        &id(MAKER),
        &escrow_address,
        &id(TAKER_USD_ACCT),
        &id(TAKER_ASSET_ACCT),
        &id(MAKER_USD_ACCT),
    );
    assert_eq!(r, Err(EscrowError::PreconditionViolation));
    assert_eq!(balance(&m, TAKER_USD_ACCT), 500);
}

#[test]
fn transfer_moves_funds_between_distinct_accounts_only() {
    let mut m = funded_market(500);
    m.transfer(&id(TAKER_USD_ACCT), &id(MAKER_USD_ACCT), &id(TAKER), 200).unwrap();
    assert_eq!(balance(&m, TAKER_USD_ACCT), 300);
    assert_eq!(balance(&m, MAKER_USD_ACCT), 200);

    let self_move = m.transfer(&id(TAKER_USD_ACCT), &id(TAKER_USD_ACCT), &id(TAKER), 1);
    assert_eq!(self_move, Err(EscrowError::PreconditionViolation));
    assert_eq!(balance(&m, TAKER_USD_ACCT), 300);

    let wrong_owner = m.transfer(&id(TAKER_USD_ACCT), &id(MAKER_USD_ACCT), &id(MAKER), 1);
    assert_eq!(wrong_owner, Err(EscrowError::PreconditionViolation));

    let short = m.transfer(&id(TAKER_USD_ACCT), &id(MAKER_USD_ACCT), &id(TAKER), 301);
    assert_eq!(short, Err(EscrowError::InsufficientBalance));
}

#[test]
fn close_account_requires_empty_balance_and_owner() {
    let mut m = funded_market(500);
    let not_empty = m.close_account(&id(TAKER_USD_ACCT), &id(TAKER), &id(TAKER));
    assert_eq!(not_empty, Err(EscrowError::PreconditionViolation));

    let wrong_owner = m.close_account(&id(TAKER_ASSET_ACCT), &id(TAKER), &id(MAKER));
    assert_eq!(wrong_owner, Err(EscrowError::PreconditionViolation));

    m.close_account(&id(TAKER_ASSET_ACCT), &id(TAKER), &id(TAKER)).unwrap();
    assert!(m.holding(&id(TAKER_ASSET_ACCT)).is_none());
}

#[test]
fn derived_custody_address_matches_the_ledger_derivation() {
    let mut m = funded_market(500);
    let escrow_address = m
        .initialize(&id(MAKER), &id(ASSET_A), &id(USD), 500, &id(MAKER_ASSET_ACCT))
        .unwrap();

    let namespace = solana_pubkey::Pubkey::new_from_array(id(NAMESPACE));
    let (expected_escrow, expected_bump) =
        solana_pubkey::Pubkey::try_find_program_address(&[b"escrow", &id(ASSET_A)], &namespace)
            .unwrap();
    assert_eq!(escrow_address, expected_escrow.to_bytes());

    let rec = m.escrow_at(&escrow_address).unwrap();
    assert_eq!(rec.escrow_bump, expected_bump);
    let (expected_vault, expected_vault_bump) =
        solana_pubkey::Pubkey::try_find_program_address(&[b"vault", &escrow_address], &namespace)
            .unwrap();
    assert_eq!(rec.vault_address, expected_vault.to_bytes());
    assert_eq!(rec.vault_bump, expected_vault_bump);
}
