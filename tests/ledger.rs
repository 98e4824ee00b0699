use token_program::amount::Amount;
use token_program::authority::validate_owner;
use token_program::error::TokenError;
use token_program::processor::{
    process_freeze_account, process_initialize_account, process_thaw_account,
    process_toggle_account_state, process_unwrap_lamports,
};
use token_program::state::{
    key_eq, Account, AccountInfo, AccountState, Config, Mint, Multisig, Pubkey, RecordData,
};

const PROGRAM: u8 = 200;
const NATIVE: u8 = 201;

fn key(b: u8) -> Pubkey {
    Pubkey { bytes: [b; 32] }
}

fn config() -> Config {
    Config { program_id: key(PROGRAM), native_mint: key(NATIVE) }
}

fn amt(v: u128) -> Amount {
    Amount { hi: 0, lo: v }
}

fn handle(k: u8, lamports: u64, is_signer: bool, data: RecordData) -> AccountInfo {
    AccountInfo { key: key(k), owner: key(PROGRAM), lamports, is_signer, data }
}

fn mint(k: u8, freeze_authority: Option<Pubkey>) -> AccountInfo {
    handle(
        k,
        1_000,
        false,
        RecordData::Mint(Mint {
            mint_authority: Some(key(2)),
            supply: amt(0),
            decimals: 6,
            is_initialized: true,
            freeze_authority,
        }),
    )
}

fn token_account(k: u8, mint_key: u8, owner: u8, amount: u128, native: bool) -> AccountInfo {
    handle(
        k,
        if native { 2_000 + amount as u64 } else { 2_000 },
        false,
        RecordData::Account(Account {
            mint: key(mint_key),
            owner: key(owner),
            amount: amt(amount),
            delegate: None,
            state: AccountState::Initialized,
            is_native: if native { Some(amt(2_000)) } else { None },
        }),
    )
}

fn signer(k: u8) -> AccountInfo {
    handle(k, 0, true, RecordData::Empty)
}

fn state_of(info: &AccountInfo) -> AccountState {
    match info.data {
        RecordData::Account(a) => a.state,
        _ => panic!("not an account"),
    }
}

fn amount_of(info: &AccountInfo) -> u128 {
    match info.data {
        RecordData::Account(a) => {
            assert_eq!(a.amount.hi, 0);
            a.amount.lo
        },
        _ => panic!("not an account"),
    }
}

fn multisig(k: u8, m: u8, members: &[u8]) -> AccountInfo {
    let mut signers = [key(0); 11];
    for (i, &b) in members.iter().enumerate() {
        signers[i] = key(b);
    }
    handle(
        k,
        0,
        false,
        RecordData::Multisig(Multisig { m, n: members.len() as u8, is_initialized: true, signers }),
    )
}

fn unwrap_data(amount: Option<u128>) -> Vec<u8> {
    match amount {
        None => vec![0],
        Some(v) => {
            let mut d = vec![1];
            d.extend_from_slice(&v.to_le_bytes());
            d.extend_from_slice(&[0u8; 16]);
            d
        },
    }
}

#[test]
fn initialize_plain_account() {
    let mut accounts = vec![handle(10, 5_000, false, RecordData::Empty), mint(1, None), signer(30)];
    assert_eq!(process_initialize_account(&config(), &mut accounts, 2_000), Ok(()));
    match accounts[0].data {
        RecordData::Account(a) => {
            assert!(key_eq(&a.mint, &key(1)));
            assert!(key_eq(&a.owner, &key(30)));
            assert_eq!(a.amount.lo, 0);
            assert_eq!(a.state, AccountState::Initialized);
            assert!(a.is_native.is_none());
        },
        _ => panic!("not initialized"),
    }
    assert_eq!(
        process_initialize_account(&config(), &mut accounts, 2_000),
        Err(TokenError::AlreadyInitialized)
    );
}

#[test]
fn initialize_native_account_reconciles_balance() {
    let native_mint = handle(NATIVE, 0, false, RecordData::Unknown);
    let mut accounts = vec![handle(10, 5_000, false, RecordData::Empty), native_mint, signer(30)];
    assert_eq!(process_initialize_account(&config(), &mut accounts, 2_000), Ok(()));
    match accounts[0].data {
        RecordData::Account(a) => {
            assert_eq!(a.amount.lo, 3_000);
            assert_eq!(a.is_native.map(|r| r.lo), Some(2_000));
        },
        _ => panic!("not initialized"),
    }
}

#[test]
fn initialize_errors() {
    let c = config();
    let mut few = vec![handle(10, 5_000, false, RecordData::Empty), mint(1, None)];
    assert_eq!(process_initialize_account(&c, &mut few, 0), Err(TokenError::MissingAccount));
    let mut poor = vec![handle(10, 5, false, RecordData::Empty), mint(1, None), signer(30)];
    assert_eq!(process_initialize_account(&c, &mut poor, 2_000), Err(TokenError::NotRentExempt));
    let mut bad_mint =
        vec![handle(10, 5_000, false, RecordData::Empty), handle(1, 0, false, RecordData::Empty), signer(30)];
    assert_eq!(process_initialize_account(&c, &mut bad_mint, 0), Err(TokenError::InvalidMint));
    let mut odd = vec![handle(10, 5_000, false, RecordData::Unknown), mint(1, None), signer(30)];
    assert_eq!(process_initialize_account(&c, &mut odd, 0), Err(TokenError::InvalidAccount));
    let mut foreign = vec![handle(10, 5_000, false, RecordData::Empty), mint(1, None), signer(30)];
    foreign[0].owner = key(99);
    assert_eq!(process_initialize_account(&c, &mut foreign, 0), Err(TokenError::WrongOwner));
}

#[test]
fn freeze_then_thaw_restores_initialized() {
    let c = config();
    let mut accounts = vec![token_account(10, 1, 30, 50, false), mint(1, Some(key(40))), signer(40)];
    assert_eq!(process_freeze_account(&c, &mut accounts), Ok(()));
    assert_eq!(state_of(&accounts[0]), AccountState::Frozen);
    assert_eq!(process_freeze_account(&c, &mut accounts), Err(TokenError::InvalidState));
    assert_eq!(process_thaw_account(&c, &mut accounts), Ok(()));
    assert_eq!(state_of(&accounts[0]), AccountState::Initialized);
    assert_eq!(amount_of(&accounts[0]), 50);
}

#[test]
fn thaw_of_initialized_account_fails() {
    let c = config();
    let mut accounts = vec![token_account(10, 1, 30, 50, false), mint(1, Some(key(40))), signer(40)];
    assert_eq!(process_thaw_account(&c, &mut accounts), Err(TokenError::InvalidState));
    assert_eq!(state_of(&accounts[0]), AccountState::Initialized);
}

#[test]
fn toggle_without_freeze_authority_fails() {
    let c = config();
    let mut accounts = vec![token_account(10, 1, 30, 50, false), mint(1, None), signer(40)];
    assert_eq!(process_toggle_account_state(&c, &mut accounts, true), Err(TokenError::MintCannotFreeze));
    assert_eq!(state_of(&accounts[0]), AccountState::Initialized);
}

#[test]
fn toggle_errors() {
    let c = config();
    let mut wrong_mint = vec![token_account(10, 1, 30, 50, false), mint(2, Some(key(40))), signer(40)];
    assert_eq!(process_freeze_account(&c, &mut wrong_mint), Err(TokenError::MintMismatch));
    let mut unsigned = vec![token_account(10, 1, 30, 50, false), mint(1, Some(key(40))), signer(40)];
    unsigned[2].is_signer = false;
    assert_eq!(process_freeze_account(&c, &mut unsigned), Err(TokenError::AuthorityError));
    let mut wrong_key = vec![token_account(10, 1, 30, 50, false), mint(1, Some(key(40))), signer(41)];
    assert_eq!(process_freeze_account(&c, &mut wrong_key), Err(TokenError::AuthorityError));
    let mut not_account = vec![signer(10), mint(1, Some(key(40))), signer(40)];
    assert_eq!(process_freeze_account(&c, &mut not_account), Err(TokenError::InvalidAccount));
}

#[test]
fn multisig_two_of_three() {
    let c = config();
    let ms = multisig(50, 2, &[61, 62, 63]);
    assert_eq!(validate_owner(&c.program_id, &key(50), &ms, &[signer(61)]), Err(TokenError::AuthorityError));
    assert_eq!(validate_owner(&c.program_id, &key(50), &ms, &[signer(61), signer(63)]), Ok(()));
    assert_eq!(validate_owner(&c.program_id, &key(50), &ms, &[signer(63), signer(61)]), Ok(()));
    assert_eq!(
        validate_owner(&c.program_id, &key(50), &ms, &[signer(62), signer(63), signer(61)]),
        Ok(())
    );
    assert_eq!(
        validate_owner(&c.program_id, &key(50), &ms, &[signer(99), signer(61), signer(61)]),
        Err(TokenError::AuthorityError)
    );
    let mut unsigned = signer(62);
    unsigned.is_signer = false;
    assert_eq!(
        validate_owner(&c.program_id, &key(50), &ms, &[signer(61), unsigned]),
        Err(TokenError::AuthorityError)
    );
    let mut broken = multisig(50, 4, &[61, 62, 63]);
    assert_eq!(
        validate_owner(&c.program_id, &key(50), &broken, &[signer(61), signer(62)]),
        Err(TokenError::InvalidAccount)
    );
    broken.owner = key(99);
    broken.is_signer = true;
    assert_eq!(validate_owner(&c.program_id, &key(50), &broken, &[]), Ok(()));
}

#[test]
fn unwrap_moves_units_and_conserves() {
    let c = config();
    let mut accounts =
        vec![token_account(10, NATIVE, 30, 500, true), handle(20, 7, false, RecordData::Empty), signer(30)];
    let before = amount_of(&accounts[0]) + accounts[1].lamports as u128;
    let lamports_before = accounts[0].lamports + accounts[1].lamports;
    assert_eq!(process_unwrap_lamports(&c, &mut accounts, &unwrap_data(Some(200))), Ok(()));
    assert_eq!(amount_of(&accounts[0]), 300);
    assert_eq!(accounts[1].lamports, 207);
    assert_eq!(amount_of(&accounts[0]) + accounts[1].lamports as u128, before);
    assert_eq!(accounts[0].lamports + accounts[1].lamports, lamports_before);
    assert_eq!(process_unwrap_lamports(&c, &mut accounts, &unwrap_data(None)), Ok(()));
    assert_eq!(amount_of(&accounts[0]), 0);
    assert_eq!(accounts[1].lamports, 507);
    assert_eq!(accounts[0].lamports, 2_000);
}

#[test]
fn unwrap_more_than_balance_fails() {
    let c = config();
    let mut accounts =
        vec![token_account(10, NATIVE, 30, 500, true), handle(20, 7, false, RecordData::Empty), signer(30)];
    assert_eq!(
        process_unwrap_lamports(&c, &mut accounts, &unwrap_data(Some(501))),
        Err(TokenError::InsufficientFunds)
    );
    assert_eq!(amount_of(&accounts[0]), 500);
    assert_eq!(accounts[1].lamports, 7);
}

#[test]
fn unwrap_to_same_account_only_lowers_balance() {
    let c = config();
    let mut accounts = vec![
        token_account(10, NATIVE, 30, 500, true),
        token_account(10, NATIVE, 30, 500, true),
        signer(30),
    ];
    assert_eq!(process_unwrap_lamports(&c, &mut accounts, &unwrap_data(Some(100))), Ok(()));
    assert_eq!(amount_of(&accounts[0]), 400);
    assert_eq!(accounts[0].lamports, 2_500);
}

#[test]
fn unwrap_zero_checks_owner_only() {
    let c = config();
    let mut accounts =
        vec![token_account(10, NATIVE, 30, 500, true), handle(20, 7, false, RecordData::Empty), signer(30)];
    assert_eq!(process_unwrap_lamports(&c, &mut accounts, &unwrap_data(Some(0))), Ok(()));
    assert_eq!(amount_of(&accounts[0]), 500);
    accounts[0].owner = key(99);
    assert_eq!(
        process_unwrap_lamports(&c, &mut accounts, &unwrap_data(Some(0))),
        Err(TokenError::WrongOwner)
    );
}

#[test]
fn unwrap_with_multisig_owner() {
    let c = config();
    let mut accounts = vec![
        token_account(10, NATIVE, 50, 500, true),
        handle(20, 7, false, RecordData::Empty),
        multisig(50, 2, &[61, 62, 63]),
        signer(62),
    ];
    assert_eq!(
        process_unwrap_lamports(&c, &mut accounts, &unwrap_data(Some(10))),
        Err(TokenError::AuthorityError)
    );
    accounts.push(signer(63));
    assert_eq!(process_unwrap_lamports(&c, &mut accounts, &unwrap_data(Some(10))), Ok(()));
    assert_eq!(amount_of(&accounts[0]), 490);
}

#[test]
fn unwrap_errors() {
    let c = config();
    let fresh = || {
        vec![token_account(10, NATIVE, 30, 500, true), handle(20, 7, false, RecordData::Empty), signer(30)]
    };
    let mut a = fresh();
    assert_eq!(process_unwrap_lamports(&c, &mut a, &[]), Err(TokenError::MalformedInstruction));
    assert_eq!(process_unwrap_lamports(&c, &mut a, &[2]), Err(TokenError::MalformedInstruction));
    assert_eq!(process_unwrap_lamports(&c, &mut a, &[1, 0, 0]), Err(TokenError::MalformedInstruction));
    let mut short = vec![token_account(10, NATIVE, 30, 500, true), signer(30)];
    assert_eq!(process_unwrap_lamports(&c, &mut short, &[0]), Err(TokenError::MissingAccount));
    let mut plain = vec![token_account(10, 1, 30, 500, false), handle(20, 7, false, RecordData::Empty), signer(30)];
    assert_eq!(process_unwrap_lamports(&c, &mut plain, &[0]), Err(TokenError::NonNativeNotSupported));
    let mut frozen = fresh();
    if let RecordData::Account(ref mut acc) = frozen[0].data {
        acc.state = AccountState::Frozen;
    }
    assert_eq!(process_unwrap_lamports(&c, &mut frozen, &[0]), Err(TokenError::AccountFrozen));
    let mut poor = fresh();
    poor[0].lamports = 10;
    assert_eq!(process_unwrap_lamports(&c, &mut poor, &[0]), Err(TokenError::InsufficientFunds));
    let mut full = fresh();
    full[1].lamports = u64::MAX;
    assert_eq!(process_unwrap_lamports(&c, &mut full, &[0]), Err(TokenError::ArithmeticOverflow));
    let mut huge = fresh();
    if let RecordData::Account(ref mut acc) = huge[0].data {
        acc.amount = Amount { hi: 0, lo: u64::MAX as u128 + 5 };
    }
    assert_eq!(process_unwrap_lamports(&c, &mut huge, &[0]), Err(TokenError::InsufficientFunds));
    let mut unsigned = fresh();
    unsigned[2].is_signer = false;
    assert_eq!(process_unwrap_lamports(&c, &mut unsigned, &[0]), Err(TokenError::AuthorityError));
    let mut not_account = fresh();
    not_account[0].data = RecordData::Empty;
    assert_eq!(process_unwrap_lamports(&c, &mut not_account, &[0]), Err(TokenError::InvalidAccount));
}
