use crate::amount::{le_value, unpack_amount, word_base, Amount};
use crate::authority::{validate_owner, validate_owner_spec};
use crate::error::TokenError;
use crate::format::{amount_to_ui_amount, ui_amount_spec};
use crate::state::{key_eq, Account, AccountInfo, AccountState, Config, RecordData};
use vstd::arithmetic::div_mod::lemma_fundamental_div_mod_converse;
use vstd::prelude::*;
use vstd::slice::slice_subrange;

verus! {

/// The amount whose value is `v`, for `v < 2^256`.
pub open spec fn amount_of(v: nat) -> Amount {
    Amount { hi: (v / word_base()) as u128, lo: (v % word_base()) as u128 }
}

/// An amount is determined by its value.
pub proof fn lemma_amount_of_view(a: Amount)
    ensures
        amount_of(a@) == a,
{
    lemma_fundamental_div_mod_converse(
        a@ as int,
        word_base() as int,
        a.hi as int,
        a.lo as int,
    );
}

/// The handles after a conversion: none change, the output is the UI amount.
pub open spec fn ui_amount_outcome(
    config: Config,
    accounts: Seq<AccountInfo>,
    data: Seq<u8>,
) -> Result<Seq<u8>, TokenError> {
    if data.len() < 32 {
        Err(TokenError::MalformedInstruction)
    } else if accounts.len() < 1 {
        Err(TokenError::MissingAccount)
    } else if accounts[0].owner.bytes@ != config.program_id.bytes@ {
        Err(TokenError::WrongOwner)
    } else {
        match accounts[0].data {
            RecordData::Mint(m) => {
                if m.is_initialized {
                    Ok(ui_amount_spec(le_value(data.subrange(0, 32)), m.decimals as nat))
                } else {
                    Err(TokenError::InvalidMint)
                }
            },
            _ => Err(TokenError::InvalidMint),
        }
    }
}

/// Converts the amount in `instruction_data` to its human-readable form for
/// the mint of the first handle, and returns the bytes of that form.
pub fn process_amount_to_ui_amount(
    config: &Config,
    accounts: &[AccountInfo],
    instruction_data: &[u8],
) -> (r: Result<Vec<u8>, TokenError>)
    ensures
        match r {
            Ok(v) => ui_amount_outcome(*config, accounts@, instruction_data@) == Ok::<
                Seq<u8>,
                TokenError,
            >(v@),
            Err(e) => ui_amount_outcome(*config, accounts@, instruction_data@) == Err::<
                Seq<u8>,
                TokenError,
            >(e),
        },
{
    let amount = match unpack_amount(instruction_data) {
        Some(a) => a,
        None => return Err(TokenError::MalformedInstruction),
    };
    if accounts.len() < 1 {
        return Err(TokenError::MissingAccount);
    }
    let mint_info = &accounts[0];
    if !key_eq(&mint_info.owner, &config.program_id) {
        return Err(TokenError::WrongOwner);
    }
    match &mint_info.data {
        RecordData::Mint(m) => {
            if m.is_initialized {
                Ok(amount_to_ui_amount(&amount, m.decimals))
            } else {
                Err(TokenError::InvalidMint)
            }
        },
        _ => Err(TokenError::InvalidMint),
    }
}

/// The handles after a freeze (`freeze`) or a thaw of the account in the
/// first handle, with the mint second and the authority third.
pub open spec fn toggle_outcome(
    config: Config,
    accounts: Seq<AccountInfo>,
    freeze: bool,
) -> Result<Seq<AccountInfo>, TokenError> {
    if accounts.len() < 3 {
        Err(TokenError::MissingAccount)
    } else {
        let src = accounts[0];
        match src.data {
            RecordData::Account(a) => {
                if a.state == AccountState::Uninitialized {
                    Err(TokenError::InvalidAccount)
                } else if src.owner.bytes@ != config.program_id.bytes@ {
                    Err(TokenError::WrongOwner)
                } else if freeze == (a.state == AccountState::Frozen) {
                    Err(TokenError::InvalidState)
                } else if accounts[1].key.bytes@ != a.mint.bytes@ {
                    Err(TokenError::MintMismatch)
                } else {
                    match accounts[1].data {
                        RecordData::Mint(m) => {
                            if !m.is_initialized {
                                Err(TokenError::InvalidMint)
                            } else {
                                match m.freeze_authority {
                                    None => Err(TokenError::MintCannotFreeze),
                                    Some(fa) => {
                                        match validate_owner_spec(
                                            config.program_id,
                                            fa,
                                            accounts[2],
                                            accounts.subrange(3, accounts.len() as int),
                                        ) {
                                            Err(e) => Err(e),
                                            Ok(_) => Ok(
                                                accounts.update(
                                                    0,
                                                    AccountInfo {
                                                        data: RecordData::Account(
                                                            Account {
                                                                state: if freeze {
                                                                    AccountState::Frozen
                                                                } else {
                                                                    AccountState::Initialized
                                                                },
                                                                ..a
                                                            },
                                                        ),
                                                        ..src
                                                    },
                                                ),
                                            ),
                                        }
                                    },
                                }
                            }
                        },
                        _ => Err(TokenError::InvalidMint),
                    }
                }
            },
            _ => Err(TokenError::InvalidAccount),
        }
    }
}

/// Freezes (`freeze`) or thaws the account in the first handle, on the
/// authority of the mint's freeze authority.
pub fn process_toggle_account_state(
    config: &Config,
    accounts: &mut Vec<AccountInfo>,
    freeze: bool,
) -> (r: Result<(), TokenError>)
    ensures
        match r {
            Ok(_) => toggle_outcome(*config, old(accounts)@, freeze) == Ok::<
                Seq<AccountInfo>,
                TokenError,
            >(final(accounts)@),
            Err(e) => toggle_outcome(*config, old(accounts)@, freeze) == Err::<
                Seq<AccountInfo>,
                TokenError,
            >(e) && final(accounts)@ == old(accounts)@,
        },
{
    if accounts.len() < 3 {
        return Err(TokenError::MissingAccount);
    }
    let src = accounts[0];
    let a = match src.data {
        RecordData::Account(a) => a,
        _ => return Err(TokenError::InvalidAccount),
    };
    if a.state == AccountState::Uninitialized {
        return Err(TokenError::InvalidAccount);
    }
    if !key_eq(&src.owner, &config.program_id) {
        return Err(TokenError::WrongOwner);
    }
    if freeze == (a.state == AccountState::Frozen) {
        return Err(TokenError::InvalidState);
    }
    if !key_eq(&accounts[1].key, &a.mint) {
        return Err(TokenError::MintMismatch);
    }
    let m = match accounts[1].data {
        RecordData::Mint(m) => m,
        _ => return Err(TokenError::InvalidMint),
    };
    if !m.is_initialized {
        return Err(TokenError::InvalidMint);
    }
    let fa = match m.freeze_authority {
        Some(fa) => fa,
        None => return Err(TokenError::MintCannotFreeze),
    };
    let all = accounts.as_slice();
    let remaining = slice_subrange(all, 3, all.len());
    match validate_owner(&config.program_id, &fa, &all[2], remaining) {
        Err(e) => return Err(e),
        Ok(_) => {},
    }
    let mut a2 = a;
    a2.state = if freeze {
        AccountState::Frozen
    } else {
        AccountState::Initialized
    };
    let mut info = src;
    info.data = RecordData::Account(a2);
    accounts.set(0, info);
    Ok(())
}

/// Freezes the account in the first handle.
pub fn process_freeze_account(config: &Config, accounts: &mut Vec<AccountInfo>) -> (r: Result<
    (),
    TokenError,
>)
    ensures
        match r {
            Ok(_) => toggle_outcome(*config, old(accounts)@, true) == Ok::<
                Seq<AccountInfo>,
                TokenError,
            >(final(accounts)@),
            Err(e) => toggle_outcome(*config, old(accounts)@, true) == Err::<
                Seq<AccountInfo>,
                TokenError,
            >(e) && final(accounts)@ == old(accounts)@,
        },
{
    process_toggle_account_state(config, accounts, true)
}

/// Thaws the frozen account in the first handle.
pub fn process_thaw_account(config: &Config, accounts: &mut Vec<AccountInfo>) -> (r: Result<
    (),
    TokenError,
>)
    ensures
        match r {
            Ok(_) => toggle_outcome(*config, old(accounts)@, false) == Ok::<
                Seq<AccountInfo>,
                TokenError,
            >(final(accounts)@),
            Err(e) => toggle_outcome(*config, old(accounts)@, false) == Err::<
                Seq<AccountInfo>,
                TokenError,
            >(e) && final(accounts)@ == old(accounts)@,
        },
{
    process_toggle_account_state(config, accounts, false)
}

/// Whether storage holding `data` may receive a new account record.
pub open spec fn storage_check(data: RecordData) -> Result<(), TokenError> {
    match data {
        RecordData::Empty => Ok(()),
        RecordData::Account(a) => {
            if a.state == AccountState::Uninitialized {
                Ok(())
            } else {
                Err(TokenError::AlreadyInitialized)
            }
        },
        _ => Err(TokenError::InvalidAccount),
    }
}

/// The record written by an initialization of `new` for the mint `mint` and
/// owner `owner`, holding back `reserve` when the mint is the native one.
pub open spec fn new_account_spec(
    new: AccountInfo,
    mint: AccountInfo,
    owner: AccountInfo,
    reserve: u64,
    native: bool,
) -> Account {
    Account {
        mint: mint.key,
        owner: owner.key,
        amount: if native {
            Amount { hi: 0, lo: (new.lamports - reserve) as u128 }
        } else {
            Amount { hi: 0, lo: 0 }
        },
        delegate: None,
        state: AccountState::Initialized,
        is_native: if native {
            Some(Amount { hi: 0, lo: reserve as u128 })
        } else {
            None
        },
    }
}

/// The handles after initializing the account in the first handle for the
/// mint in the second and the owner in the third; `reserve` is the host's
/// minimum balance for the storage.
pub open spec fn initialize_outcome(
    config: Config,
    accounts: Seq<AccountInfo>,
    reserve: u64,
) -> Result<Seq<AccountInfo>, TokenError> {
    if accounts.len() < 3 {
        Err(TokenError::MissingAccount)
    } else {
        let new = accounts[0];
        let mint = accounts[1];
        let native = mint.key.bytes@ == config.native_mint.bytes@;
        if new.owner.bytes@ != config.program_id.bytes@ {
            Err(TokenError::WrongOwner)
        } else if storage_check(new.data) is Err {
            Err(storage_check(new.data)->Err_0)
        } else if new.lamports < reserve {
            Err(TokenError::NotRentExempt)
        } else if !native && mint.owner.bytes@ != config.program_id.bytes@ {
            Err(TokenError::WrongOwner)
        } else if !native && !(mint.data matches RecordData::Mint(m) && m.is_initialized) {
            Err(TokenError::InvalidMint)
        } else {
            Ok(
                accounts.update(
                    0,
                    AccountInfo {
                        data: RecordData::Account(
                            new_account_spec(new, mint, accounts[2], reserve, native),
                        ),
                        ..new
                    },
                ),
            )
        }
    }
}

/// Writes a new account record into the first handle, for the mint in the
/// second and the owner in the third. An account of the native mint holds
/// back `rent_exempt_reserve` and records the rest of its units as balance.
pub fn process_initialize_account(
    config: &Config,
    accounts: &mut Vec<AccountInfo>,
    rent_exempt_reserve: u64,
) -> (r: Result<(), TokenError>)
    ensures
        match r {
            Ok(_) => initialize_outcome(*config, old(accounts)@, rent_exempt_reserve) == Ok::<
                Seq<AccountInfo>,
                TokenError,
            >(final(accounts)@),
            Err(e) => initialize_outcome(*config, old(accounts)@, rent_exempt_reserve) == Err::<
                Seq<AccountInfo>,
                TokenError,
            >(e) && final(accounts)@ == old(accounts)@,
        },
{
    if accounts.len() < 3 {
        return Err(TokenError::MissingAccount);
    }
    let new = accounts[0];
    let mint = accounts[1];
    let owner = accounts[2];
    let native = key_eq(&mint.key, &config.native_mint);
    if !key_eq(&new.owner, &config.program_id) {
        return Err(TokenError::WrongOwner);
    }
    match new.data {
        RecordData::Empty => {},
        RecordData::Account(a) => {
            if a.state != AccountState::Uninitialized {
                return Err(TokenError::AlreadyInitialized);
            }
        },
        _ => return Err(TokenError::InvalidAccount),
    }
    if new.lamports < rent_exempt_reserve {
        return Err(TokenError::NotRentExempt);
    }
    if !native {
        if !key_eq(&mint.owner, &config.program_id) {
            return Err(TokenError::WrongOwner);
        }
        match mint.data {
            RecordData::Mint(m) => {
                if !m.is_initialized {
                    return Err(TokenError::InvalidMint);
                }
            },
            _ => return Err(TokenError::InvalidMint),
        }
    }
    let account = Account {
        mint: mint.key,
        owner: owner.key,
        amount: if native {
            Amount { hi: 0, lo: (new.lamports - rent_exempt_reserve) as u128 }
        } else {
            Amount { hi: 0, lo: 0 }
        },
        delegate: None,
        state: AccountState::Initialized,
        is_native: if native {
            Some(Amount { hi: 0, lo: rent_exempt_reserve as u128 })
        } else {
            None
        },
    };
    let mut info = new;
    info.data = RecordData::Account(account);
    accounts.set(0, info);
    Ok(())
}

/// The base-currency units an unwrap withdraws from an account holding
/// `a`: the explicit amount when the flag byte is 1, else the whole balance.
pub open spec fn withdrawn_spec(a: Account, data: Seq<u8>) -> nat {
    if data[0] == 1 {
        le_value(data.subrange(1, 33))
    } else {
        a.amount@
    }
}

/// The handles after unwrapping native units from the account in the first
/// handle to the second, on the authority of the third.
pub open spec fn unwrap_outcome(
    config: Config,
    accounts: Seq<AccountInfo>,
    data: Seq<u8>,
) -> Result<Seq<AccountInfo>, TokenError> {
    if data.len() == 0 || data[0] > 1 || (data[0] == 1 && data.len() < 33) {
        Err(TokenError::MalformedInstruction)
    } else if accounts.len() < 3 {
        Err(TokenError::MissingAccount)
    } else {
        let src = accounts[0];
        let dst = accounts[1];
        match src.data {
            RecordData::Account(a) => {
                if a.state == AccountState::Uninitialized {
                    Err(TokenError::InvalidAccount)
                } else if a.is_native is None {
                    Err(TokenError::NonNativeNotSupported)
                } else if a.state == AccountState::Frozen {
                    Err(TokenError::AccountFrozen)
                } else {
                    match validate_owner_spec(
                        config.program_id,
                        a.owner,
                        accounts[2],
                        accounts.subrange(3, accounts.len() as int),
                    ) {
                        Err(e) => Err(e),
                        Ok(_) => {
                            let w = withdrawn_spec(a, data);
                            let src2 = AccountInfo {
                                data: RecordData::Account(
                                    Account { amount: amount_of((a.amount@ - w) as nat), ..a },
                                ),
                                ..src
                            };
                            if w > a.amount@ || w > u64::MAX {
                                Err(TokenError::InsufficientFunds)
                            } else if w == 0 {
                                if src.owner.bytes@ != config.program_id.bytes@ {
                                    Err(TokenError::WrongOwner)
                                } else {
                                    Ok(accounts)
                                }
                            } else if src.key.bytes@ == dst.key.bytes@ {
                                Ok(accounts.update(0, src2))
                            } else if src.lamports < w {
                                Err(TokenError::InsufficientFunds)
                            } else if dst.lamports + w > u64::MAX {
                                Err(TokenError::ArithmeticOverflow)
                            } else {
                                Ok(
                                    accounts.update(
                                        0,
                                        AccountInfo { lamports: (src.lamports - w) as u64, ..src2 },
                                    ).update(
                                        1,
                                        AccountInfo { lamports: (dst.lamports + w) as u64, ..dst },
                                    ),
                                )
                            }
                        },
                    }
                }
            },
            _ => Err(TokenError::InvalidAccount),
        }
    }
}

/// Withdraws native units from the wrapped-native account in the first
/// handle: its balance goes down by the amount, and its base-currency units
/// move to the second handle when that is another account.
pub fn process_unwrap_lamports(
    config: &Config,
    accounts: &mut Vec<AccountInfo>,
    instruction_data: &[u8],
) -> (r: Result<(), TokenError>)
    ensures
        match r {
            Ok(_) => unwrap_outcome(*config, old(accounts)@, instruction_data@) == Ok::<
                Seq<AccountInfo>,
                TokenError,
            >(final(accounts)@),
            Err(e) => unwrap_outcome(*config, old(accounts)@, instruction_data@) == Err::<
                Seq<AccountInfo>,
                TokenError,
            >(e) && final(accounts)@ == old(accounts)@,
        },
{
    if instruction_data.len() == 0 {
        return Err(TokenError::MalformedInstruction);
    }
    let has_amount = instruction_data[0];
    let explicit = if has_amount == 0 {
        None
    } else if has_amount == 1 {
        match unpack_amount(slice_subrange(instruction_data, 1, instruction_data.len())) {
            Some(amount) => Some(amount),
            None => return Err(TokenError::MalformedInstruction),
        }
    } else {
        return Err(TokenError::MalformedInstruction);
    };
    proof {
        if has_amount == 1 {
            assert(instruction_data@.subrange(1, instruction_data@.len() as int).subrange(0, 32)
                =~= instruction_data@.subrange(1, 33));
        }
    }
    if accounts.len() < 3 {
        return Err(TokenError::MissingAccount);
    }
    let src = accounts[0];
    let dst = accounts[1];
    let a = match src.data {
        RecordData::Account(a) => a,
        _ => return Err(TokenError::InvalidAccount),
    };
    if a.state == AccountState::Uninitialized {
        return Err(TokenError::InvalidAccount);
    }
    if a.is_native.is_none() {
        return Err(TokenError::NonNativeNotSupported);
    }
    if a.state == AccountState::Frozen {
        return Err(TokenError::AccountFrozen);
    }
    let all = accounts.as_slice();
    let remaining = slice_subrange(all, 3, all.len());
    match validate_owner(&config.program_id, &a.owner, &all[2], remaining) {
        Err(e) => return Err(e),
        Ok(_) => {},
    }
    let (withdrawn, left) = match explicit {
        Some(amount) => match a.amount.checked_sub(&amount) {
            Some(left) => (amount, left),
            None => return Err(TokenError::InsufficientFunds),
        },
        None => (a.amount, Amount::zero()),
    };
    let w = match withdrawn.to_u64() {
        Some(w) => w,
        None => return Err(TokenError::InsufficientFunds),
    };
    proof {
        lemma_amount_of_view(left);
    }
    if w == 0 {
        if !key_eq(&src.owner, &config.program_id) {
            return Err(TokenError::WrongOwner);
        }
        return Ok(());
    }
    let mut a2 = a;
    a2.amount = left;
    let mut src2 = src;
    src2.data = RecordData::Account(a2);
    if key_eq(&src.key, &dst.key) {
        accounts.set(0, src2);
        return Ok(());
    }
    if src.lamports < w {
        return Err(TokenError::InsufficientFunds);
    }
    if dst.lamports > u64::MAX - w {
        return Err(TokenError::ArithmeticOverflow);
    }
    src2.lamports = src.lamports - w;
    let mut dst2 = dst;
    dst2.lamports = dst.lamports + w;
    accounts.set(0, src2);
    accounts.set(1, dst2);
    Ok(())
}

} // verus!
