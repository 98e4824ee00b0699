use crate::amount::{le_value, word_base, Amount};
use crate::authority::{approved_count, signing_keys, validate_owner_spec};
use crate::processor::{amount_of, toggle_outcome, unwrap_outcome, withdrawn_spec};
use crate::state::{AccountInfo, AccountState, Config, Multisig, Pubkey, RecordData};
use vstd::arithmetic::div_mod::lemma_fundamental_div_mod;
use crate::format::{digit_char, digit_count, digits_of, format_spec, parse_digits, pow10};
use vstd::prelude::*;

verus! {

proof fn lemma_parse_concat(a: Seq<u8>, b: Seq<u8>)
    ensures
        parse_digits(a + b) == parse_digits(a) * pow10(digit_count(b)) + parse_digits(b),
    decreases b.len(),
{
    if b.len() == 0 {
        assert(a + b =~= a);
        assert(parse_digits(b) == 0);
        assert(pow10(digit_count(b)) == 1);
        assert(parse_digits(a) * 1 == parse_digits(a));
    } else {
        let b1 = b.drop_last();
        assert((a + b).drop_last() =~= a + b1);
        assert((a + b).last() == b.last());
        lemma_parse_concat(a, b1);
        if b.last() == 46u8 {
            assert(parse_digits(a + b) == parse_digits(a + b1));
            assert(parse_digits(b) == parse_digits(b1));
            assert(digit_count(b) == digit_count(b1));
            assert(pow10(digit_count(b)) == pow10(digit_count(b1)));
        } else {
            assert(parse_digits(a + b) == parse_digits(a + b1) * 10 + ((b.last() - 48) as nat));
            assert(parse_digits(b) == parse_digits(b1) * 10 + ((b.last() - 48) as nat));
            assert(digit_count(b) == digit_count(b1) + 1);
            assert(pow10(digit_count(b)) == 10 * pow10(digit_count(b1)));
            let pa = parse_digits(a);
            let p1 = pow10(digit_count(b1));
            let q1 = parse_digits(b1);
            let d = (b.last() - 48) as nat;
            assert(parse_digits(a + b1) == pa * p1 + q1);
            assert((pa * p1 + q1) * 10 + d == pa * (10 * p1) + (q1 * 10 + d))
                by (nonlinear_arith);
            assert(parse_digits(a + b) == pa * pow10(digit_count(b)) + parse_digits(b));
        }
    }
}

proof fn lemma_parse_digits_of(n: nat)
    ensures
        parse_digits(digits_of(n)) == n,
    decreases n,
{
    if n < 10 {
        let s = digits_of(n);
        assert(s == seq![digit_char(n)]);
        assert(s.drop_last() =~= Seq::<u8>::empty());
        assert(parse_digits(s.drop_last()) == 0);
        assert(s.last() == digit_char(n));
        assert(parse_digits(s) == parse_digits(s.drop_last()) * 10 + ((s.last() - 48) as nat));
    } else {
        let s = digits_of(n);
        lemma_parse_digits_of(n / 10);
        assert(s == digits_of(n / 10).push(digit_char(n % 10)));
        assert(s.drop_last() =~= digits_of(n / 10));
        assert(s.last() == digit_char(n % 10));
        assert(parse_digits(s) == parse_digits(s.drop_last()) * 10 + ((s.last() - 48) as nat));
    }
}

proof fn lemma_parse_zeros(s: Seq<u8>)
    requires
        forall|i: int| 0 <= i < s.len() ==> (#[trigger] s[i] == 48u8 || s[i] == 46u8),
    ensures
        parse_digits(s) == 0,
    decreases s.len(),
{
    if s.len() > 0 {
        lemma_parse_zeros(s.drop_last());
    }
}

/// Formatting loses nothing: removing the point from `format_spec(n, d)` and
/// reading the digits as an integer gives back `n`, for every amount and
/// every number of decimals.
pub proof fn lemma_format_round_trip(n: nat, decimals: nat)
    ensures
        parse_digits(format_spec(n, decimals)) == n,
{
    let s = digits_of(n);
    lemma_parse_digits_of(n);
    if decimals == 0 {
    } else if s.len() <= decimals {
        let prefix = seq![48u8, 46u8] + Seq::new((decimals - s.len()) as nat, |i: int| 48u8);
        assert(format_spec(n, decimals) == prefix + s);
        lemma_parse_zeros(prefix);
        lemma_parse_concat(prefix, s);
    } else {
        let k = s.len() - decimals;
        let s1 = s.subrange(0, k);
        let s2 = s.subrange(k, s.len() as int);
        let s1p = s1 + seq![46u8];
        assert(format_spec(n, decimals) =~= s1p + s2);
        assert(s1p.drop_last() =~= s1);
        assert(s =~= s1 + s2);
        lemma_parse_concat(s1p, s2);
        lemma_parse_concat(s1, s2);
    }
}

/// The token balance held by a handle: the amount of its account record,
/// or nothing when it holds none.
pub open spec fn balance(info: AccountInfo) -> nat {
    match info.data {
        RecordData::Account(a) => a.amount@,
        _ => 0,
    }
}

proof fn lemma_amount_of_value(v: nat, x: Amount)
    requires
        v <= x@,
    ensures
        amount_of(v)@ == v,
{
    let b = word_base();
    assert(x@ < b * b) by (nonlinear_arith)
        requires
            x@ == (x.hi as nat) * b + (x.lo as nat),
            x.hi < b,
            x.lo < b,
    ;
    lemma_fundamental_div_mod(v as int, b as int);
    let q = v / b;
    let r = v % b;
    assert(q < b) by (nonlinear_arith)
        requires
            v < b * b,
            v == b * q + r,
            0 <= r,
            b > 0,
    ;
}

/// An unwrap between two distinct accounts creates and destroys nothing:
/// the source's token balance plus the destination's base-currency units
/// are the same before and after, and so are the base-currency units of the
/// two together.
pub proof fn lemma_unwrap_conserves(config: Config, accounts: Seq<AccountInfo>, data: Seq<u8>)
    requires
        unwrap_outcome(config, accounts, data) is Ok,
        accounts[0].key.bytes@ != accounts[1].key.bytes@,
    ensures
        ({
            let after = unwrap_outcome(config, accounts, data)->Ok_0;
            &&& after.len() == accounts.len()
            &&& after[0].key == accounts[0].key
            &&& after[1].key == accounts[1].key
            &&& balance(accounts[0]) + accounts[1].lamports == balance(after[0])
                + after[1].lamports
            &&& accounts[0].lamports + accounts[1].lamports == after[0].lamports
                + after[1].lamports
        }),
{
    let a = accounts[0].data->Account_0;
    let w = withdrawn_spec(a, data);
    if w > 0 && w <= a.amount@ {
        lemma_amount_of_value((a.amount@ - w) as nat, a.amount);
    }
}

/// The handles after the unwraps whose payloads are `steps`, applied in
/// order, or the first error.
pub open spec fn unwrap_run(
    config: Config,
    accounts: Seq<AccountInfo>,
    steps: Seq<Seq<u8>>,
) -> Result<Seq<AccountInfo>, crate::error::TokenError>
    decreases steps.len(),
{
    if steps.len() == 0 {
        Ok(accounts)
    } else {
        match unwrap_outcome(config, accounts, steps[0]) {
            Err(e) => Err(e),
            Ok(next) => unwrap_run(config, next, steps.drop_first()),
        }
    }
}

/// Any run of successful unwraps between two distinct accounts creates and
/// destroys nothing, as each single unwrap does.
pub proof fn lemma_unwrap_run_conserves(
    config: Config,
    accounts: Seq<AccountInfo>,
    steps: Seq<Seq<u8>>,
)
    requires
        unwrap_run(config, accounts, steps) is Ok,
        accounts.len() >= 2,
        accounts[0].key.bytes@ != accounts[1].key.bytes@,
    ensures
        ({
            let after = unwrap_run(config, accounts, steps)->Ok_0;
            &&& after.len() == accounts.len()
            &&& balance(accounts[0]) + accounts[1].lamports == balance(after[0])
                + after[1].lamports
            &&& accounts[0].lamports + accounts[1].lamports == after[0].lamports
                + after[1].lamports
        }),
    decreases steps.len(),
{
    if steps.len() > 0 {
        lemma_unwrap_conserves(config, accounts, steps[0]);
        let next = unwrap_outcome(config, accounts, steps[0])->Ok_0;
        lemma_unwrap_run_conserves(config, next, steps.drop_first());
    }
}

/// An unwrap that names more than the balance never succeeds, and once the
/// authority is accepted it fails with `InsufficientFunds`.
pub proof fn lemma_unwrap_no_overdraw(config: Config, accounts: Seq<AccountInfo>, data: Seq<u8>)
    requires
        data.len() >= 33,
        data[0] == 1,
        accounts.len() >= 3,
        accounts[0].data is Account,
        le_value(data.subrange(1, 33)) > accounts[0].data->Account_0.amount@,
    ensures
        unwrap_outcome(config, accounts, data) is Err,
        validate_owner_spec(
            config.program_id,
            accounts[0].data->Account_0.owner,
            accounts[2],
            accounts.subrange(3, accounts.len() as int),
        ) is Ok && accounts[0].data->Account_0.state == AccountState::Initialized
            && accounts[0].data->Account_0.is_native is Some ==> unwrap_outcome(
            config,
            accounts,
            data,
        ) == Err::<Seq<AccountInfo>, crate::error::TokenError>(
            crate::error::TokenError::InsufficientFunds,
        ),
{
}

proof fn lemma_approved_count_monotone(ms: Multisig, k1: Set<Seq<u8>>, k2: Set<Seq<u8>>, k: nat)
    requires
        k1.subset_of(k2),
    ensures
        approved_count(ms, k1, k) <= approved_count(ms, k2, k),
    decreases k,
{
    if k > 0 {
        lemma_approved_count_monotone(ms, k1, k2, (k - 1) as nat);
    }
}

/// Only which keys signed decides an authorization: two lists of signer
/// handles in which the same keys sign, in any order and with any repeats,
/// give the same outcome.
pub proof fn lemma_authority_order_independent(
    program_id: Pubkey,
    expected: Pubkey,
    info: AccountInfo,
    s1: Seq<AccountInfo>,
    s2: Seq<AccountInfo>,
)
    requires
        signing_keys(s1) == signing_keys(s2),
    ensures
        validate_owner_spec(program_id, expected, info, s1) == validate_owner_spec(
            program_id,
            expected,
            info,
            s2,
        ),
{
}

/// More signatures never hurt: an authorization accepted with the keys that
/// sign in `s1` is accepted with any list in which at least those keys sign.
pub proof fn lemma_authority_monotone(
    program_id: Pubkey,
    expected: Pubkey,
    info: AccountInfo,
    s1: Seq<AccountInfo>,
    s2: Seq<AccountInfo>,
)
    requires
        signing_keys(s1).subset_of(signing_keys(s2)),
        validate_owner_spec(program_id, expected, info, s1) is Ok,
    ensures
        validate_owner_spec(program_id, expected, info, s2) is Ok,
{
    if let RecordData::Multisig(ms) = info.data {
        lemma_approved_count_monotone(ms, signing_keys(s1), signing_keys(s2), ms.n as nat);
    }
}

/// Thawing an account that a freeze has just frozen succeeds, and gives back
/// exactly the handles as they were before the freeze.
pub proof fn lemma_thaw_after_freeze(config: Config, accounts: Seq<AccountInfo>)
    requires
        toggle_outcome(config, accounts, true) is Ok,
    ensures
        toggle_outcome(config, toggle_outcome(config, accounts, true)->Ok_0, false) == Ok::<
            Seq<AccountInfo>,
            crate::error::TokenError,
        >(accounts),
{
    let frozen = toggle_outcome(config, accounts, true)->Ok_0;
    assert(frozen.subrange(3, frozen.len() as int) =~= accounts.subrange(
        3,
        accounts.len() as int,
    ));
    let thawed = toggle_outcome(config, frozen, false)->Ok_0;
    assert(thawed =~= accounts);
}

/// Freezing or thawing succeeds only on a mint that has a freeze authority,
/// and only when the account is not already in the requested state.
pub proof fn lemma_toggle_gating(config: Config, accounts: Seq<AccountInfo>, freeze: bool)
    requires
        toggle_outcome(config, accounts, freeze) is Ok,
    ensures
        accounts[1].data is Mint,
        accounts[1].data->Mint_0.freeze_authority is Some,
        accounts[0].data is Account,
        freeze ==> accounts[0].data->Account_0.state == AccountState::Initialized,
        !freeze ==> accounts[0].data->Account_0.state == AccountState::Frozen,
{
}

} // verus!
