use crate::error::TokenError;
use crate::state::{key_eq, AccountInfo, Multisig, Pubkey, RecordData};
use vstd::prelude::*;

verus! {

/// The keys of the handles in `signers` that carry a valid signature.
pub open spec fn signing_keys(signers: Seq<AccountInfo>) -> Set<Seq<u8>> {
    Set::new(
        |k: Seq<u8>|
            exists|j: int|
                0 <= j < signers.len() && (#[trigger] signers[j]).is_signer && signers[j].key.bytes@
                    == k,
    )
}

/// How many of the first `k` signer positions of `ms` hold a key of `keys`.
pub open spec fn approved_count(ms: Multisig, keys: Set<Seq<u8>>, k: nat) -> nat
    decreases k,
{
    if k == 0 {
        0
    } else {
        approved_count(ms, keys, (k - 1) as nat) + if keys.contains(
            ms.signers@[k - 1].bytes@,
        ) {
            1nat
        } else {
            0nat
        }
    }
}

/// Whether `info` authorizes acting as `expected`, with `signers` as the
/// further signatures a multisig may draw on.
pub open spec fn validate_owner_spec(
    program_id: Pubkey,
    expected: Pubkey,
    info: AccountInfo,
    signers: Seq<AccountInfo>,
) -> Result<(), TokenError> {
    if info.key.bytes@ != expected.bytes@ {
        Err(TokenError::AuthorityError)
    } else {
        match info.data {
            RecordData::Multisig(ms) => {
                if info.owner.bytes@ != program_id.bytes@ {
                    if info.is_signer {
                        Ok(())
                    } else {
                        Err(TokenError::AuthorityError)
                    }
                } else if !ms.wf() {
                    Err(TokenError::InvalidAccount)
                } else if approved_count(ms, signing_keys(signers), ms.n as nat) < ms.m {
                    Err(TokenError::AuthorityError)
                } else {
                    Ok(())
                }
            },
            _ => {
                if info.is_signer {
                    Ok(())
                } else {
                    Err(TokenError::AuthorityError)
                }
            },
        }
    }
}

/// Whether some handle of `signers` carries a valid signature for `key`.
fn has_signature(key: &Pubkey, signers: &[AccountInfo]) -> (r: bool)
    ensures
        r == signing_keys(signers@).contains(key.bytes@),
{
    let mut j: usize = 0;
    while j < signers.len()
        invariant
            j <= signers@.len(),
            forall|i: int|
                0 <= i < j ==> !((#[trigger] signers@[i]).is_signer && signers@[i].key.bytes@
                    == key.bytes@),
        decreases signers.len() - j,
    {
        if signers[j].is_signer && key_eq(&signers[j].key, key) {
            assert(signing_keys(signers@).contains(key.bytes@)) by {
                assert(signers@[j as int].is_signer && signers@[j as int].key.bytes@ == key.bytes@);
            }
            return true;
        }
        j += 1;
    }
    false
}

/// Counts the signer positions of a well-formed multisig whose key signed.
fn count_approved(ms: &Multisig, signers: &[AccountInfo]) -> (r: u8)
    requires
        ms.wf(),
    ensures
        r as nat == approved_count(*ms, signing_keys(signers@), ms.n as nat),
{
    let mut count: u8 = 0;
    let mut p: usize = 0;
    while p < ms.n as usize
        invariant
            ms.wf(),
            p <= ms.n as usize,
            count as nat == approved_count(*ms, signing_keys(signers@), p as nat),
            count as nat <= p,
        decreases ms.n as usize - p,
    {
        if has_signature(&ms.signers[p], signers) {
            count += 1;
        }
        p += 1;
    }
    count
}

/// Checks that `info` may act as `expected`: a single key must have signed,
/// and a multisig owned by the program needs `m` of its signers among the
/// signing handles of `signers`.
pub fn validate_owner(
    program_id: &Pubkey,
    expected: &Pubkey,
    info: &AccountInfo,
    signers: &[AccountInfo],
) -> (r: Result<(), TokenError>)
    ensures
        r == validate_owner_spec(*program_id, *expected, *info, signers@),
{
    if !key_eq(&info.key, expected) {
        return Err(TokenError::AuthorityError);
    }
    match &info.data {
        RecordData::Multisig(ms) => {
            if !key_eq(&info.owner, program_id) {
                if info.is_signer {
                    Ok(())
                } else {
                    Err(TokenError::AuthorityError)
                }
            } else if !(ms.is_initialized && 1 <= ms.m && ms.m <= ms.n && ms.n as usize
                <= crate::state::MAX_SIGNERS) {
                Err(TokenError::InvalidAccount)
            } else if count_approved(ms, signers) < ms.m {
                Err(TokenError::AuthorityError)
            } else {
                Ok(())
            }
        },
        _ => {
            if info.is_signer {
                Ok(())
            } else {
                Err(TokenError::AuthorityError)
            }
        },
    }
}

} // verus!
