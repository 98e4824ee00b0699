use crate::amount::Amount;
use vstd::prelude::*;

verus! {

/// The largest number of signers a multisig record holds.
pub const MAX_SIGNERS: usize = 11;

/// A 32-byte public key or storage address.
#[derive(Clone, Copy, Debug)]
pub struct Pubkey {
    pub bytes: [u8; 32],
}

/// Whether two keys are the same, byte for byte.
pub fn key_eq(a: &Pubkey, b: &Pubkey) -> (r: bool)
    ensures
        r == (a.bytes@ == b.bytes@),
{
    let mut i: usize = 0;
    while i < 32
        invariant
            i <= 32,
            a.bytes@.len() == 32,
            b.bytes@.len() == 32,
            forall|j: int| 0 <= j < i ==> a.bytes@[j] == b.bytes@[j],
        decreases 32 - i,
    {
        if a.bytes[i] != b.bytes[i] {
            return false;
        }
        i += 1;
    }
    assert(a.bytes@ =~= b.bytes@);
    true
}

/// The lifecycle state of a token account.
#[derive(Clone, Copy, Debug, PartialEq, Eq, Structural)]
pub enum AccountState {
    Uninitialized,
    Initialized,
    Frozen,
}

/// The definition of one fungible asset.
#[derive(Clone, Copy, Debug)]
pub struct Mint {
    pub mint_authority: Option<Pubkey>,
    pub supply: Amount,
    pub decimals: u8,
    pub is_initialized: bool,
    pub freeze_authority: Option<Pubkey>,
}

/// One holder's balance of one mint.
#[derive(Clone, Copy, Debug)]
pub struct Account {
    pub mint: Pubkey,
    pub owner: Pubkey,
    pub amount: Amount,
    pub delegate: Option<Pubkey>,
    pub state: AccountState,
    /// The reserve held back when the account wraps the native asset.
    pub is_native: Option<Amount>,
}

/// An M-of-N signer set; the first `n` entries of `signers` are in use.
#[derive(Clone, Copy, Debug)]
pub struct Multisig {
    pub m: u8,
    pub n: u8,
    pub is_initialized: bool,
    pub signers: [Pubkey; 11],
}

impl Multisig {
    /// An initialized record with `1 <= m <= n <= MAX_SIGNERS`.
    pub open spec fn wf(&self) -> bool {
        &&& self.is_initialized
        &&& 1 <= self.m
        &&& self.m <= self.n
        &&& self.n as usize <= MAX_SIGNERS
    }
}

/// What a storage record holds, once decoded.
#[derive(Clone, Copy, Debug)]
pub enum RecordData {
    /// Storage of an account's size that was never written.
    Empty,
    Mint(Mint),
    Account(Account),
    Multisig(Multisig),
    /// Bytes that decode as none of the records.
    Unknown,
}

/// A storage handle supplied by the host for one call.
#[derive(Clone, Copy, Debug)]
pub struct AccountInfo {
    /// The stable address of the storage.
    pub key: Pubkey,
    /// The program that owns the storage.
    pub owner: Pubkey,
    /// The base-currency units held by the storage.
    pub lamports: u64,
    /// Whether the host has verified this handle's signature on the call.
    pub is_signer: bool,
    pub data: RecordData,
}

/// The processor's configuration: which program it acts as, and which mint
/// stands for the native asset.
#[derive(Clone, Copy, Debug)]
pub struct Config {
    pub program_id: Pubkey,
    pub native_mint: Pubkey,
}

} // verus!
