use ethnum::U256;
use vstd::prelude::*;

verus! {

/// 2^128, the weight of the high word of an [`Amount`].
pub open spec fn word_base() -> nat {
    0x1_0000_0000_0000_0000_0000_0000_0000_0000nat
}

/// An unsigned 256-bit token amount, held as its high and low 128-bit words.
#[derive(Clone, Copy, Debug)]
pub struct Amount {
    pub hi: u128,
    pub lo: u128,
}

impl View for Amount {
    type V = nat;

    open spec fn view(&self) -> nat {
        (self.hi as nat) * word_base() + (self.lo as nat)
    }
}

/// The value of a little-endian byte sequence.
pub open spec fn le_value(b: Seq<u8>) -> nat
    decreases b.len(),
{
    if b.len() == 0 {
        0
    } else {
        (b[0] as nat) + 256 * le_value(b.drop_first())
    }
}

/// Relies on ethnum's `U256::div_rem`: quotient and remainder of a division
/// by ten.
#[verifier::external_body]
fn u256_div_rem_ten(a: Amount) -> (r: (Amount, u8))
    ensures
        r.0@ == a@ / 10,
        r.1 as nat == a@ % 10,
{
    let (q, rem) = U256::from_words(a.hi, a.lo).div_rem(U256::new(10));
    let (hi, lo) = q.into_words();
    (Amount { hi, lo }, rem.as_u64() as u8)
}

/// Relies on ethnum's `U256::checked_sub`: `None` exactly when the
/// subtraction would underflow.
#[verifier::external_body]
fn u256_checked_sub(a: Amount, b: Amount) -> (r: Option<Amount>)
    ensures
        r is Some == (a@ >= b@),
        r is Some ==> r->Some_0@ == a@ - b@,
{
    match U256::from_words(a.hi, a.lo).checked_sub(U256::from_words(b.hi, b.lo)) {
        Some(d) => {
            let (hi, lo) = d.into_words();
            Some(Amount { hi, lo })
        },
        None => None,
    }
}

/// Relies on ethnum's `U256::from_le_bytes`: the value of the first 32 bytes,
/// read as a little-endian integer.
#[verifier::external_body]
fn u256_from_le_bytes(b: &[u8]) -> (r: Amount)
    requires
        b@.len() >= 32,
    ensures
        r@ == le_value(b@.subrange(0, 32)),
{
    let mut bytes = [0u8; 32];
    bytes.copy_from_slice(&b[..32]);
    let (hi, lo) = U256::from_le_bytes(bytes).into_words();
    Amount { hi, lo }
}

impl Amount {
    pub fn zero() -> (r: Amount)
        ensures
            r@ == 0,
    {
        Amount { hi: 0, lo: 0 }
    }

    pub fn from_u64(v: u64) -> (r: Amount)
        ensures
            r@ == v as nat,
    {
        Amount { hi: 0, lo: v as u128 }
    }

    pub fn is_zero(&self) -> (r: bool)
        ensures
            r == (self@ == 0),
    {
        proof {
            lemma_view_zero(*self);
        }
        self.hi == 0 && self.lo == 0
    }

    /// The amount as a `u64`, or `None` when it does not fit in one.
    pub fn to_u64(&self) -> (r: Option<u64>)
        ensures
            self@ <= u64::MAX as nat ==> r == Some(self@ as u64),
            self@ > u64::MAX as nat ==> r is None,
    {
        if self.hi == 0 && self.lo <= u64::MAX as u128 {
            Some(self.lo as u64)
        } else {
            proof {
                if self.hi > 0 {
                    assert((self.hi as nat) * word_base() >= word_base()) by (nonlinear_arith)
                        requires self.hi > 0;
                }
            }
            None
        }
    }

    /// Quotient and remainder of a division by ten.
    pub fn div_rem_ten(&self) -> (r: (Amount, u8))
        ensures
            r.0@ == self@ / 10,
            r.1 as nat == self@ % 10,
            r.1 < 10,
    {
        u256_div_rem_ten(*self)
    }

    /// `self - other`, or `None` when `other` is the larger.
    pub fn checked_sub(&self, other: &Amount) -> (r: Option<Amount>)
        ensures
            self@ >= other@ ==> (r matches Some(d) && d@ == self@ - other@),
            self@ < other@ ==> r is None,
    {
        u256_checked_sub(*self, *other)
    }
}

/// Reads an amount from the first 32 bytes of `data`, little-endian; `None`
/// when fewer than 32 bytes are given.
pub fn unpack_amount(data: &[u8]) -> (r: Option<Amount>)
    ensures
        data@.len() >= 32 ==> (r matches Some(a) && a@ == le_value(data@.subrange(0, 32))),
        data@.len() < 32 ==> r is None,
{
    if data.len() >= 32 {
        Some(u256_from_le_bytes(data))
    } else {
        None
    }
}

proof fn lemma_view_zero(a: Amount)
    ensures
        (a@ == 0) == (a.hi == 0 && a.lo == 0),
{
    if a.hi > 0 {
        assert((a.hi as nat) * word_base() > 0) by (nonlinear_arith)
            requires a.hi > 0;
    }
}

} // verus!
