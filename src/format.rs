use crate::amount::Amount;
use vstd::prelude::*;

verus! {

/// The ASCII digit for a value below ten.
pub open spec fn digit_char(d: nat) -> u8 {
    (48 + d) as u8
}

/// The base-10 digits of `n`, most significant first; zero is `"0"`.
pub open spec fn digits_of(n: nat) -> Seq<u8>
    decreases n,
{
    if n < 10 {
        seq![digit_char(n)]
    } else {
        digits_of(n / 10).push(digit_char(n % 10))
    }
}

/// `n` written with `decimals` fractional digits: a point is inserted
/// `decimals` places from the right, after a `"0."` and zero padding when
/// there are not enough digits.
pub open spec fn format_spec(n: nat, decimals: nat) -> Seq<u8> {
    let s = digits_of(n);
    if decimals == 0 {
        s
    } else if s.len() <= decimals {
        seq![48u8, 46u8] + Seq::new((decimals - s.len()) as nat, |i: int| 48u8) + s
    } else {
        let k = s.len() - decimals;
        s.subrange(0, k) + seq![46u8] + s.subrange(k, s.len() as int)
    }
}

/// `s` without its trailing `'0'` bytes.
pub open spec fn strip_zeros(s: Seq<u8>) -> Seq<u8>
    decreases s.len(),
{
    if s.len() > 0 && s.last() == 48u8 {
        strip_zeros(s.drop_last())
    } else {
        s
    }
}

/// `s` without a trailing `'.'`.
pub open spec fn strip_point(s: Seq<u8>) -> Seq<u8> {
    if s.len() > 0 && s.last() == 46u8 {
        s.drop_last()
    } else {
        s
    }
}

/// The human-readable amount: the formatted value, with trailing fractional
/// zeros and then a bare trailing point removed when `decimals > 0`.
pub open spec fn ui_amount_spec(n: nat, decimals: nat) -> Seq<u8> {
    if decimals == 0 {
        format_spec(n, decimals)
    } else {
        strip_point(strip_zeros(format_spec(n, decimals)))
    }
}

/// The integer that a string of digits and points denotes once its points
/// are removed.
pub open spec fn parse_digits(s: Seq<u8>) -> nat
    decreases s.len(),
{
    if s.len() == 0 {
        0
    } else if s.last() == 46u8 {
        parse_digits(s.drop_last())
    } else {
        parse_digits(s.drop_last()) * 10 + ((s.last() - 48) as nat)
    }
}

/// How many bytes of `s` are not points.
pub open spec fn digit_count(s: Seq<u8>) -> nat
    decreases s.len(),
{
    if s.len() == 0 {
        0
    } else if s.last() == 46u8 {
        digit_count(s.drop_last())
    } else {
        digit_count(s.drop_last()) + 1
    }
}

pub open spec fn pow10(k: nat) -> nat
    decreases k,
{
    if k == 0 {
        1
    } else {
        10 * pow10((k - 1) as nat)
    }
}

pub open spec fn is_digit_string(s: Seq<u8>) -> bool {
    forall|i: int| 0 <= i < s.len() ==> 48 <= #[trigger] s[i] <= 57
}

proof fn lemma_digits_step(n: nat)
    ensures
        n < 10 ==> digits_of(n) == seq![digit_char(n)],
        n >= 10 ==> digits_of(n) == digits_of(n / 10).push(digit_char(n % 10)),
{
}

proof fn lemma_digits_are_digits(n: nat)
    ensures
        is_digit_string(digits_of(n)),
        digits_of(n).len() >= 1,
    decreases n,
{
    if n >= 10 {
        lemma_digits_are_digits(n / 10);
    }
}

/// Converts an amount to its decimal digits, most significant first.
pub fn u256_to_string(n: &Amount) -> (r: Vec<u8>)
    ensures
        r@ == digits_of(n@),
{
    let mut out: Vec<u8> = Vec::new();
    let mut cur: Amount = *n;
    loop
        invariant_except_break
            digits_of(n@) == digits_of(cur@) + out@,
        ensures
            digits_of(n@) == out@,
        decreases cur@,
    {
        let (q, d) = cur.div_rem_ten();
        let ghost prev = out@;
        proof {
            lemma_digits_step(cur@);
        }
        out.insert(0, 48u8 + d);
        if q.is_zero() {
            assert(digits_of(cur@) + prev =~= out@);
            break;
        }
        assert(digits_of(cur@) + prev =~= digits_of(q@) + out@);
        cur = q;
    }
    out
}

/// Formats an amount with `decimals` fractional digits.
pub fn format_amount_with_decimals(amount: &Amount, decimals: u8) -> (r: Vec<u8>)
    ensures
        r@ == format_spec(amount@, decimals as nat),
{
    let digits = u256_to_string(amount);
    let ghost s = digits@;
    if decimals == 0 {
        return digits;
    }
    let d = decimals as usize;
    let len = digits.len();
    let mut out: Vec<u8> = Vec::new();
    if len <= d {
        out.push(48u8);
        out.push(46u8);
        let pad = d - len;
        let mut i: usize = 0;
        while i < pad
            invariant
                i <= pad,
                out@ == seq![48u8, 46u8] + Seq::new(i as nat, |j: int| 48u8),
            decreases pad - i,
        {
            out.push(48u8);
            i += 1;
            assert(out@ =~= seq![48u8, 46u8] + Seq::new(i as nat, |j: int| 48u8));
        }
        let ghost prefix = out@;
        let mut j: usize = 0;
        while j < len
            invariant
                j <= len,
                len == digits@.len(),
                digits@ == s,
                out@ == prefix + s.subrange(0, j as int),
            decreases len - j,
        {
            out.push(digits[j]);
            j += 1;
            assert(out@ =~= prefix + s.subrange(0, j as int));
        }
        assert(s.subrange(0, len as int) =~= s);
    } else {
        let k = len - d;
        let mut j: usize = 0;
        while j < len
            invariant
                j <= len,
                k < len,
                len == digits@.len(),
                digits@ == s,
                j <= k ==> out@ == s.subrange(0, j as int),
                j > k ==> out@ == s.subrange(0, k as int) + seq![46u8] + s.subrange(
                    k as int,
                    j as int,
                ),
            decreases len - j,
        {
            if j == k {
                out.push(46u8);
            }
            out.push(digits[j]);
            j += 1;
            assert(j <= k ==> out@ =~= s.subrange(0, j as int));
            assert(j > k ==> out@ =~= s.subrange(0, k as int) + seq![46u8] + s.subrange(
                k as int,
                j as int,
            ));
        }
    }
    out
}

/// Removes trailing `'0'` bytes and then a bare trailing `'.'`.
pub fn trim_trailing_zeros(s: Vec<u8>) -> (r: Vec<u8>)
    ensures
        r@ == strip_point(strip_zeros(s@)),
{
    let mut out = s;
    while out.len() > 0 && out[out.len() - 1] == 48u8
        invariant
            strip_zeros(out@) == strip_zeros(s@),
        decreases out.len(),
    {
        out.pop();
    }
    if out.len() > 0 && out[out.len() - 1] == 46u8 {
        out.pop();
    }
    out
}

/// The human-readable form of `amount` for a mint with `decimals` decimals.
pub fn amount_to_ui_amount(amount: &Amount, decimals: u8) -> (r: Vec<u8>)
    ensures
        r@ == ui_amount_spec(amount@, decimals as nat),
{
    let s = format_amount_with_decimals(amount, decimals);
    if decimals > 0 {
        trim_trailing_zeros(s)
    } else {
        s
    }
}

} // verus!
