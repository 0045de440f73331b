use vstd::prelude::*;
use num_bigint::{BigInt, Sign};
use std::str::FromStr;

verus! {

/// Value of a little-endian byte string.
pub open spec fn le_value(b: Seq<u8>) -> nat
    decreases b.len(),
{
    if b.len() == 0 {
        0
    } else {
        b[0] as nat + 256 * le_value(b.drop_first())
    }
}

/// `256` raised to `k`.
pub open spec fn pow256(k: nat) -> nat
    decreases k,
{
    if k == 0 {
        1
    } else {
        256 * pow256((k - 1) as nat)
    }
}

/// Minimal little-endian form: at least one byte, and no zero byte at the top
/// unless the value is zero itself (written as a single zero byte).
pub open spec fn is_minimal_le(b: Seq<u8>) -> bool {
    b.len() >= 1 && (b.len() == 1 || b[b.len() - 1] != 0)
}

/// Value of a run of decimal digits and `_` separators; the separators are skipped.
pub open spec fn separated_digits_value(s: Seq<char>) -> nat
    decreases s.len(),
{
    if s.len() == 0 {
        0
    } else if s.last() == '_' {
        separated_digits_value(s.drop_last())
    } else {
        separated_digits_value(s.drop_last()) * 10 + ((s.last() as u32) - 48) as nat
    }
}

/// An unsigned decimal numeral: not empty, not starting with `_`, and made of the
/// digits `0`-`9` and `_` separators.
pub open spec fn unsigned_value(s: Seq<char>) -> Option<nat> {
    if s.len() > 0 && s[0] != '_'
        && forall|i: int| 0 <= i < s.len() ==> ('0' <= #[trigger] s[i] && s[i] <= '9') || s[i] == '_' {
        Some(separated_digits_value(s))
    } else {
        None
    }
}

/// The integer a decimal string denotes, as `BigInt::from_str` reads it: an optional
/// `-` or `+` sign followed by an unsigned numeral; `None` where it is refused.
pub open spec fn decimal_value(s: Seq<char>) -> Option<int> {
    if s.len() > 0 && s[0] == '-' {
        match unsigned_value(s.drop_first()) {
            Some(v) => Some(-(v as int)),
            None => None,
        }
    } else if s.len() > 0 && s[0] == '+' {
        match unsigned_value(s.drop_first()) {
            Some(v) => Some(v as int),
            None => None,
        }
    } else {
        match unsigned_value(s) {
            Some(v) => Some(v as int),
            None => None,
        }
    }
}

/// An arbitrary-precision integer: a sign and a little-endian magnitude.
pub struct BigNum {
    pub negative: bool,
    pub magnitude: Vec<u8>,
}

impl View for BigNum {
    type V = int;

    open spec fn view(&self) -> int {
        if self.negative {
            -(le_value(self.magnitude@) as int)
        } else {
            le_value(self.magnitude@) as int
        }
    }
}

impl BigNum {
    /// The magnitude is minimal and zero carries no sign.
    pub open spec fn wf(&self) -> bool {
        &&& is_minimal_le(self.magnitude@)
        &&& (self.negative ==> le_value(self.magnitude@) != 0)
    }

    /// The magnitude as a natural number.
    pub open spec fn abs(&self) -> nat {
        le_value(self.magnitude@)
    }

    /// Parses a decimal integer string.
    pub fn parse(s: &str) -> (r: Option<BigNum>)
        ensures
            r is Some <==> decimal_value(s@) is Some,
            r matches Some(n) ==> n.wf() && n@ == decimal_value(s@)->0,
    {
        parse_decimal(s)
    }

    /// The integer `n`.
    pub fn from_u64(n: u64) -> (r: BigNum)
        ensures
            r.wf(),
            r@ == n as int,
            !r.negative,
    {
        let mut magnitude: Vec<u8> = Vec::new();
        let mut rest: u64 = n;
        proof {
            assert(le_value(magnitude@) == 0);
            assert(pow256(0) == 1);
        }
        loop
            invariant_except_break
                magnitude@.len() > 0 ==> rest > 0,
            invariant
                n as nat == le_value(magnitude@) + pow256(magnitude@.len() as nat) * (rest as nat),
                magnitude@.len() == 0 ==> rest == n,
            ensures
                rest == 0,
                is_minimal_le(magnitude@),
            decreases rest,
        {
            let byte = (rest % 256) as u8;
            let next = rest / 256;
            proof {
                let k = magnitude@.len() as nat;
                lemma_le_value_push(magnitude@, byte);
                assert(pow256(k + 1) == 256 * pow256(k));
                assert(pow256(k) * (rest as nat) == pow256(k) * (byte as nat) + 256 * pow256(k) * (next as nat))
                    by (nonlinear_arith)
                    requires
                        rest as nat == byte as nat + 256 * (next as nat),
                ;
            }
            magnitude.push(byte);
            rest = next;
            if rest == 0 {
                break;
            }
        }
        BigNum { negative: false, magnitude }
    }
}

/// Appending a byte at the top adds it at the next power of 256.
pub proof fn lemma_le_value_push(b: Seq<u8>, x: u8)
    ensures
        le_value(b.push(x)) == le_value(b) + pow256(b.len()) * (x as nat),
    decreases b.len(),
{
    if b.len() == 0 {
        assert(b.push(x).drop_first() =~= Seq::<u8>::empty());
        assert(le_value(Seq::<u8>::empty()) == 0);
        assert(pow256(0) == 1);
    } else {
        lemma_le_value_push(b.drop_first(), x);
        assert(b.push(x).drop_first() =~= b.drop_first().push(x));
        assert(pow256(b.len()) == 256 * pow256((b.len() - 1) as nat));
        assert(le_value(b.push(x)) == b[0] as nat + 256 * le_value(b.drop_first().push(x)));
        assert(256 * (le_value(b.drop_first()) + pow256(b.drop_first().len()) * (x as nat))
            == 256 * le_value(b.drop_first()) + 256 * pow256(b.drop_first().len()) * (x as nat))
            by (nonlinear_arith);
    }
}

/// Relies on num_bigint's `BigInt::from_str` (radix 10: an optional sign, then digits
/// with `_` separators, not starting with one) and `BigInt::to_bytes_le` (sign and
/// minimal little-endian magnitude, `[0]` for zero).
#[verifier::external_body]
fn parse_decimal(s: &str) -> (r: Option<BigNum>)
    ensures
        r is Some <==> decimal_value(s@) is Some,
        r matches Some(n) ==> n.wf() && n@ == decimal_value(s@)->0,
{
    match BigInt::from_str(s) {
        Ok(value) => {
            let (sign, magnitude) = value.to_bytes_le();
            Some(BigNum { negative: sign == Sign::Minus, magnitude })
        },
        Err(_) => None,
    }
}

} // verus!
