use vstd::prelude::*;
use spartan2::provider::pt256::t256::Scalar;
use crate::bignum::{le_value, pow256, is_minimal_le, BigNum};
use crate::error::InputError;

verus! {

/// Width in bytes of an encoded field element.
pub const FIELD_BYTES: usize = 32;

/// Order of the circuit field (the base field of P-256):
/// 2^256 - 2^224 + 2^192 + 2^96 - 1.
pub open spec fn field_modulus() -> nat {
    (pow256(32) - pow256(28) + pow256(24) + pow256(12) - 1) as nat
}

/// An element of the circuit field, held as its canonical little-endian encoding.
pub struct FieldElement {
    pub bytes: Vec<u8>,
}

impl View for FieldElement {
    type V = nat;

    open spec fn view(&self) -> nat {
        le_value(self.bytes@)
    }
}

impl FieldElement {
    /// Exactly `FIELD_BYTES` bytes, encoding a value below the modulus.
    pub open spec fn wf(&self) -> bool {
        &&& self.bytes@.len() == FIELD_BYTES
        &&& le_value(self.bytes@) < field_modulus()
    }
}

/// `pow256` does not decrease.
pub proof fn lemma_pow256_monotonic(a: nat, b: nat)
    requires
        a <= b,
    ensures
        pow256(a) <= pow256(b),
    decreases b,
{
    if a < b {
        lemma_pow256_monotonic(a, (b - 1) as nat);
        assert(pow256(b) == 256 * pow256((b - 1) as nat));
    }
}

/// A little-endian string is below 256 to the power of its length, and a string whose
/// top byte is not zero is at least 256 to the power of its length less one.
pub proof fn lemma_le_value_bounds(b: Seq<u8>)
    ensures
        le_value(b) < pow256(b.len()),
        b.len() >= 1 && b[b.len() - 1] != 0 ==> le_value(b) >= pow256((b.len() - 1) as nat),
    decreases b.len(),
{
    if b.len() == 0 {
        assert(pow256(0) == 1);
    } else {
        let t = b.drop_first();
        lemma_le_value_bounds(t);
        assert(pow256(b.len()) == 256 * pow256(t.len()));
        assert(le_value(b) == b[0] as nat + 256 * le_value(t));
        if b.len() == 1 {
            assert(pow256(0) == 1);
        } else if b[b.len() - 1] != 0 {
            assert(t[t.len() - 1] == b[b.len() - 1]);
            assert(pow256((b.len() - 1) as nat) == 256 * pow256((t.len() - 1) as nat));
        }
    }
}

/// Zero bytes at the top leave the value unchanged.
pub proof fn lemma_le_value_zero_push(b: Seq<u8>)
    ensures
        le_value(b.push(0u8)) == le_value(b),
{
    crate::bignum::lemma_le_value_push(b, 0u8);
}

/// The modulus lies strictly between zero and 256^32.
pub proof fn lemma_modulus_range()
    ensures
        0 < field_modulus() < pow256(32),
{
    lemma_pow256_monotonic(0, 12);
    lemma_pow256_monotonic(12, 24);
    assert(pow256(0) == 1);
    assert(pow256(25) == 256 * pow256(24));
    assert(pow256(26) == 256 * pow256(25));
    assert(pow256(27) == 256 * pow256(26));
    assert(pow256(28) == 256 * pow256(27));
    assert(pow256(29) == 256 * pow256(28));
    assert(pow256(30) == 256 * pow256(29));
    assert(pow256(31) == 256 * pow256(30));
    assert(pow256(32) == 256 * pow256(31));
}

/// Relies on halo2curves' `Fp::from_bytes` (the field of spartan2's T256 engine):
/// it accepts a little-endian encoding exactly when it is below the modulus.
#[verifier::external_body]
fn is_canonical_encoding(bytes: &Vec<u8>) -> (r: bool)
    requires
        bytes@.len() == FIELD_BYTES,
    ensures
        r == (le_value(bytes@) < field_modulus()),
{
    let array: [u8; 32] = bytes.as_slice().try_into().unwrap();
    bool::from(Scalar::from_bytes(&array).is_some())
}

/// Converts an integer to a field element. The sign is not encoded: the magnitude is.
/// A magnitude wider than `FIELD_BYTES` bytes, or not below the modulus, is refused
/// and never truncated.
pub fn bigint_to_scalar(value: BigNum) -> (r: Result<FieldElement, InputError>)
    requires
        value.wf(),
    ensures
        r is Ok <==> value.abs() < field_modulus(),
        r matches Ok(f) ==> f.wf() && f@ == value.abs(),
        r matches Err(e) ==> e == InputError::Unsatisfiable,
{
    field_element_of(&value)
}

fn field_element_of(value: &BigNum) -> (r: Result<FieldElement, InputError>)
    requires
        value.wf(),
    ensures
        r is Ok <==> value.abs() < field_modulus(),
        r matches Ok(f) ==> f.wf() && f@ == value.abs(),
        r matches Err(e) ==> e == InputError::Unsatisfiable,
{
    let magnitude = &value.magnitude;
    let n = magnitude.len();
    if n > FIELD_BYTES {
        proof {
            lemma_le_value_bounds(magnitude@);
            lemma_pow256_monotonic(32, (n - 1) as nat);
            lemma_modulus_range();
        }
        return Err(InputError::Unsatisfiable);
    }
    let mut padded: Vec<u8> = Vec::new();
    let mut i: usize = 0;
    while i < n
        invariant
            n == magnitude@.len(),
            n <= FIELD_BYTES,
            i <= n,
            padded@ == magnitude@.subrange(0, i as int),
        decreases n - i,
    {
        padded.push(magnitude[i]);
        i = i + 1;
        assert(padded@ =~= magnitude@.subrange(0, i as int));
    }
    assert(padded@ =~= magnitude@);
    while padded.len() < FIELD_BYTES
        invariant
            padded@.len() <= FIELD_BYTES,
            le_value(padded@) == le_value(magnitude@),
        decreases FIELD_BYTES - padded@.len(),
    {
        proof {
            lemma_le_value_zero_push(padded@);
        }
        padded.push(0u8);
    }
    if is_canonical_encoding(&padded) {
        Ok(FieldElement { bytes: padded })
    } else {
        Err(InputError::Unsatisfiable)
    }
}

/// Converts every integer of a witness, in order; the first that does not fit is refused.
pub fn convert_bigint_to_scalar(witness: Vec<BigNum>) -> (r: Result<Vec<FieldElement>, InputError>)
    requires
        forall|i: int| 0 <= i < witness@.len() ==> (#[trigger] witness@[i]).wf(),
    ensures
        r is Ok <==> forall|i: int| 0 <= i < witness@.len() ==> (#[trigger] witness@[i]).abs() < field_modulus(),
        r matches Ok(v) ==> v@.len() == witness@.len() && forall|i: int| 0 <= i < v@.len() ==>
            (#[trigger] v@[i]).wf() && v@[i]@ == witness@[i].abs(),
        r matches Err(e) ==> e == InputError::Unsatisfiable,
{
    let mut out: Vec<FieldElement> = Vec::new();
    let mut i: usize = 0;
    while i < witness.len()
        invariant
            i <= witness@.len(),
            forall|k: int| 0 <= k < witness@.len() ==> (#[trigger] witness@[k]).wf(),
            out@.len() == i,
            forall|k: int| 0 <= k < i ==> (#[trigger] out@[k]).wf() && out@[k]@ == witness@[k].abs(),
            forall|k: int| 0 <= k < i ==> (#[trigger] witness@[k]).abs() < field_modulus(),
        decreases witness@.len() - i,
    {
        match field_element_of(&witness[i]) {
            Ok(f) => out.push(f),
            Err(e) => return Err(e),
        }
        i = i + 1;
    }
    Ok(out)
}

} // verus!
