use bls12_381::Scalar;
use ff::PrimeField;
use vstd::prelude::*;

use crate::decimal::{
    decimal_of_le_bytes, is_numeral, le_value, lemma_le_value_push_zero, lemma_le_value_zero, lemma_numeral_of,
    lemma_numeral_round_trip, numeral_of, numeral_value,
};

verus! {

/// The order of the BLS12-381 scalar field.
pub open spec fn modulus() -> nat {
    0xffffffff00000001nat + 0x53bda402fffe5bfenat * pow64(1) + 0x3339d80809a1d805nat * pow64(2)
        + 0x73eda753299d7d48nat * pow64(3)
}

pub open spec fn pow64(k: nat) -> nat
    decreases k,
{
    if k == 0 {
        1
    } else {
        0x1_0000_0000_0000_0000nat * pow64((k - 1) as nat)
    }
}

/// An element of the scalar field, held as its canonical little-endian bytes.
#[derive(Clone, Copy, Debug, PartialEq, Eq)]
pub struct FieldElement {
    bytes: [u8; 32],
}

impl View for FieldElement {
    type V = nat;

    closed spec fn view(&self) -> nat {
        le_value(self.bytes@)
    }
}

impl FieldElement {
    /// The stored bytes are the canonical encoding of a field element.
    pub open spec fn wf(&self) -> bool {
        self@ < modulus()
    }
}


/// Why a value could not be read as a field element.
#[derive(Clone, Copy, Debug, PartialEq, Eq)]
pub enum FieldError {
    /// The text is not a canonical decimal numeral, or its value is not
    /// below the field's modulus.
    InvalidFieldValue,
}

/// Relies on `Scalar::from_bytes` (canonical little-endian bytes), `Mul` and
/// `Scalar::to_bytes`: the product modulo the field's order.
#[verifier::external_body]
fn scalar_mul(a: &FieldElement, b: &FieldElement) -> (r: FieldElement)
    requires
        a.wf(),
        b.wf(),
    ensures
        r.wf(),
        r@ == (a@ * b@) % modulus(),
{
    let x = Scalar::from_bytes(&a.bytes).unwrap();
    let y = Scalar::from_bytes(&b.bytes).unwrap();
    FieldElement { bytes: (x * y).to_bytes() }
}

/// Relies on `Scalar::from_bytes` (canonical little-endian bytes), `Add` and
/// `Scalar::to_bytes`: the sum modulo the field's order.
#[verifier::external_body]
fn scalar_add(a: &FieldElement, b: &FieldElement) -> (r: FieldElement)
    requires
        a.wf(),
        b.wf(),
    ensures
        r.wf(),
        r@ == (a@ + b@) % modulus(),
{
    let x = Scalar::from_bytes(&a.bytes).unwrap();
    let y = Scalar::from_bytes(&b.bytes).unwrap();
    FieldElement { bytes: (x + y).to_bytes() }
}

/// Relies on `PrimeField::from_str_vartime` for `Scalar`: it accepts exactly
/// the canonical decimal numerals and returns the element congruent to the
/// numeral's value.
#[verifier::external_body]
fn scalar_from_str(s: &str) -> (r: Option<FieldElement>)
    ensures
        r.is_some() == is_numeral(s@),
        r matches Some(x) ==> x.wf() && x@ == numeral_value(s@) % modulus(),
{
    Scalar::from_str_vartime(s).map(|x| FieldElement { bytes: x.to_bytes() })
}

impl FieldElement {
    /// The additive identity.
    pub fn zero() -> (r: FieldElement)
        ensures
            r.wf(),
            r@ == 0,
    {
        let bytes = [0u8; 32];
        proof {
            lemma_le_value_zero(bytes@);
        }
        FieldElement { bytes }
    }

    /// The multiplicative identity.
    pub fn one() -> (r: FieldElement)
        ensures
            r.wf(),
            r@ == 1,
    {
        let mut bytes = [0u8; 32];
        bytes[0] = 1;
        proof {
            let rest = bytes@.subrange(1, 32);
            assert forall|j: int| 0 <= j < rest.len() implies rest[j] == 0 by {
                assert(rest[j] == bytes@[j + 1]);
            }
            lemma_le_value_zero(rest);
        }
        FieldElement { bytes }
    }

    /// The canonical little-endian bytes of the element.
    pub fn to_le_bytes(&self) -> (r: Vec<u8>)
        ensures
            r@.len() == 32,
            le_value(r@) == self@,
    {
        let mut v: Vec<u8> = Vec::new();
        let mut i: usize = 0;
        while i < 32
            invariant
                i <= 32,
                v@ == self.bytes@.subrange(0, i as int),
            decreases 32 - i,
        {
            v.push(self.bytes[i]);
            i = i + 1;
            assert(v@ =~= self.bytes@.subrange(0, i as int));
        }
        assert(v@ =~= self.bytes@);
        v
    }

    /// The element's canonical decimal numeral.
    pub fn to_decimal(&self) -> (r: String)
        ensures
            r@ == numeral_of(self@),
    {
        decimal_of_le_bytes(&self.to_le_bytes())
    }

    /// Reads a canonical decimal numeral whose value is below the modulus.
    pub fn from_decimal(s: &str) -> (r: Result<FieldElement, FieldError>)
        ensures
            r.is_ok() == (is_numeral(s@) && numeral_value(s@) < modulus()),
            r matches Ok(x) ==> x.wf() && x@ == numeral_value(s@),
            r matches Err(e) ==> e == FieldError::InvalidFieldValue,
    {
        match scalar_from_str(s) {
            None => Err(FieldError::InvalidFieldValue),
            Some(x) => {
                let back = x.to_decimal();
                let given = s.to_owned();
                proof {
                    lemma_numeral_of(x@);
                    lemma_numeral_round_trip(s@);
                    if numeral_value(s@) < modulus() {
                        vstd::arithmetic::div_mod::lemma_small_mod(
                            numeral_value(s@),
                            modulus(),
                        );
                    }
                }
                if back == given {
                    Ok(x)
                } else {
                    Err(FieldError::InvalidFieldValue)
                }
            },
        }
    }

    /// The product in the field.
    pub fn mul(&self, other: &FieldElement) -> (r: FieldElement)
        requires
            self.wf(),
            other.wf(),
        ensures
            r.wf(),
            r@ == (self@ * other@) % modulus(),
    {
        scalar_mul(self, other)
    }

    /// The sum in the field.
    pub fn add(&self, other: &FieldElement) -> (r: FieldElement)
        requires
            self.wf(),
            other.wf(),
        ensures
            r.wf(),
            r@ == (self@ + other@) % modulus(),
    {
        scalar_add(self, other)
    }

    /// Equality of the elements.
    pub fn same(&self, other: &FieldElement) -> (r: bool)
        requires
            self.wf(),
            other.wf(),
        ensures
            r == (self@ == other@),
    {
        let a = self.to_decimal();
        let b = other.to_decimal();
        proof {
            lemma_numeral_of(self@);
            lemma_numeral_of(other@);
        }
        a == b
    }
}


/// Relies on `Scalar::from_bytes_wide`: a 512-bit little-endian integer
/// reduced modulo the field's order.
#[verifier::external_body]
fn scalar_from_wide(b: &Vec<u8>) -> (r: FieldElement)
    requires
        b@.len() == 64,
    ensures
        r.wf(),
        r@ == le_value(b@) % modulus(),
{
    let wide: [u8; 64] = b.as_slice().try_into().unwrap();
    FieldElement { bytes: Scalar::from_bytes_wide(&wide).to_bytes() }
}

impl FieldElement {
    /// The field element congruent to a little-endian number of at most 64
    /// bytes.
    pub fn reduce_le_bytes(b: &Vec<u8>) -> (r: FieldElement)
        requires
            b@.len() <= 64,
        ensures
            r.wf(),
            r@ == le_value(b@) % modulus(),
    {
        let mut wide: Vec<u8> = b.clone();
        while wide.len() < 64
            invariant
                wide@.len() <= 64,
                le_value(wide@) == le_value(b@),
            decreases 64 - wide@.len(),
        {
            proof {
                lemma_le_value_push_zero(wide@);
            }
            wide.push(0);
        }
        scalar_from_wide(&wide)
    }
}


/// Decimal text of field elements round-trips: the element read from a
/// canonical numeral is written back as that same numeral, and the numeral
/// written for any element is read back as that element.
pub proof fn lemma_field_text_round_trip(s: Seq<char>, x: FieldElement)
    requires
        x.wf(),
    ensures
        is_numeral(s) && numeral_value(s) == x@ ==> numeral_of(x@) == s,
        is_numeral(numeral_of(x@)),
        numeral_value(numeral_of(x@)) == x@,
        numeral_value(numeral_of(x@)) < modulus(),
{
    lemma_numeral_of(x@);
    if is_numeral(s) && numeral_value(s) == x@ {
        lemma_numeral_round_trip(s);
    }
}

} // verus!
