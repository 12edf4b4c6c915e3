//! Prime-field elements, held as canonical little-endian bytes.
//!
//! The arithmetic itself is done by an outside library on the base
//! field of the Pallas curve; every operation crosses through a
//! trusted wrapper whose contract states the result as modular
//! arithmetic on the integer value of the bytes.

use vstd::prelude::*;
use ark_ff::{BigInteger, PrimeField};

verus! {

/// The order of the field: the modulus of the base field of the
/// Pallas curve.
pub open spec fn field_order() -> nat {
    0x40000000000000000000000000000000224698fc094cf91b992d30ed00000001nat
}

/// The integer a little-endian byte string stands for.
pub open spec fn bytes_val(s: Seq<u8>) -> nat
    decreases s.len(),
{
    if s.len() == 0 {
        0
    } else {
        s[0] as nat + 256 * bytes_val(s.drop_first())
    }
}

/// Addition in the field.
pub open spec fn f_add(a: nat, b: nat) -> nat {
    (a + b) % field_order()
}

/// Multiplication in the field.
pub open spec fn f_mul(a: nat, b: nat) -> nat {
    (a * b) % field_order()
}

/// Additive inverse in the field.
pub open spec fn f_neg(a: nat) -> nat {
    ((field_order() - (a % field_order())) % (field_order() as int)) as nat
}

/// A field element, as the canonical (reduced) little-endian
/// encoding of its integer value: exactly 32 bytes, value below the
/// field order.
#[derive(Debug)]
pub struct FieldElem {
    pub bytes: Vec<u8>,
}

impl FieldElem {
    /// The integer value this element stands for.
    pub open spec fn val(&self) -> nat {
        bytes_val(self.bytes@)
    }

    /// Canonical form: 32 bytes, value reduced.
    pub open spec fn wf(&self) -> bool {
        self.bytes@.len() == 32 && self.val() < field_order()
    }

    /// The zero of the field.
    pub fn zero() -> (r: FieldElem)
        ensures
            r.wf(),
            r.val() == 0,
    {
        fe_from_u64(0)
    }

    /// The one of the field.
    pub fn one() -> (r: FieldElem)
        ensures
            r.wf(),
            r.val() == 1,
    {
        fe_from_u64(1)
    }

    /// The element with a small integer value.
    pub fn from_u64(n: u64) -> (r: FieldElem)
        ensures
            r.wf(),
            r.val() == n as nat,
    {
        fe_from_u64(n)
    }

    /// Field addition.
    pub fn add(&self, other: &FieldElem) -> (r: FieldElem)
        requires
            self.wf(),
            other.wf(),
        ensures
            r.wf(),
            r.val() == f_add(self.val(), other.val()),
    {
        fe_add(self, other)
    }

    /// Field multiplication.
    pub fn mul(&self, other: &FieldElem) -> (r: FieldElem)
        requires
            self.wf(),
            other.wf(),
        ensures
            r.wf(),
            r.val() == f_mul(self.val(), other.val()),
    {
        fe_mul(self, other)
    }

    /// Additive inverse.
    pub fn neg(&self) -> (r: FieldElem)
        requires
            self.wf(),
        ensures
            r.wf(),
            r.val() == f_neg(self.val()),
    {
        fe_neg(self)
    }

    /// Exact equality of two elements. On canonical encodings byte
    /// equality is value equality.
    pub fn equals(&self, other: &FieldElem) -> (r: bool)
        ensures
            r <==> self.bytes@ == other.bytes@,
    {
        if self.bytes.len() != other.bytes.len() {
            assert(self.bytes@ !~= other.bytes@);
            return false;
        }
        let n = self.bytes.len();
        let mut i: usize = 0;
        while i < n
            invariant
                i <= n,
                n == self.bytes@.len(),
                n == other.bytes@.len(),
                forall|j: int| 0 <= j < i ==> self.bytes@[j] == other.bytes@[j],
            decreases n - i,
        {
            if self.bytes[i] != other.bytes[i] {
                assert(self.bytes@ !~= other.bytes@);
                return false;
            }
            i += 1;
        }
        assert(self.bytes@ =~= other.bytes@);
        true
    }

    /// A copy of this element.
    pub fn duplicate(&self) -> (r: FieldElem)
        ensures
            r.bytes@ == self.bytes@,
    {
        let mut bytes: Vec<u8> = Vec::new();
        let n = self.bytes.len();
        let mut i: usize = 0;
        while i < n
            invariant
                i <= n,
                n == self.bytes@.len(),
                bytes@ =~= self.bytes@.take(i as int),
            decreases n - i,
        {
            bytes.push(self.bytes[i]);
            i += 1;
        }
        assert(bytes@ =~= self.bytes@);
        FieldElem { bytes }
    }
}

/// Two byte strings of equal length with the same value are equal:
/// the little-endian encoding of a value at a fixed length is unique.
pub proof fn lemma_bytes_val_injective(s1: Seq<u8>, s2: Seq<u8>)
    requires
        s1.len() == s2.len(),
        bytes_val(s1) == bytes_val(s2),
    ensures
        s1 == s2,
    decreases s1.len(),
{
    if s1.len() == 0 {
        assert(s1 =~= s2);
    } else {
        let a = bytes_val(s1.drop_first());
        let b = bytes_val(s2.drop_first());
        assert(s1[0] as nat + 256 * a == s2[0] as nat + 256 * b);
        assert(s1[0] == s2[0] && a == b) by {
            assert(s1[0] < 256 && s2[0] < 256);
        };
        lemma_bytes_val_injective(s1.drop_first(), s2.drop_first());
        assert(s1 =~= s2) by {
            assert(forall|i: int|
                1 <= i < s1.len() ==> s1[i] == s1.drop_first()[i - 1] && s2[i]
                    == s2.drop_first()[i - 1]);
        };
    }
}

/// Relies on `ark_ff::PrimeField::from` for `u64` (exact embedding of
/// integers below the modulus) and on the canonical little-endian
/// serialization `into_bigint().to_bytes_le()` (32 bytes, reduced).
#[verifier::external_body]
fn fe_from_u64(n: u64) -> (r: FieldElem)
    ensures
        r.wf(),
        r.val() == n as nat,
{
    let x = ark_pallas::Fq::from(n);
    FieldElem { bytes: x.into_bigint().to_bytes_le() }
}

/// Relies on `core::ops::Add` for `ark_pallas::Fq` (addition modulo the
/// field order), on `ark_ff::PrimeField::from_le_bytes_mod_order` to
/// read the operands, and on `into_bigint().to_bytes_le()` to write
/// the canonical result.
#[verifier::external_body]
fn fe_add(a: &FieldElem, b: &FieldElem) -> (r: FieldElem)
    requires
        a.wf(),
        b.wf(),
    ensures
        r.wf(),
        r.val() == f_add(a.val(), b.val()),
{
    let x = ark_pallas::Fq::from_le_bytes_mod_order(a.bytes.as_slice())
        + ark_pallas::Fq::from_le_bytes_mod_order(b.bytes.as_slice());
    FieldElem { bytes: x.into_bigint().to_bytes_le() }
}

/// Relies on `core::ops::Mul` for `ark_pallas::Fq` (multiplication
/// modulo the field order), with the same byte conversions as the
/// addition wrapper.
#[verifier::external_body]
fn fe_mul(a: &FieldElem, b: &FieldElem) -> (r: FieldElem)
    requires
        a.wf(),
        b.wf(),
    ensures
        r.wf(),
        r.val() == f_mul(a.val(), b.val()),
{
    let x = ark_pallas::Fq::from_le_bytes_mod_order(a.bytes.as_slice())
        * ark_pallas::Fq::from_le_bytes_mod_order(b.bytes.as_slice());
    FieldElem { bytes: x.into_bigint().to_bytes_le() }
}

/// Relies on `core::ops::Neg` for `ark_pallas::Fq` (additive inverse
/// modulo the field order), with the same byte conversions as the
/// addition wrapper.
#[verifier::external_body]
fn fe_neg(a: &FieldElem) -> (r: FieldElem)
    requires
        a.wf(),
    ensures
        r.wf(),
        r.val() == f_neg(a.val()),
{
    let x = -ark_pallas::Fq::from_le_bytes_mod_order(a.bytes.as_slice());
    FieldElem { bytes: x.into_bigint().to_bytes_le() }
}

} // verus!
