//! Canonical elements of the BN254 base field and scalar field.

use vstd::prelude::*;

verus! {

/// The integer that a byte sequence denotes when read most significant byte first.
pub open spec fn be_value(b: Seq<u8>) -> nat
    decreases b.len(),
{
    if b.len() == 0 {
        0
    } else {
        be_value(b.drop_last()) * 256 + b.last() as nat
    }
}

/// The characteristic of the BN254 base field.
/// 21888242871839275222246405745257275088696311157297823662689037894645226208583
pub open spec fn fq_modulus() -> nat {
    limbs_value(0x3c208c16d87cfd47, 0x97816a916871ca8d, 0xb85045b68181585d, 0x30644e72e131a029)
}

/// The characteristic of the BN254 scalar field (the order of its groups).
/// 21888242871839275222246405745257275088548364400416034343698204186575808495617
pub open spec fn fr_modulus() -> nat {
    limbs_value(0x43e1f593f0000001, 0x2833e84879b97091, 0xb85045b68181585d, 0x30644e72e131a029)
}

/// The integer held by four 64-bit limbs, least significant limb first.
pub open spec fn limbs_value(l0: u64, l1: u64, l2: u64, l3: u64) -> nat {
    l0 as nat + limb_base() * (l1 as nat + limb_base() * (l2 as nat + limb_base() * l3 as nat))
}

/// The weight of one 64-bit limb.
pub open spec fn limb_base() -> nat {
    0x1_0000_0000_0000_0000
}

proof fn lemma_limbs_zero(l0: u64, l1: u64, l2: u64, l3: u64)
    ensures
        (limbs_value(l0, l1, l2, l3) == 0) == (l0 == 0 && l1 == 0 && l2 == 0 && l3 == 0),
{
    let b = limb_base();
    let t3 = l3 as nat;
    let t2 = l2 as nat + b * t3;
    let t1 = l1 as nat + b * t2;
    assert(b * t3 >= t3) by (nonlinear_arith)
        requires b > 0;
    assert(b * t2 >= t2) by (nonlinear_arith)
        requires b > 0;
    assert(b * t1 >= t1) by (nonlinear_arith)
        requires b > 0;
}

/// An element of the BN254 base field, held as its canonical residue.
#[derive(Clone, Copy, Debug, PartialEq, Eq, Structural)]
pub struct Fq {
    l0: u64,
    l1: u64,
    l2: u64,
    l3: u64,
}

/// An element of the BN254 scalar field, held as its canonical residue.
#[derive(Clone, Copy, Debug, PartialEq, Eq, Structural)]
pub struct Fr {
    l0: u64,
    l1: u64,
    l2: u64,
    l3: u64,
}

impl Fq {
    /// The residue in `[0, fq_modulus())` that this element stands for.
    pub closed spec fn value(self) -> nat {
        limbs_value(self.l0, self.l1, self.l2, self.l3)
    }

    /// Every element holds a canonical residue.
    #[verifier::type_invariant]
    pub closed spec fn is_canonical(self) -> bool {
        self.value() < fq_modulus()
    }

    /// The residue as four 64-bit limbs, least significant first; it lies below
    /// the modulus.
    pub fn to_limbs(&self) -> (r: (u64, u64, u64, u64))
        ensures
            limbs_value(r.0, r.1, r.2, r.3) == self.value(),
            self.value() < fq_modulus(),
    {
        proof {
            use_type_invariant(self);
        }
        (self.l0, self.l1, self.l2, self.l3)
    }

    /// The element whose residue is `v`.
    pub fn from_u64(v: u64) -> (r: Fq)
        ensures
            r.value() == v as nat,
    {
        Fq { l0: v, l1: 0, l2: 0, l3: 0 }
    }

    /// Whether this is the additive identity.
    pub fn is_zero(&self) -> (r: bool)
        ensures
            r == (self.value() == 0),
    {
        proof {
            lemma_limbs_zero(self.l0, self.l1, self.l2, self.l3);
        }
        self.l0 == 0 && self.l1 == 0 && self.l2 == 0 && self.l3 == 0
    }

    /// The element that the big-endian integer `bytes` reduces to.
    pub fn from_be_bytes_mod_order(bytes: &[u8]) -> (r: Fq)
        ensures
            r.value() == be_value(bytes@) % fq_modulus(),
    {
        ark_fq_from_be_bytes(bytes)
    }
}

impl Fr {
    /// The residue in `[0, fr_modulus())` that this element stands for.
    pub closed spec fn value(self) -> nat {
        limbs_value(self.l0, self.l1, self.l2, self.l3)
    }

    /// Every element holds a canonical residue.
    #[verifier::type_invariant]
    pub closed spec fn is_canonical(self) -> bool {
        self.value() < fr_modulus()
    }

    /// The residue as four 64-bit limbs, least significant first; it lies below
    /// the modulus.
    pub fn to_limbs(&self) -> (r: (u64, u64, u64, u64))
        ensures
            limbs_value(r.0, r.1, r.2, r.3) == self.value(),
            self.value() < fr_modulus(),
    {
        proof {
            use_type_invariant(self);
        }
        (self.l0, self.l1, self.l2, self.l3)
    }

    /// The element whose residue is `v`.
    pub fn from_u64(v: u64) -> (r: Fr)
        ensures
            r.value() == v as nat,
    {
        Fr { l0: v, l1: 0, l2: 0, l3: 0 }
    }

    /// Whether this is the additive identity.
    pub fn is_zero(&self) -> (r: bool)
        ensures
            r == (self.value() == 0),
    {
        proof {
            lemma_limbs_zero(self.l0, self.l1, self.l2, self.l3);
        }
        self.l0 == 0 && self.l1 == 0 && self.l2 == 0 && self.l3 == 0
    }

    /// The element that the big-endian integer `bytes` reduces to.
    pub fn from_be_bytes_mod_order(bytes: &[u8]) -> (r: Fr)
        ensures
            r.value() == be_value(bytes@) % fr_modulus(),
    {
        ark_fr_from_be_bytes(bytes)
    }
}

/// Relies on ark_ff's `PrimeField::from_be_bytes_mod_order` for `ark_bn254::Fq`, which
/// reads the bytes most significant first and reduces modulo the base field's
/// characteristic, and on `into_bigint`, which gives the canonical residue as
/// little-endian 64-bit limbs.
#[verifier::external_body]
fn ark_fq_from_be_bytes(bytes: &[u8]) -> (r: Fq)
    ensures
        r.value() == be_value(bytes@) % fq_modulus(),
{
    let e = <ark_bn254::Fq as ark_ff::PrimeField>::from_be_bytes_mod_order(bytes);
    let b = ark_ff::PrimeField::into_bigint(e);
    Fq { l0: b.0[0], l1: b.0[1], l2: b.0[2], l3: b.0[3] }
}

/// Relies on ark_ff's `PrimeField::from_be_bytes_mod_order` for `ark_bn254::Fr`, which
/// reads the bytes most significant first and reduces modulo the scalar field's
/// characteristic, and on `into_bigint`, which gives the canonical residue as
/// little-endian 64-bit limbs.
#[verifier::external_body]
fn ark_fr_from_be_bytes(bytes: &[u8]) -> (r: Fr)
    ensures
        r.value() == be_value(bytes@) % fr_modulus(),
{
    let e = <ark_bn254::Fr as ark_ff::PrimeField>::from_be_bytes_mod_order(bytes);
    let b = ark_ff::PrimeField::into_bigint(e);
    Fr { l0: b.0[0], l1: b.0[1], l2: b.0[2], l3: b.0[3] }
}

} // verus!
