//! The scalar field of BN254: canonical 32-byte little-endian encodings of
//! integers strictly below the field modulus, with a verified range check
//! and a verified encode/decode pair.

use vstd::prelude::*;

use crate::codec::{le_value, le_bytes_of, pow256};
use crate::codec::{
    lemma_le_value_bound, lemma_le_value_split, lemma_le_value_zero, lemma_le_bytes_of_value,
    lemma_pow256_values,
};

verus! {

/// The BN254 scalar-field modulus.
pub open spec fn fr_modulus() -> nat {
    0x30644E72E131A029B85045B68181585D2833E84879B9709143E1F593F0000001nat
}

/// The four 64-bit little-endian limbs of the modulus, least significant
/// first.
pub const FR_MODULUS_LIMB_0: u64 = 0x43E1F593F0000001;

pub const FR_MODULUS_LIMB_1: u64 = 0x2833E84879B97091;

pub const FR_MODULUS_LIMB_2: u64 = 0xB85045B68181585D;

pub const FR_MODULUS_LIMB_3: u64 = 0x30644E72E131A029;

/// A byte string is a canonical scalar encoding when it has exactly 32
/// bytes and its value lies below the field modulus.
pub open spec fn scalar_canonical(s: Seq<u8>) -> bool {
    s.len() == 32 && le_value(s) < fr_modulus()
}

/// Canonical scalar encodings are unique: two canonical encodings of the
/// same value are identical, so decoding and re-encoding a canonical
/// 32-byte string always returns that string unchanged.
pub proof fn lemma_scalar_encoding_unique(a: Seq<u8>, b: Seq<u8>)
    requires
        scalar_canonical(a),
        scalar_canonical(b),
        le_value(a) == le_value(b),
    ensures
        a == b,
{
    crate::codec::lemma_le_value_injective(a, b);
}

/// Comparing two two-limb quantities compares the high limbs first and,
/// on a tie, the low ones.
proof fn lemma_limb_cmp(a_hi: nat, a_lo: nat, b_hi: nat, b_lo: nat, h: nat)
    requires
        a_lo < h,
        b_lo < h,
    ensures
        (a_hi * h + a_lo < b_hi * h + b_lo) <==> (a_hi < b_hi || (a_hi == b_hi && a_lo < b_lo)),
{
    assert((a_hi * h + a_lo < b_hi * h + b_lo) <==> (a_hi < b_hi || (a_hi == b_hi && a_lo
        < b_lo))) by (nonlinear_arith)
        requires
            a_lo < h,
            b_lo < h,
    ;
}

/// Decides whether the 32 bytes of `b` encode a value below the modulus.
pub fn scalar_bytes_canonical(b: &[u8]) -> (r: bool)
    requires
        b@.len() == 32,
    ensures
        r == (le_value(b@) < fr_modulus()),
{
    let l0 = crate::codec::read_u64_le(b, 0);
    let l1 = crate::codec::read_u64_le(b, 8);
    let l2 = crate::codec::read_u64_le(b, 16);
    let l3 = crate::codec::read_u64_le(b, 24);
    proof {
        lemma_pow256_values();
        let s = b@;
        let p8 = pow256(8);
        let p16 = pow256(16);
        let p24 = pow256(24);
        let v = le_value(s);
        lemma_le_value_split(s, 8);
        let hi1 = s.subrange(8, 32);
        lemma_le_value_split(hi1, 8);
        assert(hi1.subrange(0, 8) =~= s.subrange(8, 16));
        assert(hi1.subrange(8, hi1.len() as int) =~= s.subrange(16, 32));
        let hi2 = s.subrange(16, 32);
        lemma_le_value_split(hi2, 8);
        assert(hi2.subrange(0, 8) =~= s.subrange(16, 24));
        assert(hi2.subrange(8, hi2.len() as int) =~= s.subrange(24, 32));
        lemma_le_value_bound(s.subrange(0, 8));
        lemma_le_value_bound(s.subrange(8, 16));
        lemma_le_value_bound(s.subrange(16, 24));
        lemma_le_value_bound(s.subrange(24, 32));
        assert(v == l0 as nat + p8 * (l1 as nat + p8 * (l2 as nat + p8 * l3 as nat)));
        let vlo2: nat = l0 as nat + p8 * (l1 as nat);
        let vlo3: nat = vlo2 + p16 * (l2 as nat);
        assert(v == vlo3 + p24 * (l3 as nat)) by (nonlinear_arith)
            requires
                v == l0 as nat + p8 * (l1 as nat + p8 * (l2 as nat + p8 * l3 as nat)),
                vlo2 == l0 as nat + p8 * (l1 as nat),
                vlo3 == vlo2 + p16 * (l2 as nat),
                p16 == p8 * p8,
                p24 == p8 * p16,
        ;
        let mlo2: nat = FR_MODULUS_LIMB_0 as nat + p8 * (FR_MODULUS_LIMB_1 as nat);
        let mlo3: nat = mlo2 + p16 * (FR_MODULUS_LIMB_2 as nat);
        assert(fr_modulus() == mlo3 + p24 * (FR_MODULUS_LIMB_3 as nat));
        assert(vlo2 < p16);
        assert(mlo2 < p16);
        assert(vlo3 < p24);
        assert(mlo3 < p24);
        assert((l3 as nat) * p24 + vlo3 == v) by (nonlinear_arith)
            requires
                v == vlo3 + p24 * (l3 as nat),
        ;
        assert((FR_MODULUS_LIMB_3 as nat) * p24 + mlo3 == fr_modulus());
        lemma_limb_cmp(l3 as nat, vlo3, FR_MODULUS_LIMB_3 as nat, mlo3, p24);
        assert((l2 as nat) * p16 + vlo2 == vlo3) by (nonlinear_arith)
            requires
                vlo3 == vlo2 + p16 * (l2 as nat),
        ;
        lemma_limb_cmp(l2 as nat, vlo2, FR_MODULUS_LIMB_2 as nat, mlo2, p16);
        assert((l1 as nat) * p8 + l0 as nat == vlo2) by (nonlinear_arith)
            requires
                vlo2 == l0 as nat + p8 * (l1 as nat),
        ;
        lemma_limb_cmp(l1 as nat, l0 as nat, FR_MODULUS_LIMB_1 as nat, FR_MODULUS_LIMB_0 as nat, p8);
    }
    if l3 != FR_MODULUS_LIMB_3 {
        l3 < FR_MODULUS_LIMB_3
    } else if l2 != FR_MODULUS_LIMB_2 {
        l2 < FR_MODULUS_LIMB_2
    } else if l1 != FR_MODULUS_LIMB_1 {
        l1 < FR_MODULUS_LIMB_1
    } else {
        l0 < FR_MODULUS_LIMB_0
    }
}

/// One element of the scalar field, stored as its canonical little-endian
/// encoding.
#[derive(Clone, Debug, PartialEq, Eq)]
pub struct FieldElement {
    pub le_bytes: Vec<u8>,
}

impl FieldElement {
    /// The invariant every constructed element satisfies: the stored bytes
    /// are a canonical scalar encoding.
    pub open spec fn wf(&self) -> bool {
        scalar_canonical(self.le_bytes@)
    }

    /// The value this element represents.
    pub open spec fn value(&self) -> nat {
        le_value(self.le_bytes@)
    }

    /// Decodes a canonical 32-byte little-endian scalar encoding; rejects
    /// any other length and any value at or above the modulus.
    pub fn from_le_bytes(b: &[u8]) -> (r: Option<FieldElement>)
        ensures
            match r {
                Some(fe) => scalar_canonical(b@) && fe.wf() && fe.le_bytes@ == b@,
                None => !scalar_canonical(b@),
            },
    {
        if b.len() != 32 {
            return None;
        }
        if !scalar_bytes_canonical(b) {
            return None;
        }
        Some(FieldElement { le_bytes: vstd::slice::slice_to_vec(b) })
    }

    /// Encodes the element back to its canonical 32-byte form; together
    /// with `from_le_bytes` this is an identity on canonical encodings.
    pub fn to_le_bytes(&self) -> (r: Vec<u8>)
        ensures
            r@ == self.le_bytes@,
    {
        vstd::slice::slice_to_vec(self.le_bytes.as_slice())
    }

    /// Builds the element representing `x`; every 64-bit number lies below
    /// the modulus.
    pub fn from_u64(x: u64) -> (r: FieldElement)
        ensures
            r.wf(),
            r.value() == x as nat,
    {
        let mut bytes: Vec<u8> = Vec::new();
        crate::codec::push_u64_le(&mut bytes, x);
        proof {
            lemma_le_bytes_of_value(x as nat, 8);
            lemma_pow256_values();
        }
        let mut j: usize = 8;
        while j < 32
            invariant
                8 <= j <= 32,
                bytes@.len() == j,
                bytes@.subrange(0, 8) == le_bytes_of(x as nat, 8),
                forall|i: int| 8 <= i < j ==> bytes@[i] == 0,
            decreases 32 - j,
        {
            bytes.push(0u8);
            j = j + 1;
        }
        proof {
            let s = bytes@;
            lemma_le_value_split(s, 8);
            lemma_le_value_zero(s.subrange(8, 32));
            lemma_le_bytes_of_value(x as nat, 8);
            lemma_pow256_values();
            assert(s.subrange(0, 8) == le_bytes_of(x as nat, 8));
            assert(le_value(s) == le_value(s.subrange(0, 8)));
            assert(x as nat % pow256(8) == x as nat);
            assert(le_value(s) < fr_modulus());
        }
        FieldElement { le_bytes: bytes }
    }
}

} // verus!
