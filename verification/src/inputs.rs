//! The public-input vector: a region of consecutive canonical scalar
//! encodings, decoded to field elements and re-encoded, with a count
//! prefix, for the pairing backend.

use vstd::prelude::*;

use crate::codec::le_bytes_of;
use crate::codec::le_value;
use crate::errors::VerifierError;
use crate::scalar::{fr_modulus, scalar_canonical, FieldElement};

verus! {

/// Every 32-byte chunk of the region encodes a value below the modulus.
pub open spec fn inputs_canonical(s: Seq<u8>) -> bool {
    forall|j: int|
        0 <= j < s.len() / 32 ==> le_value(#[trigger] s.subrange(32 * j, 32 * j + 32))
            < fr_modulus()
}

/// The concatenation of the stored encodings of a sequence of field
/// elements.
pub open spec fn concat_scalar_bytes(v: Seq<FieldElement>) -> Seq<u8>
    decreases v.len(),
{
    if v.len() == 0 {
        Seq::empty()
    } else {
        v[0].le_bytes@ + concat_scalar_bytes(v.subrange(1, v.len() as int))
    }
}

/// Elements whose encodings are exactly the chunks of a region
/// concatenate back to that region.
pub proof fn lemma_concat_of_chunks(v: Seq<FieldElement>, s: Seq<u8>)
    requires
        s.len() == 32 * v.len(),
        forall|j: int|
            0 <= j < v.len() ==> v[j].le_bytes@ == s.subrange(32 * j, 32 * j + 32),
    ensures
        concat_scalar_bytes(v) == s,
    decreases v.len(),
{
    if v.len() == 0 {
        assert(concat_scalar_bytes(v) =~= s);
    } else {
        let vt = v.subrange(1, v.len() as int);
        let st = s.subrange(32, s.len() as int);
        assert forall|j: int| 0 <= j < vt.len() implies vt[j].le_bytes@ == st.subrange(
            32 * j,
            32 * j + 32,
        ) by {
            assert(vt[j] == v[j + 1]);
            assert(st.subrange(32 * j, 32 * j + 32) =~= s.subrange(
                32 * (j + 1),
                32 * (j + 1) + 32,
            ));
        }
        lemma_concat_of_chunks(vt, st);
        assert(v[0].le_bytes@ == s.subrange(0, 32));
        assert(concat_scalar_bytes(v) == v[0].le_bytes@ + concat_scalar_bytes(vt));
        assert(s.subrange(0, 32) + st =~= s);
    }
}

/// Decodes the public-input region into field elements; rejects the whole
/// region as soon as one chunk is not a canonical scalar encoding.
pub fn decode_public_inputs(region: &[u8]) -> (r: Result<Vec<FieldElement>, VerifierError>)
    requires
        region@.len() % 32 == 0,
    ensures
        match r {
            Ok(v) => {
                &&& inputs_canonical(region@)
                &&& v@.len() == region@.len() / 32
                &&& forall|j: int|
                    0 <= j < v@.len() ==> (#[trigger] v@[j]).wf() && v@[j].le_bytes@
                        == region@.subrange(32 * j, 32 * j + 32)
            },
            Err(e) => e == VerifierError::DeserializationFailed && !inputs_canonical(region@),
        },
{
    let n = region.len();
    let m = n / 32;
    proof {
        assert(n == 32 * m + n % 32) by {
            vstd::arithmetic::div_mod::lemma_fundamental_div_mod(n as int, 32);
        }
    }
    let mut out: Vec<FieldElement> = Vec::new();
    let mut j: usize = 0;
    while j < m
        invariant
            j <= m,
            n == region@.len(),
            n == 32 * m,
            m == n / 32,
            out@.len() == j,
            forall|i: int|
                0 <= i < j ==> (#[trigger] out@[i]).wf() && out@[i].le_bytes@
                    == region@.subrange(32 * i, 32 * i + 32),
        decreases m - j,
    {
        let chunk = vstd::slice::slice_subrange(region, 32 * j, 32 * j + 32);
        match FieldElement::from_le_bytes(chunk) {
            Some(fe) => {
                out.push(fe);
            },
            None => {
                proof {
                    assert(!scalar_canonical(region@.subrange(32 * j, 32 * j + 32)));
                    assert(!inputs_canonical(region@));
                }
                return Err(VerifierError::DeserializationFailed);
            },
        }
        j = j + 1;
    }
    proof {
        assert forall|i: int| 0 <= i < region@.len() / 32 implies le_value(
            #[trigger] region@.subrange(32 * i, 32 * i + 32),
        ) < fr_modulus() by {
            assert(out@[i].wf());
            assert(out@[i].le_bytes@ == region@.subrange(32 * i, 32 * i + 32));
        }
    }
    Ok(out)
}

/// Re-encodes decoded public inputs as an 8-byte little-endian count
/// followed by the canonical encoding of each element.
pub fn encode_prefixed_inputs(v: &Vec<FieldElement>) -> (out: Vec<u8>)
    requires
        forall|j: int| 0 <= j < v@.len() ==> (#[trigger] v@[j]).wf(),
    ensures
        out@ == le_bytes_of(v@.len(), 8) + concat_scalar_bytes(v@),
{
    let mut out: Vec<u8> = Vec::new();
    let count = v.len() as u64;
    crate::codec::push_u64_le(&mut out, count);
    proof {
        assert(count as nat == v@.len());
        assert(out@ =~= le_bytes_of(v@.len(), 8));
        assert(v@.subrange(0, v@.len() as int) =~= v@);
    }
    let mut j: usize = 0;
    while j < v.len()
        invariant
            j <= v@.len(),
            forall|i: int| 0 <= i < v@.len() ==> (#[trigger] v@[i]).wf(),
            out@ + concat_scalar_bytes(v@.subrange(j as int, v@.len() as int)) == le_bytes_of(
                v@.len(),
                8,
            ) + concat_scalar_bytes(v@),
        decreases v@.len() - j,
    {
        let ghost rest = v@.subrange(j as int, v@.len() as int);
        let mut bytes = v[j].to_le_bytes();
        proof {
            assert(rest[0] == v@[j as int]);
            assert(rest.subrange(1, rest.len() as int) =~= v@.subrange(
                j + 1,
                v@.len() as int,
            ));
            assert(concat_scalar_bytes(rest) == v@[j as int].le_bytes@ + concat_scalar_bytes(
                v@.subrange(j + 1, v@.len() as int),
            ));
        }
        out.append(&mut bytes);
        proof {
            assert(out@ + concat_scalar_bytes(v@.subrange(j + 1, v@.len() as int))
                =~= le_bytes_of(v@.len(), 8) + concat_scalar_bytes(v@));
        }
        j = j + 1;
    }
    proof {
        assert(concat_scalar_bytes(v@.subrange(v@.len() as int, v@.len() as int)) =~= Seq::<
            u8,
        >::empty());
        assert(out@ + Seq::<u8>::empty() =~= out@);
    }
    out
}

} // verus!
