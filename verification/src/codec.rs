//! Little-endian byte encodings of unbounded natural numbers, with the
//! lemmas that connect byte strings, their numeric values and their
//! concatenations.

use vstd::prelude::*;

verus! {

/// Numeric value of a little-endian byte string: the first byte is the
/// least significant.
pub open spec fn le_value(s: Seq<u8>) -> nat
    decreases s.len(),
{
    if s.len() == 0 {
        0
    } else {
        (s[0] as nat) + 256 * le_value(s.subrange(1, s.len() as int))
    }
}

/// 256 raised to the power `n`: the number of byte strings of length `n`.
pub open spec fn pow256(n: nat) -> nat
    decreases n,
{
    if n == 0 {
        1
    } else {
        256 * pow256((n - 1) as nat)
    }
}

/// The canonical `n`-byte little-endian encoding of `x % pow256(n)`.
pub open spec fn le_bytes_of(x: nat, n: nat) -> Seq<u8>
    decreases n,
{
    if n == 0 {
        Seq::empty()
    } else {
        seq![(x % 256) as u8] + le_bytes_of(x / 256, (n - 1) as nat)
    }
}

pub proof fn lemma_pow256_values()
    ensures
        pow256(8) == 0x1_0000_0000_0000_0000,
        pow256(16) == 0x1_0000_0000_0000_0000_0000_0000_0000_0000,
        pow256(24) == 0x1_0000_0000_0000_0000_0000_0000_0000_0000_0000_0000_0000_0000,
{
    assert(pow256(0) == 1);
    assert(pow256(1) == 0x100);
    assert(pow256(2) == 0x1_0000);
    assert(pow256(3) == 0x100_0000);
    assert(pow256(4) == 0x1_0000_0000);
    assert(pow256(5) == 0x100_0000_0000);
    assert(pow256(6) == 0x1_0000_0000_0000);
    assert(pow256(7) == 0x100_0000_0000_0000);
    assert(pow256(8) == 0x1_0000_0000_0000_0000);
    assert(pow256(9) == 0x100_0000_0000_0000_0000);
    assert(pow256(10) == 0x1_0000_0000_0000_0000_0000);
    assert(pow256(11) == 0x100_0000_0000_0000_0000_0000);
    assert(pow256(12) == 0x1_0000_0000_0000_0000_0000_0000);
    assert(pow256(13) == 0x100_0000_0000_0000_0000_0000_0000);
    assert(pow256(14) == 0x1_0000_0000_0000_0000_0000_0000_0000);
    assert(pow256(15) == 0x100_0000_0000_0000_0000_0000_0000_0000);
    assert(pow256(16) == 0x1_0000_0000_0000_0000_0000_0000_0000_0000);
    assert(pow256(17) == 0x100_0000_0000_0000_0000_0000_0000_0000_0000);
    assert(pow256(18) == 0x1_0000_0000_0000_0000_0000_0000_0000_0000_0000);
    assert(pow256(19) == 0x100_0000_0000_0000_0000_0000_0000_0000_0000_0000);
    assert(pow256(20) == 0x1_0000_0000_0000_0000_0000_0000_0000_0000_0000_0000);
    assert(pow256(21) == 0x100_0000_0000_0000_0000_0000_0000_0000_0000_0000_0000);
    assert(pow256(22) == 0x1_0000_0000_0000_0000_0000_0000_0000_0000_0000_0000_0000);
    assert(pow256(23) == 0x100_0000_0000_0000_0000_0000_0000_0000_0000_0000_0000_0000);
    assert(pow256(24) == 0x1_0000_0000_0000_0000_0000_0000_0000_0000_0000_0000_0000_0000);
}

/// A byte string of length `n` encodes a value below `pow256(n)`.
pub proof fn lemma_le_value_bound(s: Seq<u8>)
    ensures
        le_value(s) < pow256(s.len()),
    decreases s.len(),
{
    if s.len() > 0 {
        let t = s.subrange(1, s.len() as int);
        lemma_le_value_bound(t);
    }
}

/// Splitting a byte string splits its value: the low `i` bytes contribute
/// the value's remainder below `pow256(i)` and the rest its quotient.
pub proof fn lemma_le_value_split(s: Seq<u8>, i: int)
    requires
        0 <= i <= s.len(),
    ensures
        le_value(s) == le_value(s.subrange(0, i)) + pow256(i as nat) * le_value(
            s.subrange(i, s.len() as int),
        ),
    decreases i,
{
    if i == 0 {
        assert(s.subrange(0, 0) =~= Seq::<u8>::empty());
        assert(s.subrange(0, s.len() as int) =~= s);
        assert(le_value(s.subrange(0, 0)) == 0);
        assert(pow256(0) == 1);
        assert(le_value(s.subrange(0, s.len() as int)) == le_value(s));
        assert(le_value(s) == le_value(s.subrange(0, 0)) + pow256(0) * le_value(
            s.subrange(0, s.len() as int),
        ));
    } else {
        let t = s.subrange(1, s.len() as int);
        lemma_le_value_split(t, i - 1);
        assert(t.subrange(0, i - 1) =~= s.subrange(0, i).subrange(1, i));
        assert(t.subrange(i - 1, t.len() as int) =~= s.subrange(i, s.len() as int));
        let head = s[0] as nat;
        let a = le_value(s.subrange(0, i).subrange(1, i));
        let b = le_value(s.subrange(i, s.len() as int));
        let p = pow256((i - 1) as nat);
        assert(le_value(s.subrange(0, i)) == head + 256 * a);
        assert(le_value(s) == head + 256 * (a + p * b));
        assert(pow256(i as nat) == 256 * p);
        assert(head + 256 * (a + p * b) == (head + 256 * a) + (256 * p) * b)
            by (nonlinear_arith);
        assert((256 * p) * b == pow256(i as nat) * b);
        assert(le_value(s) == le_value(s.subrange(0, i)) + pow256(i as nat) * b);
    }
}

/// The value of a canonical encoding is the encoded number, reduced.
pub proof fn lemma_le_bytes_of_value(x: nat, n: nat)
    ensures
        le_bytes_of(x, n).len() == n,
        le_value(le_bytes_of(x, n)) == x % pow256(n),
    decreases n,
{
    if n == 0 {
        assert(x % 1 == 0) by (nonlinear_arith);
    } else {
        lemma_le_bytes_of_value(x / 256, (n - 1) as nat);
        let s = le_bytes_of(x, n);
        let t = le_bytes_of(x / 256, (n - 1) as nat);
        assert(s.subrange(1, s.len() as int) =~= t);
        assert(le_value(s) == (x % 256) + 256 * ((x / 256) % pow256((n - 1) as nat)));
        let p = pow256((n - 1) as nat);
        assert(p > 0) by {
            lemma_pow256_positive((n - 1) as nat);
        }
        vstd::arithmetic::div_mod::lemma_mod_breakdown(x as int, 256, p as int);
        assert(x % (256 * p) == 256 * ((x / 256) % p) + x % 256);
        assert(pow256(n) == 256 * p);
    }
}

pub proof fn lemma_pow256_positive(n: nat)
    ensures
        pow256(n) >= 1,
    decreases n,
{
    if n > 0 {
        lemma_pow256_positive((n - 1) as nat);
    }
}

/// Equal-length byte strings with the same value are the same string: a
/// value has exactly one encoding of each length.
pub proof fn lemma_le_value_injective(a: Seq<u8>, b: Seq<u8>)
    requires
        a.len() == b.len(),
        le_value(a) == le_value(b),
    ensures
        a == b,
    decreases a.len(),
{
    if a.len() == 0 {
        assert(a =~= b);
    } else {
        let at = a.subrange(1, a.len() as int);
        let bt = b.subrange(1, b.len() as int);
        let x = le_value(at);
        let y = le_value(bt);
        assert((a[0] as nat) + 256 * x == (b[0] as nat) + 256 * y);
        assert(a[0] == b[0] && x == y);
        lemma_le_value_injective(at, bt);
        assert forall|i: int| 0 <= i < a.len() implies a[i] == b[i] by {
            if i > 0 {
                assert(a[i] == at[i - 1]);
                assert(b[i] == bt[i - 1]);
            }
        }
        assert(a =~= b);
    }
}

/// An all-zero byte string encodes zero.
pub proof fn lemma_le_value_zero(s: Seq<u8>)
    requires
        forall|i: int| 0 <= i < s.len() ==> s[i] == 0,
    ensures
        le_value(s) == 0,
    decreases s.len(),
{
    if s.len() > 0 {
        lemma_le_value_zero(s.subrange(1, s.len() as int));
    }
}

/// Reads the little-endian 64-bit number stored at `b[off .. off + 8]`.
pub fn read_u64_le(b: &[u8], off: usize) -> (x: u64)
    requires
        off + 8 <= b@.len(),
    ensures
        x as nat == le_value(b@.subrange(off as int, off as int + 8)),
{
    let len = b.len();
    let mut x: u64 = 0;
    let mut i: usize = 8;
    while i > 0
        invariant
            i <= 8,
            off + 8 <= len,
            len == b@.len(),
            x as nat == le_value(b@.subrange(off + i, off as int + 8)),
        decreases i,
    {
        proof {
            lemma_le_value_bound(b@.subrange(off + i, off as int + 8));
            lemma_pow256_values();
            lemma_pow256_le(b@.subrange(off + i, off as int + 8).len(), 7);
        }
        i = i - 1;
        let byte = b[off + i];
        proof {
            let cur = b@.subrange(off + i, off as int + 8);
            assert(cur[0] == b@[off + i]);
            assert(cur.subrange(1, cur.len() as int) =~= b@.subrange(off + i + 1, off as int + 8));
        }
        x = x * 256 + (byte as u64);
    }
    assert(b@.subrange(off as int, off as int + 8) =~= b@.subrange(off + 0, off as int + 8));
    x
}

/// `pow256` is monotone in its exponent.
pub proof fn lemma_pow256_le(m: nat, n: nat)
    requires
        m <= n,
    ensures
        pow256(m) <= pow256(n),
    decreases n,
{
    if m < n {
        lemma_pow256_le(m, (n - 1) as nat);
        lemma_pow256_positive((n - 1) as nat);
    }
}

/// Appends the 8-byte little-endian encoding of `x` to `out`.
pub fn push_u64_le(out: &mut Vec<u8>, x: u64)
    ensures
        final(out)@ == old(out)@ + le_bytes_of(x as nat, 8),
{
    let mut cur: u64 = x;
    let mut j: usize = 0;
    while j < 8
        invariant
            j <= 8,
            out@ + le_bytes_of(cur as nat, (8 - j) as nat) == old(out)@ + le_bytes_of(x as nat, 8),
        decreases 8 - j,
    {
        let ghost pre = out@;
        let ghost rest = le_bytes_of(cur as nat, (8 - j) as nat);
        out.push((cur % 256) as u8);
        proof {
            assert(rest == seq![(cur as nat % 256) as u8] + le_bytes_of(
                cur as nat / 256,
                (8 - j - 1) as nat,
            ));
            assert((cur % 256) as u8 == (cur as nat % 256) as u8);
            assert(out@ + le_bytes_of(cur as nat / 256, (8 - j - 1) as nat) =~= pre + rest);
            assert((cur / 256) as nat == cur as nat / 256);
        }
        cur = cur / 256;
        j = j + 1;
    }
    assert(le_bytes_of(cur as nat, 0) =~= Seq::<u8>::empty());
    assert(out@ + le_bytes_of(cur as nat, 0) =~= out@);
}

} // verus!
