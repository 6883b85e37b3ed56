//! Big-endian encoding of unsigned integers into bytes, as used on the wire.
use vstd::prelude::*;

verus! {

/// `256` raised to `n`: one more than the largest value that `n` bytes hold.
pub open spec fn pow256(n: nat) -> nat
    decreases n,
{
    if n == 0 {
        1
    } else {
        256 * pow256((n - 1) as nat)
    }
}

/// The value of a byte sequence read as a big-endian unsigned integer.
pub open spec fn be_value(s: Seq<u8>) -> nat
    decreases s.len(),
{
    if s.len() == 0 {
        0
    } else {
        be_value(s.drop_last()) * 256 + s.last() as nat
    }
}

/// The `n` low-order bytes of `x`, most significant first.
pub open spec fn be_bytes(x: nat, n: nat) -> Seq<u8>
    decreases n,
{
    if n == 0 {
        Seq::empty()
    } else {
        be_bytes(x / 256, (n - 1) as nat).push((x % 256) as u8)
    }
}

pub proof fn lemma_pow256_positive(n: nat)
    ensures
        pow256(n) > 0,
    decreases n,
{
    if n > 0 {
        lemma_pow256_positive((n - 1) as nat);
    }
}

pub proof fn lemma_pow256_monotonic(m: nat, n: nat)
    requires
        m <= n,
    ensures
        pow256(m) <= pow256(n),
    decreases n,
{
    if m < n {
        lemma_pow256_monotonic(m, (n - 1) as nat);
        lemma_pow256_positive((n - 1) as nat);
    }
}

pub proof fn lemma_pow256_values()
    ensures
        pow256(2) == 0x1_0000,
        pow256(4) == 0x1_0000_0000,
        pow256(8) == 0x1_0000_0000_0000_0000,
        pow256(16) == 0x1_0000_0000_0000_0000_0000_0000_0000_0000,
{
    reveal_with_fuel(pow256, 17);
}

pub proof fn lemma_be_bytes_len(x: nat, n: nat)
    ensures
        be_bytes(x, n).len() == n,
    decreases n,
{
    if n > 0 {
        lemma_be_bytes_len(x / 256, (n - 1) as nat);
    }
}

/// A value of `n` bytes is below `256^n`.
pub proof fn lemma_be_value_bound(s: Seq<u8>)
    ensures
        be_value(s) < pow256(s.len()),
    decreases s.len(),
{
    if s.len() > 0 {
        let p = pow256((s.len() - 1) as nat);
        let v = be_value(s.drop_last());
        lemma_be_value_bound(s.drop_last());
        assert(v * 256 + s.last() < p * 256) by (nonlinear_arith)
            requires
                v < p,
                s.last() < 256,
        ;
    }
}

/// Reading back the bytes of a value that fits gives the value.
pub proof fn lemma_be_value_of_bytes(x: nat, n: nat)
    requires
        x < pow256(n),
    ensures
        be_value(be_bytes(x, n)) == x,
    decreases n,
{
    if n > 0 {
        let q = x / 256;
        let r = x % 256;
        let p = pow256((n - 1) as nat);
        assert(x == 256 * q + r && 0 <= r < 256) by (nonlinear_arith)
            requires
                q == x / 256,
                r == x % 256,
        ;
        assert(q < p) by (nonlinear_arith)
            requires
                x == 256 * q + r,
                0 <= r,
                x < 256 * p,
        ;
        lemma_be_value_of_bytes(q, (n - 1) as nat);
        let b = be_bytes(x, n);
        assert(b.drop_last() =~= be_bytes(q, (n - 1) as nat));
        assert(b.last() == r as u8);
    }
}

/// Writing out the value of a byte sequence, in as many bytes, gives the sequence back.
pub proof fn lemma_be_bytes_of_value(s: Seq<u8>)
    ensures
        be_bytes(be_value(s), s.len()) =~= s,
    decreases s.len(),
{
    if s.len() > 0 {
        let v = be_value(s);
        let w = be_value(s.drop_last());
        let l = s.last() as int;
        assert(v == w * 256 + l);
        vstd::arithmetic::div_mod::lemma_fundamental_div_mod_converse(v as int, 256, w as int, l);
        assert(v / 256 == w && v % 256 == l) by {
            vstd::arithmetic::div_mod::lemma_fundamental_div_mod_converse(v as int, 256, w as int, l);
        }
        lemma_be_bytes_of_value(s.drop_last());
        assert(s.drop_last().push(s.last()) =~= s);
    }
}

/// The `n` low-order bytes of `x`, most significant first.
pub fn encode_be(x: u128, n: usize) -> (r: Vec<u8>)
    requires
        n <= 16,
    ensures
        r@ == be_bytes(x as nat, n as nat),
    decreases n,
{
    if n == 0 {
        Vec::new()
    } else {
        let mut r = encode_be(x / 256, n - 1);
        r.push((x % 256) as u8);
        r
    }
}

/// Reads `s[start..end]` as a big-endian unsigned integer.
pub fn decode_be(s: &Vec<u8>, start: usize, end: usize) -> (r: u128)
    requires
        start <= end <= s.len(),
        end - start <= 16,
    ensures
        r == be_value(s@.subrange(start as int, end as int)),
{
    let mut acc: u128 = 0;
    let mut i: usize = start;
    proof {
        assert(s@.subrange(start as int, start as int) =~= Seq::<u8>::empty());
    }
    while i < end
        invariant
            start <= i <= end <= s.len(),
            end - start <= 16,
            acc == be_value(s@.subrange(start as int, i as int)),
        decreases end - i,
    {
        proof {
            let prefix = s@.subrange(start as int, i as int);
            let next = s@.subrange(start as int, i + 1);
            assert(next.drop_last() =~= prefix);
            lemma_be_value_bound(next);
            lemma_pow256_monotonic(next.len(), 16);
            lemma_pow256_values();
        }
        acc = acc * 256 + s[i] as u128;
        i = i + 1;
    }
    acc
}

/// A copy of `v[start..end]`.
pub fn copy_range(v: &Vec<u8>, start: usize, end: usize) -> (r: Vec<u8>)
    requires
        start <= end <= v.len(),
    ensures
        r@ == v@.subrange(start as int, end as int),
{
    let mut r: Vec<u8> = Vec::new();
    let mut i: usize = start;
    while i < end
        invariant
            start <= i <= end <= v.len(),
            r@ == v@.subrange(start as int, i as int),
        decreases end - i,
    {
        r.push(v[i]);
        i = i + 1;
        proof {
            assert(r@ =~= v@.subrange(start as int, i as int));
        }
    }
    r
}

} // verus!
