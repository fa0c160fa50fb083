use vstd::prelude::*;

verus! {

/// 256 raised to `n`.
pub open spec fn pow256(n: nat) -> nat
    decreases n,
{
    if n == 0 {
        1
    } else {
        256 * pow256((n - 1) as nat)
    }
}

/// The number whose little-endian bytes are `b` (least significant first).
pub open spec fn le_value(b: Seq<u8>) -> nat
    decreases b.len(),
{
    if b.len() == 0 {
        0
    } else {
        (b[0] + 256 * le_value(b.skip(1))) as nat
    }
}

/// A number of `n` bytes is below 256 raised to `n`.
pub proof fn lemma_le_value_bound(b: Seq<u8>)
    ensures
        le_value(b) < pow256(b.len()),
    decreases b.len(),
{
    if b.len() > 0 {
        lemma_le_value_bound(b.skip(1));
        let r = le_value(b.skip(1));
        let p = pow256((b.len() - 1) as nat);
        assert(b[0] + 256 * r < 256 * p) by (nonlinear_arith)
            requires r < p, b[0] < 256;
    }
}

/// The unsigned value of the first `n` bytes of `b`, least significant first.
pub fn le_bytes_value(b: &[u8], n: usize) -> (r: u64)
    requires
        n <= 8,
        n <= b@.len(),
    ensures
        r as nat == le_value(b@.take(n as int)),
{
    let mut acc: u64 = 0;
    let mut i: usize = n;
    proof {
        assert(b@.take(n as int).subrange(n as int, n as int) =~= Seq::<u8>::empty());
        reveal_with_fuel(pow256, 9);
        assert(pow256(8) == 0x1_0000_0000_0000_0000);
    }
    while i > 0
        invariant
            n <= 8,
            n <= b@.len(),
            i <= n,
            acc as nat == le_value(b@.subrange(i as int, n as int)),
            acc < pow256((n - i) as nat),
            pow256(8) == 0x1_0000_0000_0000_0000,
        decreases i,
    {
        let ghost old_acc = acc;
        i = i - 1;
        proof {
            let s = b@.subrange(i as int, n as int);
            assert(s.skip(1) =~= b@.subrange(i + 1, n as int));
            assert(s[0] == b@[i as int]);
            lemma_pow256_mono((n - i) as nat, 8);
            assert(old_acc * 256 + b@[i as int] < 256 * pow256((n - i - 1) as nat)) by (nonlinear_arith)
                requires old_acc < pow256((n - i - 1) as nat), b@[i as int] < 256;
        }
        acc = acc * 256 + b[i] as u64;
    }
    proof {
        assert(b@.subrange(0, n as int) =~= b@.take(n as int));
    }
    acc
}

proof fn lemma_pow256_mono(a: nat, b: nat)
    requires
        a <= b,
    ensures
        pow256(a) <= pow256(b),
    decreases b,
{
    if a < b {
        lemma_pow256_mono(a, (b - 1) as nat);
    }
}

/// A vector of `n` zero bytes.
pub fn zeroed(n: usize) -> (r: Vec<u8>)
    ensures
        r@ == Seq::new(n as nat, |i: int| 0u8),
{
    let mut r: Vec<u8> = Vec::new();
    let mut i: usize = 0;
    while i < n
        invariant
            i <= n,
            r@ == Seq::new(i as nat, |k: int| 0u8),
        decreases n - i,
    {
        r.push(0);
        i = i + 1;
        assert(r@ =~= Seq::new(i as nat, |k: int| 0u8));
    }
    r
}

} // verus!
