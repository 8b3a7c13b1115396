//! Big-endian byte strings as natural numbers: the mathematical model behind
//! the instruction codec and the typed value buffers, together with verified
//! conversions between machine integers and byte vectors.

use vstd::prelude::*;

verus! {

/// The natural number that a big-endian byte string denotes.
pub open spec fn be_val(s: Seq<u8>) -> nat
    decreases s.len(),
{
    if s.len() == 0 {
        0
    } else {
        (be_val(s.drop_last()) * 256 + s.last()) as nat
    }
}

/// The big-endian byte string of length `n` denoting `v % pow256(n)`.
pub open spec fn be_bytes(v: nat, n: nat) -> Seq<u8>
    decreases n,
{
    if n == 0 {
        Seq::empty()
    } else {
        be_bytes(v / 256, (n - 1) as nat).push((v % 256) as u8)
    }
}

/// 256 raised to the power `n`: the number of byte strings of length `n`.
pub open spec fn pow256(n: nat) -> nat
    decreases n,
{
    if n == 0 {
        1
    } else {
        256 * pow256((n - 1) as nat)
    }
}

/// The concrete powers of 256 that the fixed tag widths use.
pub proof fn lemma_pow256_values()
    ensures
        pow256(0) == 1,
        pow256(1) == 0x100,
        pow256(2) == 0x10000,
        pow256(4) == 0x1_0000_0000,
        pow256(7) == 0x100_0000_0000_0000,
        pow256(8) == 0x1_0000_0000_0000_0000,
{
    assert(pow256(0) == 1);
    assert(pow256(1) == 0x100);
    assert(pow256(2) == 0x10000);
    assert(pow256(3) == 0x100_0000);
    assert(pow256(4) == 0x1_0000_0000);
    assert(pow256(5) == 0x100_0000_0000);
    assert(pow256(6) == 0x1_0000_0000_0000);
    assert(pow256(7) == 0x100_0000_0000_0000);
    assert(pow256(8) == 0x1_0000_0000_0000_0000);
}

/// `pow256` is monotone in the exponent.
pub proof fn lemma_pow256_increases(a: nat, b: nat)
    requires
        a <= b,
    ensures
        pow256(a) <= pow256(b),
    decreases b,
{
    if a < b {
        lemma_pow256_increases(a, (b - 1) as nat);
        assert(pow256(b) == 256 * pow256((b - 1) as nat));
    }
}

/// Appending a byte multiplies the denoted value by 256 and adds the byte.
pub proof fn lemma_be_val_snoc(s: Seq<u8>, b: u8)
    ensures
        be_val(s.push(b)) == be_val(s) * 256 + b,
{
    assert(s.push(b).drop_last() =~= s);
    assert(s.push(b).last() == b);
}

/// A byte string of length `n` denotes a value below `pow256(n)`.
pub proof fn lemma_be_val_bound(s: Seq<u8>)
    ensures
        be_val(s) < pow256(s.len()),
    decreases s.len(),
{
    if s.len() > 0 {
        lemma_be_val_bound(s.drop_last());
        assert(be_val(s.drop_last()) * 256 <= (pow256((s.len() - 1) as nat) - 1) * 256)
            by (nonlinear_arith)
            requires
                be_val(s.drop_last()) <= pow256((s.len() - 1) as nat) - 1,
        ;
    }
}

/// `be_bytes` produces exactly `n` bytes.
pub proof fn lemma_be_bytes_len(v: nat, n: nat)
    ensures
        be_bytes(v, n).len() == n,
    decreases n,
{
    if n > 0 {
        lemma_be_bytes_len(v / 256, (n - 1) as nat);
    }
}

/// Encoding then decoding returns the value, for values that fit in `n` bytes.
pub proof fn lemma_be_val_be_bytes(v: nat, n: nat)
    requires
        v < pow256(n),
    ensures
        be_val(be_bytes(v, n)) == v,
    decreases n,
{
    if n > 0 {
        assert(v / 256 < pow256((n - 1) as nat)) by (nonlinear_arith)
            requires
                v < 256 * pow256((n - 1) as nat),
        ;
        lemma_be_val_be_bytes(v / 256, (n - 1) as nat);
        lemma_be_val_snoc(be_bytes(v / 256, (n - 1) as nat), (v % 256) as u8);
        assert(v == (v / 256) * 256 + v % 256) by (nonlinear_arith);
    }
}

/// Decoding then encoding returns the byte string itself.
pub proof fn lemma_be_bytes_be_val(s: Seq<u8>)
    ensures
        be_bytes(be_val(s), s.len()) =~= s,
    decreases s.len(),
{
    if s.len() > 0 {
        let v = be_val(s);
        let p = be_val(s.drop_last());
        let b = s.last();
        assert(v == p * 256 + b);
        assert(v / 256 == p && v % 256 == b) by (nonlinear_arith)
            requires
                v == p * 256 + b,
                0 <= b < 256,
        ;
        lemma_be_bytes_be_val(s.drop_last());
        assert(be_bytes(v, s.len()) == be_bytes(p, (s.len() - 1) as nat).push(b as u8));
        assert(s.drop_last().push(s.last()) =~= s);
    }
}

/// Reads the `n` bytes of `s` starting at `from` as one big-endian integer.
pub fn be_read(s: &[u8], from: usize, n: usize) -> (r: u64)
    requires
        n <= 8,
        from + n <= s@.len(),
    ensures
        r == be_val(s@.subrange(from as int, from + n)),
{
    proof {
        lemma_pow256_values();
    }
    let slen: usize = s.len();
    let mut r: u64 = 0;
    let mut i: usize = 0;
    assert(s@.subrange(from as int, from as int) =~= Seq::empty());
    while i < n
        invariant
            i <= n <= 8,
            from + n <= slen == s@.len(),
            r == be_val(s@.subrange(from as int, from + i)),
            r < pow256(i as nat),
            pow256(8) == 0x1_0000_0000_0000_0000,
        decreases n - i,
    {
        let b = s[from + i];
        proof {
            lemma_pow256_increases((i + 1) as nat, 8);
            assert(pow256((i + 1) as nat) == 256 * pow256(i as nat));
            let sub1 = s@.subrange(from as int, from + i + 1);
            assert(sub1.drop_last() =~= s@.subrange(from as int, from + i));
            assert(sub1.last() == s@[from + i]);
        }
        r = r * 256 + (b as u64);
        i = i + 1;
    }
    r
}

/// Writes `v` as `n` big-endian bytes; `v` must fit in `n` bytes.
pub fn be_write(v: u64, n: usize) -> (r: Vec<u8>)
    requires
        v < pow256(n as nat),
    ensures
        r@ == be_bytes(v as nat, n as nat),
        r@.len() == n,
{
    let mut r: Vec<u8> = Vec::new();
    let mut x: u64 = v;
    let mut i: usize = 0;
    proof {
        lemma_be_bytes_len(v as nat, n as nat);
        assert(be_bytes(x as nat, (n - i) as nat) + r@ =~= be_bytes(v as nat, n as nat));
    }
    while i < n
        invariant
            i <= n,
            be_bytes(x as nat, (n - i) as nat) + r@ =~= be_bytes(v as nat, n as nat),
            r@.len() == i,
        decreases n - i,
    {
        let b: u8 = (x % 256) as u8;
        let ghost r_prev = r@;
        let ghost x_prev = x as nat;
        let ghost m = (n - i) as nat;
        proof {
            assert(be_bytes(x_prev, m) == be_bytes(x_prev / 256, (m - 1) as nat).push(b));
            assert(be_bytes(x_prev / 256, (m - 1) as nat).push(b) =~= be_bytes(
                x_prev / 256,
                (m - 1) as nat,
            ) + seq![b]);
            assert((be_bytes(x_prev / 256, (m - 1) as nat) + seq![b]) + r_prev =~= be_bytes(
                x_prev / 256,
                (m - 1) as nat,
            ) + (seq![b] + r_prev));
        }
        r.insert(0, b);
        x = x / 256;
        i = i + 1;
        proof {
            assert(r@ =~= seq![b] + r_prev);
        }
    }
    proof {
        assert(be_bytes(x as nat, 0) + r@ =~= r@);
    }
    r
}

} // verus!
