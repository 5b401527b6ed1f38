//! Big-endian integers over byte sequences.
use vstd::prelude::*;

verus! {

/// `256^n`.
pub open spec fn pow256(n: nat) -> nat
    decreases n,
{
    if n == 0 {
        1
    } else {
        256 * pow256((n - 1) as nat)
    }
}

/// The natural number that `s` spells in big-endian order.
pub open spec fn be_nat(s: Seq<u8>) -> nat
    decreases s.len(),
{
    if s.len() == 0 {
        0
    } else {
        be_nat(s.drop_last()) * 256 + s.last() as nat
    }
}

/// The `n` least significant bytes of `x`, most significant first.
pub open spec fn be_bytes(x: nat, n: nat) -> Seq<u8>
    decreases n,
{
    if n == 0 {
        Seq::empty()
    } else {
        be_bytes(x / 256, (n - 1) as nat).push((x % 256) as u8)
    }
}

/// `n` zero bytes.
pub open spec fn zeros(n: nat) -> Seq<u8> {
    Seq::new(n, |i: int| 0u8)
}

/// `s` followed by zero bytes up to length `n`.
pub open spec fn pad_to(s: Seq<u8>, n: nat) -> Seq<u8> {
    s + zeros((n - s.len()) as nat)
}

pub proof fn lemma_pow256_positive(n: nat)
    ensures
        pow256(n) >= 1,
    decreases n,
{
    if n > 0 {
        lemma_pow256_positive((n - 1) as nat);
    }
}

pub proof fn lemma_pow256_monotone(a: nat, b: nat)
    requires
        a <= b,
    ensures
        pow256(a) <= pow256(b),
    decreases b,
{
    if a < b {
        lemma_pow256_monotone(a, (b - 1) as nat);
        lemma_pow256_positive((b - 1) as nat);
    }
}

pub proof fn lemma_pow256_values()
    ensures
        pow256(1) == 0x100,
        pow256(2) == 0x1_0000,
        pow256(4) == 0x1_0000_0000,
        pow256(5) == 0x100_0000_0000,
        pow256(16) == 0x1_0000_0000_0000_0000_0000_0000_0000_0000,
{
    reveal_with_fuel(pow256, 17);
}

pub proof fn lemma_be_bytes_len(x: nat, n: nat)
    ensures
        be_bytes(x, n).len() == n,
    decreases n,
{
    if n > 0 {
        lemma_be_bytes_len(x / 256, (n - 1) as nat);
    }
}

/// Reading back `n` bytes written from `x` gives `x` modulo `256^n`.
pub proof fn lemma_be_nat_of_bytes(x: nat, n: nat)
    ensures
        be_nat(be_bytes(x, n)) == x % pow256(n),
    decreases n,
{
    lemma_be_bytes_len(x, n);
    if n > 0 {
        let m = (n - 1) as nat;
        lemma_be_nat_of_bytes(x / 256, m);
        lemma_pow256_positive(m);
        let s = be_bytes(x, n);
        assert(s.drop_last() == be_bytes(x / 256, m));
        let p = pow256(m);
        assert(be_nat(s) == ((x / 256) % p) * 256 + x % 256);
        assert(((x / 256) % p) * 256 + x % 256 == x % (p * 256)) by (nonlinear_arith)
            requires
                p >= 1,
        {
            vstd::arithmetic::div_mod::lemma_breakdown(x as int, 256, p as int);
        }
    }
}

/// Writing back what `n` bytes spell gives the same bytes.
pub proof fn lemma_be_bytes_of_nat(s: Seq<u8>)
    ensures
        be_bytes(be_nat(s), s.len()) == s,
    decreases s.len(),
{
    if s.len() > 0 {
        lemma_be_bytes_of_nat(s.drop_last());
        let v = be_nat(s);
        let w = be_nat(s.drop_last());
        assert(v / 256 == w && v % 256 == s.last() as nat) by (nonlinear_arith)
            requires
                v == w * 256 + s.last() as nat,
                s.last() < 256,
        {}
        assert(be_bytes(v, s.len()) =~= s);
    }
}

/// What `n` bytes spell is below `256^n`.
pub proof fn lemma_be_nat_bound(s: Seq<u8>)
    ensures
        be_nat(s) < pow256(s.len()),
    decreases s.len(),
{
    if s.len() > 0 {
        lemma_be_nat_bound(s.drop_last());
        let w = be_nat(s.drop_last());
        let p = pow256((s.len() - 1) as nat);
        assert(w * 256 + (s.last() as nat) < 256 * p) by (nonlinear_arith)
            requires
                w < p,
                s.last() < 256,
        {}
    }
}

/// The value of `x % 256^n` written into `n` bytes; a value below `256^n` is kept whole.
pub proof fn lemma_be_round_trip(x: nat, n: nat)
    requires
        x < pow256(n),
    ensures
        be_nat(be_bytes(x, n)) == x,
        be_bytes(x, n).len() == n,
{
    lemma_be_nat_of_bytes(x, n);
    lemma_be_bytes_len(x, n);
    vstd::arithmetic::div_mod::lemma_small_mod(x, pow256(n));
}

/// Appends the `n` least significant bytes of `x` to `out`, most significant first.
pub fn push_be(out: &mut Vec<u8>, x: u128, n: usize)
    requires
        n <= 16,
    ensures
        final(out)@ == old(out)@ + be_bytes(x as nat, n as nat),
        final(out)@.len() == old(out)@.len() + n,
    decreases n,
{
    if n == 0 {
        assert(old(out)@ + be_bytes(x as nat, 0) =~= old(out)@);
    } else {
        let ghost start = out@;
        push_be(out, x / 256, n - 1);
        out.push((x % 256) as u8);
        assert(out@ =~= start + be_bytes(x as nat, n as nat));
    }
    proof {
        lemma_be_bytes_len(x as nat, n as nat);
    }
}

/// Reads the `n` bytes of `b` from `start` as a big-endian number.
pub fn read_be(b: &[u8], start: usize, n: usize) -> (r: u128)
    requires
        n <= 16,
        start + n <= b@.len(),
    ensures
        r as nat == be_nat(b@.subrange(start as int, start + n)),
{
    let mut acc: u128 = 0;
    let mut i: usize = start;
    let blen: usize = b.len();
    assert(start + n <= blen);
    let end: usize = start + n;
    proof {
        assert(b@.subrange(start as int, start as int) =~= Seq::<u8>::empty());
    }
    while i < end
        invariant
            start <= i <= end,
            end == start + n,
            end <= b@.len(),
            n <= 16,
            acc as nat == be_nat(b@.subrange(start as int, i as int)),
        decreases end - i,
    {
        let ghost prev = b@.subrange(start as int, i as int);
        let ghost next = b@.subrange(start as int, i + 1);
        proof {
            assert(next.drop_last() =~= prev);
            lemma_be_nat_bound(prev);
            lemma_pow256_monotone(prev.len(), 15);
            lemma_pow256_values();
            reveal_with_fuel(pow256, 17);
            assert(acc * 256 + b[i as int] < 0x1_0000_0000_0000_0000_0000_0000_0000_0000)
                by (nonlinear_arith)
                requires
                    acc < pow256(15),
                    pow256(15) * 256 == 0x1_0000_0000_0000_0000_0000_0000_0000_0000,
                    b[i as int] < 256,
            {}
        }
        acc = acc * 256 + b[i] as u128;
        i = i + 1;
    }
    acc
}

/// Appends zero bytes until `out` holds `len` bytes.
pub fn pad_zeros(out: &mut Vec<u8>, len: usize)
    requires
        old(out)@.len() <= len,
    ensures
        final(out)@ == pad_to(old(out)@, len as nat),
{
    let ghost start = out@;
    while out.len() < len
        invariant
            start.len() <= out@.len() <= len,
            out@ == pad_to(start, out@.len() as nat),
        decreases len - out.len(),
    {
        out.push(0u8);
        assert(out@ =~= pad_to(start, out@.len() as nat));
    }
}

/// Appends all of `src` to `out`.
pub fn push_all(out: &mut Vec<u8>, src: &[u8])
    ensures
        final(out)@ == old(out)@ + src@,
{
    let ghost start = out@;
    let mut i: usize = 0;
    while i < src.len()
        invariant
            i <= src@.len(),
            out@ == start + src@.subrange(0, i as int),
        decreases src.len() - i,
    {
        out.push(src[i]);
        i = i + 1;
        assert(out@ =~= start + src@.subrange(0, i as int));
    }
    assert(src@.subrange(0, src@.len() as int) =~= src@);
}

/// Reads two bytes of `b` from `start` as a big-endian `u16`.
pub fn read_u16(b: &[u8], start: usize) -> (r: u16)
    requires
        start + 2 <= b@.len(),
    ensures
        r as nat == be_nat(b@.subrange(start as int, start + 2)),
{
    let v = read_be(b, start, 2);
    proof {
        lemma_be_nat_bound(b@.subrange(start as int, start + 2));
        lemma_pow256_values();
    }
    v as u16
}

/// Reads four bytes of `b` from `start` as a big-endian `u32`.
pub fn read_u32(b: &[u8], start: usize) -> (r: u32)
    requires
        start + 4 <= b@.len(),
    ensures
        r as nat == be_nat(b@.subrange(start as int, start + 4)),
{
    let v = read_be(b, start, 4);
    proof {
        lemma_be_nat_bound(b@.subrange(start as int, start + 4));
        lemma_pow256_values();
    }
    v as u32
}

/// Reads sixteen bytes of `b` from `start` as a big-endian `u128`.
pub fn read_u128(b: &[u8], start: usize) -> (r: u128)
    requires
        start + 16 <= b@.len(),
    ensures
        r as nat == be_nat(b@.subrange(start as int, start + 16)),
{
    read_be(b, start, 16)
}

/// Copies the twenty bytes of `b` from `start`.
pub fn read_bytes20(b: &[u8], start: usize) -> (r: [u8; 20])
    requires
        start + 20 <= b@.len(),
    ensures
        r@ == b@.subrange(start as int, start + 20),
{
    let blen: usize = b.len();
    assert(start + 20 <= blen);
    let mut d: [u8; 20] = [0u8; 20];
    let mut i: usize = 0;
    while i < 20
        invariant
            i <= 20,
            start + 20 <= b@.len(),
            b@.len() == blen,
            d@.len() == 20,
            forall|j: int| 0 <= j < i ==> d@[j] == b@[start + j],
        decreases 20 - i,
    {
        d[i] = b[start + i];
        i = i + 1;
    }
    assert(d@ =~= b@.subrange(start as int, start + 20));
    d
}

} // verus!
