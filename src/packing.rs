//! Lossy decimal floating-point packing of amounts and fees.
//!
//! A packed value is the big-endian integer `mantissa * 2^5 + exponent` and
//! stands for `mantissa * 10^exponent`.
use vstd::prelude::*;
use crate::bytes::{be_bytes, be_nat, pow256, push_be, read_be};
use crate::params::{PACKED_AMOUNT_BYTES, PACKED_FEE_BYTES};

verus! {

/// Room of the five-bit exponent field (`2^5`); both amounts and fees use it.
pub const EXPONENT_SCALE: u128 = 32;

/// Largest mantissa of a packed amount (`2^35 - 1`).
pub const AMOUNT_MAX_MANTISSA: u128 = 34359738367;

/// Largest mantissa of a packed fee (`2^11 - 1`).
pub const FEE_MAX_MANTISSA: u128 = 2047;

/// `10^e`.
pub open spec fn pow10(e: nat) -> nat
    decreases e,
{
    if e == 0 {
        1
    } else {
        10 * pow10((e - 1) as nat)
    }
}

/// Mantissa chosen for `a`: `a` divided by ten until it is at most `max_m`.
pub open spec fn float_mantissa(a: nat, max_m: nat) -> nat
    decreases a,
{
    if a <= max_m {
        a
    } else {
        float_mantissa(a / 10, max_m)
    }
}

/// Exponent chosen for `a`: how many times it was divided by ten.
pub open spec fn float_exponent(a: nat, max_m: nat) -> nat
    decreases a,
{
    if a <= max_m {
        0
    } else {
        1 + float_exponent(a / 10, max_m)
    }
}

/// The packed integer for `a`.
pub open spec fn packed_value(a: nat, max_m: nat) -> nat {
    float_mantissa(a, max_m) * (EXPONENT_SCALE as nat) + float_exponent(a, max_m)
}

/// The bytes that packing `a` gives.
pub open spec fn spec_pack(a: nat, max_m: nat, len: nat) -> Seq<u8> {
    be_bytes(packed_value(a, max_m), len)
}

/// What packed bytes stand for: `None` for a wrong length or a value above `u128::MAX`.
pub open spec fn spec_unpack(b: Seq<u8>, len: nat) -> Option<nat> {
    let p = be_nat(b);
    let v = (p / EXPONENT_SCALE as nat) * pow10(p % EXPONENT_SCALE as nat);
    if b.len() != len || v > u128::MAX {
        None
    } else {
        Some(v)
    }
}

/// Packed bytes that packing gives back unchanged: a zero exponent, or a mantissa
/// that would not fit after one more multiplication by ten.
pub open spec fn is_canonical(b: Seq<u8>, max_m: nat) -> bool {
    let p = be_nat(b);
    p % EXPONENT_SCALE as nat == 0 || (p / EXPONENT_SCALE as nat) * 10 > max_m
}

/// What `a` becomes after packing: its mantissa times ten to its exponent.
pub open spec fn rounded(a: nat, max_m: nat) -> nat {
    float_mantissa(a, max_m) * pow10(float_exponent(a, max_m))
}

/// What a token amount becomes after packing.
pub open spec fn spec_rounded_token(a: nat) -> nat {
    rounded(a, AMOUNT_MAX_MANTISSA as nat)
}

/// What a fee becomes after packing.
pub open spec fn spec_rounded_fee(a: nat) -> nat {
    rounded(a, FEE_MAX_MANTISSA as nat)
}

/// An amount that packing keeps exactly.
pub open spec fn is_packable(a: nat, max_m: nat) -> bool {
    &&& float_exponent(a, max_m) < EXPONENT_SCALE
    &&& float_mantissa(a, max_m) * pow10(float_exponent(a, max_m)) == a
}

/// The amounts that packing into a fee accepts: those below `2048 * 10^31`.
pub open spec fn fee_in_range(a: nat) -> bool {
    a < (FEE_MAX_MANTISSA + 1) * pow10(31)
}

/// The amount the packed token bytes stand for.
pub open spec fn spec_unpack_token(b: Seq<u8>) -> Option<nat> {
    spec_unpack(b, PACKED_AMOUNT_BYTES as nat)
}

/// The amount the packed fee bytes stand for.
pub open spec fn spec_unpack_fee(b: Seq<u8>) -> Option<nat> {
    spec_unpack(b, PACKED_FEE_BYTES as nat)
}

/// The packed bytes of a token amount.
pub open spec fn spec_pack_token(a: nat) -> Seq<u8> {
    spec_pack(a, AMOUNT_MAX_MANTISSA as nat, PACKED_AMOUNT_BYTES as nat)
}

/// The packed bytes of a fee.
pub open spec fn spec_pack_fee(a: nat) -> Seq<u8> {
    spec_pack(a, FEE_MAX_MANTISSA as nat, PACKED_FEE_BYTES as nat)
}

proof fn lemma_pow10_positive(e: nat)
    ensures
        pow10(e) >= 1,
    decreases e,
{
    if e > 0 {
        lemma_pow10_positive((e - 1) as nat);
    }
}

proof fn lemma_mantissa_bound(a: nat, max_m: nat)
    ensures
        float_mantissa(a, max_m) <= max_m,
    decreases a,
{
    if a > max_m {
        lemma_mantissa_bound(a / 10, max_m);
    }
}

/// Below `(max_m + 1) * 10^k` the exponent chosen is at most `k`.
proof fn lemma_exponent_bound(a: nat, max_m: nat, k: nat)
    requires
        a < (max_m + 1) * pow10(k),
    ensures
        float_exponent(a, max_m) <= k,
    decreases a,
{
    if a > max_m {
        if k == 0 {
            assert(pow10(k) == 1);
            assert((max_m + 1) * pow10(k) == max_m + 1) by (nonlinear_arith)
                requires
                    pow10(k) == 1,
            {}
            assert(false);
        }
        let k1 = (k - 1) as nat;
        let x = (max_m + 1) * pow10(k1);
        assert((max_m + 1) * pow10(k) == 10 * x) by (nonlinear_arith)
            requires
                pow10(k) == 10 * pow10(k1),
                x == (max_m + 1) * pow10(k1),
        {}
        assert(a / 10 < x) by (nonlinear_arith)
            requires
                a < 10 * x,
        {}
        lemma_exponent_bound(a / 10, max_m, k1);
    }
}

/// Every `u128` fits the amount packing, with an exponent of at most 28.
proof fn lemma_token_exponent_fits(a: nat)
    requires
        a <= u128::MAX,
    ensures
        float_exponent(a, AMOUNT_MAX_MANTISSA as nat) < EXPONENT_SCALE,
{
    reveal_with_fuel(pow10, 29);
    assert(pow10(28) == 10000000000000000000000000000);
    lemma_exponent_bound(a, AMOUNT_MAX_MANTISSA as nat, 28);
}

/// Greedy packing finds back a mantissa and exponent in canonical form.
proof fn lemma_greedy_of_canonical(m: nat, e: nat, max_m: nat)
    requires
        m <= max_m,
        e == 0 || m * 10 > max_m,
    ensures
        float_mantissa(m * pow10(e), max_m) == m,
        float_exponent(m * pow10(e), max_m) == e,
    decreases e,
{
    if e == 0 {
        assert(pow10(0) == 1);
        assert(m * pow10(0) == m);
    } else {
        let e1 = (e - 1) as nat;
        let v = m * pow10(e);
        let w = m * pow10(e1);
        lemma_pow10_positive(e1);
        assert(v == w * 10 && v > max_m && v / 10 == w) by (nonlinear_arith)
            requires
                v == m * pow10(e),
                w == m * pow10(e1),
                pow10(e) == 10 * pow10(e1),
                pow10(e1) >= 1,
                m * 10 > max_m,
        {}
        lemma_greedy_of_canonical(m, e1, max_m);
    }
}

/// Packing then unpacking keeps every packable amount.
pub proof fn lemma_unpack_pack(a: nat, max_m: nat, len: nat)
    requires
        float_exponent(a, max_m) < EXPONENT_SCALE,
        a <= u128::MAX,
        max_m * EXPONENT_SCALE + EXPONENT_SCALE <= pow256(len),
    ensures
        spec_unpack(spec_pack(a, max_m, len), len) == Some(rounded(a, max_m)),
        rounded(a, max_m) <= a,
{
    lemma_rounded_below(a, max_m);
    let m = float_mantissa(a, max_m);
    let e = float_exponent(a, max_m);
    let p = packed_value(a, max_m);
    lemma_mantissa_bound(a, max_m);
    assert(p < pow256(len)) by (nonlinear_arith)
        requires
            p == m * 32 + e,
            m <= max_m,
            e < 32,
            max_m * 32 + 32 <= pow256(len),
    {}
    crate::bytes::lemma_be_round_trip(p, len);
    assert(p / 32 == m && p % 32 == e) by (nonlinear_arith)
        requires
            p == m * 32 + e,
            e < 32,
    {}
}

/// Packing rounds down.
proof fn lemma_rounded_below(a: nat, max_m: nat)
    ensures
        rounded(a, max_m) <= a,
    decreases a,
{
    if a <= max_m {
        assert(pow10(0) == 1);
        assert(a * pow10(0) == a);
    } else {
        lemma_rounded_below(a / 10, max_m);
        let m = float_mantissa(a / 10, max_m);
        let e = float_exponent(a / 10, max_m);
        assert(pow10(e + 1) == 10 * pow10(e));
        assert(m * pow10(e + 1) <= a) by (nonlinear_arith)
            requires
                m * pow10(e) <= a / 10,
                pow10(e + 1) == 10 * pow10(e),
        {}
    }
}

/// Unpacking then packing keeps every canonical packed byte sequence.
pub proof fn lemma_pack_unpack(b: Seq<u8>, max_m: nat, len: nat)
    requires
        spec_unpack(b, len) is Some,
        is_canonical(b, max_m),
        be_nat(b) / EXPONENT_SCALE as nat <= max_m,
    ensures
        spec_pack(spec_unpack(b, len)->0, max_m, len) == b,
{
    let p = be_nat(b);
    let m = p / 32;
    let e = p % 32;
    let v = m * pow10(e);
    lemma_greedy_of_canonical(m, e, max_m);
    assert(packed_value(v, max_m) == p) by (nonlinear_arith)
        requires
            packed_value(v, max_m) == m * 32 + e,
            m == p / 32,
            e == p % 32,
    {}
    crate::bytes::lemma_be_bytes_of_nat(b);
}

/// Packs `a` with the greedy choice of exponent.
fn pack_float(a: u128, max_m: u128, len: usize) -> (r: Vec<u8>)
    requires
        1 <= max_m <= AMOUNT_MAX_MANTISSA,
        len <= 16,
        float_exponent(a as nat, max_m as nat) < EXPONENT_SCALE,
    ensures
        r@ == spec_pack(a as nat, max_m as nat, len as nat),
{
    let mut m: u128 = a;
    let mut e: u128 = 0;
    while m > max_m
        invariant
            float_mantissa(m as nat, max_m as nat) == float_mantissa(a as nat, max_m as nat),
            e + float_exponent(m as nat, max_m as nat) == float_exponent(a as nat, max_m as nat),
            float_exponent(a as nat, max_m as nat) < EXPONENT_SCALE,
        decreases m,
    {
        m = m / 10;
        e = e + 1;
    }
    let packed: u128 = m * EXPONENT_SCALE + e;
    let mut out: Vec<u8> = Vec::new();
    push_be(&mut out, packed, len);
    assert(out@ =~= spec_pack(a as nat, max_m as nat, len as nat));
    out
}

/// Unpacks `len` bytes; `None` where they stand for more than `u128::MAX`.
fn unpack_float(b: &[u8], len: usize) -> (r: Option<u128>)
    requires
        1 <= len <= 15,
    ensures
        r matches Some(v) ==> spec_unpack(b@, len as nat) == Some(v as nat),
        r is None ==> spec_unpack(b@, len as nat) is None,
{
    if b.len() != len {
        return None;
    }
    let p: u128 = read_be(b, 0, len);
    assert(b@.subrange(0, len as int) =~= b@);
    let m: u128 = p / EXPONENT_SCALE;
    let e: u128 = p % EXPONENT_SCALE;
    let mut v: u128 = m;
    let mut i: u128 = 0;
    proof {
        assert(pow10(0) == 1);
        assert(m * pow10(0) == m);
    }
    while i < e
        invariant
            i <= e,
            v as nat == m * pow10(i as nat),
            p as nat == be_nat(b@),
            m == p / EXPONENT_SCALE,
            e == p % EXPONENT_SCALE,
            b@.len() == len,
        decreases e - i,
    {
        match v.checked_mul(10) {
            Some(w) => {
                proof {
                    assert(m * pow10((i + 1) as nat) == 10 * (m * pow10(i as nat))) by (nonlinear_arith)
                        requires
                            pow10((i + 1) as nat) == 10 * pow10(i as nat),
                    {}
                }
                v = w;
                i = i + 1;
            },
            None => {
                proof {
                    assert(10 * (m * pow10(i as nat)) > u128::MAX);
                    lemma_grows(m as nat, i as nat, e as nat);
                    assert(be_nat(b@) == p);
                    assert(spec_unpack(b@, len as nat) is None);
                }
                return None;
            },
        }
    }
    Some(v)
}

/// Once `m * 10^(i+1)` passes `u128::MAX`, so does `m * 10^e` for every larger `e`.
proof fn lemma_grows(m: nat, i: nat, e: nat)
    requires
        i < e,
        10 * (m * pow10(i)) > u128::MAX,
    ensures
        m * pow10(e) > u128::MAX,
    decreases e - i,
{
    if i + 1 < e {
        lemma_pow10_positive(i);
        assert(10 * (m * pow10(i + 1)) > u128::MAX) by (nonlinear_arith)
            requires
                10 * (m * pow10(i)) > u128::MAX,
                pow10(i + 1) == 10 * pow10(i),
                pow10(i) >= 1,
        {}
        lemma_grows(m, i + 1, e);
    } else {
        assert(m * pow10(e) == 10 * (m * pow10(i))) by (nonlinear_arith)
            requires
                e == i + 1,
                pow10(e) == 10 * pow10(i),
        {}
    }
}

/// Packs a token amount into its five bytes, rounding down to what the form holds.
pub fn pack_token_amount(amount: u128) -> (r: Vec<u8>)
    ensures
        r@ == spec_pack_token(amount as nat),
        r@.len() == PACKED_AMOUNT_BYTES,
{
    proof {
        lemma_token_exponent_fits(amount as nat);
        crate::bytes::lemma_be_bytes_len(packed_value(amount as nat, AMOUNT_MAX_MANTISSA as nat), 5);
    }
    pack_float(amount, AMOUNT_MAX_MANTISSA, PACKED_AMOUNT_BYTES)
}

/// Packs a fee into its two bytes, rounding down to what the form holds.
pub fn pack_fee_amount(fee: u128) -> (r: Vec<u8>)
    requires
        fee_in_range(fee as nat),
    ensures
        r@ == spec_pack_fee(fee as nat),
        r@.len() == PACKED_FEE_BYTES,
{
    proof {
        lemma_exponent_bound(fee as nat, FEE_MAX_MANTISSA as nat, 31);
        crate::bytes::lemma_be_bytes_len(packed_value(fee as nat, FEE_MAX_MANTISSA as nat), 2);
    }
    pack_float(fee, FEE_MAX_MANTISSA, PACKED_FEE_BYTES)
}

/// The token amount that packed bytes stand for.
pub fn unpack_token_amount(data: &[u8]) -> (r: Option<u128>)
    ensures
        r matches Some(v) ==> spec_unpack_token(data@) == Some(v as nat),
        r is None ==> spec_unpack_token(data@) is None,
{
    unpack_float(data, PACKED_AMOUNT_BYTES)
}

/// The fee that packed bytes stand for.
pub fn unpack_fee_amount(data: &[u8]) -> (r: Option<u128>)
    ensures
        r matches Some(v) ==> spec_unpack_fee(data@) == Some(v as nat),
        r is None ==> spec_unpack_fee(data@) is None,
{
    unpack_float(data, PACKED_FEE_BYTES)
}

/// Packed amounts and fees have their fixed lengths.
pub proof fn lemma_packed_lengths(a: nat)
    ensures
        spec_pack_token(a).len() == PACKED_AMOUNT_BYTES,
        spec_pack_fee(a).len() == PACKED_FEE_BYTES,
{
    crate::bytes::lemma_be_bytes_len(packed_value(a, AMOUNT_MAX_MANTISSA as nat), 5);
    crate::bytes::lemma_be_bytes_len(packed_value(a, FEE_MAX_MANTISSA as nat), 2);
}

/// Unpacking the packed form of any token amount succeeds and gives the amount
/// rounded down to what the form holds.
pub proof fn lemma_token_unpack_pack_rounds(a: u128)
    ensures
        spec_unpack_token(spec_pack_token(a as nat)) == Some(spec_rounded_token(a as nat)),
        spec_rounded_token(a as nat) <= a,
{
    crate::bytes::lemma_pow256_values();
    lemma_token_exponent_fits(a as nat);
    lemma_unpack_pack(a as nat, AMOUNT_MAX_MANTISSA as nat, 5);
}

/// Unpacking the packed form of any fee in range succeeds and gives the fee
/// rounded down to what the form holds.
pub proof fn lemma_fee_unpack_pack_rounds(a: u128)
    requires
        fee_in_range(a as nat),
    ensures
        spec_unpack_fee(spec_pack_fee(a as nat)) == Some(spec_rounded_fee(a as nat)),
        spec_rounded_fee(a as nat) <= a,
{
    crate::bytes::lemma_pow256_values();
    lemma_exponent_bound(a as nat, FEE_MAX_MANTISSA as nat, 31);
    lemma_unpack_pack(a as nat, FEE_MAX_MANTISSA as nat, 2);
}

/// Unpacking the packed form of a packable token amount gives the amount back.
pub proof fn lemma_token_unpack_pack(a: u128)
    requires
        is_packable(a as nat, AMOUNT_MAX_MANTISSA as nat),
    ensures
        spec_unpack_token(spec_pack_token(a as nat)) == Some(a as nat),
{
    crate::bytes::lemma_pow256_values();
    lemma_unpack_pack(a as nat, AMOUNT_MAX_MANTISSA as nat, 5);
}

/// Unpacking the packed form of a packable fee gives the fee back.
pub proof fn lemma_fee_unpack_pack(a: u128)
    requires
        is_packable(a as nat, FEE_MAX_MANTISSA as nat),
    ensures
        spec_unpack_fee(spec_pack_fee(a as nat)) == Some(a as nat),
{
    crate::bytes::lemma_pow256_values();
    lemma_unpack_pack(a as nat, FEE_MAX_MANTISSA as nat, 2);
}

/// Packing what canonical packed token bytes stand for gives the same bytes.
pub proof fn lemma_token_pack_unpack(b: Seq<u8>)
    requires
        spec_unpack_token(b) is Some,
        is_canonical(b, AMOUNT_MAX_MANTISSA as nat),
    ensures
        spec_pack_token(spec_unpack_token(b)->0) == b,
{
    crate::bytes::lemma_pow256_values();
    crate::bytes::lemma_be_nat_bound(b);
    lemma_pack_unpack(b, AMOUNT_MAX_MANTISSA as nat, 5);
}

/// Packing what canonical packed fee bytes stand for gives the same bytes.
pub proof fn lemma_fee_pack_unpack(b: Seq<u8>)
    requires
        spec_unpack_fee(b) is Some,
        is_canonical(b, FEE_MAX_MANTISSA as nat),
    ensures
        spec_pack_fee(spec_unpack_fee(b)->0) == b,
{
    crate::bytes::lemma_pow256_values();
    crate::bytes::lemma_be_nat_bound(b);
    lemma_pack_unpack(b, FEE_MAX_MANTISSA as nat, 2);
}

/// Every `m * 10^e` with a mantissa and an exponent that fit their fields is
/// packable: packing keeps it exactly.
pub proof fn lemma_representable_is_packable(m: nat, e: nat, max_m: nat)
    requires
        m <= max_m,
        e < EXPONENT_SCALE,
    ensures
        is_packable(m * pow10(e), max_m),
    decreases e,
{
    if e == 0 || m * 10 > max_m {
        lemma_greedy_of_canonical(m, e, max_m);
    } else {
        let e1 = (e - 1) as nat;
        assert(m * pow10(e) == (m * 10) * pow10(e1)) by (nonlinear_arith)
            requires
                pow10(e) == 10 * pow10(e1),
        {}
        lemma_representable_is_packable(m * 10, e1, max_m);
    }
}

} // verus!
