//! The mathematical model of balanced ternary packing.
//!
//! Sequences of trits are modelled as `Seq<int>` with every element in
//! {-1, 0, +1}; tryte values live in [-13, +13]. The spec functions here
//! describe how the packed encodings group and bias those digits, and the
//! lemmas establish that packing and unpacking are mutually inverse.

use vstd::arithmetic::div_mod::lemma_fundamental_div_mod;
use vstd::arithmetic::div_mod::lemma_fundamental_div_mod_converse;
use vstd::arithmetic::div_mod::lemma_mod_division_less_than_divisor;
use vstd::prelude::*;

verus! {

/// A balanced ternary digit is one of -1, 0 or +1.
pub open spec fn is_trit(v: int) -> bool {
    v == -1 || v == 0 || v == 1
}

/// Every element of the sequence is a balanced ternary digit.
pub open spec fn is_trit_seq(s: Seq<int>) -> bool {
    forall|i: int| 0 <= i < s.len() ==> is_trit(#[trigger] s[i])
}

/// A tryte value lies in [-13, +13].
pub open spec fn is_tryte_val(v: int) -> bool {
    -13 <= v <= 13
}

/// Every element of the sequence is a tryte value.
pub open spec fn is_tryte_seq(s: Seq<int>) -> bool {
    forall|i: int| 0 <= i < s.len() ==> is_tryte_val(#[trigger] s[i])
}

/// The lowest balanced ternary digit of an integer.
pub open spec fn bal_digit(s: int) -> int {
    if s % 3 == 2 {
        -1
    } else {
        s % 3
    }
}

/// What remains of an integer once its lowest balanced digit is removed.
pub open spec fn bal_rest(s: int) -> int {
    (s - bal_digit(s)) / 3
}

/// The `n` lowest balanced ternary digits of `v`, least significant first.
pub open spec fn bal_digits(v: int, n: nat) -> Seq<int>
    decreases n,
{
    if n == 0 {
        Seq::<int>::empty()
    } else {
        seq![bal_digit(v)] + bal_digits(bal_rest(v), (n - 1) as nat)
    }
}

/// The integer a digit sequence denotes, least significant digit first.
pub open spec fn trits_val(s: Seq<int>) -> int
    decreases s.len(),
{
    if s.len() == 0 {
        0
    } else {
        s[0] + 3 * trits_val(s.drop_first())
    }
}

/// The three-trit decomposition of a tryte value.
pub open spec fn tryte_trits(v: int) -> Seq<int> {
    bal_digits(v, 3)
}

/// The largest integer whose `n` balanced digits exist: (3^n - 1) / 2.
pub open spec fn half3(n: nat) -> int
    decreases n,
{
    if n == 0 {
        0
    } else {
        3 * half3((n - 1) as nat) + 1
    }
}

/// The balanced digit and the rest decompose an integer exactly.
pub proof fn lemma_bal_digit(s: int)
    ensures
        is_trit(bal_digit(s)),
        s == bal_digit(s) + 3 * bal_rest(s),
{
    lemma_fundamental_div_mod(s, 3);
    lemma_mod_division_less_than_divisor(s, 3);
    if s % 3 == 2 {
        lemma_fundamental_div_mod_converse(s + 1, 3, s / 3 + 1, 0);
    } else {
        lemma_fundamental_div_mod_converse(s - s % 3, 3, s / 3, 0);
    }
}

/// Composing a digit with a rest and decomposing again is the identity.
pub proof fn lemma_bal_digit_of(d: int, k: int)
    requires
        is_trit(d),
    ensures
        bal_digit(d + 3 * k) == d,
        bal_rest(d + 3 * k) == k,
{
    if d == -1 {
        lemma_fundamental_div_mod_converse(d + 3 * k, 3, k - 1, 2);
        lemma_fundamental_div_mod_converse(3 * k, 3, k, 0);
    } else {
        lemma_fundamental_div_mod_converse(d + 3 * k, 3, k, d);
        lemma_fundamental_div_mod_converse(3 * k, 3, k, 0);
    }
}

/// `bal_digits` always yields exactly `n` digits.
pub proof fn lemma_bal_digits_len(v: int, n: nat)
    ensures
        bal_digits(v, n).len() == n,
        is_trit_seq(bal_digits(v, n)),
    decreases n,
{
    if n > 0 {
        lemma_bal_digit(v);
        lemma_bal_digits_len(bal_rest(v), (n - 1) as nat);
        let ds = bal_digits(v, n);
        assert forall|i: int| 0 <= i < ds.len() implies is_trit(#[trigger] ds[i]) by {
            if i > 0 {
                assert(ds[i] == bal_digits(bal_rest(v), (n - 1) as nat)[i - 1]);
            }
        }
    }
}

/// Any integer within reach of `n` balanced digits is denoted by them.
pub proof fn lemma_bal_digits_val(v: int, n: nat)
    requires
        -half3(n) <= v <= half3(n),
    ensures
        trits_val(bal_digits(v, n)) == v,
    decreases n,
{
    if n == 0 {
        assert(v == 0);
        assert(trits_val(Seq::<int>::empty()) == 0);
    } else {
        let d = bal_digit(v);
        let r = bal_rest(v);
        lemma_bal_digit(v);
        assert(3 * r == v - d);
        assert(-half3((n - 1) as nat) <= r <= half3((n - 1) as nat));
        lemma_bal_digits_val(r, (n - 1) as nat);
        let ds = bal_digits(v, n);
        let rest = bal_digits(r, (n - 1) as nat);
        assert(ds.drop_first() =~= rest);
        assert(trits_val(ds) == d + 3 * trits_val(rest));
    }
}

/// A sequence of balanced digits is recovered from the integer it denotes,
/// and that integer lies within reach of the sequence's length.
pub proof fn lemma_digits_of_val(s: Seq<int>)
    requires
        is_trit_seq(s),
    ensures
        bal_digits(trits_val(s), s.len()) == s,
        -half3(s.len()) <= trits_val(s) <= half3(s.len()),
    decreases s.len(),
{
    if s.len() == 0 {
        assert(bal_digits(0, 0) =~= s);
    } else {
        let rest = s.drop_first();
        assert(is_trit_seq(rest));
        lemma_digits_of_val(rest);
        let v = trits_val(s);
        assert(v == s[0] + 3 * trits_val(rest));
        lemma_bal_digit_of(s[0], trits_val(rest));
        assert(bal_digits(v, s.len()) =~= s);
    }
}

/// The value of a three-digit sequence, spelled out.
pub proof fn lemma_trits_val3(s: Seq<int>)
    requires
        s.len() == 3,
    ensures
        trits_val(s) == s[0] + 3 * s[1] + 9 * s[2],
{
    let s1 = s.drop_first();
    let s2 = s1.drop_first();
    let s3 = s2.drop_first();
    assert(s3.len() == 0);
    assert(trits_val(s3) == 0);
    assert(trits_val(s2) == s2[0] + 3 * trits_val(s3));
    assert(trits_val(s1) == s1[0] + 3 * trits_val(s2));
    assert(trits_val(s) == s[0] + 3 * trits_val(s1));
}

/// The value of a five-digit sequence, spelled out.
pub proof fn lemma_trits_val5(s: Seq<int>)
    requires
        s.len() == 5,
    ensures
        trits_val(s) == s[0] + 3 * s[1] + 9 * s[2] + 27 * s[3] + 81 * s[4],
{
    let s1 = s.drop_first();
    let s2 = s1.drop_first();
    let s3 = s2.drop_first();
    let s4 = s3.drop_first();
    let s5 = s4.drop_first();
    assert(s5.len() == 0);
    assert(trits_val(s5) == 0);
    assert(trits_val(s4) == s4[0] + 3 * trits_val(s5));
    assert(trits_val(s3) == s3[0] + 3 * trits_val(s4));
    assert(trits_val(s2) == s2[0] + 3 * trits_val(s3));
    assert(trits_val(s1) == s1[0] + 3 * trits_val(s2));
    assert(trits_val(s) == s[0] + 3 * trits_val(s1));
}

/// `half3` at the lengths the encodings use.
pub proof fn lemma_half3_values()
    ensures
        half3(3) == 13,
        half3(5) == 121,
{
    assert(half3(0) == 0);
    assert(half3(1) == 1);
    assert(half3(2) == 4);
    assert(half3(3) == 13);
    assert(half3(4) == 40);
    assert(half3(5) == 121);
}

/// A positive multiple of `k` is at least `k`, and stepping down by `k`
/// keeps it a multiple.
pub proof fn lemma_multiple_step(len: int, k: int)
    requires
        k > 0,
        len % k == 0,
        len > 0,
    ensures
        len >= k,
        (len - k) % k == 0,
{
    lemma_fundamental_div_mod(len, k);
    assert(len == k * (len / k));
    assert(len / k >= 1) by (nonlinear_arith)
        requires
            k > 0,
            len > 0,
            len == k * (len / k),
    ;
    assert(len >= k) by (nonlinear_arith)
        requires
            k > 0,
            len / k >= 1,
            len == k * (len / k),
    ;
    assert((len / k - 1) * k + 0 == len - k) by (nonlinear_arith)
        requires
            len == k * (len / k),
    ;
    lemma_fundamental_div_mod_converse(len - k, k, len / k - 1, 0);
}

/// One step of digit extraction in the biased domain: shifting a signed
/// sum by its bias turns the balanced digit into an ordinary base-3 digit.
pub proof fn lemma_biased_digit(s: int, rest_bias: int)
    requires
        rest_bias >= 0,
        -(3 * rest_bias + 1) <= s <= 3 * rest_bias + 1,
    ensures
        (s + 3 * rest_bias + 1) % 3 == bal_digit(s) + 1,
        (s + 3 * rest_bias + 1) / 3 == bal_rest(s) + rest_bias,
        -rest_bias <= bal_rest(s) <= rest_bias,
{
    lemma_bal_digit(s);
    let d = bal_digit(s);
    let r = bal_rest(s);
    assert(s + 3 * rest_bias + 1 == (r + rest_bias) * 3 + (d + 1));
    lemma_fundamental_div_mod_converse(s + 3 * rest_bias + 1, 3, r + rest_bias, d + 1);
}

/// A tryte count expands to a trit count divisible by five exactly when
/// the tryte count itself is divisible by five.
pub proof fn lemma_mul3_mod5(n: int)
    requires
        n >= 0,
    ensures
        (3 * n) % 5 == 0 <==> n % 5 == 0,
{
    lemma_fundamental_div_mod(n, 5);
    lemma_mod_division_less_than_divisor(n, 5);
    let q = n / 5;
    let r = n % 5;
    if r == 0 {
        lemma_fundamental_div_mod_converse(3 * n, 5, 3 * q, 0);
    } else if r == 1 {
        lemma_fundamental_div_mod_converse(3 * n, 5, 3 * q, 3);
    } else if r == 2 {
        lemma_fundamental_div_mod_converse(3 * n, 5, 3 * q + 1, 1);
    } else if r == 3 {
        lemma_fundamental_div_mod_converse(3 * n, 5, 3 * q + 1, 4);
    } else {
        lemma_fundamental_div_mod_converse(3 * n, 5, 3 * q + 2, 2);
    }
}

/// A tryte count expands to a trit count divisible by nine exactly when
/// the tryte count itself is divisible by three.
pub proof fn lemma_mul3_mod9(n: int)
    requires
        n >= 0,
    ensures
        (3 * n) % 9 == 0 <==> n % 3 == 0,
{
    lemma_fundamental_div_mod(n, 3);
    lemma_mod_division_less_than_divisor(n, 3);
    let q = n / 3;
    let r = n % 3;
    if r == 0 {
        lemma_fundamental_div_mod_converse(3 * n, 9, q, 0);
    } else if r == 1 {
        lemma_fundamental_div_mod_converse(3 * n, 9, q, 3);
    } else {
        lemma_fundamental_div_mod_converse(3 * n, 9, q, 6);
    }
}

/// The biased unsigned byte that stores a signed five-trit sum.
pub open spec fn byte5_of(s: int) -> int {
    if s < 0 {
        s + 243
    } else {
        s
    }
}

/// The signed five-trit sum a T5B1 byte stores.
pub open spec fn unbias5(b: int) -> int {
    if b > 121 {
        b - 243
    } else {
        b
    }
}

/// The index in [0, 26] that stores a tryte value.
pub open spec fn index27_of(v: int) -> int {
    if v < 0 {
        v + 27
    } else {
        v
    }
}

/// The tryte value an index in [0, 26] stores.
pub open spec fn val_of_index27(a: int) -> int {
    if a > 13 {
        a - 27
    } else {
        a
    }
}

/// Wrapping a five-trit sum into a byte and back is the identity.
pub proof fn lemma_byte5_of_inverse(s: int)
    requires
        -121 <= s <= 121,
    ensures
        0 <= byte5_of(s) <= 242,
        unbias5(byte5_of(s)) == s,
{
}

/// Biasing a tryte value into an index and back is the identity.
pub proof fn lemma_index27_inverse(v: int)
    requires
        -13 <= v <= 13,
    ensures
        0 <= index27_of(v) <= 26,
        val_of_index27(index27_of(v)) == v,
{
}

/// For every T5B1 byte, decoding it to five trits and re-encoding the sum
/// yields the byte back.
pub proof fn lemma_byte5_round_trip(b: int)
    requires
        0 <= b <= 242,
    ensures
        byte5_of(trits_val(bal_digits(unbias5(b), 5))) == b,
        is_trit_seq(bal_digits(unbias5(b), 5)),
        bal_digits(unbias5(b), 5).len() == 5,
{
    lemma_half3_values();
    lemma_bal_digits_val(unbias5(b), 5);
    lemma_bal_digits_len(unbias5(b), 5);
}

/// The trit expansion of a sequence of tryte values.
pub open spec fn trytes_to_trits(s: Seq<int>) -> Seq<int>
    decreases s.len(),
{
    if s.len() == 0 {
        Seq::<int>::empty()
    } else {
        trytes_to_trits(s.drop_last()) + tryte_trits(s.last())
    }
}

/// The tryte packing of a trit sequence whose length is a multiple of three.
pub open spec fn trits_to_trytes(ts: Seq<int>) -> Seq<int>
    decreases ts.len(),
{
    if ts.len() < 3 {
        Seq::<int>::empty()
    } else {
        trits_to_trytes(ts.subrange(0, ts.len() - 3)) + seq![
            trits_val(ts.subrange(ts.len() - 3, ts.len() as int)),
        ]
    }
}

/// The T5B1 byte packing of a trit sequence whose length is a multiple of
/// five.
pub open spec fn t5_bytes(ts: Seq<int>) -> Seq<int>
    decreases ts.len(),
{
    if ts.len() < 5 {
        Seq::<int>::empty()
    } else {
        t5_bytes(ts.subrange(0, ts.len() - 5)) + seq![
            byte5_of(trits_val(ts.subrange(ts.len() - 5, ts.len() as int))),
        ]
    }
}

/// The trit expansion of a sequence of T5B1 bytes.
pub open spec fn t5_trits(bs: Seq<int>) -> Seq<int>
    decreases bs.len(),
{
    if bs.len() == 0 {
        Seq::<int>::empty()
    } else {
        t5_trits(bs.drop_last()) + bal_digits(unbias5(bs.last()), 5)
    }
}

/// The two T9B2 bytes that pack a group of nine trits.
pub open spec fn t9_pair(g: Seq<int>) -> Seq<int> {
    let a = index27_of(trits_val(g.subrange(0, 3)));
    let b = index27_of(trits_val(g.subrange(3, 6)));
    let c = index27_of(trits_val(g.subrange(6, 9)));
    seq![a * 8 + c % 8, b * 8 + c / 8]
}

/// The T9B2 byte packing of a trit sequence whose length is a multiple of
/// nine.
pub open spec fn t9_bytes(ts: Seq<int>) -> Seq<int>
    decreases ts.len(),
{
    if ts.len() < 9 {
        Seq::<int>::empty()
    } else {
        t9_bytes(ts.subrange(0, ts.len() - 9)) + t9_pair(
            ts.subrange(ts.len() - 9, ts.len() as int),
        )
    }
}

/// The trit expansion of a sequence of T9B2 byte pairs.
pub open spec fn t9_trits(bs: Seq<int>) -> Seq<int>
    decreases bs.len(),
{
    if bs.len() < 2 {
        Seq::<int>::empty()
    } else {
        let b0 = bs[bs.len() - 2];
        let b1 = bs[bs.len() - 1];
        t9_trits(bs.subrange(0, bs.len() - 2)) + tryte_trits(val_of_index27(b0 / 8)) + tryte_trits(
            val_of_index27(b1 / 8),
        ) + tryte_trits(val_of_index27(b0 % 8 + 8 * (b1 % 8)))
    }
}

/// A pair of bytes is a valid T9B2 pair when each recovered index lies in
/// [0, 26].
pub open spec fn is_t9_pair_valid(b0: int, b1: int) -> bool {
    &&& 0 <= b0
    &&& 0 <= b1
    &&& b0 / 8 <= 26
    &&& b1 / 8 <= 26
    &&& b0 % 8 + 8 * (b1 % 8) <= 26
}

/// A byte sequence is a valid T9B2 buffer: even length, every pair valid.
pub open spec fn is_t9_seq(bs: Seq<int>) -> bool {
    &&& bs.len() % 2 == 0
    &&& forall|i: int|
        0 <= i && 2 * i + 1 < bs.len() ==> is_t9_pair_valid(#[trigger] bs[2 * i], bs[2 * i + 1])
}

/// Every byte of a valid T9B2 pair lies in [0, 215].
pub proof fn lemma_t9_pair_bytes_bound(b0: int, b1: int)
    requires
        is_t9_pair_valid(b0, b1),
    ensures
        0 <= b0 <= 215,
        0 <= b1 <= 215,
{
    lemma_fundamental_div_mod(b0, 8);
    lemma_mod_division_less_than_divisor(b0, 8);
    lemma_fundamental_div_mod(b1, 8);
    lemma_mod_division_less_than_divisor(b1, 8);
}

/// A byte sequence is a valid T5B1 buffer: every byte lies in [0, 242].
pub open spec fn is_t5_seq(bs: Seq<int>) -> bool {
    forall|i: int| 0 <= i < bs.len() ==> 0 <= #[trigger] bs[i] <= 242
}

/// Expanding a tryte sequence yields three trits per tryte.
pub proof fn lemma_trytes_to_trits_len(s: Seq<int>)
    ensures
        trytes_to_trits(s).len() == 3 * s.len(),
    decreases s.len(),
{
    if s.len() > 0 {
        lemma_trytes_to_trits_len(s.drop_last());
        lemma_bal_digits_len(s.last(), 3);
    }
}

/// The trit expansion of a tryte sequence consists of trits.
pub proof fn lemma_trytes_to_trits_is_trits(s: Seq<int>)
    ensures
        is_trit_seq(trytes_to_trits(s)),
    decreases s.len(),
{
    if s.len() > 0 {
        lemma_trytes_to_trits_is_trits(s.drop_last());
        lemma_bal_digits_len(s.last(), 3);
        let pre = trytes_to_trits(s.drop_last());
        let tail = tryte_trits(s.last());
        let all = trytes_to_trits(s);
        assert forall|i: int| 0 <= i < all.len() implies is_trit(#[trigger] all[i]) by {
            if i < pre.len() {
                assert(all[i] == pre[i]);
            } else {
                assert(all[i] == tail[i - pre.len()]);
            }
        }
    }
}

/// Trit expansion distributes over concatenation of tryte sequences.
pub proof fn lemma_trytes_to_trits_app(a: Seq<int>, b: Seq<int>)
    ensures
        trytes_to_trits(a + b) == trytes_to_trits(a) + trytes_to_trits(b),
    decreases b.len(),
{
    if b.len() == 0 {
        assert(a + b =~= a);
        assert(trytes_to_trits(a) + trytes_to_trits(b) =~= trytes_to_trits(a));
    } else {
        assert((a + b).drop_last() =~= a + b.drop_last());
        assert((a + b).last() == b.last());
        lemma_trytes_to_trits_app(a, b.drop_last());
        assert(trytes_to_trits(a) + trytes_to_trits(b.drop_last()) + tryte_trits(b.last())
            =~= trytes_to_trits(a) + (trytes_to_trits(b.drop_last()) + tryte_trits(b.last())));
    }
}

/// Trit expansion distributes over concatenation of T5B1 byte sequences.
pub proof fn lemma_t5_trits_app(a: Seq<int>, b: Seq<int>)
    ensures
        t5_trits(a + b) == t5_trits(a) + t5_trits(b),
    decreases b.len(),
{
    if b.len() == 0 {
        assert(a + b =~= a);
        assert(t5_trits(a) + t5_trits(b) =~= t5_trits(a));
    } else {
        assert((a + b).drop_last() =~= a + b.drop_last());
        assert((a + b).last() == b.last());
        lemma_t5_trits_app(a, b.drop_last());
        let tail = bal_digits(unbias5(b.last()), 5);
        assert(t5_trits(a) + t5_trits(b.drop_last()) + tail =~= t5_trits(a) + (t5_trits(
            b.drop_last(),
        ) + tail));
    }
}

/// Trit expansion distributes over concatenation of T9B2 byte sequences.
pub proof fn lemma_t9_trits_app(a: Seq<int>, b: Seq<int>)
    requires
        b.len() % 2 == 0,
    ensures
        t9_trits(a + b) == t9_trits(a) + t9_trits(b),
    decreases b.len(),
{
    if b.len() == 0 {
        assert(a + b =~= a);
        assert(t9_trits(a) + t9_trits(b) =~= t9_trits(a));
    } else {
        lemma_multiple_step(b.len() as int, 2);
        let bpre = b.subrange(0, b.len() - 2);
        let ab = a + b;
        assert(ab.subrange(0, ab.len() - 2) =~= a + bpre);
        assert(ab[ab.len() - 2] == b[b.len() - 2]);
        assert(ab[ab.len() - 1] == b[b.len() - 1]);
        lemma_t9_trits_app(a, bpre);
        let b0 = b[b.len() - 2];
        let b1 = b[b.len() - 1];
        let t0 = tryte_trits(val_of_index27(b0 / 8));
        let t1 = tryte_trits(val_of_index27(b1 / 8));
        let t2 = tryte_trits(val_of_index27(b0 % 8 + 8 * (b1 % 8)));
        assert(t9_trits(a) + t9_trits(bpre) + t0 + t1 + t2 =~= t9_trits(a) + (t9_trits(bpre) + t0
            + t1 + t2));
    }
}

/// Packing a trit sequence into trytes and expanding again is the identity;
/// the packed values are tryte values, one per three trits.
pub proof fn lemma_t3_round_trip(ts: Seq<int>)
    requires
        is_trit_seq(ts),
        ts.len() % 3 == 0,
    ensures
        trits_to_trytes(ts).len() == ts.len() / 3,
        is_tryte_seq(trits_to_trytes(ts)),
        trytes_to_trits(trits_to_trytes(ts)) == ts,
    decreases ts.len(),
{
    if ts.len() == 0 {
        assert(trytes_to_trits(trits_to_trytes(ts)) =~= ts);
    } else {
        lemma_multiple_step(ts.len() as int, 3);
        let n = ts.len() as int;
        let pre = ts.subrange(0, n - 3);
        let g = ts.subrange(n - 3, n);
        assert(is_trit_seq(pre));
        assert(is_trit_seq(g));
        lemma_t3_round_trip(pre);
        let v = trits_val(g);
        lemma_digits_of_val(g);
        lemma_half3_values();
        let tt = trits_to_trytes(ts);
        assert(tt == trits_to_trytes(pre) + seq![v]);
        lemma_fundamental_div_mod(n, 3);
        lemma_fundamental_div_mod_converse(n - 3, 3, n / 3 - 1, 0);
        assert(tt.len() == ts.len() / 3);
        assert forall|i: int| 0 <= i < tt.len() implies is_tryte_val(#[trigger] tt[i]) by {
            if i < tt.len() - 1 {
                assert(tt[i] == trits_to_trytes(pre)[i]);
            }
        }
        assert(tt.drop_last() =~= trits_to_trytes(pre));
        assert(tt.last() == v);
        assert(trytes_to_trits(tt) == trytes_to_trits(trits_to_trytes(pre)) + tryte_trits(v));
        assert(trytes_to_trits(tt) =~= ts);
    }
}

/// Packing a trit sequence into T5B1 bytes and expanding again is the
/// identity; the packed bytes lie in [0, 242], one per five trits.
pub proof fn lemma_t5_round_trip(ts: Seq<int>)
    requires
        is_trit_seq(ts),
        ts.len() % 5 == 0,
    ensures
        t5_bytes(ts).len() == ts.len() / 5,
        is_t5_seq(t5_bytes(ts)),
        t5_trits(t5_bytes(ts)) == ts,
    decreases ts.len(),
{
    if ts.len() == 0 {
        assert(t5_trits(t5_bytes(ts)) =~= ts);
    } else {
        lemma_multiple_step(ts.len() as int, 5);
        let n = ts.len() as int;
        let pre = ts.subrange(0, n - 5);
        let g = ts.subrange(n - 5, n);
        assert(is_trit_seq(pre));
        assert(is_trit_seq(g));
        lemma_t5_round_trip(pre);
        let v = trits_val(g);
        lemma_digits_of_val(g);
        lemma_half3_values();
        lemma_byte5_of_inverse(v);
        let bs = t5_bytes(ts);
        assert(bs == t5_bytes(pre) + seq![byte5_of(v)]);
        lemma_fundamental_div_mod(n, 5);
        lemma_fundamental_div_mod_converse(n - 5, 5, n / 5 - 1, 0);
        assert(bs.len() == ts.len() / 5);
        assert forall|i: int| 0 <= i < bs.len() implies 0 <= #[trigger] bs[i] <= 242 by {
            if i < bs.len() - 1 {
                assert(bs[i] == t5_bytes(pre)[i]);
            }
        }
        assert(bs.drop_last() =~= t5_bytes(pre));
        assert(bs.last() == byte5_of(v));
        assert(t5_trits(bs) == t5_trits(t5_bytes(pre)) + bal_digits(unbias5(byte5_of(v)), 5));
        assert(t5_trits(bs) =~= ts);
    }
}

/// Recovering the two indices and the split third index from a packed
/// T9B2 pair.
proof fn lemma_t9_pair_recover(a: int, b: int, c: int)
    requires
        0 <= a <= 26,
        0 <= b <= 26,
        0 <= c <= 26,
    ensures
        (a * 8 + c % 8) / 8 == a,
        (a * 8 + c % 8) % 8 == c % 8,
        (b * 8 + c / 8) / 8 == b,
        (b * 8 + c / 8) % 8 == c / 8,
        c % 8 + 8 * (c / 8) == c,
        is_t9_pair_valid(a * 8 + c % 8, b * 8 + c / 8),
{
    lemma_fundamental_div_mod(c, 8);
    lemma_mod_division_less_than_divisor(c, 8);
    lemma_fundamental_div_mod_converse(a * 8 + c % 8, 8, a, c % 8);
    lemma_fundamental_div_mod_converse(b * 8 + c / 8, 8, b, c / 8);
}

/// Packing a trit sequence into T9B2 byte pairs and expanding again is the
/// identity; the packed bytes form a valid buffer, two per nine trits.
pub proof fn lemma_t9_round_trip(ts: Seq<int>)
    requires
        is_trit_seq(ts),
        ts.len() % 9 == 0,
    ensures
        t9_bytes(ts).len() == (ts.len() / 9) * 2,
        is_t9_seq(t9_bytes(ts)),
        t9_trits(t9_bytes(ts)) == ts,
    decreases ts.len(),
{
    if ts.len() == 0 {
        assert(t9_trits(t9_bytes(ts)) =~= ts);
    } else {
        lemma_multiple_step(ts.len() as int, 9);
        let n = ts.len() as int;
        let pre = ts.subrange(0, n - 9);
        let g = ts.subrange(n - 9, n);
        assert(is_trit_seq(pre));
        lemma_t9_round_trip(pre);
        let g0 = g.subrange(0, 3);
        let g1 = g.subrange(3, 6);
        let g2 = g.subrange(6, 9);
        assert(is_trit_seq(g0));
        assert(is_trit_seq(g1));
        assert(is_trit_seq(g2));
        let va = trits_val(g0);
        let vb = trits_val(g1);
        let vc = trits_val(g2);
        lemma_digits_of_val(g0);
        lemma_digits_of_val(g1);
        lemma_digits_of_val(g2);
        lemma_half3_values();
        lemma_index27_inverse(va);
        lemma_index27_inverse(vb);
        lemma_index27_inverse(vc);
        let a = index27_of(va);
        let b = index27_of(vb);
        let c = index27_of(vc);
        lemma_t9_pair_recover(a, b, c);
        let b0 = a * 8 + c % 8;
        let b1 = b * 8 + c / 8;
        let bs = t9_bytes(ts);
        assert(bs == t9_bytes(pre) + seq![b0, b1]);
        lemma_fundamental_div_mod(n, 9);
        lemma_fundamental_div_mod_converse(n - 9, 9, n / 9 - 1, 0);
        assert(bs.len() == (ts.len() / 9) * 2);
        let prebs = t9_bytes(pre);
        lemma_fundamental_div_mod(prebs.len() as int, 2);
        lemma_fundamental_div_mod_converse(bs.len() as int, 2, prebs.len() as int / 2 + 1, 0);
        assert forall|i: int|
            0 <= i && 2 * i + 1 < bs.len() implies is_t9_pair_valid(
            #[trigger] bs[2 * i],
            bs[2 * i + 1],
        ) by {
            if 2 * i + 1 < prebs.len() {
                assert(bs[2 * i] == prebs[2 * i]);
                assert(bs[2 * i + 1] == prebs[2 * i + 1]);
            } else {
                assert(prebs.len() == 2 * (prebs.len() / 2));
                assert(2 * i == prebs.len());
                assert(bs[2 * i] == b0);
                assert(bs[2 * i + 1] == b1);
            }
        }
        assert(bs.subrange(0, bs.len() - 2) =~= prebs);
        assert(bs[bs.len() - 2] == b0);
        assert(bs[bs.len() - 1] == b1);
        assert(t9_trits(bs) == t9_trits(prebs) + tryte_trits(val_of_index27(b0 / 8)) + tryte_trits(
            val_of_index27(b1 / 8),
        ) + tryte_trits(val_of_index27(b0 % 8 + 8 * (b1 % 8))));
        assert(tryte_trits(va) == g0);
        assert(tryte_trits(vb) == g1);
        assert(tryte_trits(vc) == g2);
        assert(t9_trits(bs) =~= ts);
    }
}

} // verus!
