//! The T5B1 encoding: five trits per byte.
//!
//! Each byte stores the signed base-3 sum `t0 + 3*t1 + 9*t2 + 27*t3 +
//! 81*t4` of five consecutive trits, wrapped into [0, 242] by adding 243 to
//! a negative sum.

use crate::encodings::t1b1::T1B1;
use crate::encodings::t3b1::T3B1;
use crate::encodings::Encoding;
use crate::error::TrinaryError;
use crate::ternary::bal_digits;
use crate::ternary::bal_rest;
use crate::ternary::byte5_of;
use crate::ternary::is_t5_seq;
use crate::ternary::is_trit;
use crate::ternary::is_trit_seq;
use crate::ternary::lemma_bal_digits_len;
use crate::ternary::lemma_biased_digit;
use crate::ternary::lemma_mul3_mod5;
use crate::ternary::lemma_t5_round_trip;
use crate::ternary::lemma_t5_trits_app;
use crate::ternary::lemma_trits_val5;
use crate::ternary::lemma_trytes_to_trits_app;
use crate::ternary::lemma_trytes_to_trits_len;
use crate::ternary::t5_bytes;
use crate::ternary::t5_trits;
use crate::ternary::trits_val;
use crate::ternary::tryte_trits;
use crate::ternary::trytes_to_trits;
use crate::ternary::unbias5;
use crate::trit::BalancedTrit;
use crate::tryte::tryte_val;
use crate::tryte::BalancedTryte;
use vstd::prelude::*;

verus! {

/// An ordered sequence of bytes, each packing five consecutive trits.
///
/// Its view is the sequence of byte values; well-formed buffers keep every
/// byte in [0, 242].
#[derive(Debug)]
pub struct T5B1 {
    bytes: Vec<u8>,
}

impl View for T5B1 {
    type V = Seq<int>;

    closed spec fn view(&self) -> Seq<int> {
        self.bytes@.map_values(|b: u8| b as int)
    }
}

/// A value whose trit sequence can be packed into T5B1 bytes.
pub trait ToT5B1: Sized {
    /// The trit sequence the value stands for.
    spec fn src_trits(&self) -> Seq<int>;

    /// Packs the trit sequence into T5B1 bytes, five trits per byte; a
    /// trit count that is not a multiple of five is rejected with
    /// `IncompatibleLength`.
    fn to_t5b1(&self) -> (r: Result<T5B1, TrinaryError>)
        ensures
            r is Ok <==> self.src_trits().len() % 5 == 0,
            r matches Ok(b) ==> b@ == t5_bytes(self.src_trits()) && b@.len() == self.src_trits().len()
                / 5 && b.inv(),
            r matches Err(e) ==> e == TrinaryError::IncompatibleLength,
    ;
}

/// Packs five trits into the biased byte that stores them; an element
/// outside {-1, 0, +1} is rejected with `InvalidTritChar`.
pub fn encode5(trits: &[i8; 5]) -> (r: Result<u8, TrinaryError>)
    ensures
        r is Ok <==> (forall|i: int| 0 <= i < 5 ==> is_trit(#[trigger] trits@[i] as int)),
        r matches Ok(b) ==> b as int == byte5_of(
            trits_val(
                seq![
                    trits@[0] as int,
                    trits@[1] as int,
                    trits@[2] as int,
                    trits@[3] as int,
                    trits@[4] as int,
                ],
            ),
        ),
        r matches Err(e) ==> e == TrinaryError::InvalidTritChar,
{
    let mut k: usize = 0;
    while k < 5
        invariant
            k <= 5,
            forall|i: int| 0 <= i < k ==> is_trit(#[trigger] trits@[i] as int),
        decreases 5 - k,
    {
        let v = trits[k];
        if v < -1 || v > 1 {
            return Err(TrinaryError::InvalidTritChar);
        }
        k += 1;
    }
    let s: i16 = trits[0] as i16 + trits[1] as i16 * 3 + trits[2] as i16 * 9 + trits[3] as i16 * 27
        + trits[4] as i16 * 81;
    let b: u8 = if s < 0 {
        (s + 243) as u8
    } else {
        s as u8
    };
    proof {
        lemma_trits_val5(
            seq![
                trits@[0] as int,
                trits@[1] as int,
                trits@[2] as int,
                trits@[3] as int,
                trits@[4] as int,
            ],
        );
    }
    Ok(b)
}

/// Unpacks a T5B1 byte into the five trits it stores; a byte outside
/// [0, 242] is rejected with `InvalidT5B1Byte`.
#[verifier::rlimit(50)]
pub fn decode5(b: u8) -> (r: Result<[i8; 5], TrinaryError>)
    ensures
        r is Ok <==> b <= 242,
        r matches Ok(ds) ==> seq![
            ds@[0] as int,
            ds@[1] as int,
            ds@[2] as int,
            ds@[3] as int,
            ds@[4] as int,
        ] == bal_digits(unbias5(b as int), 5) && (forall|i: int|
            0 <= i < 5 ==> is_trit(#[trigger] ds@[i] as int)),
        r matches Err(e) ==> e == TrinaryError::InvalidT5B1Byte,
{
    if b > 242 {
        return Err(TrinaryError::InvalidT5B1Byte);
    }
    let ghost s0: int = unbias5(b as int);
    let t0: u16 = if b > 121 {
        b as u16 - 122
    } else {
        b as u16 + 121
    };
    proof {
        assert(t0 as int == s0 + 121);
        lemma_biased_digit(s0, 40);
    }
    let d0: i8 = (t0 % 3) as i8 - 1;
    let t1: u16 = t0 / 3;
    let ghost s1: int = bal_rest(s0);
    proof {
        lemma_biased_digit(s1, 13);
    }
    let d1: i8 = (t1 % 3) as i8 - 1;
    let t2: u16 = t1 / 3;
    let ghost s2: int = bal_rest(s1);
    proof {
        lemma_biased_digit(s2, 4);
    }
    let d2: i8 = (t2 % 3) as i8 - 1;
    let t3: u16 = t2 / 3;
    let ghost s3: int = bal_rest(s2);
    proof {
        lemma_biased_digit(s3, 1);
    }
    let d3: i8 = (t3 % 3) as i8 - 1;
    let t4: u16 = t3 / 3;
    let ghost s4: int = bal_rest(s3);
    proof {
        lemma_biased_digit(s4, 0);
    }
    let d4: i8 = (t4 % 3) as i8 - 1;
    let ds: [i8; 5] = [d0, d1, d2, d3, d4];
    proof {
        let s5 = bal_rest(s4);
        assert(bal_digits(s0, 5) == seq![crate::ternary::bal_digit(s0)] + bal_digits(s1, 4));
        assert(bal_digits(s1, 4) == seq![crate::ternary::bal_digit(s1)] + bal_digits(s2, 3));
        assert(bal_digits(s2, 3) == seq![crate::ternary::bal_digit(s2)] + bal_digits(s3, 2));
        assert(bal_digits(s3, 2) == seq![crate::ternary::bal_digit(s3)] + bal_digits(s4, 1));
        assert(bal_digits(s4, 1) == seq![crate::ternary::bal_digit(s4)] + bal_digits(s5, 0));
        assert(seq![ds@[0] as int, ds@[1] as int, ds@[2] as int, ds@[3] as int, ds@[4] as int]
            =~= bal_digits(s0, 5));
    }
    Ok(ds)
}

impl T5B1 {
    /// Bulk construction from raw bytes; every byte must lie in [0, 242],
    /// anything else is rejected with `InvalidT5B1Byte`.
    pub fn from_u8(input: &[u8]) -> (r: Result<T5B1, TrinaryError>)
        ensures
            r is Ok <==> (forall|i: int| 0 <= i < input@.len() ==> #[trigger] input@[i] <= 242),
            r matches Ok(t) ==> t@.len() == input@.len() && (forall|i: int|
                0 <= i < input@.len() ==> #[trigger] t@[i] == input@[i] as int) && t.inv(),
            r matches Err(e) ==> e == TrinaryError::InvalidT5B1Byte,
    {
        let n = input.len();
        let mut out = T5B1 { bytes: Vec::with_capacity(n) };
        let mut j: usize = 0;
        while j < n
            invariant
                j <= n,
                n == input@.len(),
                out@.len() == j,
                forall|i: int| 0 <= i < j ==> #[trigger] input@[i] <= 242,
                forall|i: int| 0 <= i < j ==> #[trigger] out@[i] == input@[i] as int,
            decreases n - j,
        {
            let b = input[j];
            if b > 242 {
                return Err(TrinaryError::InvalidT5B1Byte);
            }
            out.push_byte(b);
            j += 1;
        }
        proof {
            assert(is_t5_seq(out@));
        }
        Ok(out)
    }

    /// The number of bytes stored; one per five-trit group.
    pub fn len(&self) -> (n: usize)
        ensures
            n == self@.len(),
    {
        self.bytes.len()
    }

    /// The byte at position `index`.
    pub fn get(&self, index: usize) -> (b: u8)
        requires
            index < self@.len(),
        ensures
            b as int == self@[index as int],
    {
        let b = self.bytes[index];
        proof {
            assert(self@[index as int] == self.bytes@[index as int] as int);
        }
        b
    }

    /// Appends one byte.
    fn push_byte(&mut self, b: u8)
        ensures
            final(self)@ == old(self)@.push(b as int),
    {
        self.bytes.push(b);
        proof {
            assert(final(self)@ =~= old(self)@.push(b as int));
        }
    }

    /// The trit sequence this container stores, as a T1B1: five trits per
    /// byte. This conversion is total on well-formed buffers.
    #[verifier::rlimit(50)]
    pub fn to_t1b1(&self) -> (r: T1B1)
        requires
            self.inv(),
        ensures
            r@ == t5_trits(self@),
            r@.len() == 5 * self@.len(),
    {
        let n = self.bytes.len();
        let mut out = T1B1::with_capacity(n);
        let mut j: usize = 0;
        while j < n
            invariant
                j <= n,
                n == self@.len(),
                is_t5_seq(self@),
                out@ =~= t5_trits(self@.subrange(0, j as int)),
                out@.len() == 5 * j,
            decreases n - j,
        {
            let bv = self.bytes[j];
            proof {
                assert(self@[j as int] == self.bytes@[j as int] as int);
            }
            let ds = match decode5(bv) {
                Ok(ds) => ds,
                Err(_) => {
                    proof {
                        assert(false);
                    }
                    [0, 0, 0, 0, 0]
                },
            };
            out.push_trit(BalancedTrit::of_i8(ds[0]));
            out.push_trit(BalancedTrit::of_i8(ds[1]));
            out.push_trit(BalancedTrit::of_i8(ds[2]));
            out.push_trit(BalancedTrit::of_i8(ds[3]));
            out.push_trit(BalancedTrit::of_i8(ds[4]));
            j += 1;
            proof {
                lemma_bal_digits_len(unbias5(self@[j - 1]), 5);
                let cur = self@.subrange(0, j as int);
                let pre = self@.subrange(0, j - 1);
                assert(cur.drop_last() =~= pre);
                assert(cur.last() == self@[j - 1]);
                assert(out@ =~= t5_trits(pre) + bal_digits(unbias5(self@[j - 1]), 5));
            }
        }
        proof {
            assert(self@.subrange(0, n as int) =~= self@);
        }
        out
    }
}

impl ToT5B1 for T1B1 {
    open spec fn src_trits(&self) -> Seq<int> {
        self@
    }

    fn to_t5b1(&self) -> (r: Result<T5B1, TrinaryError>) {
        let n = self.len();
        if n % 5 != 0 {
            return Err(TrinaryError::IncompatibleLength);
        }
        proof {
            self.lemma_wf();
        }
        let mut out = T5B1 { bytes: Vec::with_capacity(n / 5) };
        let mut j: usize = 0;
        while j < n
            invariant
                j <= n,
                j % 5 == 0,
                n % 5 == 0,
                n == self@.len(),
                is_trit_seq(self@),
                out@ =~= t5_bytes(self@.subrange(0, j as int)),
                out@.len() == j / 5,
                is_t5_seq(out@),
            decreases n - j,
        {
            let a0 = self.get_as_i8(j) as i16;
            let a1 = self.get_as_i8(j + 1) as i16;
            let a2 = self.get_as_i8(j + 2) as i16;
            let a3 = self.get_as_i8(j + 3) as i16;
            let a4 = self.get_as_i8(j + 4) as i16;
            let s = a0 + a1 * 3 + a2 * 9 + a3 * 27 + a4 * 81;
            let b: u8 = if s < 0 {
                (s + 243) as u8
            } else {
                s as u8
            };
            out.push_byte(b);
            j += 5;
            proof {
                let cur = self@.subrange(0, j as int);
                let pre = self@.subrange(0, j - 5);
                let g = self@.subrange(j - 5, j as int);
                assert(cur.subrange(0, cur.len() - 5) =~= pre);
                assert(cur.subrange(cur.len() - 5, cur.len() as int) =~= g);
                lemma_trits_val5(g);
                assert(b as int == byte5_of(trits_val(g)));
                assert(t5_bytes(cur) == t5_bytes(pre) + seq![byte5_of(trits_val(g))]);
                assert(out@ =~= t5_bytes(cur));
            }
        }
        proof {
            assert(self@.subrange(0, n as int) =~= self@);
        }
        Ok(out)
    }
}

/// The trit expansion of five trytes is the concatenation of their
/// three-trit decompositions.
proof fn lemma_trytes_to_trits5(g: Seq<int>)
    requires
        g.len() == 5,
    ensures
        trytes_to_trits(g) == tryte_trits(g[0]) + tryte_trits(g[1]) + tryte_trits(g[2])
            + tryte_trits(g[3]) + tryte_trits(g[4]),
{
    let g4 = seq![g[0], g[1], g[2], g[3]];
    let g3 = seq![g[0], g[1], g[2]];
    let g2 = seq![g[0], g[1]];
    let g1 = seq![g[0]];
    assert(g.drop_last() =~= g4);
    assert(g4.drop_last() =~= g3);
    assert(g3.drop_last() =~= g2);
    assert(g2.drop_last() =~= g1);
    assert(g1.drop_last() =~= Seq::<int>::empty());
    assert(trytes_to_trits(g1) == trytes_to_trits(Seq::<int>::empty()) + tryte_trits(g[0]));
    assert(trytes_to_trits(g2) == trytes_to_trits(g1) + tryte_trits(g[1]));
    assert(trytes_to_trits(g3) == trytes_to_trits(g2) + tryte_trits(g[2]));
    assert(trytes_to_trits(g4) == trytes_to_trits(g3) + tryte_trits(g[3]));
    assert(trytes_to_trits(g) == trytes_to_trits(g4) + tryte_trits(g[4]));
    assert(trytes_to_trits(Seq::<int>::empty()) + tryte_trits(g[0]) =~= tryte_trits(g[0]));
}

/// Packing fifteen more trits, given as three runs of five, appends
/// exactly three more bytes, one per run.
proof fn lemma_t5_bytes_step15(pt: Seq<int>, u0: Seq<int>, u1: Seq<int>, u2: Seq<int>)
    requires
        u0.len() == 5,
        u1.len() == 5,
        u2.len() == 5,
    ensures
        t5_bytes(pt + u0 + u1 + u2) == t5_bytes(pt) + seq![
            byte5_of(trits_val(u0)),
            byte5_of(trits_val(u1)),
            byte5_of(trits_val(u2)),
        ],
{
    let ct = pt + u0 + u1 + u2;
    let y2 = pt + u0 + u1;
    let y1 = pt + u0;
    assert(ct.subrange(0, ct.len() - 5) =~= y2);
    assert(ct.subrange(ct.len() - 5, ct.len() as int) =~= u2);
    assert(t5_bytes(ct) == t5_bytes(y2) + seq![byte5_of(trits_val(u2))]);
    assert(y2.subrange(0, y2.len() - 5) =~= y1);
    assert(y2.subrange(y2.len() - 5, y2.len() as int) =~= u1);
    assert(t5_bytes(y2) == t5_bytes(y1) + seq![byte5_of(trits_val(u1))]);
    assert(y1.subrange(0, y1.len() - 5) =~= pt);
    assert(y1.subrange(y1.len() - 5, y1.len() as int) =~= u0);
    assert(t5_bytes(y1) == t5_bytes(pt) + seq![byte5_of(trits_val(u0))]);
    assert(t5_bytes(pt) + seq![byte5_of(trits_val(u0))] + seq![byte5_of(trits_val(u1))] + seq![
        byte5_of(trits_val(u2)),
    ] =~= t5_bytes(pt) + seq![
        byte5_of(trits_val(u0)),
        byte5_of(trits_val(u1)),
        byte5_of(trits_val(u2)),
    ]);
}

/// One iteration of the fast path: the bytes computed from five tryte
/// decompositions extend the packing of the prefix to the packing of the
/// prefix plus those five trytes.
proof fn lemma_t5_fast_step(
    trytes: Seq<int>,
    i: int,
    d0: Seq<int>,
    d1: Seq<int>,
    d2: Seq<int>,
    d3: Seq<int>,
    d4: Seq<int>,
    ba: int,
    bb: int,
    bc: int,
)
    requires
        0 <= i,
        i + 5 <= trytes.len(),
        d0 == tryte_trits(trytes[i]),
        d1 == tryte_trits(trytes[i + 1]),
        d2 == tryte_trits(trytes[i + 2]),
        d3 == tryte_trits(trytes[i + 3]),
        d4 == tryte_trits(trytes[i + 4]),
        ba == byte5_of(d0[0] + 3 * d0[1] + 9 * d0[2] + 27 * d1[0] + 81 * d1[1]),
        bb == byte5_of(d1[2] + 3 * d2[0] + 9 * d2[1] + 27 * d2[2] + 81 * d3[0]),
        bc == byte5_of(d3[1] + 3 * d3[2] + 9 * d4[0] + 27 * d4[1] + 81 * d4[2]),
    ensures
        t5_bytes(trytes_to_trits(trytes.subrange(0, i + 5))) == t5_bytes(
            trytes_to_trits(trytes.subrange(0, i)),
        ) + seq![ba, bb, bc],
{
    lemma_bal_digits_len(trytes[i], 3);
    lemma_bal_digits_len(trytes[i + 1], 3);
    lemma_bal_digits_len(trytes[i + 2], 3);
    lemma_bal_digits_len(trytes[i + 3], 3);
    lemma_bal_digits_len(trytes[i + 4], 3);
    let pre = trytes.subrange(0, i);
    let cur = trytes.subrange(0, i + 5);
    let g = trytes.subrange(i, i + 5);
    assert(cur =~= pre + g);
    lemma_trytes_to_trits_app(pre, g);
    lemma_trytes_to_trits5(g);
    let pt = trytes_to_trits(pre);
    let u0 = seq![d0[0], d0[1], d0[2], d1[0], d1[1]];
    let u1 = seq![d1[2], d2[0], d2[1], d2[2], d3[0]];
    let u2 = seq![d3[1], d3[2], d4[0], d4[1], d4[2]];
    assert(trytes_to_trits(g) =~= u0 + u1 + u2);
    lemma_trits_val5(u0);
    lemma_trits_val5(u1);
    lemma_trits_val5(u2);
    lemma_t5_bytes_step15(pt, u0, u1, u2);
    assert(trytes_to_trits(cur) =~= pt + u0 + u1 + u2);
}

/// Packs five trytes into three bytes: their fifteen trits, regrouped as
/// three runs of five, each packed by the biased base-3 formula.
#[verifier::rlimit(100)]
fn pack5_trytes(
    x0: BalancedTryte,
    x1: BalancedTryte,
    x2: BalancedTryte,
    x3: BalancedTryte,
    x4: BalancedTryte,
) -> (r: (u8, u8, u8))
    ensures
        ({
            let d0 = tryte_trits(tryte_val(x0));
            let d1 = tryte_trits(tryte_val(x1));
            let d2 = tryte_trits(tryte_val(x2));
            let d3 = tryte_trits(tryte_val(x3));
            let d4 = tryte_trits(tryte_val(x4));
            &&& r.0 as int == byte5_of(d0[0] + 3 * d0[1] + 9 * d0[2] + 27 * d1[0] + 81 * d1[1])
            &&& r.1 as int == byte5_of(d1[2] + 3 * d2[0] + 9 * d2[1] + 27 * d2[2] + 81 * d3[0])
            &&& r.2 as int == byte5_of(d3[1] + 3 * d3[2] + 9 * d4[0] + 27 * d4[1] + 81 * d4[2])
        }),
{
    let e0 = x0.as_trits();
    let e1 = x1.as_trits();
    let e2 = x2.as_trits();
    let e3 = x3.as_trits();
    let e4 = x4.as_trits();
    let sa: i16 = e0[0] as i16 + e0[1] as i16 * 3 + e0[2] as i16 * 9 + e1[0] as i16 * 27 + e1[1]
        as i16 * 81;
    let sb: i16 = e1[2] as i16 + e2[0] as i16 * 3 + e2[1] as i16 * 9 + e2[2] as i16 * 27 + e3[0]
        as i16 * 81;
    let sc: i16 = e3[1] as i16 + e3[2] as i16 * 3 + e4[0] as i16 * 9 + e4[1] as i16 * 27 + e4[2]
        as i16 * 81;
    let ba: u8 = if sa < 0 {
        (sa + 243) as u8
    } else {
        sa as u8
    };
    let bb: u8 = if sb < 0 {
        (sb + 243) as u8
    } else {
        sb as u8
    };
    let bc: u8 = if sc < 0 {
        (sc + 243) as u8
    } else {
        sc as u8
    };
    (ba, bb, bc)
}

impl ToT5B1 for T3B1 {
    open spec fn src_trits(&self) -> Seq<int> {
        trytes_to_trits(self@)
    }

    /// The direct fast path: five trytes at a time, their fifteen trits
    /// regrouped as three runs of five and packed with the same formula as
    /// the pivot path.
    #[verifier::rlimit(100)]
    fn to_t5b1(&self) -> (r: Result<T5B1, TrinaryError>) {
        let n = self.len();
        proof {
            lemma_trytes_to_trits_len(self@);
            lemma_mul3_mod5(n as int);
        }
        if n % 5 != 0 {
            return Err(TrinaryError::IncompatibleLength);
        }
        let mut out = T5B1 { bytes: Vec::with_capacity(n) };
        let mut i: usize = 0;
        while i < n
            invariant
                i <= n,
                i % 5 == 0,
                n % 5 == 0,
                n == self@.len(),
                out@ =~= t5_bytes(trytes_to_trits(self@.subrange(0, i as int))),
            decreases n - i,
        {
            let ghost out0 = out@;
            let (ba, bb, bc) = pack5_trytes(
                self.get(i),
                self.get(i + 1),
                self.get(i + 2),
                self.get(i + 3),
                self.get(i + 4),
            );
            out.push_byte(ba);
            out.push_byte(bb);
            out.push_byte(bc);
            i += 5;
            proof {
                lemma_t5_fast_step(
                    self@,
                    i - 5,
                    tryte_trits(self@[i - 5]),
                    tryte_trits(self@[i - 4]),
                    tryte_trits(self@[i - 3]),
                    tryte_trits(self@[i - 2]),
                    tryte_trits(self@[i - 1]),
                    ba as int,
                    bb as int,
                    bc as int,
                );
                assert(out@ =~= out0 + seq![ba as int, bb as int, bc as int]);
            }
        }
        proof {
            assert(self@.subrange(0, n as int) =~= self@);
            crate::ternary::lemma_trytes_to_trits_is_trits(self@);
            lemma_t5_round_trip(trytes_to_trits(self@));
        }
        Ok(out)
    }
}

impl Encoding for T5B1 {
    open spec fn inv(&self) -> bool {
        is_t5_seq(self@)
    }

    open spec fn trits(&self) -> Seq<int> {
        t5_trits(self@)
    }

    open spec fn units(&self) -> nat {
        self@.len()
    }

    open spec fn block() -> nat {
        5
    }

    fn new() -> (s: Self) {
        let s = T5B1 { bytes: Vec::new() };
        proof {
            assert(s@ =~= Seq::<int>::empty());
            assert(t5_trits(s@) =~= Seq::<int>::empty());
        }
        s
    }

    fn with_capacity(capacity: usize) -> (s: Self) {
        let s = T5B1 { bytes: Vec::with_capacity(capacity) };
        proof {
            assert(s@ =~= Seq::<int>::empty());
            assert(t5_trits(s@) =~= Seq::<int>::empty());
        }
        s
    }

    fn add(&mut self, trits: T1B1) -> (r: Result<(), TrinaryError>) {
        let bs = match trits.to_t5b1() {
            Ok(bs) => bs,
            Err(e) => {
                return Err(e);
            },
        };
        proof {
            trits.lemma_wf();
            lemma_t5_round_trip(trits@);
        }
        let k = bs.bytes.len();
        let mut j: usize = 0;
        while j < k
            invariant
                j <= k,
                k == bs@.len(),
                is_t5_seq(bs@),
                self@ =~= old(self)@ + bs@.subrange(0, j as int),
                is_t5_seq(self@),
            decreases k - j,
        {
            let b = bs.bytes[j];
            proof {
                assert(bs@[j as int] == bs.bytes@[j as int] as int);
            }
            self.push_byte(b);
            j += 1;
            proof {
                assert(self@ =~= old(self)@ + bs@.subrange(0, j as int));
            }
        }
        proof {
            assert(bs@.subrange(0, k as int) =~= bs@);
            assert(self@ =~= old(self)@ + bs@);
            lemma_t5_trits_app(old(self)@, bs@);
        }
        Ok(())
    }

    fn len(&self) -> (n: usize) {
        self.bytes.len()
    }
}

} // verus!
