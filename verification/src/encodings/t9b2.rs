//! The T9B2 encoding: nine trits per pair of bytes.
//!
//! Each nine-trit group splits into three three-trit subgroups whose values
//! are biased into indices a, b, c in [0, 26]; the pair stored is
//! `(a*8 + c%8, b*8 + c/8)`, so every byte lies in [0, 215].

use crate::encodings::t1b1::T1B1;
use crate::encodings::t3b1::T3B1;
use crate::encodings::Encoding;
use crate::error::TrinaryError;
use crate::ternary::index27_of;
use crate::ternary::is_t9_pair_valid;
use crate::ternary::is_t9_seq;
use crate::ternary::lemma_mul3_mod9;
use crate::ternary::lemma_t9_round_trip;
use crate::ternary::lemma_t9_trits_app;
use crate::ternary::lemma_trits_val3;
use crate::ternary::lemma_trytes_to_trits_app;
use crate::ternary::lemma_trytes_to_trits_is_trits;
use crate::ternary::lemma_trytes_to_trits_len;
use crate::ternary::t9_bytes;
use crate::ternary::t9_pair;
use crate::ternary::t9_trits;
use crate::ternary::trits_val;
use crate::ternary::tryte_trits;
use crate::ternary::trytes_to_trits;
use crate::ternary::val_of_index27;
use crate::tryte::BalancedTryte;
use vstd::arithmetic::div_mod::lemma_fundamental_div_mod;
use vstd::prelude::*;

verus! {

/// An ordered sequence of byte pairs, each packing nine consecutive trits.
///
/// Its view is the sequence of byte values; well-formed buffers have even
/// length and keep every recovered index in [0, 26].
#[derive(Debug)]
pub struct T9B2 {
    bytes: Vec<u8>,
}

impl View for T9B2 {
    type V = Seq<int>;

    closed spec fn view(&self) -> Seq<int> {
        self.bytes@.map_values(|b: u8| b as int)
    }
}

/// Expanding one more byte pair appends the three tryte decompositions the
/// pair stores.
proof fn lemma_t9_trits_step(bs: Seq<int>, j: int)
    requires
        0 <= j,
        j + 2 <= bs.len(),
    ensures
        t9_trits(bs.subrange(0, j + 2)) == t9_trits(bs.subrange(0, j)) + tryte_trits(
            val_of_index27(bs[j] / 8),
        ) + tryte_trits(val_of_index27(bs[j + 1] / 8)) + tryte_trits(
            val_of_index27(bs[j] % 8 + 8 * (bs[j + 1] % 8)),
        ),
{
    let cur = bs.subrange(0, j + 2);
    assert(cur.subrange(0, cur.len() - 2) =~= bs.subrange(0, j));
    assert(cur[cur.len() - 2] == bs[j]);
    assert(cur[cur.len() - 1] == bs[j + 1]);
}

impl T9B2 {
    /// The number of bytes stored; two per nine-trit group.
    pub fn len(&self) -> (n: usize)
        ensures
            n == self@.len(),
    {
        self.bytes.len()
    }

    /// Appends one byte.
    fn push_byte(&mut self, b: u8)
        ensures
            final(self)@ == old(self)@.push(b as int),
    {
        self.bytes.push(b);
        proof {
            assert(final(self)@ =~= old(self)@.push(b as int));
        }
    }

    /// The trit sequence this container stores, as a T1B1: nine trits per
    /// byte pair. This conversion is total on well-formed buffers.
    #[verifier::rlimit(100)]
    pub fn to_t1b1(&self) -> (r: T1B1)
        requires
            self.inv(),
        ensures
            r@ == t9_trits(self@),
            r@.len() == 9 * (self@.len() / 2),
    {
        let n = self.bytes.len();
        let mut out = T1B1::with_capacity(n);
        let mut j: usize = 0;
        while j < n
            invariant
                j <= n,
                j % 2 == 0,
                n % 2 == 0,
                n == self@.len(),
                is_t9_seq(self@),
                out@ =~= t9_trits(self@.subrange(0, j as int)),
                out@.len() == 9 * (j / 2),
            decreases n - j,
        {
            let b0 = self.bytes[j];
            let b1 = self.bytes[j + 1];
            proof {
                assert(self@[j as int] == self.bytes@[j as int] as int);
                assert(self@[j + 1] == self.bytes@[j + 1] as int);
                lemma_fundamental_div_mod(j as int, 2);
                assert(2 * (j as int / 2) == j as int);
                assert(is_t9_pair_valid(self@[2 * (j as int / 2)], self@[2 * (j as int / 2) + 1]));
            }
            let ia = b0 / 8;
            let ib = b1 / 8;
            let ic = b0 % 8 + 8 * (b1 % 8);
            let va: i8 = if ia > 13 {
                ia as i8 - 27
            } else {
                ia as i8
            };
            let vb: i8 = if ib > 13 {
                ib as i8 - 27
            } else {
                ib as i8
            };
            let vc: i8 = if ic > 13 {
                ic as i8 - 27
            } else {
                ic as i8
            };
            let ghost out0 = out@;
            let da = BalancedTryte::of_i8(va).as_trits();
            let db = BalancedTryte::of_i8(vb).as_trits();
            let dc = BalancedTryte::of_i8(vc).as_trits();
            out.push3(da);
            out.push3(db);
            out.push3(dc);
            j += 2;
            proof {
                lemma_t9_trits_step(self@, j - 2);
                assert(va as int == val_of_index27(self@[j - 2] / 8));
                assert(vb as int == val_of_index27(self@[j - 1] / 8));
                assert(vc as int == val_of_index27(self@[j - 2] % 8 + 8 * (self@[j - 1] % 8)));
                assert(seq![da@[0] as int, da@[1] as int, da@[2] as int] == tryte_trits(va as int));
                assert(seq![db@[0] as int, db@[1] as int, db@[2] as int] == tryte_trits(vb as int));
                assert(seq![dc@[0] as int, dc@[1] as int, dc@[2] as int] == tryte_trits(vc as int));
                let pre = self@.subrange(0, j - 2);
                assert(out@ =~= t9_trits(pre) + tryte_trits(va as int) + tryte_trits(vb as int)
                    + tryte_trits(vc as int));
                assert(out@ =~= t9_trits(self@.subrange(0, j as int)));
                lemma_fundamental_div_mod(j as int, 2);
            }
        }
        proof {
            assert(self@.subrange(0, n as int) =~= self@);
        }
        out
    }
}

impl T1B1 {
    /// Packs this trit sequence into T9B2 byte pairs, nine trits per pair;
    /// a trit count that is not a multiple of nine is rejected with
    /// `IncompatibleLength`.
    #[verifier::rlimit(50)]
    pub fn to_t9b2(&self) -> (r: Result<T9B2, TrinaryError>)
        ensures
            r is Ok <==> self@.len() % 9 == 0,
            r matches Ok(t) ==> t@ == t9_bytes(self@) && t@.len() == (self@.len() / 9) * 2
                && t.inv(),
            r matches Err(e) ==> e == TrinaryError::IncompatibleLength,
    {
        let n = self.len();
        if n % 9 != 0 {
            return Err(TrinaryError::IncompatibleLength);
        }
        proof {
            self.lemma_wf();
        }
        let mut out = T9B2 { bytes: Vec::with_capacity(n) };
        let mut j: usize = 0;
        while j < n
            invariant
                j <= n,
                j % 9 == 0,
                n % 9 == 0,
                n == self@.len(),
                crate::ternary::is_trit_seq(self@),
                out@ =~= t9_bytes(self@.subrange(0, j as int)),
            decreases n - j,
        {
            let ghost out0 = out@;
            let sa: i8 = self.get_as_i8(j) + self.get_as_i8(j + 1) * 3 + self.get_as_i8(j + 2) * 9;
            let sb: i8 = self.get_as_i8(j + 3) + self.get_as_i8(j + 4) * 3 + self.get_as_i8(j + 5)
                * 9;
            let sc: i8 = self.get_as_i8(j + 6) + self.get_as_i8(j + 7) * 3 + self.get_as_i8(j + 8)
                * 9;
            let a: u8 = if sa < 0 {
                (sa + 27) as u8
            } else {
                sa as u8
            };
            let b: u8 = if sb < 0 {
                (sb + 27) as u8
            } else {
                sb as u8
            };
            let c: u8 = if sc < 0 {
                (sc + 27) as u8
            } else {
                sc as u8
            };
            let b0: u8 = a * 8 + c % 8;
            let b1: u8 = b * 8 + c / 8;
            out.push_byte(b0);
            out.push_byte(b1);
            j += 9;
            proof {
                let cur = self@.subrange(0, j as int);
                let pre = self@.subrange(0, j - 9);
                let g = self@.subrange(j - 9, j as int);
                assert(cur.subrange(0, cur.len() - 9) =~= pre);
                assert(cur.subrange(cur.len() - 9, cur.len() as int) =~= g);
                lemma_trits_val3(g.subrange(0, 3));
                lemma_trits_val3(g.subrange(3, 6));
                lemma_trits_val3(g.subrange(6, 9));
                assert(g.subrange(0, 3)[0] == self@[j - 9]);
                assert(a as int == index27_of(trits_val(g.subrange(0, 3))));
                assert(b as int == index27_of(trits_val(g.subrange(3, 6))));
                assert(c as int == index27_of(trits_val(g.subrange(6, 9))));
                assert(t9_pair(g) == seq![b0 as int, b1 as int]);
                assert(t9_bytes(cur) == t9_bytes(pre) + t9_pair(g));
                assert(out@ =~= out0 + seq![b0 as int, b1 as int]);
                assert(out@ =~= t9_bytes(cur));
            }
        }
        proof {
            assert(self@.subrange(0, n as int) =~= self@);
            lemma_t9_round_trip(self@);
        }
        Ok(out)
    }
}

/// The trit expansion of three trytes is the concatenation of their
/// three-trit decompositions.
proof fn lemma_trytes_to_trits3(g: Seq<int>, w: Seq<int>)
    requires
        g.len() == 3,
        w.len() == 9,
        w.subrange(0, 3) == tryte_trits(g[0]),
        w.subrange(3, 6) == tryte_trits(g[1]),
        w.subrange(6, 9) == tryte_trits(g[2]),
    ensures
        trytes_to_trits(g) == w,
{
    let g2 = seq![g[0], g[1]];
    let g1 = seq![g[0]];
    assert(g.drop_last() =~= g2);
    assert(g2.drop_last() =~= g1);
    assert(g1.drop_last() =~= Seq::<int>::empty());
    assert(trytes_to_trits(g1) == trytes_to_trits(Seq::<int>::empty()) + tryte_trits(g[0]));
    assert(trytes_to_trits(g2) == trytes_to_trits(g1) + tryte_trits(g[1]));
    assert(trytes_to_trits(g) == trytes_to_trits(g2) + tryte_trits(g[2]));
    assert(trytes_to_trits(g) =~= w);
}

impl T3B1 {
    /// The direct fast path: three trytes at a time, their values biased
    /// into indices and packed into one byte pair, exactly as the pivot
    /// path packs the same nine trits.
    #[verifier::rlimit(100)]
    pub fn to_t9b2(&self) -> (r: Result<T9B2, TrinaryError>)
        ensures
            r is Ok <==> self@.len() % 3 == 0,
            r matches Ok(t) ==> t@ == t9_bytes(trytes_to_trits(self@)) && t@.len() == (self@.len()
                / 3) * 2 && t.inv(),
            r matches Err(e) ==> e == TrinaryError::IncompatibleLength,
    {
        let n = self.len();
        proof {
            lemma_trytes_to_trits_len(self@);
            lemma_mul3_mod9(n as int);
        }
        if n % 3 != 0 {
            return Err(TrinaryError::IncompatibleLength);
        }
        let mut out = T9B2 { bytes: Vec::with_capacity(n) };
        let mut i: usize = 0;
        while i < n
            invariant
                i <= n,
                i % 3 == 0,
                n % 3 == 0,
                n == self@.len(),
                out@ =~= t9_bytes(trytes_to_trits(self@.subrange(0, i as int))),
            decreases n - i,
        {
            let ghost out0 = out@;
            let x0 = self.get(i);
            let x1 = self.get(i + 1);
            let x2 = self.get(i + 2);
            let e0 = x0.as_trits();
            let e1 = x1.as_trits();
            let e2 = x2.as_trits();
            let va = x0.value();
            let vb = x1.value();
            let vc = x2.value();
            let a: u8 = if va < 0 {
                (va + 27) as u8
            } else {
                va as u8
            };
            let b: u8 = if vb < 0 {
                (vb + 27) as u8
            } else {
                vb as u8
            };
            let c: u8 = if vc < 0 {
                (vc + 27) as u8
            } else {
                vc as u8
            };
            let b0: u8 = a * 8 + c % 8;
            let b1: u8 = b * 8 + c / 8;
            out.push_byte(b0);
            out.push_byte(b1);
            i += 3;
            proof {
                let pre = self@.subrange(0, i - 3);
                let cur = self@.subrange(0, i as int);
                let g = self@.subrange(i - 3, i as int);
                assert(cur =~= pre + g);
                lemma_trytes_to_trits_app(pre, g);
                let pt = trytes_to_trits(pre);
                let w = seq![
                    e0@[0] as int,
                    e0@[1] as int,
                    e0@[2] as int,
                    e1@[0] as int,
                    e1@[1] as int,
                    e1@[2] as int,
                    e2@[0] as int,
                    e2@[1] as int,
                    e2@[2] as int,
                ];
                assert(w.subrange(0, 3) =~= tryte_trits(g[0]));
                assert(w.subrange(3, 6) =~= tryte_trits(g[1]));
                assert(w.subrange(6, 9) =~= tryte_trits(g[2]));
                lemma_trytes_to_trits3(g, w);
                lemma_trits_val3(w.subrange(0, 3));
                lemma_trits_val3(w.subrange(3, 6));
                lemma_trits_val3(w.subrange(6, 9));
                assert(a as int == index27_of(trits_val(w.subrange(0, 3))));
                assert(b as int == index27_of(trits_val(w.subrange(3, 6))));
                assert(c as int == index27_of(trits_val(w.subrange(6, 9))));
                let ct = trytes_to_trits(cur);
                assert(ct == pt + w);
                assert(ct.subrange(0, ct.len() - 9) =~= pt);
                assert(ct.subrange(ct.len() - 9, ct.len() as int) =~= w);
                assert(t9_pair(w) == seq![b0 as int, b1 as int]);
                assert(t9_bytes(ct) == t9_bytes(pt) + t9_pair(w));
                assert(out@ =~= out0 + seq![b0 as int, b1 as int]);
                assert(out@ =~= t9_bytes(ct));
            }
        }
        proof {
            assert(self@.subrange(0, n as int) =~= self@);
            lemma_trytes_to_trits_is_trits(self@);
            lemma_t9_round_trip(trytes_to_trits(self@));
        }
        Ok(out)
    }
}

impl Encoding for T9B2 {
    open spec fn inv(&self) -> bool {
        is_t9_seq(self@)
    }

    open spec fn trits(&self) -> Seq<int> {
        t9_trits(self@)
    }

    open spec fn units(&self) -> nat {
        self@.len()
    }

    open spec fn block() -> nat {
        9
    }

    fn new() -> (s: Self) {
        let s = T9B2 { bytes: Vec::new() };
        proof {
            assert(s@ =~= Seq::<int>::empty());
            assert(t9_trits(s@) =~= Seq::<int>::empty());
        }
        s
    }

    fn with_capacity(capacity: usize) -> (s: Self) {
        let s = T9B2 { bytes: Vec::with_capacity(capacity) };
        proof {
            assert(s@ =~= Seq::<int>::empty());
            assert(t9_trits(s@) =~= Seq::<int>::empty());
        }
        s
    }

    fn add(&mut self, trits: T1B1) -> (r: Result<(), TrinaryError>) {
        let bs = match trits.to_t9b2() {
            Ok(bs) => bs,
            Err(e) => {
                return Err(e);
            },
        };
        proof {
            trits.lemma_wf();
            lemma_t9_round_trip(trits@);
        }
        let k = bs.bytes.len();
        let mut j: usize = 0;
        while j < k
            invariant
                j <= k,
                k == bs@.len(),
                self@ =~= old(self)@ + bs@.subrange(0, j as int),
            decreases k - j,
        {
            let b = bs.bytes[j];
            proof {
                assert(bs@[j as int] == bs.bytes@[j as int] as int);
            }
            self.push_byte(b);
            j += 1;
            proof {
                assert(self@ =~= old(self)@ + bs@.subrange(0, j as int));
            }
        }
        proof {
            assert(bs@.subrange(0, k as int) =~= bs@);
            assert(self@ =~= old(self)@ + bs@);
            assert(is_t9_seq(bs@));
            assert forall|i: int|
                0 <= i && 2 * i + 1 < self@.len() implies is_t9_pair_valid(
                #[trigger] self@[2 * i],
                self@[2 * i + 1],
            ) by {
                let m = old(self)@.len() as int;
                lemma_fundamental_div_mod(m, 2);
                if 2 * i + 1 < m {
                    assert(is_t9_pair_valid(old(self)@[2 * i], old(self)@[2 * i + 1]));
                } else {
                    assert(m == 2 * (m / 2));
                    assert(2 * i >= m);
                    let ii = i - m / 2;
                    assert(is_t9_pair_valid(bs@[2 * ii], bs@[2 * ii + 1]));
                    assert(self@[2 * i] == bs@[2 * ii]);
                    assert(self@[2 * i + 1] == bs@[2 * ii + 1]);
                }
            }
            lemma_fundamental_div_mod(old(self)@.len() as int, 2);
            lemma_fundamental_div_mod(bs@.len() as int, 2);
            vstd::arithmetic::div_mod::lemma_fundamental_div_mod_converse(
                self@.len() as int,
                2,
                old(self)@.len() as int / 2 + bs@.len() as int / 2,
                0,
            );
            lemma_t9_trits_app(old(self)@, bs@);
        }
        Ok(())
    }

    fn len(&self) -> (n: usize) {
        self.bytes.len()
    }
}

} // verus!
