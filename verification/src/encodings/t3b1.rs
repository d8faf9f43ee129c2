//! The T3B1 encoding: one tryte (three trits) per storage cell.
//!
//! Its cells map one to one onto the tryte alphabet `'9'`, `'A'` to `'Z'`.

use crate::encodings::t1b1::T1B1;
use crate::encodings::Encoding;
use crate::error::TrinaryError;
use crate::ternary::is_tryte_seq;
use crate::ternary::is_tryte_val;
use crate::ternary::lemma_t3_round_trip;
use crate::ternary::lemma_trits_val3;
use crate::ternary::lemma_trytes_to_trits_app;
use crate::ternary::lemma_trytes_to_trits_len;
use crate::ternary::trits_to_trytes;
use crate::ternary::tryte_trits;
use crate::ternary::trytes_to_trits;
use crate::trit::BalancedTrit;
use crate::tryte::is_tryte_char;
use crate::tryte::is_tryte_str;
use crate::tryte::tryte_char_val;
use crate::tryte::tryte_chars_of;
use crate::tryte::tryte_val;
use crate::tryte::tryte_vals_of;
use crate::tryte::BalancedTryte;
use vstd::prelude::*;
use vstd::string::StrSliceExecFns;
use vstd::string::StringExecFns;

verus! {

/// An ordered sequence of trytes, one per storage cell.
///
/// Its view is the sequence of tryte values, each in [-13, +13]; the trit
/// sequence it stands for is the concatenation of the trytes' three-trit
/// decompositions.
#[derive(Clone, Debug)]
pub struct T3B1 {
    trytes: Vec<BalancedTryte>,
}

impl View for T3B1 {
    type V = Seq<int>;

    closed spec fn view(&self) -> Seq<int> {
        self.trytes@.map_values(|t: BalancedTryte| tryte_val(t))
    }
}

impl T3B1 {
    /// Every stored value is a tryte value; no well-formedness needs
    /// carrying.
    pub proof fn lemma_wf(&self)
        ensures
            is_tryte_seq(self@),
    {
        assert forall|i: int| 0 <= i < self@.len() implies is_tryte_val(#[trigger] self@[i]) by {
            assert(self@[i] == tryte_val(self.trytes@[i]));
        }
    }

    /// Bulk construction from signed bytes; every element must be a tryte
    /// value, anything else is rejected with `InvalidTryteChar`.
    pub fn from_i8(input: &[i8]) -> (r: Result<T3B1, TrinaryError>)
        ensures
            r is Ok <==> (forall|i: int|
                0 <= i < input@.len() ==> is_tryte_val(#[trigger] input@[i] as int)),
            r matches Ok(t) ==> t@.len() == input@.len() && (forall|i: int|
                0 <= i < input@.len() ==> #[trigger] t@[i] == input@[i] as int),
            r matches Err(e) ==> e == TrinaryError::InvalidTryteChar,
    {
        let n = input.len();
        let mut out = T3B1 { trytes: Vec::with_capacity(n) };
        let mut j: usize = 0;
        while j < n
            invariant
                j <= n,
                n == input@.len(),
                out@.len() == j,
                forall|i: int| 0 <= i < j ==> is_tryte_val(#[trigger] input@[i] as int),
                forall|i: int| 0 <= i < j ==> #[trigger] out@[i] == input@[i] as int,
            decreases n - j,
        {
            match BalancedTryte::from_i8(input[j]) {
                Ok(t) => out.push_tryte(t),
                Err(e) => {
                    return Err(e);
                },
            }
            j += 1;
        }
        Ok(out)
    }

    /// The number of trytes stored.
    pub fn len(&self) -> (n: usize)
        ensures
            n == self@.len(),
    {
        self.trytes.len()
    }

    /// The tryte at position `index`.
    pub fn get(&self, index: usize) -> (t: BalancedTryte)
        requires
            index < self@.len(),
        ensures
            tryte_val(t) == self@[index as int],
    {
        let t = self.trytes[index];
        proof {
            assert(self@[index as int] == tryte_val(self.trytes@[index as int]));
        }
        t
    }

    /// The value of the tryte at position `index`.
    pub fn get_as_i8(&self, index: usize) -> (v: i8)
        requires
            index < self@.len(),
        ensures
            v as int == self@[index as int],
    {
        self.get(index).value()
    }

    /// Appends the tryte a symbol denotes; a character outside the tryte
    /// alphabet is rejected with `InvalidTryteChar` and changes nothing.
    pub fn push(&mut self, c: char) -> (r: Result<(), TrinaryError>)
        ensures
            r is Ok <==> is_tryte_char(c),
            r is Ok ==> final(self)@ == old(self)@.push(tryte_char_val(c)),
            r matches Err(e) ==> e == TrinaryError::InvalidTryteChar && *final(self) == *old(self),
    {
        match BalancedTryte::from_char(c) {
            Ok(t) => {
                self.push_tryte(t);
                Ok(())
            },
            Err(e) => Err(e),
        }
    }

    /// Appends the tryte a signed value denotes; an integer outside
    /// [-13, +13] is rejected with `InvalidTryteChar` and changes nothing.
    pub fn push_i8(&mut self, i: i8) -> (r: Result<(), TrinaryError>)
        ensures
            r is Ok <==> -13 <= i as int <= 13,
            r is Ok ==> final(self)@ == old(self)@.push(i as int),
            r matches Err(e) ==> e == TrinaryError::InvalidTryteChar && *final(self) == *old(self),
    {
        match BalancedTryte::from_i8(i) {
            Ok(t) => {
                self.push_tryte(t);
                Ok(())
            },
            Err(e) => Err(e),
        }
    }

    /// Appends one tryte.
    pub fn push_tryte(&mut self, t: BalancedTryte)
        ensures
            final(self)@ == old(self)@.push(tryte_val(t)),
    {
        self.trytes.push(t);
        proof {
            assert(final(self)@ =~= old(self)@.push(tryte_val(t)));
        }
    }

    /// Removes the last tryte; on an empty sequence this changes nothing.
    pub fn pop(&mut self)
        ensures
            old(self)@.len() == 0 ==> final(self)@ == old(self)@,
            old(self)@.len() > 0 ==> final(self)@ == old(self)@.drop_last(),
    {
        let _ = self.trytes.pop();
        proof {
            if old(self)@.len() > 0 {
                assert(final(self)@ =~= old(self)@.drop_last());
            } else {
                assert(final(self)@ =~= old(self)@);
            }
        }
    }

    /// Parses a string of tryte symbols; parsing stops at the first
    /// character outside the alphabet and surfaces `InvalidTryteChar`. The
    /// parsed sequence has exactly one tryte per character.
    pub fn from_str(s: &str) -> (r: Result<T3B1, TrinaryError>)
        ensures
            r is Ok <==> is_tryte_str(s@),
            r matches Ok(t) ==> t@ == tryte_vals_of(s@) && t@.len() == s@.len(),
            r matches Err(e) ==> e == TrinaryError::InvalidTryteChar,
    {
        let n = s.unicode_len();
        let mut out = T3B1 { trytes: Vec::with_capacity(n) };
        let mut j: usize = 0;
        while j < n
            invariant
                j <= n,
                n == s@.len(),
                out@.len() == j,
                forall|i: int| 0 <= i < j ==> is_tryte_char(#[trigger] s@[i]),
                forall|i: int| 0 <= i < j ==> #[trigger] out@[i] == tryte_char_val(s@[i]),
            decreases n - j,
        {
            let c = s.get_char(j);
            match BalancedTryte::from_char(c) {
                Ok(t) => out.push_tryte(t),
                Err(e) => {
                    return Err(e);
                },
            }
            j += 1;
        }
        proof {
            assert(out@ =~= tryte_vals_of(s@));
        }
        Ok(out)
    }

    /// The textual representation: one symbol per tryte.
    pub fn display(&self) -> (r: String)
        ensures
            r@ == tryte_chars_of(self@),
            r@.len() == self@.len(),
    {
        let n = self.trytes.len();
        let mut out = String::new();
        let mut j: usize = 0;
        while j < n
            invariant
                j <= n,
                n == self@.len(),
                out@ =~= tryte_chars_of(self@.subrange(0, j as int)),
            decreases n - j,
        {
            let piece = self.trytes[j].symbol_str();
            proof {
                assert(self@[j as int] == tryte_val(self.trytes@[j as int]));
            }
            out.append(piece);
            j += 1;
            proof {
                assert(out@ =~= tryte_chars_of(self@.subrange(0, j as int)));
            }
        }
        proof {
            assert(self@.subrange(0, n as int) =~= self@);
        }
        out
    }

    /// The trit sequence this container stores, as a T1B1: three trits per
    /// tryte. This conversion is total.
    pub fn to_t1b1(&self) -> (r: T1B1)
        ensures
            r@ == trytes_to_trits(self@),
            r@.len() == 3 * self@.len(),
    {
        let n = self.trytes.len();
        let mut out = T1B1::with_capacity(n);
        let mut j: usize = 0;
        while j < n
            invariant
                j <= n,
                n == self@.len(),
                out@ =~= trytes_to_trits(self@.subrange(0, j as int)),
                out@.len() == 3 * j,
            decreases n - j,
        {
            let ds = self.trytes[j].as_trits();
            proof {
                assert(self@[j as int] == tryte_val(self.trytes@[j as int]));
            }
            out.push_trit(BalancedTrit::of_i8(ds[0]));
            out.push_trit(BalancedTrit::of_i8(ds[1]));
            out.push_trit(BalancedTrit::of_i8(ds[2]));
            j += 1;
            proof {
                let pre = self@.subrange(0, j - 1);
                let cur = self@.subrange(0, j as int);
                assert(cur.drop_last() =~= pre);
                assert(cur.last() == self@[j - 1]);
                assert(out@ =~= trytes_to_trits(pre) + tryte_trits(self@[j - 1]));
            }
        }
        proof {
            assert(self@.subrange(0, n as int) =~= self@);
        }
        out
    }
}

impl T1B1 {
    /// Packs this trit sequence into trytes, three trits per cell; a trit
    /// count that is not a multiple of three is rejected with
    /// `IncompatibleLength`.
    pub fn to_t3b1(&self) -> (r: Result<T3B1, TrinaryError>)
        ensures
            r is Ok <==> self@.len() % 3 == 0,
            r matches Ok(t) ==> t@ == trits_to_trytes(self@) && t@.len() == self@.len() / 3,
            r matches Err(e) ==> e == TrinaryError::IncompatibleLength,
    {
        let n = self.len();
        if n % 3 != 0 {
            return Err(TrinaryError::IncompatibleLength);
        }
        proof {
            self.lemma_wf();
        }
        let mut out = T3B1 { trytes: Vec::with_capacity(n / 3) };
        let mut j: usize = 0;
        while j < n
            invariant
                j <= n,
                j % 3 == 0,
                n % 3 == 0,
                n == self@.len(),
                out@ =~= trits_to_trytes(self@.subrange(0, j as int)),
                out@.len() == j / 3,
            decreases n - j,
        {
            let a = self.get_as_i8(j);
            let b = self.get_as_i8(j + 1);
            let c = self.get_as_i8(j + 2);
            proof {
                self.lemma_wf();
            }
            let v = a + b * 3 + c * 9;
            out.push_tryte(BalancedTryte::of_i8(v));
            j += 3;
            proof {
                let cur = self@.subrange(0, j as int);
                let pre = self@.subrange(0, j - 3);
                let g = self@.subrange(j - 3, j as int);
                assert(cur.subrange(0, cur.len() - 3) =~= pre);
                assert(cur.subrange(cur.len() - 3, cur.len() as int) =~= g);
                lemma_trits_val3(g);
                assert(out@ =~= trits_to_trytes(pre) + seq![crate::ternary::trits_val(g)]);
            }
        }
        proof {
            assert(self@.subrange(0, n as int) =~= self@);
        }
        Ok(out)
    }
}

impl Encoding for T3B1 {
    open spec fn inv(&self) -> bool {
        true
    }

    open spec fn trits(&self) -> Seq<int> {
        trytes_to_trits(self@)
    }

    open spec fn units(&self) -> nat {
        self@.len()
    }

    open spec fn block() -> nat {
        3
    }

    fn new() -> (s: Self) {
        let s = T3B1 { trytes: Vec::new() };
        proof {
            assert(s@ =~= Seq::<int>::empty());
            assert(trytes_to_trits(s@) =~= Seq::<int>::empty());
        }
        s
    }

    fn with_capacity(capacity: usize) -> (s: Self) {
        let s = T3B1 { trytes: Vec::with_capacity(capacity) };
        proof {
            assert(s@ =~= Seq::<int>::empty());
            assert(trytes_to_trits(s@) =~= Seq::<int>::empty());
        }
        s
    }

    fn add(&mut self, trits: T1B1) -> (r: Result<(), TrinaryError>) {
        let tt = match trits.to_t3b1() {
            Ok(tt) => tt,
            Err(e) => {
                return Err(e);
            },
        };
        proof {
            trits.lemma_wf();
            lemma_t3_round_trip(trits@);
        }
        let k = tt.trytes.len();
        let mut j: usize = 0;
        while j < k
            invariant
                j <= k,
                k == tt@.len(),
                self@ =~= old(self)@ + tt@.subrange(0, j as int),
            decreases k - j,
        {
            let t = tt.trytes[j];
            proof {
                assert(tt@[j as int] == tryte_val(tt.trytes@[j as int]));
            }
            self.push_tryte(t);
            j += 1;
            proof {
                assert(self@ =~= old(self)@ + tt@.subrange(0, j as int));
            }
        }
        proof {
            assert(tt@.subrange(0, k as int) =~= tt@);
            assert(self@ =~= old(self)@ + tt@);
            lemma_trytes_to_trits_app(old(self)@, tt@);
        }
        Ok(())
    }

    fn len(&self) -> (n: usize) {
        self.trytes.len()
    }
}

} // verus!
