//! The T1B1 encoding: one trit per storage cell.
//!
//! T1B1 is the canonical pivot: every other encoding can produce one and
//! consume one, so any pair of encodings is reachable in two hops.

use crate::encodings::Encoding;
use crate::error::TrinaryError;
use crate::ternary::is_trit;
use crate::ternary::is_trit_seq;
use crate::trit::is_trit_char;
use crate::trit::is_trit_str;
use crate::trit::trit_char_val;
use crate::trit::trit_chars_of;
use crate::trit::trit_val;
use crate::trit::trit_vals_of;
use crate::trit::BalancedTrit;
use vstd::arithmetic::div_mod::lemma_mod_division_less_than_divisor;
use vstd::prelude::*;
use vstd::string::StrSliceExecFns;
use vstd::string::StringExecFns;

verus! {

/// An ordered sequence of trits, one per storage cell.
///
/// Its view is the sequence of trit values, each in {-1, 0, +1}.
#[derive(Clone, Debug)]
pub struct T1B1 {
    trits: Vec<BalancedTrit>,
}

impl View for T1B1 {
    type V = Seq<int>;

    closed spec fn view(&self) -> Seq<int> {
        self.trits@.map_values(|t: BalancedTrit| trit_val(t))
    }
}

impl T1B1 {
    /// Every stored value is a trit; no well-formedness needs carrying.
    pub proof fn lemma_wf(&self)
        ensures
            is_trit_seq(self@),
    {
        assert forall|i: int| 0 <= i < self@.len() implies is_trit(#[trigger] self@[i]) by {
            assert(self@[i] == trit_val(self.trits@[i]));
        }
    }

    /// Bulk construction from signed bytes; every element must be a trit
    /// value, anything else is rejected with `InvalidTritChar`.
    pub fn from_i8(input: &[i8]) -> (r: Result<T1B1, TrinaryError>)
        ensures
            r is Ok <==> (forall|i: int|
                0 <= i < input@.len() ==> is_trit(#[trigger] input@[i] as int)),
            r matches Ok(t) ==> t@.len() == input@.len() && (forall|i: int|
                0 <= i < input@.len() ==> #[trigger] t@[i] == input@[i] as int),
            r matches Err(e) ==> e == TrinaryError::InvalidTritChar,
    {
        let n = input.len();
        let mut out = T1B1 { trits: Vec::with_capacity(n) };
        let mut j: usize = 0;
        while j < n
            invariant
                j <= n,
                n == input@.len(),
                out@.len() == j,
                forall|i: int| 0 <= i < j ==> is_trit(#[trigger] input@[i] as int),
                forall|i: int| 0 <= i < j ==> #[trigger] out@[i] == input@[i] as int,
            decreases n - j,
        {
            match BalancedTrit::from_i8(input[j]) {
                Ok(t) => out.push_trit(t),
                Err(e) => {
                    return Err(e);
                },
            }
            j += 1;
        }
        Ok(out)
    }

    /// The trit at position `index`.
    pub fn get(&self, index: usize) -> (t: BalancedTrit)
        requires
            index < self@.len(),
        ensures
            trit_val(t) == self@[index as int],
    {
        let t = self.trits[index];
        proof {
            assert(self@[index as int] == trit_val(self.trits@[index as int]));
        }
        t
    }

    /// The value of the trit at position `index`.
    pub fn get_as_i8(&self, index: usize) -> (v: i8)
        requires
            index < self@.len(),
        ensures
            v as int == self@[index as int],
    {
        self.get(index).value()
    }

    /// Appends the trit a symbol denotes; a character outside the trit
    /// alphabet is rejected with `InvalidTritChar` and changes nothing.
    pub fn push(&mut self, c: char) -> (r: Result<(), TrinaryError>)
        ensures
            r is Ok <==> is_trit_char(c),
            r is Ok ==> final(self)@ == old(self)@.push(trit_char_val(c)),
            r matches Err(e) ==> e == TrinaryError::InvalidTritChar && *final(self) == *old(self),
    {
        match BalancedTrit::from_char(c) {
            Ok(t) => {
                self.push_trit(t);
                Ok(())
            },
            Err(e) => Err(e),
        }
    }

    /// Appends the trit a signed value denotes; an integer outside
    /// {-1, 0, +1} is rejected with `InvalidTritChar` and changes nothing.
    pub fn push_i8(&mut self, i: i8) -> (r: Result<(), TrinaryError>)
        ensures
            r is Ok <==> -1 <= i as int <= 1,
            r is Ok ==> final(self)@ == old(self)@.push(i as int),
            r matches Err(e) ==> e == TrinaryError::InvalidTritChar && *final(self) == *old(self),
    {
        match BalancedTrit::from_i8(i) {
            Ok(t) => {
                self.push_trit(t);
                Ok(())
            },
            Err(e) => Err(e),
        }
    }

    /// Appends one trit.
    pub fn push_trit(&mut self, t: BalancedTrit)
        ensures
            final(self)@ == old(self)@.push(trit_val(t)),
    {
        self.trits.push(t);
        proof {
            assert(final(self)@ =~= old(self)@.push(trit_val(t)));
        }
    }

    /// Appends three trits given as signed values.
    pub(crate) fn push3(&mut self, ds: [i8; 3])
        requires
            is_trit(ds@[0] as int),
            is_trit(ds@[1] as int),
            is_trit(ds@[2] as int),
        ensures
            final(self)@ == old(self)@ + seq![ds@[0] as int, ds@[1] as int, ds@[2] as int],
    {
        self.push_trit(BalancedTrit::of_i8(ds[0]));
        self.push_trit(BalancedTrit::of_i8(ds[1]));
        self.push_trit(BalancedTrit::of_i8(ds[2]));
        proof {
            assert(final(self)@ =~= old(self)@ + seq![
                ds@[0] as int,
                ds@[1] as int,
                ds@[2] as int,
            ]);
        }
    }

    /// Removes the last trit; on an empty sequence this changes nothing.
    pub fn pop(&mut self)
        ensures
            old(self)@.len() == 0 ==> final(self)@ == old(self)@,
            old(self)@.len() > 0 ==> final(self)@ == old(self)@.drop_last(),
    {
        let _ = self.trits.pop();
        proof {
            if old(self)@.len() > 0 {
                assert(final(self)@ =~= old(self)@.drop_last());
            } else {
                assert(final(self)@ =~= old(self)@);
            }
        }
    }

    /// Parses a string of trit symbols; parsing stops at the first
    /// character outside the alphabet and surfaces `InvalidTritChar`. The
    /// parsed sequence has exactly one trit per character.
    pub fn from_str(s: &str) -> (r: Result<T1B1, TrinaryError>)
        ensures
            r is Ok <==> is_trit_str(s@),
            r matches Ok(t) ==> t@ == trit_vals_of(s@) && t@.len() == s@.len(),
            r matches Err(e) ==> e == TrinaryError::InvalidTritChar,
    {
        let n = s.unicode_len();
        let mut out = T1B1 { trits: Vec::with_capacity(n) };
        let mut j: usize = 0;
        while j < n
            invariant
                j <= n,
                n == s@.len(),
                out@.len() == j,
                forall|i: int| 0 <= i < j ==> is_trit_char(#[trigger] s@[i]),
                forall|i: int| 0 <= i < j ==> #[trigger] out@[i] == trit_char_val(s@[i]),
            decreases n - j,
        {
            let c = s.get_char(j);
            match BalancedTrit::from_char(c) {
                Ok(t) => out.push_trit(t),
                Err(e) => {
                    return Err(e);
                },
            }
            j += 1;
        }
        proof {
            assert(out@ =~= trit_vals_of(s@));
        }
        Ok(out)
    }

    /// The textual representation: one symbol per trit.
    pub fn display(&self) -> (r: String)
        ensures
            r@ == trit_chars_of(self@),
            r@.len() == self@.len(),
    {
        proof {
            reveal_strlit("-");
            reveal_strlit("0");
            reveal_strlit("1");
        }
        let n = self.trits.len();
        let mut out = String::new();
        let mut j: usize = 0;
        while j < n
            invariant
                j <= n,
                n == self@.len(),
                out@ =~= trit_chars_of(self@.subrange(0, j as int)),
                "-"@ == seq!['-'],
                "0"@ == seq!['0'],
                "1"@ == seq!['1'],
            decreases n - j,
        {
            let piece: &str = match self.trits[j] {
                BalancedTrit::MinusOne => "-",
                BalancedTrit::Zero => "0",
                BalancedTrit::PlusOne => "1",
            };
            proof {
                assert(self@[j as int] == trit_val(self.trits@[j as int]));
            }
            out.append(piece);
            j += 1;
            proof {
                assert(out@ =~= trit_chars_of(self@.subrange(0, j as int)));
            }
        }
        proof {
            assert(self@.subrange(0, n as int) =~= self@);
        }
        out
    }
}

impl Encoding for T1B1 {
    open spec fn inv(&self) -> bool {
        true
    }

    open spec fn trits(&self) -> Seq<int> {
        self@
    }

    open spec fn units(&self) -> nat {
        self@.len()
    }

    open spec fn block() -> nat {
        1
    }

    fn new() -> (s: Self) {
        let s = T1B1 { trits: Vec::new() };
        proof {
            assert(s@ =~= Seq::<int>::empty());
        }
        s
    }

    fn with_capacity(capacity: usize) -> (s: Self) {
        let s = T1B1 { trits: Vec::with_capacity(capacity) };
        proof {
            assert(s@ =~= Seq::<int>::empty());
        }
        s
    }

    fn add(&mut self, trits: T1B1) -> (r: Result<(), TrinaryError>) {
        proof {
            lemma_mod_division_less_than_divisor(trits@.len() as int, 1);
        }
        let k = trits.trits.len();
        let mut j: usize = 0;
        while j < k
            invariant
                j <= k,
                k == trits@.len(),
                self@ =~= old(self)@ + trits@.subrange(0, j as int),
            decreases k - j,
        {
            let t = trits.trits[j];
            proof {
                assert(trits@[j as int] == trit_val(trits.trits@[j as int]));
            }
            self.push_trit(t);
            j += 1;
            proof {
                assert(self@ =~= old(self)@ + trits@.subrange(0, j as int));
            }
        }
        proof {
            assert(trits@.subrange(0, k as int) =~= trits@);
        }
        Ok(())
    }

    fn len(&self) -> (n: usize) {
        self.trits.len()
    }
}

} // verus!
