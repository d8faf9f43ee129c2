use crate::error::TrinaryError;
use vstd::prelude::*;

verus! {

/// A single balanced ternary digit: one of -1, 0 or +1.
///
/// Symbols: `'-'` stands for -1, `'0'` for 0 and `'1'` for +1.
#[derive(Clone, Copy, Debug, PartialEq, Eq, Structural)]
pub enum BalancedTrit {
    MinusOne,
    Zero,
    PlusOne,
}

/// The integer a trit stands for.
pub open spec fn trit_val(t: BalancedTrit) -> int {
    match t {
        BalancedTrit::MinusOne => -1,
        BalancedTrit::Zero => 0,
        BalancedTrit::PlusOne => 1,
    }
}

/// The trit alphabet: exactly the characters `'1'`, `'0'` and `'-'`.
pub open spec fn is_trit_char(c: char) -> bool {
    c == '1' || c == '0' || c == '-'
}

/// The value a trit symbol denotes.
pub open spec fn trit_char_val(c: char) -> int {
    if c == '1' {
        1
    } else if c == '0' {
        0
    } else {
        -1
    }
}

/// The symbol that denotes a trit value.
pub open spec fn trit_char_of(v: int) -> char {
    if v == 1 {
        '1'
    } else if v == 0 {
        '0'
    } else {
        '-'
    }
}

/// Every character of the sequence belongs to the trit alphabet.
pub open spec fn is_trit_str(cs: Seq<char>) -> bool {
    forall|i: int| 0 <= i < cs.len() ==> is_trit_char(#[trigger] cs[i])
}

/// The trit values a sequence of symbols denotes.
pub open spec fn trit_vals_of(cs: Seq<char>) -> Seq<int> {
    cs.map_values(|c: char| trit_char_val(c))
}

/// The symbols that denote a sequence of trit values.
pub open spec fn trit_chars_of(vs: Seq<int>) -> Seq<char> {
    vs.map_values(|v: int| trit_char_of(v))
}

/// Parsing a symbol of the trit alphabet and printing it back is the
/// identity on the alphabet.
pub proof fn lemma_trit_symbol_round_trip(c: char)
    requires
        is_trit_char(c),
    ensures
        trit_char_of(trit_char_val(c)) == c,
{
}

impl BalancedTrit {
    /// Parses one symbol of the trit alphabet; any other character is
    /// rejected with `InvalidTritChar`.
    pub fn from_char(c: char) -> (r: Result<BalancedTrit, TrinaryError>)
        ensures
            r is Ok <==> is_trit_char(c),
            r matches Ok(t) ==> trit_val(t) == trit_char_val(c),
            r matches Err(e) ==> e == TrinaryError::InvalidTritChar,
    {
        match c {
            '-' => Ok(BalancedTrit::MinusOne),
            '0' => Ok(BalancedTrit::Zero),
            '1' => Ok(BalancedTrit::PlusOne),
            _ => Err(TrinaryError::InvalidTritChar),
        }
    }

    /// Accepts exactly the integers -1, 0 and +1; anything else is rejected
    /// with `InvalidTritChar`.
    pub fn from_i8(i: i8) -> (r: Result<BalancedTrit, TrinaryError>)
        ensures
            r is Ok <==> -1 <= i as int <= 1,
            r matches Ok(t) ==> trit_val(t) == i as int,
            r matches Err(e) ==> e == TrinaryError::InvalidTritChar,
    {
        match i {
            -1 => Ok(BalancedTrit::MinusOne),
            0 => Ok(BalancedTrit::Zero),
            1 => Ok(BalancedTrit::PlusOne),
            _ => Err(TrinaryError::InvalidTritChar),
        }
    }

    /// Builds the trit of a value already known to lie in {-1, 0, +1}.
    pub(crate) fn of_i8(i: i8) -> (t: BalancedTrit)
        requires
            -1 <= i as int <= 1,
        ensures
            trit_val(t) == i as int,
    {
        match i {
            -1 => BalancedTrit::MinusOne,
            0 => BalancedTrit::Zero,
            _ => BalancedTrit::PlusOne,
        }
    }

    /// The signed integer this trit stands for.
    pub fn value(&self) -> (v: i8)
        ensures
            v as int == trit_val(*self),
    {
        match *self {
            BalancedTrit::MinusOne => -1,
            BalancedTrit::Zero => 0,
            BalancedTrit::PlusOne => 1,
        }
    }

    /// The table key of this trit: +1 maps to 1, 0 to 0 and -1 to 2.
    pub fn index(&self) -> (i: usize)
        ensures
            i as int == if trit_val(*self) < 0 {
                trit_val(*self) + 3
            } else {
                trit_val(*self)
            },
    {
        match *self {
            BalancedTrit::MinusOne => 2,
            BalancedTrit::Zero => 0,
            BalancedTrit::PlusOne => 1,
        }
    }

    /// The symbol of this trit; the inverse of `from_char`.
    pub fn to_char(&self) -> (c: char)
        ensures
            c == trit_char_of(trit_val(*self)),
            is_trit_char(c),
    {
        match *self {
            BalancedTrit::MinusOne => '-',
            BalancedTrit::Zero => '0',
            BalancedTrit::PlusOne => '1',
        }
    }
}

} // verus!
