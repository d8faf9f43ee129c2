use crate::error::TrinaryError;
use crate::ternary::index27_of;
use crate::ternary::is_trit;
use crate::ternary::lemma_digits_of_val;
use crate::ternary::lemma_trits_val3;
use crate::ternary::tryte_trits;
use vstd::prelude::*;

verus! {

/// A balanced tryte: a group of three trits with a value in [-13, +13].
///
/// Symbols: `'9'` stands for 0, `'A'` to `'M'` for +1 to +13, and `'N'` to
/// `'Z'` for -13 to -1.
#[derive(Clone, Copy, Debug, PartialEq, Eq, Structural)]
pub enum BalancedTryte {
    N,
    O,
    P,
    Q,
    R,
    S,
    T,
    U,
    V,
    W,
    X,
    Y,
    Z,
    Nine,
    A,
    B,
    C,
    D,
    E,
    F,
    G,
    H,
    I,
    J,
    K,
    L,
    M,
}

/// The integer a tryte stands for.
pub open spec fn tryte_val(t: BalancedTryte) -> int {
    match t {
        BalancedTryte::N => -13,
        BalancedTryte::O => -12,
        BalancedTryte::P => -11,
        BalancedTryte::Q => -10,
        BalancedTryte::R => -9,
        BalancedTryte::S => -8,
        BalancedTryte::T => -7,
        BalancedTryte::U => -6,
        BalancedTryte::V => -5,
        BalancedTryte::W => -4,
        BalancedTryte::X => -3,
        BalancedTryte::Y => -2,
        BalancedTryte::Z => -1,
        BalancedTryte::Nine => 0,
        BalancedTryte::A => 1,
        BalancedTryte::B => 2,
        BalancedTryte::C => 3,
        BalancedTryte::D => 4,
        BalancedTryte::E => 5,
        BalancedTryte::F => 6,
        BalancedTryte::G => 7,
        BalancedTryte::H => 8,
        BalancedTryte::I => 9,
        BalancedTryte::J => 10,
        BalancedTryte::K => 11,
        BalancedTryte::L => 12,
        BalancedTryte::M => 13,
    }
}

/// The tryte alphabet: exactly the characters `'9'` and `'A'` to `'Z'`.
pub open spec fn is_tryte_char(c: char) -> bool {
    c == '9' || ('A' as int <= c as int && c as int <= 'Z' as int)
}

/// The value a tryte symbol denotes.
pub open spec fn tryte_char_val(c: char) -> int {
    if c == '9' {
        0
    } else if c as int <= 'M' as int {
        c as int - 'A' as int + 1
    } else {
        c as int - 'Z' as int - 1
    }
}

/// The symbol that denotes a tryte value.
pub open spec fn tryte_char_of(v: int) -> char {
    if v == 1 {
        'A'
    } else if v == 2 {
        'B'
    } else if v == 3 {
        'C'
    } else if v == 4 {
        'D'
    } else if v == 5 {
        'E'
    } else if v == 6 {
        'F'
    } else if v == 7 {
        'G'
    } else if v == 8 {
        'H'
    } else if v == 9 {
        'I'
    } else if v == 10 {
        'J'
    } else if v == 11 {
        'K'
    } else if v == 12 {
        'L'
    } else if v == 13 {
        'M'
    } else if v == -13 {
        'N'
    } else if v == -12 {
        'O'
    } else if v == -11 {
        'P'
    } else if v == -10 {
        'Q'
    } else if v == -9 {
        'R'
    } else if v == -8 {
        'S'
    } else if v == -7 {
        'T'
    } else if v == -6 {
        'U'
    } else if v == -5 {
        'V'
    } else if v == -4 {
        'W'
    } else if v == -3 {
        'X'
    } else if v == -2 {
        'Y'
    } else if v == -1 {
        'Z'
    } else {
        '9'
    }
}

/// Every character of the sequence belongs to the tryte alphabet.
pub open spec fn is_tryte_str(cs: Seq<char>) -> bool {
    forall|i: int| 0 <= i < cs.len() ==> is_tryte_char(#[trigger] cs[i])
}

/// The tryte values a sequence of symbols denotes.
pub open spec fn tryte_vals_of(cs: Seq<char>) -> Seq<int> {
    cs.map_values(|c: char| tryte_char_val(c))
}

/// The symbols that denote a sequence of tryte values.
pub open spec fn tryte_chars_of(vs: Seq<int>) -> Seq<char> {
    vs.map_values(|v: int| tryte_char_of(v))
}

/// Parsing a symbol of the tryte alphabet and printing it back is the
/// identity on the alphabet.
pub proof fn lemma_tryte_symbol_round_trip(c: char)
    requires
        is_tryte_char(c),
    ensures
        tryte_char_of(tryte_char_val(c)) == c,
{
}

impl BalancedTryte {
    /// Parses one symbol of the tryte alphabet; any other character is
    /// rejected with `InvalidTryteChar`.
    pub fn from_char(c: char) -> (r: Result<BalancedTryte, TrinaryError>)
        ensures
            r is Ok <==> is_tryte_char(c),
            r matches Ok(t) ==> tryte_val(t) == tryte_char_val(c),
            r matches Err(e) ==> e == TrinaryError::InvalidTryteChar,
    {
        match c {
            'N' => Ok(BalancedTryte::N),
            'O' => Ok(BalancedTryte::O),
            'P' => Ok(BalancedTryte::P),
            'Q' => Ok(BalancedTryte::Q),
            'R' => Ok(BalancedTryte::R),
            'S' => Ok(BalancedTryte::S),
            'T' => Ok(BalancedTryte::T),
            'U' => Ok(BalancedTryte::U),
            'V' => Ok(BalancedTryte::V),
            'W' => Ok(BalancedTryte::W),
            'X' => Ok(BalancedTryte::X),
            'Y' => Ok(BalancedTryte::Y),
            'Z' => Ok(BalancedTryte::Z),
            '9' => Ok(BalancedTryte::Nine),
            'A' => Ok(BalancedTryte::A),
            'B' => Ok(BalancedTryte::B),
            'C' => Ok(BalancedTryte::C),
            'D' => Ok(BalancedTryte::D),
            'E' => Ok(BalancedTryte::E),
            'F' => Ok(BalancedTryte::F),
            'G' => Ok(BalancedTryte::G),
            'H' => Ok(BalancedTryte::H),
            'I' => Ok(BalancedTryte::I),
            'J' => Ok(BalancedTryte::J),
            'K' => Ok(BalancedTryte::K),
            'L' => Ok(BalancedTryte::L),
            'M' => Ok(BalancedTryte::M),
            _ => Err(TrinaryError::InvalidTryteChar),
        }
    }

    /// Accepts exactly the integers in [-13, +13]; anything else is
    /// rejected with `InvalidTryteChar`.
    pub fn from_i8(i: i8) -> (r: Result<BalancedTryte, TrinaryError>)
        ensures
            r is Ok <==> -13 <= i as int <= 13,
            r matches Ok(t) ==> tryte_val(t) == i as int,
            r matches Err(e) ==> e == TrinaryError::InvalidTryteChar,
    {
        if i < -13 || i > 13 {
            Err(TrinaryError::InvalidTryteChar)
        } else {
            Ok(Self::of_i8(i))
        }
    }

    /// Builds the tryte of a value already known to lie in [-13, +13].
    pub(crate) fn of_i8(i: i8) -> (t: BalancedTryte)
        requires
            -13 <= i as int <= 13,
        ensures
            tryte_val(t) == i as int,
    {
        match i {
            -13 => BalancedTryte::N,
            -12 => BalancedTryte::O,
            -11 => BalancedTryte::P,
            -10 => BalancedTryte::Q,
            -9 => BalancedTryte::R,
            -8 => BalancedTryte::S,
            -7 => BalancedTryte::T,
            -6 => BalancedTryte::U,
            -5 => BalancedTryte::V,
            -4 => BalancedTryte::W,
            -3 => BalancedTryte::X,
            -2 => BalancedTryte::Y,
            -1 => BalancedTryte::Z,
            0 => BalancedTryte::Nine,
            1 => BalancedTryte::A,
            2 => BalancedTryte::B,
            3 => BalancedTryte::C,
            4 => BalancedTryte::D,
            5 => BalancedTryte::E,
            6 => BalancedTryte::F,
            7 => BalancedTryte::G,
            8 => BalancedTryte::H,
            9 => BalancedTryte::I,
            10 => BalancedTryte::J,
            11 => BalancedTryte::K,
            12 => BalancedTryte::L,
            _ => BalancedTryte::M,
        }
    }

    /// The signed integer this tryte stands for.
    pub fn value(&self) -> (v: i8)
        ensures
            v as int == tryte_val(*self),
    {
        match *self {
            BalancedTryte::N => -13,
            BalancedTryte::O => -12,
            BalancedTryte::P => -11,
            BalancedTryte::Q => -10,
            BalancedTryte::R => -9,
            BalancedTryte::S => -8,
            BalancedTryte::T => -7,
            BalancedTryte::U => -6,
            BalancedTryte::V => -5,
            BalancedTryte::W => -4,
            BalancedTryte::X => -3,
            BalancedTryte::Y => -2,
            BalancedTryte::Z => -1,
            BalancedTryte::Nine => 0,
            BalancedTryte::A => 1,
            BalancedTryte::B => 2,
            BalancedTryte::C => 3,
            BalancedTryte::D => 4,
            BalancedTryte::E => 5,
            BalancedTryte::F => 6,
            BalancedTryte::G => 7,
            BalancedTryte::H => 8,
            BalancedTryte::I => 9,
            BalancedTryte::J => 10,
            BalancedTryte::K => 11,
            BalancedTryte::L => 12,
            BalancedTryte::M => 13,
        }
    }

    /// The table key of this tryte: its value for 0 and above, its value
    /// plus 27 below 0, always in [0, 26].
    pub fn index(&self) -> (i: usize)
        ensures
            i as int == index27_of(tryte_val(*self)),
            i <= 26,
    {
        let v = self.value();
        if v < 0 {
            (v + 27) as usize
        } else {
            v as usize
        }
    }

    /// Looks a tryte up by its table key; a key outside [0, 26] is
    /// rejected with `InvalidTryteIndex`.
    pub fn from_index(i: usize) -> (r: Result<BalancedTryte, TrinaryError>)
        ensures
            r is Ok <==> i <= 26,
            r matches Ok(t) ==> index27_of(tryte_val(t)) == i as int,
            r matches Err(e) ==> e == TrinaryError::InvalidTryteIndex,
    {
        if i > 26 {
            Err(TrinaryError::InvalidTryteIndex)
        } else if i > 13 {
            Ok(Self::of_i8(i as i8 - 27))
        } else {
            Ok(Self::of_i8(i as i8))
        }
    }

    /// The three-trit decomposition of this tryte, least significant trit
    /// first: the unique trits whose weighted sum `t0 + 3*t1 + 9*t2` is the
    /// tryte's value.
    pub fn as_trits(&self) -> (r: [i8; 3])
        ensures
            is_trit(r@[0] as int),
            is_trit(r@[1] as int),
            is_trit(r@[2] as int),
            (r@[0] as int) + 3 * (r@[1] as int) + 9 * (r@[2] as int) == tryte_val(*self),
            seq![r@[0] as int, r@[1] as int, r@[2] as int] == tryte_trits(tryte_val(*self)),
    {
        let r: [i8; 3] = match *self {
            BalancedTryte::A => [1, 0, 0],
            BalancedTryte::B => [-1, 1, 0],
            BalancedTryte::C => [0, 1, 0],
            BalancedTryte::D => [1, 1, 0],
            BalancedTryte::E => [-1, -1, 1],
            BalancedTryte::F => [0, -1, 1],
            BalancedTryte::G => [1, -1, 1],
            BalancedTryte::H => [-1, 0, 1],
            BalancedTryte::I => [0, 0, 1],
            BalancedTryte::J => [1, 0, 1],
            BalancedTryte::K => [-1, 1, 1],
            BalancedTryte::L => [0, 1, 1],
            BalancedTryte::M => [1, 1, 1],
            BalancedTryte::Nine => [0, 0, 0],
            BalancedTryte::N => [-1, -1, -1],
            BalancedTryte::O => [0, -1, -1],
            BalancedTryte::P => [1, -1, -1],
            BalancedTryte::Q => [-1, 0, -1],
            BalancedTryte::R => [0, 0, -1],
            BalancedTryte::S => [1, 0, -1],
            BalancedTryte::T => [-1, 1, -1],
            BalancedTryte::U => [0, 1, -1],
            BalancedTryte::V => [1, 1, -1],
            BalancedTryte::W => [-1, -1, 0],
            BalancedTryte::X => [0, -1, 0],
            BalancedTryte::Y => [1, -1, 0],
            BalancedTryte::Z => [-1, 0, 0],
        };
        proof {
            let ds = seq![r@[0] as int, r@[1] as int, r@[2] as int];
            lemma_trits_val3(ds);
            lemma_digits_of_val(ds);
        }
        r
    }

    /// The symbol of this tryte as a one-character string piece.
    pub(crate) fn symbol_str(&self) -> (p: &'static str)
        ensures
            p@ == seq![tryte_char_of(tryte_val(*self))],
    {
        match *self {
            BalancedTryte::N => {
                proof {
                    reveal_strlit("N");
                }
                "N"
            },
            BalancedTryte::O => {
                proof {
                    reveal_strlit("O");
                }
                "O"
            },
            BalancedTryte::P => {
                proof {
                    reveal_strlit("P");
                }
                "P"
            },
            BalancedTryte::Q => {
                proof {
                    reveal_strlit("Q");
                }
                "Q"
            },
            BalancedTryte::R => {
                proof {
                    reveal_strlit("R");
                }
                "R"
            },
            BalancedTryte::S => {
                proof {
                    reveal_strlit("S");
                }
                "S"
            },
            BalancedTryte::T => {
                proof {
                    reveal_strlit("T");
                }
                "T"
            },
            BalancedTryte::U => {
                proof {
                    reveal_strlit("U");
                }
                "U"
            },
            BalancedTryte::V => {
                proof {
                    reveal_strlit("V");
                }
                "V"
            },
            BalancedTryte::W => {
                proof {
                    reveal_strlit("W");
                }
                "W"
            },
            BalancedTryte::X => {
                proof {
                    reveal_strlit("X");
                }
                "X"
            },
            BalancedTryte::Y => {
                proof {
                    reveal_strlit("Y");
                }
                "Y"
            },
            BalancedTryte::Z => {
                proof {
                    reveal_strlit("Z");
                }
                "Z"
            },
            BalancedTryte::Nine => {
                proof {
                    reveal_strlit("9");
                }
                "9"
            },
            BalancedTryte::A => {
                proof {
                    reveal_strlit("A");
                }
                "A"
            },
            BalancedTryte::B => {
                proof {
                    reveal_strlit("B");
                }
                "B"
            },
            BalancedTryte::C => {
                proof {
                    reveal_strlit("C");
                }
                "C"
            },
            BalancedTryte::D => {
                proof {
                    reveal_strlit("D");
                }
                "D"
            },
            BalancedTryte::E => {
                proof {
                    reveal_strlit("E");
                }
                "E"
            },
            BalancedTryte::F => {
                proof {
                    reveal_strlit("F");
                }
                "F"
            },
            BalancedTryte::G => {
                proof {
                    reveal_strlit("G");
                }
                "G"
            },
            BalancedTryte::H => {
                proof {
                    reveal_strlit("H");
                }
                "H"
            },
            BalancedTryte::I => {
                proof {
                    reveal_strlit("I");
                }
                "I"
            },
            BalancedTryte::J => {
                proof {
                    reveal_strlit("J");
                }
                "J"
            },
            BalancedTryte::K => {
                proof {
                    reveal_strlit("K");
                }
                "K"
            },
            BalancedTryte::L => {
                proof {
                    reveal_strlit("L");
                }
                "L"
            },
            BalancedTryte::M => {
                proof {
                    reveal_strlit("M");
                }
                "M"
            },
        }
    }

    /// The symbol of this tryte; the inverse of `from_char`.
    pub fn to_char(&self) -> (c: char)
        ensures
            c == tryte_char_of(tryte_val(*self)),
            is_tryte_char(c),
    {
        match *self {
            BalancedTryte::N => 'N',
            BalancedTryte::O => 'O',
            BalancedTryte::P => 'P',
            BalancedTryte::Q => 'Q',
            BalancedTryte::R => 'R',
            BalancedTryte::S => 'S',
            BalancedTryte::T => 'T',
            BalancedTryte::U => 'U',
            BalancedTryte::V => 'V',
            BalancedTryte::W => 'W',
            BalancedTryte::X => 'X',
            BalancedTryte::Y => 'Y',
            BalancedTryte::Z => 'Z',
            BalancedTryte::Nine => '9',
            BalancedTryte::A => 'A',
            BalancedTryte::B => 'B',
            BalancedTryte::C => 'C',
            BalancedTryte::D => 'D',
            BalancedTryte::E => 'E',
            BalancedTryte::F => 'F',
            BalancedTryte::G => 'G',
            BalancedTryte::H => 'H',
            BalancedTryte::I => 'I',
            BalancedTryte::J => 'J',
            BalancedTryte::K => 'K',
            BalancedTryte::L => 'L',
            BalancedTryte::M => 'M',
        }
    }
}

} // verus!
