use vstd::prelude::*;

use crate::errors::SeqError;

verus! {

/// The symbol set that governs a sequence.
#[derive(Debug, Clone, Copy, PartialEq, Eq, Structural, Hash)]
pub enum Alphabet {
    DNA,
    RNA,
}

/// Chemical family of a nucleotide symbol.
#[derive(Debug, Clone, Copy, PartialEq, Eq, Structural, Hash)]
pub enum ChemClass {
    Purine,
    Pyrimidine,
    Ambiguous,
}

/// One nucleotide symbol: a standard base or an IUPAC ambiguity code.
/// `T` belongs to DNA only and `U` to RNA only; every other symbol belongs to both.
#[derive(Debug, Clone, Copy, PartialEq, Eq, Structural, Hash)]
pub enum Base {
    A,
    C,
    G,
    T,
    U,
    R,
    Y,
    S,
    W,
    K,
    M,
    B,
    D,
    H,
    V,
    N,
}

/// Upper-case form of an ASCII letter; any other character is left as it is.
pub open spec fn ascii_upper(c: char) -> char {
    if 'a' <= c && c <= 'z' {
        ((c as u32) - 32) as char
    } else {
        c
    }
}

/// The symbol that a character denotes, ignoring case and alphabet.
pub open spec fn base_of_char(c: char) -> Option<Base> {
    match c {
        'A' | 'a' => Some(Base::A),
        'C' | 'c' => Some(Base::C),
        'G' | 'g' => Some(Base::G),
        'T' | 't' => Some(Base::T),
        'U' | 'u' => Some(Base::U),
        'R' | 'r' => Some(Base::R),
        'Y' | 'y' => Some(Base::Y),
        'S' | 's' => Some(Base::S),
        'W' | 'w' => Some(Base::W),
        'K' | 'k' => Some(Base::K),
        'M' | 'm' => Some(Base::M),
        'B' | 'b' => Some(Base::B),
        'D' | 'd' => Some(Base::D),
        'H' | 'h' => Some(Base::H),
        'V' | 'v' => Some(Base::V),
        'N' | 'n' => Some(Base::N),
        _ => None,
    }
}

/// Whether a symbol belongs to an alphabet.
pub open spec fn is_legal(b: Base, alphabet: Alphabet) -> bool {
    match b {
        Base::T => alphabet == Alphabet::DNA,
        Base::U => alphabet == Alphabet::RNA,
        _ => true,
    }
}

/// The symbol of `alphabet` that a character denotes, if any.
pub open spec fn parse_char(c: char, alphabet: Alphabet) -> Option<Base> {
    match base_of_char(c) {
        Some(b) => if is_legal(b, alphabet) {
            Some(b)
        } else {
            None
        },
        None => None,
    }
}

/// Whether a character denotes a symbol of `alphabet`.
pub open spec fn is_legal_char(c: char, alphabet: Alphabet) -> bool {
    parse_char(c, alphabet).is_some()
}

/// Canonical upper-case character of a symbol.
pub open spec fn symbol(b: Base) -> char {
    match b {
        Base::A => 'A',
        Base::C => 'C',
        Base::G => 'G',
        Base::T => 'T',
        Base::U => 'U',
        Base::R => 'R',
        Base::Y => 'Y',
        Base::S => 'S',
        Base::W => 'W',
        Base::K => 'K',
        Base::M => 'M',
        Base::B => 'B',
        Base::D => 'D',
        Base::H => 'H',
        Base::V => 'V',
        Base::N => 'N',
    }
}

/// Purine for A and G, pyrimidine for C, T and U; every ambiguity code is
/// ambiguous, since it may stand for a base of either family or for the very
/// base it is compared with.
pub open spec fn chem_class(b: Base) -> ChemClass {
    match b {
        Base::A | Base::G => ChemClass::Purine,
        Base::C | Base::T | Base::U => ChemClass::Pyrimidine,
        _ => ChemClass::Ambiguous,
    }
}

/// IUPAC complement of a symbol within an alphabet: A pairs with T in DNA and
/// with U in RNA, C with G, and each ambiguity code with the code of the
/// complementary set (R/Y, K/M, B/V, D/H; S, W and N are their own complement).
pub open spec fn complement_base(b: Base, alphabet: Alphabet) -> Base {
    match b {
        Base::A => if alphabet == Alphabet::DNA {
            Base::T
        } else {
            Base::U
        },
        Base::T | Base::U => Base::A,
        Base::C => Base::G,
        Base::G => Base::C,
        Base::R => Base::Y,
        Base::Y => Base::R,
        Base::S => Base::S,
        Base::W => Base::W,
        Base::K => Base::M,
        Base::M => Base::K,
        Base::B => Base::V,
        Base::V => Base::B,
        Base::D => Base::H,
        Base::H => Base::D,
        Base::N => Base::N,
    }
}

/// Complementing a legal symbol gives a legal symbol, and complementing twice
/// gives the symbol back.
pub proof fn lemma_complement_base(b: Base, alphabet: Alphabet)
    requires
        is_legal(b, alphabet),
    ensures
        is_legal(complement_base(b, alphabet), alphabet),
        complement_base(complement_base(b, alphabet), alphabet) == b,
{
}

/// A character that parses renders back as its upper-case form.
pub proof fn lemma_parse_symbol(c: char, alphabet: Alphabet)
    requires
        is_legal_char(c, alphabet),
    ensures
        symbol(parse_char(c, alphabet).unwrap()) == ascii_upper(c),
        is_legal(parse_char(c, alphabet).unwrap(), alphabet),
{
}

/// Upper-cases an ASCII letter and leaves any other character as it is.
pub fn upper_char(c: char) -> (r: char)
    ensures
        r == ascii_upper(c),
{
    if 'a' <= c && c <= 'z' {
        ((c as u8) - 32) as char
    } else {
        c
    }
}

impl Alphabet {
    /// Whether `c` (in either case) is a symbol of this alphabet.
    pub fn is_valid_char(&self, c: char) -> (r: bool)
        ensures
            r == is_legal_char(c, *self),
    {
        Base::from_char(c, *self).is_ok()
    }
}

impl Base {
    /// Parses one character, in either case, as a symbol of `alphabet`.
    pub fn from_char(c: char, alphabet: Alphabet) -> (r: Result<Base, SeqError>)
        ensures
            match parse_char(c, alphabet) {
                Some(b) => r == Ok::<Base, SeqError>(b),
                None => r == Err::<Base, SeqError>(
                    SeqError::InvalidCharacter { alphabet, invalid: c },
                ),
            },
    {
        let found = match c {
            'A' | 'a' => Some(Base::A),
            'C' | 'c' => Some(Base::C),
            'G' | 'g' => Some(Base::G),
            'T' | 't' => Some(Base::T),
            'U' | 'u' => Some(Base::U),
            'R' | 'r' => Some(Base::R),
            'Y' | 'y' => Some(Base::Y),
            'S' | 's' => Some(Base::S),
            'W' | 'w' => Some(Base::W),
            'K' | 'k' => Some(Base::K),
            'M' | 'm' => Some(Base::M),
            'B' | 'b' => Some(Base::B),
            'D' | 'd' => Some(Base::D),
            'H' | 'h' => Some(Base::H),
            'V' | 'v' => Some(Base::V),
            'N' | 'n' => Some(Base::N),
            _ => None,
        };
        match found {
            Some(b) => {
                let legal = match b {
                    Base::T => alphabet == Alphabet::DNA,
                    Base::U => alphabet == Alphabet::RNA,
                    _ => true,
                };
                if legal {
                    Ok(b)
                } else {
                    Err(SeqError::InvalidCharacter { alphabet, invalid: c })
                }
            },
            None => Err(SeqError::InvalidCharacter { alphabet, invalid: c }),
        }
    }

    /// Parses one raw byte, in either case, as a symbol of `alphabet`.
    pub fn try_from_ascii(byte: u8, alphabet: Alphabet) -> (r: Result<Base, SeqError>)
        ensures
            match parse_char(byte as char, alphabet) {
                Some(b) => r == Ok::<Base, SeqError>(b),
                None => r == Err::<Base, SeqError>(
                    SeqError::InvalidByte { alphabet, invalid: byte },
                ),
            },
    {
        match Base::from_char(byte as char, alphabet) {
            Ok(b) => Ok(b),
            Err(_) => Err(SeqError::InvalidByte { alphabet, invalid: byte }),
        }
    }

    /// Canonical upper-case character of this symbol.
    pub fn to_char(&self) -> (r: char)
        ensures
            r == symbol(*self),
    {
        match self {
            Base::A => 'A',
            Base::C => 'C',
            Base::G => 'G',
            Base::T => 'T',
            Base::U => 'U',
            Base::R => 'R',
            Base::Y => 'Y',
            Base::S => 'S',
            Base::W => 'W',
            Base::K => 'K',
            Base::M => 'M',
            Base::B => 'B',
            Base::D => 'D',
            Base::H => 'H',
            Base::V => 'V',
            Base::N => 'N',
        }
    }

    /// Chemical family of this symbol.
    pub fn chemical_class(&self) -> (r: ChemClass)
        ensures
            r == chem_class(*self),
    {
        match self {
            Base::A | Base::G => ChemClass::Purine,
            Base::C | Base::T | Base::U => ChemClass::Pyrimidine,
            _ => ChemClass::Ambiguous,
        }
    }

    /// Complement of this symbol within `alphabet`.
    pub fn complement(&self, alphabet: Alphabet) -> (r: Base)
        ensures
            r == complement_base(*self, alphabet),
    {
        match self {
            Base::A => match alphabet {
                Alphabet::DNA => Base::T,
                Alphabet::RNA => Base::U,
            },
            Base::T | Base::U => Base::A,
            Base::C => Base::G,
            Base::G => Base::C,
            Base::R => Base::Y,
            Base::Y => Base::R,
            Base::S => Base::S,
            Base::W => Base::W,
            Base::K => Base::M,
            Base::M => Base::K,
            Base::B => Base::V,
            Base::V => Base::B,
            Base::D => Base::H,
            Base::H => Base::D,
            Base::N => Base::N,
        }
    }
}

} // verus!
