//! Layout of the physical keyboard, the efficiency factors of the scoring
//! rules, and the keys that the generator places.
use vstd::prelude::*;

verus! {

/// Number of ASCII code points; every key character is below this.
pub const ASCII_CNT: usize = 128;

// Rows
pub const NUM_ROW: usize = 0;
pub const TOP_ROW: usize = 1;
pub const HOME_ROW: usize = 2;
pub const BOT_ROW: usize = 3;

// Highest column index that a row accepts (inclusive)
pub const NUM_ROW_CNT: usize = 12;
pub const TOP_ROW_CNT: usize = 13;
pub const HOME_ROW_CNT: usize = 12;
pub const BOT_ROW_CNT: usize = 10;

// Columns
pub const L_PINKY: usize = 0;
pub const L_RING: usize = 1;
pub const L_MIDDLE: usize = 2;
pub const L_INDEX: usize = 3;
pub const L_EXT: usize = 4;
pub const R_EXT: usize = 5;
pub const R_INDEX: usize = 6;
pub const R_MIDDLE: usize = 7;
pub const R_RING: usize = 8;
pub const R_PINKY: usize = 9;
pub const R_SYMBOL: usize = 10;
pub const R_NETHER: usize = 11;
pub const R_PIPE: usize = 12;

// Efficiency factors, in tenths (10 stands for a factor of 1.0).
// The letters name the direction (Increase / Deduct), the strength
// (LOw, MEdium, HIgh, BrUtal) and whether the factor applies to a
// Bigram or single key (B) or to a Skipgram (S).
pub const BASE_EFF: u64 = 10;
pub const I_ME_B: u64 = 14;
pub const I_ME_S: u64 = 12;
pub const I_LO_B: u64 = 12;
pub const I_LO_S: u64 = 11;
pub const D_LO_B: u64 = 8;
pub const D_LO_S: u64 = 8;
pub const D_ME_B: u64 = 6;
pub const D_ME_S: u64 = 8;
pub const D_HI_B: u64 = 4;
pub const D_HI_S: u64 = 7;
pub const D_BU_B: u64 = 2;
pub const D_BU_S: u64 = 6;

// Keys: (base character, shifted character)
pub const NEWLINE: (u8, u8) = ('\n' as u8, '\n' as u8);
pub const BACKSLASH: (u8, u8) = ('\\' as u8, '|' as u8);
pub const ONE: (u8, u8) = ('1' as u8, '!' as u8);
pub const TWO: (u8, u8) = ('2' as u8, '@' as u8);
pub const THREE: (u8, u8) = ('3' as u8, '#' as u8);
pub const FOUR: (u8, u8) = ('4' as u8, '$' as u8);
pub const FIVE: (u8, u8) = ('5' as u8, '%' as u8);
pub const SIX: (u8, u8) = ('6' as u8, '^' as u8);
pub const SEVEN: (u8, u8) = ('7' as u8, '&' as u8);
pub const EIGHT: (u8, u8) = ('8' as u8, '*' as u8);
pub const NINE: (u8, u8) = ('9' as u8, '(' as u8);
pub const ZERO: (u8, u8) = ('0' as u8, ')' as u8);
pub const L_BRACKET: (u8, u8) = ('[' as u8, '{' as u8);
pub const R_BRACKET: (u8, u8) = (']' as u8, '}' as u8);
pub const DASH: (u8, u8) = ('-' as u8, '_' as u8);
pub const EQUALS: (u8, u8) = ('=' as u8, '+' as u8);
pub const F_SLASH: (u8, u8) = ('/' as u8, '?' as u8);
pub const COMMA: (u8, u8) = (',' as u8, '<' as u8);
pub const PERIOD: (u8, u8) = ('.' as u8, '>' as u8);
pub const SEMICOLON: (u8, u8) = (';' as u8, ':' as u8);
pub const QUOTE: (u8, u8) = ('\'' as u8, '"' as u8);
pub const A: (u8, u8) = ('a' as u8, 'A' as u8);
pub const B: (u8, u8) = ('b' as u8, 'B' as u8);
pub const C: (u8, u8) = ('c' as u8, 'C' as u8);
pub const D: (u8, u8) = ('d' as u8, 'D' as u8);
pub const E: (u8, u8) = ('e' as u8, 'E' as u8);
pub const F: (u8, u8) = ('f' as u8, 'F' as u8);
pub const G: (u8, u8) = ('g' as u8, 'G' as u8);
pub const H: (u8, u8) = ('h' as u8, 'H' as u8);
pub const I: (u8, u8) = ('i' as u8, 'I' as u8);
pub const J: (u8, u8) = ('j' as u8, 'J' as u8);
pub const K: (u8, u8) = ('k' as u8, 'K' as u8);
pub const L: (u8, u8) = ('l' as u8, 'L' as u8);
pub const M: (u8, u8) = ('m' as u8, 'M' as u8);
pub const N: (u8, u8) = ('n' as u8, 'N' as u8);
pub const O: (u8, u8) = ('o' as u8, 'O' as u8);
pub const P: (u8, u8) = ('p' as u8, 'P' as u8);
pub const Q: (u8, u8) = ('q' as u8, 'Q' as u8);
pub const R: (u8, u8) = ('r' as u8, 'R' as u8);
pub const S: (u8, u8) = ('s' as u8, 'S' as u8);
pub const T: (u8, u8) = ('t' as u8, 'T' as u8);
pub const U: (u8, u8) = ('u' as u8, 'U' as u8);
pub const V: (u8, u8) = ('v' as u8, 'V' as u8);
pub const W: (u8, u8) = ('w' as u8, 'W' as u8);
pub const X: (u8, u8) = ('x' as u8, 'X' as u8);
pub const Y: (u8, u8) = ('y' as u8, 'Y' as u8);
pub const Z: (u8, u8) = ('z' as u8, 'Z' as u8);

/// The keys of the alpha area, which the generator moves around.
pub const SWAPPABLE_KEYS: [(u8, u8); 30] = [
    COMMA, PERIOD, SEMICOLON, QUOTE, A, B, C, D, E, F, G, H, I, J, K, L, M, N, O, P, Q, R, S, T,
    U, V, W, X, Y, Z,
];

/// A table of character pairs kept for reference.
pub const KEY_TUPLES: [(u8, u8); 30] = [
    ('a' as u8, 'A' as u8),
    ('b' as u8, 'B' as u8),
    ('c' as u8, 'C' as u8),
    ('d' as u8, 'D' as u8),
    ('e' as u8, 'E' as u8),
    ('f' as u8, 'F' as u8),
    ('g' as u8, 'G' as u8),
    ('h' as u8, 'H' as u8),
    ('i' as u8, 'I' as u8),
    ('j' as u8, 'J' as u8),
    ('k' as u8, 'K' as u8),
    ('l' as u8, 'L' as u8),
    ('m' as u8, 'M' as u8),
    ('n' as u8, 'N' as u8),
    ('o' as u8, 'O' as u8),
    ('p' as u8, 'P' as u8),
    ('q' as u8, 'Q' as u8),
    ('r' as u8, 'R' as u8),
    ('s' as u8, 'S' as u8),
    ('t' as u8, 'T' as u8),
    ('u' as u8, 'U' as u8),
    ('v' as u8, 'V' as u8),
    ('w' as u8, 'W' as u8),
    ('x' as u8, 'X' as u8),
    ('y' as u8, 'Y' as u8),
    ('z' as u8, 'Z' as u8),
    (',' as u8, '>' as u8),
    ('.' as u8, '>' as u8),
    (';' as u8, ':' as u8),
    ('\'' as u8, '"' as u8),
];

pub open spec fn is_upper(c: u8) -> bool {
    65 <= c <= 90
}

pub open spec fn is_lower(c: u8) -> bool {
    97 <= c <= 122
}

pub open spec fn is_letter(c: u8) -> bool {
    is_upper(c) || is_lower(c)
}

pub open spec fn is_digit(c: u8) -> bool {
    48 <= c <= 57
}

/// The rules that every character pair of the key table follows.
pub open spec fn well_formed_pair(t: (u8, u8)) -> bool {
    &&& t.0 != t.1
    &&& !is_upper(t.0)
    &&& !is_digit(t.1)
    &&& (is_letter(t.0) || is_letter(t.1)) ==> (is_letter(t.0) && is_letter(t.1))
    &&& (is_digit(t.0) || is_digit(t.1)) ==> !(is_letter(t.0) || is_letter(t.1))
}

/// No pair of the key table holds the same character twice, no base
/// character is a capital, no shifted character is a digit, a letter is only
/// paired with a letter, and a digit is never paired with a letter.
pub proof fn lemma_key_tuples_well_formed()
    ensures
        forall|i: int| 0 <= i < 30 ==> well_formed_pair(#[trigger] KEY_TUPLES@[i]),
{
    assert forall|i: int| 0 <= i < 30 implies well_formed_pair(#[trigger] KEY_TUPLES@[i]) by {
        assert(KEY_TUPLES@[i] == KEY_TUPLES[i]);
    }
}

} // verus!
