//! Descriptions of the keyboard's rows, columns, fingers and hands, and the
//! errors that key placement can report.
use vstd::prelude::*;

pub use crate::errors::CorpusErr;

verus! {

#[derive(Clone, Copy, Debug, PartialEq, Eq, Structural)]
pub enum Row {
    Num,
    Above,
    Home,
    Below,
}

impl Row {
    /// Rows are numbered from the bottom: the bottom row is 1.
    pub fn get_num(self) -> (num: u8)
        ensures
            num == match self {
                Row::Num => 4u8,
                Row::Above => 3u8,
                Row::Home => 2u8,
                Row::Below => 1u8,
            },
    {
        match self {
            Row::Num => 4,
            Row::Above => 3,
            Row::Home => 2,
            Row::Below => 1,
        }
    }
}

#[derive(Clone, Copy, Debug, PartialEq, Eq, Structural)]
pub enum Finger {
    Index,
    Middle,
    Ring,
    Pinky,
}

impl Finger {
    /// Fingers are numbered as in piano fingering: the thumb is 1.
    pub fn get_num(self) -> (num: u8)
        ensures
            num == match self {
                Finger::Index => 2u8,
                Finger::Middle => 3u8,
                Finger::Ring => 4u8,
                Finger::Pinky => 5u8,
            },
    {
        match self {
            Finger::Index => 2,
            Finger::Middle => 3,
            Finger::Ring => 4,
            Finger::Pinky => 5,
        }
    }
}

#[derive(Clone, Copy, Debug, PartialEq, Eq, Structural)]
pub enum Hand {
    Left,
    Right,
}

#[derive(Clone, Copy, Debug, PartialEq, Eq, Structural)]
pub enum Col {
    One,
    Two,
    Three,
    Four,
    Five,
    Six,
    Seven,
    Eight,
    Nine,
    Ten,
}

impl Col {
    pub open spec fn spec_finger(self) -> Finger {
        match self {
            Col::One | Col::Ten => Finger::Pinky,
            Col::Two | Col::Nine => Finger::Ring,
            Col::Three | Col::Eight => Finger::Middle,
            Col::Four | Col::Five | Col::Six | Col::Seven => Finger::Index,
        }
    }

    pub open spec fn spec_hand(self) -> Hand {
        match self {
            Col::One | Col::Two | Col::Three | Col::Four | Col::Five => Hand::Left,
            Col::Six | Col::Seven | Col::Eight | Col::Nine | Col::Ten => Hand::Right,
        }
    }

    pub fn get_finger(self) -> (finger: Finger)
        ensures
            finger == self.spec_finger(),
    {
        match self {
            Col::One | Col::Ten => Finger::Pinky,
            Col::Two | Col::Nine => Finger::Ring,
            Col::Three | Col::Eight => Finger::Middle,
            Col::Four | Col::Seven | Col::Five | Col::Six => Finger::Index,
        }
    }

    pub fn get_hand(self) -> (hand: Hand)
        ensures
            hand == self.spec_hand(),
    {
        match self {
            Col::One | Col::Two | Col::Three | Col::Four | Col::Five => Hand::Left,
            Col::Six | Col::Seven | Col::Eight | Col::Nine | Col::Ten => Hand::Right,
        }
    }
}

/// Why a key could not be set in a slot.
#[derive(Clone, Copy, Debug, PartialEq, Eq, Structural)]
pub enum KeySetError {
    /// The slot does not accept the key.
    InvalidKey,
    /// The slot accepts exactly one key, which it already holds.
    SingleKeySlot,
}

impl KeySetError {
    /// The message that describes the error.
    pub fn message(&self) -> (msg: &'static str)
        ensures
            *self == KeySetError::InvalidKey ==> msg@ == "Invalid key"@,
            *self == KeySetError::SingleKeySlot ==> msg@ == "Single Key Slot"@,
    {
        match self {
            KeySetError::InvalidKey => "Invalid key",
            KeySetError::SingleKeySlot => "Single Key Slot",
        }
    }
}

/// The keys of a layout in which every number key is placed.
#[derive(Clone, Copy, Debug, PartialEq, Eq, Structural)]
pub enum KeyTemplate {
    A,
    B,
    C,
    D,
    E,
    F,
    G,
    H,
    I,
    J,
    K,
    L,
    M,
    N,
    O,
    P,
    Q,
    R,
    S,
    T,
    U,
    V,
    W,
    X,
    Y,
    Z,
    Comma,
    Period,
    SemiColon,
    ForwardSlash,
    One,
    Two,
    Three,
    Four,
    Five,
    Six,
    Seven,
    Eight,
    Nine,
    Zero,
}

impl KeyTemplate {
    pub open spec fn spec_base(self) -> u8 {
        match self {
            KeyTemplate::A => 'a' as u8,
            KeyTemplate::B => 'b' as u8,
            KeyTemplate::C => 'c' as u8,
            KeyTemplate::D => 'd' as u8,
            KeyTemplate::E => 'e' as u8,
            KeyTemplate::F => 'f' as u8,
            KeyTemplate::G => 'g' as u8,
            KeyTemplate::H => 'h' as u8,
            KeyTemplate::I => 'i' as u8,
            KeyTemplate::J => 'j' as u8,
            KeyTemplate::K => 'k' as u8,
            KeyTemplate::L => 'l' as u8,
            KeyTemplate::M => 'm' as u8,
            KeyTemplate::N => 'n' as u8,
            KeyTemplate::O => 'o' as u8,
            KeyTemplate::P => 'p' as u8,
            KeyTemplate::Q => 'q' as u8,
            KeyTemplate::R => 'r' as u8,
            KeyTemplate::S => 's' as u8,
            KeyTemplate::T => 't' as u8,
            KeyTemplate::U => 'u' as u8,
            KeyTemplate::V => 'v' as u8,
            KeyTemplate::W => 'w' as u8,
            KeyTemplate::X => 'x' as u8,
            KeyTemplate::Y => 'y' as u8,
            KeyTemplate::Z => 'z' as u8,
            KeyTemplate::Comma => ',' as u8,
            KeyTemplate::Period => '.' as u8,
            KeyTemplate::SemiColon => ';' as u8,
            KeyTemplate::ForwardSlash => '/' as u8,
            KeyTemplate::One => '1' as u8,
            KeyTemplate::Two => '2' as u8,
            KeyTemplate::Three => '3' as u8,
            KeyTemplate::Four => '4' as u8,
            KeyTemplate::Five => '5' as u8,
            KeyTemplate::Six => '6' as u8,
            KeyTemplate::Seven => '7' as u8,
            KeyTemplate::Eight => '8' as u8,
            KeyTemplate::Nine => '9' as u8,
            KeyTemplate::Zero => '0' as u8,
        }
    }

    pub open spec fn spec_shift(self) -> u8 {
        match self {
            KeyTemplate::A => 'A' as u8,
            KeyTemplate::B => 'B' as u8,
            KeyTemplate::C => 'C' as u8,
            KeyTemplate::D => 'D' as u8,
            KeyTemplate::E => 'E' as u8,
            KeyTemplate::F => 'F' as u8,
            KeyTemplate::G => 'G' as u8,
            KeyTemplate::H => 'H' as u8,
            KeyTemplate::I => 'I' as u8,
            KeyTemplate::J => 'J' as u8,
            KeyTemplate::K => 'K' as u8,
            KeyTemplate::L => 'L' as u8,
            KeyTemplate::M => 'M' as u8,
            KeyTemplate::N => 'N' as u8,
            KeyTemplate::O => 'O' as u8,
            KeyTemplate::P => 'P' as u8,
            KeyTemplate::Q => 'Q' as u8,
            KeyTemplate::R => 'R' as u8,
            KeyTemplate::S => 'S' as u8,
            KeyTemplate::T => 'T' as u8,
            KeyTemplate::U => 'U' as u8,
            KeyTemplate::V => 'V' as u8,
            KeyTemplate::W => 'W' as u8,
            KeyTemplate::X => 'X' as u8,
            KeyTemplate::Y => 'Y' as u8,
            KeyTemplate::Z => 'Z' as u8,
            KeyTemplate::Comma => '<' as u8,
            KeyTemplate::Period => '>' as u8,
            KeyTemplate::SemiColon => ':' as u8,
            KeyTemplate::ForwardSlash => '?' as u8,
            KeyTemplate::One => '!' as u8,
            KeyTemplate::Two => '@' as u8,
            KeyTemplate::Three => '#' as u8,
            KeyTemplate::Four => '$' as u8,
            KeyTemplate::Five => '%' as u8,
            KeyTemplate::Six => '^' as u8,
            KeyTemplate::Seven => '&' as u8,
            KeyTemplate::Eight => '*' as u8,
            KeyTemplate::Nine => '(' as u8,
            KeyTemplate::Zero => ')' as u8,
        }
    }

    pub fn get_base(self) -> (base: u8)
        ensures
            base == self.spec_base(),
    {
        match self {
            KeyTemplate::A => 'a' as u8,
            KeyTemplate::B => 'b' as u8,
            KeyTemplate::C => 'c' as u8,
            KeyTemplate::D => 'd' as u8,
            KeyTemplate::E => 'e' as u8,
            KeyTemplate::F => 'f' as u8,
            KeyTemplate::G => 'g' as u8,
            KeyTemplate::H => 'h' as u8,
            KeyTemplate::I => 'i' as u8,
            KeyTemplate::J => 'j' as u8,
            KeyTemplate::K => 'k' as u8,
            KeyTemplate::L => 'l' as u8,
            KeyTemplate::M => 'm' as u8,
            KeyTemplate::N => 'n' as u8,
            KeyTemplate::O => 'o' as u8,
            KeyTemplate::P => 'p' as u8,
            KeyTemplate::Q => 'q' as u8,
            KeyTemplate::R => 'r' as u8,
            KeyTemplate::S => 's' as u8,
            KeyTemplate::T => 't' as u8,
            KeyTemplate::U => 'u' as u8,
            KeyTemplate::V => 'v' as u8,
            KeyTemplate::W => 'w' as u8,
            KeyTemplate::X => 'x' as u8,
            KeyTemplate::Y => 'y' as u8,
            KeyTemplate::Z => 'z' as u8,
            KeyTemplate::Comma => ',' as u8,
            KeyTemplate::Period => '.' as u8,
            KeyTemplate::SemiColon => ';' as u8,
            KeyTemplate::ForwardSlash => '/' as u8,
            KeyTemplate::One => '1' as u8,
            KeyTemplate::Two => '2' as u8,
            KeyTemplate::Three => '3' as u8,
            KeyTemplate::Four => '4' as u8,
            KeyTemplate::Five => '5' as u8,
            KeyTemplate::Six => '6' as u8,
            KeyTemplate::Seven => '7' as u8,
            KeyTemplate::Eight => '8' as u8,
            KeyTemplate::Nine => '9' as u8,
            KeyTemplate::Zero => '0' as u8,
        }
    }

    pub fn get_shift(self) -> (shift: u8)
        ensures
            shift == self.spec_shift(),
    {
        match self {
            KeyTemplate::A => 'A' as u8,
            KeyTemplate::B => 'B' as u8,
            KeyTemplate::C => 'C' as u8,
            KeyTemplate::D => 'D' as u8,
            KeyTemplate::E => 'E' as u8,
            KeyTemplate::F => 'F' as u8,
            KeyTemplate::G => 'G' as u8,
            KeyTemplate::H => 'H' as u8,
            KeyTemplate::I => 'I' as u8,
            KeyTemplate::J => 'J' as u8,
            KeyTemplate::K => 'K' as u8,
            KeyTemplate::L => 'L' as u8,
            KeyTemplate::M => 'M' as u8,
            KeyTemplate::N => 'N' as u8,
            KeyTemplate::O => 'O' as u8,
            KeyTemplate::P => 'P' as u8,
            KeyTemplate::Q => 'Q' as u8,
            KeyTemplate::R => 'R' as u8,
            KeyTemplate::S => 'S' as u8,
            KeyTemplate::T => 'T' as u8,
            KeyTemplate::U => 'U' as u8,
            KeyTemplate::V => 'V' as u8,
            KeyTemplate::W => 'W' as u8,
            KeyTemplate::X => 'X' as u8,
            KeyTemplate::Y => 'Y' as u8,
            KeyTemplate::Z => 'Z' as u8,
            KeyTemplate::Comma => '<' as u8,
            KeyTemplate::Period => '>' as u8,
            KeyTemplate::SemiColon => ':' as u8,
            KeyTemplate::ForwardSlash => '?' as u8,
            KeyTemplate::One => '!' as u8,
            KeyTemplate::Two => '@' as u8,
            KeyTemplate::Three => '#' as u8,
            KeyTemplate::Four => '$' as u8,
            KeyTemplate::Five => '%' as u8,
            KeyTemplate::Six => '^' as u8,
            KeyTemplate::Seven => '&' as u8,
            KeyTemplate::Eight => '*' as u8,
            KeyTemplate::Nine => '(' as u8,
            KeyTemplate::Zero => ')' as u8,
        }
    }
}

/// Whether a key list names the keys a slot accepts or the keys it refuses.
#[derive(Clone, Copy, Debug, PartialEq, Eq, Structural)]
pub enum ListType {
    Allow,
    Deny,
}

} // verus!
