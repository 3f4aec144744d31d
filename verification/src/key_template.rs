//! The keys that a layout holds, with the characters they type and the
//! slots where each of them may be placed.
use vstd::prelude::*;

verus! {

broadcast use vstd::seq_lib::group_seq_properties;

#[derive(Clone, Copy, Debug, PartialEq, Eq, Structural)]
pub enum KeyTemplate {
    A,
    B,
    C,
    D,
    E,
    F,
    G,
    H,
    I,
    J,
    K,
    L,
    M,
    N,
    O,
    P,
    Q,
    R,
    S,
    T,
    U,
    V,
    W,
    X,
    Y,
    Z,
    Comma,
    Period,
    SemiColon,
    ForwardSlash,
    One,
    Two,
    Three,
    Four,
    Five,
    Six,
    Seven,
    Eight,
    Nine,
    Zero,
    Minus,
    Plus,
    LBracket,
    RBracket,
    Quote,
}

impl KeyTemplate {
    pub open spec fn spec_base(self) -> u8 {
        match self {
            KeyTemplate::A => 'a' as u8,
            KeyTemplate::B => 'b' as u8,
            KeyTemplate::C => 'c' as u8,
            KeyTemplate::D => 'd' as u8,
            KeyTemplate::E => 'e' as u8,
            KeyTemplate::F => 'f' as u8,
            KeyTemplate::G => 'g' as u8,
            KeyTemplate::H => 'h' as u8,
            KeyTemplate::I => 'i' as u8,
            KeyTemplate::J => 'j' as u8,
            KeyTemplate::K => 'k' as u8,
            KeyTemplate::L => 'l' as u8,
            KeyTemplate::M => 'm' as u8,
            KeyTemplate::N => 'n' as u8,
            KeyTemplate::O => 'o' as u8,
            KeyTemplate::P => 'p' as u8,
            KeyTemplate::Q => 'q' as u8,
            KeyTemplate::R => 'r' as u8,
            KeyTemplate::S => 's' as u8,
            KeyTemplate::T => 't' as u8,
            KeyTemplate::U => 'u' as u8,
            KeyTemplate::V => 'v' as u8,
            KeyTemplate::W => 'w' as u8,
            KeyTemplate::X => 'x' as u8,
            KeyTemplate::Y => 'y' as u8,
            KeyTemplate::Z => 'z' as u8,
            KeyTemplate::Comma => ',' as u8,
            KeyTemplate::Period => '.' as u8,
            KeyTemplate::SemiColon => ';' as u8,
            KeyTemplate::ForwardSlash => '/' as u8,
            KeyTemplate::One => '1' as u8,
            KeyTemplate::Two => '2' as u8,
            KeyTemplate::Three => '3' as u8,
            KeyTemplate::Four => '4' as u8,
            KeyTemplate::Five => '5' as u8,
            KeyTemplate::Six => '6' as u8,
            KeyTemplate::Seven => '7' as u8,
            KeyTemplate::Eight => '8' as u8,
            KeyTemplate::Nine => '9' as u8,
            KeyTemplate::Zero => '0' as u8,
            KeyTemplate::Minus => '-' as u8,
            KeyTemplate::Plus => '=' as u8,
            KeyTemplate::LBracket => '[' as u8,
            KeyTemplate::RBracket => ']' as u8,
            KeyTemplate::Quote => '\'' as u8,
        }
    }

    pub open spec fn spec_shift(self) -> u8 {
        match self {
            KeyTemplate::A => 'A' as u8,
            KeyTemplate::B => 'B' as u8,
            KeyTemplate::C => 'C' as u8,
            KeyTemplate::D => 'D' as u8,
            KeyTemplate::E => 'E' as u8,
            KeyTemplate::F => 'F' as u8,
            KeyTemplate::G => 'G' as u8,
            KeyTemplate::H => 'H' as u8,
            KeyTemplate::I => 'I' as u8,
            KeyTemplate::J => 'J' as u8,
            KeyTemplate::K => 'K' as u8,
            KeyTemplate::L => 'L' as u8,
            KeyTemplate::M => 'M' as u8,
            KeyTemplate::N => 'N' as u8,
            KeyTemplate::O => 'O' as u8,
            KeyTemplate::P => 'P' as u8,
            KeyTemplate::Q => 'Q' as u8,
            KeyTemplate::R => 'R' as u8,
            KeyTemplate::S => 'S' as u8,
            KeyTemplate::T => 'T' as u8,
            KeyTemplate::U => 'U' as u8,
            KeyTemplate::V => 'V' as u8,
            KeyTemplate::W => 'W' as u8,
            KeyTemplate::X => 'X' as u8,
            KeyTemplate::Y => 'Y' as u8,
            KeyTemplate::Z => 'Z' as u8,
            KeyTemplate::Comma => '<' as u8,
            KeyTemplate::Period => '>' as u8,
            KeyTemplate::SemiColon => ':' as u8,
            KeyTemplate::ForwardSlash => '?' as u8,
            KeyTemplate::One => '!' as u8,
            KeyTemplate::Two => '@' as u8,
            KeyTemplate::Three => '#' as u8,
            KeyTemplate::Four => '$' as u8,
            KeyTemplate::Five => '%' as u8,
            KeyTemplate::Six => '^' as u8,
            KeyTemplate::Seven => '&' as u8,
            KeyTemplate::Eight => '*' as u8,
            KeyTemplate::Nine => '(' as u8,
            KeyTemplate::Zero => ')' as u8,
            KeyTemplate::Minus => '_' as u8,
            KeyTemplate::Plus => '+' as u8,
            KeyTemplate::LBracket => '{' as u8,
            KeyTemplate::RBracket => '}' as u8,
            KeyTemplate::Quote => '"' as u8,
        }
    }

    /// The slots, as (row, column), where the key may be placed.
    pub open spec fn spec_valid_locations(self) -> Seq<(usize, usize)> {
        match self {
            KeyTemplate::One => seq![(0, 0)],
            KeyTemplate::Two => seq![(0, 1)],
            KeyTemplate::Three => seq![(0, 2)],
            KeyTemplate::Four => seq![(0, 3)],
            KeyTemplate::Five => seq![(0, 4)],
            KeyTemplate::Six => seq![(0, 5)],
            KeyTemplate::Seven => seq![(0, 6)],
            KeyTemplate::Eight => seq![(0, 7)],
            KeyTemplate::Nine => seq![(0, 8)],
            KeyTemplate::Zero => seq![(0, 9)],
            KeyTemplate::LBracket => seq![(0, 10)],
            KeyTemplate::RBracket => seq![(0, 11)],
            KeyTemplate::Comma => seq![(1, 0)],
            KeyTemplate::Period => seq![(1, 1)],
            KeyTemplate::Minus => seq![(1, 10)],
            KeyTemplate::Plus => seq![(1, 11)],
            KeyTemplate::ForwardSlash => seq![(2, 10)],
            KeyTemplate::SemiColon => seq![(1, 5), (3, 4)],
            KeyTemplate::Quote => seq![(1, 5), (3, 4)],
            KeyTemplate::Q => spec_not_home(seq![(1, 0)]),
            KeyTemplate::W => spec_not_home(seq![(1, 1)]),
            KeyTemplate::E => seq![(2, 6), (2, 7)],
            KeyTemplate::R => spec_alpha_slots(seq![(1, 3)]),
            KeyTemplate::T => spec_alpha_slots(seq![(1, 4)]),
            KeyTemplate::Y => spec_alpha_slots(seq![(1, 5)]),
            KeyTemplate::U => spec_alpha_slots(seq![(1, 6)]),
            KeyTemplate::I => spec_alpha_slots(seq![(1, 7)]),
            KeyTemplate::O => spec_alpha_slots(seq![(1, 8)]),
            KeyTemplate::P => spec_not_home(seq![(1, 9)]),
            KeyTemplate::A => spec_major_home_slots(seq![(2, 0)]),
            KeyTemplate::S => spec_alpha_slots(seq![(2, 1)]),
            KeyTemplate::D => spec_alpha_slots(seq![(2, 2)]),
            KeyTemplate::F => spec_alpha_slots(seq![(2, 3)]),
            KeyTemplate::G => spec_alpha_slots(seq![(2, 4)]),
            KeyTemplate::H => spec_alpha_slots(seq![(2, 5)]),
            KeyTemplate::J => seq![(1, 8), (1, 9), (3, 0), (3, 9)],
            KeyTemplate::K => spec_alpha_slots(seq![(2, 7)]),
            KeyTemplate::L => spec_alpha_slots(seq![(2, 8)]),
            KeyTemplate::Z => spec_not_home(seq![(3, 0)]),
            KeyTemplate::X => spec_not_home(seq![(3, 1)]),
            KeyTemplate::C => spec_alpha_slots(seq![(3, 2)]),
            KeyTemplate::V => spec_not_home(seq![(3, 3)]),
            KeyTemplate::B => spec_not_home(seq![(3, 4)]),
            KeyTemplate::N => spec_alpha_slots(seq![(3, 5)]),
            KeyTemplate::M => spec_alpha_slots(seq![(3, 6)]),
        }
    }

    pub open spec fn spec_starting_location(self) -> (usize, usize) {
        match self {
            KeyTemplate::One => (0usize, 0usize),
            KeyTemplate::Two => (0usize, 1usize),
            KeyTemplate::Three => (0usize, 2usize),
            KeyTemplate::Four => (0usize, 3usize),
            KeyTemplate::Five => (0usize, 4usize),
            KeyTemplate::Six => (0usize, 5usize),
            KeyTemplate::Seven => (0usize, 6usize),
            KeyTemplate::Eight => (0usize, 7usize),
            KeyTemplate::Nine => (0usize, 8usize),
            KeyTemplate::Zero => (0usize, 9usize),
            KeyTemplate::LBracket => (0usize, 10usize),
            KeyTemplate::RBracket => (0usize, 11usize),
            KeyTemplate::Comma => (1usize, 0usize),
            KeyTemplate::Period => (1usize, 1usize),
            KeyTemplate::A => (2usize, 2usize),
            KeyTemplate::B => (1usize, 3usize),
            KeyTemplate::C => (1usize, 4usize),
            KeyTemplate::SemiColon => (1usize, 5usize),
            KeyTemplate::D => (1usize, 6usize),
            KeyTemplate::E => (2usize, 7usize),
            KeyTemplate::F => (1usize, 8usize),
            KeyTemplate::G => (1usize, 2usize),
            KeyTemplate::Minus => (1usize, 10usize),
            KeyTemplate::Plus => (1usize, 11usize),
            KeyTemplate::H => (2usize, 0usize),
            KeyTemplate::I => (2usize, 1usize),
            KeyTemplate::J => (1usize, 9usize),
            KeyTemplate::K => (2usize, 3usize),
            KeyTemplate::L => (2usize, 4usize),
            KeyTemplate::M => (2usize, 5usize),
            KeyTemplate::N => (2usize, 6usize),
            KeyTemplate::O => (1usize, 7usize),
            KeyTemplate::P => (3usize, 1usize),
            KeyTemplate::Q => (3usize, 0usize),
            KeyTemplate::ForwardSlash => (2usize, 10usize),
            KeyTemplate::R => (2usize, 9usize),
            KeyTemplate::S => (2usize, 8usize),
            KeyTemplate::T => (3usize, 2usize),
            KeyTemplate::U => (3usize, 3usize),
            KeyTemplate::Quote => (3usize, 4usize),
            KeyTemplate::V => (3usize, 5usize),
            KeyTemplate::W => (3usize, 6usize),
            KeyTemplate::X => (3usize, 7usize),
            KeyTemplate::Y => (3usize, 8usize),
            KeyTemplate::Z => (3usize, 9usize),
        }
    }

    pub fn get_base(self) -> (base: u8)
        ensures
            base == self.spec_base(),
    {
        match self {
            KeyTemplate::A => 'a' as u8,
            KeyTemplate::B => 'b' as u8,
            KeyTemplate::C => 'c' as u8,
            KeyTemplate::D => 'd' as u8,
            KeyTemplate::E => 'e' as u8,
            KeyTemplate::F => 'f' as u8,
            KeyTemplate::G => 'g' as u8,
            KeyTemplate::H => 'h' as u8,
            KeyTemplate::I => 'i' as u8,
            KeyTemplate::J => 'j' as u8,
            KeyTemplate::K => 'k' as u8,
            KeyTemplate::L => 'l' as u8,
            KeyTemplate::M => 'm' as u8,
            KeyTemplate::N => 'n' as u8,
            KeyTemplate::O => 'o' as u8,
            KeyTemplate::P => 'p' as u8,
            KeyTemplate::Q => 'q' as u8,
            KeyTemplate::R => 'r' as u8,
            KeyTemplate::S => 's' as u8,
            KeyTemplate::T => 't' as u8,
            KeyTemplate::U => 'u' as u8,
            KeyTemplate::V => 'v' as u8,
            KeyTemplate::W => 'w' as u8,
            KeyTemplate::X => 'x' as u8,
            KeyTemplate::Y => 'y' as u8,
            KeyTemplate::Z => 'z' as u8,
            KeyTemplate::Comma => ',' as u8,
            KeyTemplate::Period => '.' as u8,
            KeyTemplate::SemiColon => ';' as u8,
            KeyTemplate::ForwardSlash => '/' as u8,
            KeyTemplate::One => '1' as u8,
            KeyTemplate::Two => '2' as u8,
            KeyTemplate::Three => '3' as u8,
            KeyTemplate::Four => '4' as u8,
            KeyTemplate::Five => '5' as u8,
            KeyTemplate::Six => '6' as u8,
            KeyTemplate::Seven => '7' as u8,
            KeyTemplate::Eight => '8' as u8,
            KeyTemplate::Nine => '9' as u8,
            KeyTemplate::Zero => '0' as u8,
            KeyTemplate::Minus => '-' as u8,
            KeyTemplate::Plus => '=' as u8,
            KeyTemplate::LBracket => '[' as u8,
            KeyTemplate::RBracket => ']' as u8,
            KeyTemplate::Quote => '\'' as u8,
        }
    }

    pub fn get_shift(self) -> (shift: u8)
        ensures
            shift == self.spec_shift(),
    {
        match self {
            KeyTemplate::A => 'A' as u8,
            KeyTemplate::B => 'B' as u8,
            KeyTemplate::C => 'C' as u8,
            KeyTemplate::D => 'D' as u8,
            KeyTemplate::E => 'E' as u8,
            KeyTemplate::F => 'F' as u8,
            KeyTemplate::G => 'G' as u8,
            KeyTemplate::H => 'H' as u8,
            KeyTemplate::I => 'I' as u8,
            KeyTemplate::J => 'J' as u8,
            KeyTemplate::K => 'K' as u8,
            KeyTemplate::L => 'L' as u8,
            KeyTemplate::M => 'M' as u8,
            KeyTemplate::N => 'N' as u8,
            KeyTemplate::O => 'O' as u8,
            KeyTemplate::P => 'P' as u8,
            KeyTemplate::Q => 'Q' as u8,
            KeyTemplate::R => 'R' as u8,
            KeyTemplate::S => 'S' as u8,
            KeyTemplate::T => 'T' as u8,
            KeyTemplate::U => 'U' as u8,
            KeyTemplate::V => 'V' as u8,
            KeyTemplate::W => 'W' as u8,
            KeyTemplate::X => 'X' as u8,
            KeyTemplate::Y => 'Y' as u8,
            KeyTemplate::Z => 'Z' as u8,
            KeyTemplate::Comma => '<' as u8,
            KeyTemplate::Period => '>' as u8,
            KeyTemplate::SemiColon => ':' as u8,
            KeyTemplate::ForwardSlash => '?' as u8,
            KeyTemplate::One => '!' as u8,
            KeyTemplate::Two => '@' as u8,
            KeyTemplate::Three => '#' as u8,
            KeyTemplate::Four => '$' as u8,
            KeyTemplate::Five => '%' as u8,
            KeyTemplate::Six => '^' as u8,
            KeyTemplate::Seven => '&' as u8,
            KeyTemplate::Eight => '*' as u8,
            KeyTemplate::Nine => '(' as u8,
            KeyTemplate::Zero => ')' as u8,
            KeyTemplate::Minus => '_' as u8,
            KeyTemplate::Plus => '+' as u8,
            KeyTemplate::LBracket => '{' as u8,
            KeyTemplate::RBracket => '}' as u8,
            KeyTemplate::Quote => '"' as u8,
        }
    }

    pub fn get_valid_locations(self) -> (locs: Vec<(usize, usize)>)
        ensures
            locs@ == self.spec_valid_locations(),
            locs@.len() >= 1,
    {
        proof {
            lemma_valid_locations_nonempty(self);
        }
        match self {
            KeyTemplate::One => vec![(0, 0)],
            KeyTemplate::Two => vec![(0, 1)],
            KeyTemplate::Three => vec![(0, 2)],
            KeyTemplate::Four => vec![(0, 3)],
            KeyTemplate::Five => vec![(0, 4)],
            KeyTemplate::Six => vec![(0, 5)],
            KeyTemplate::Seven => vec![(0, 6)],
            KeyTemplate::Eight => vec![(0, 7)],
            KeyTemplate::Nine => vec![(0, 8)],
            KeyTemplate::Zero => vec![(0, 9)],
            KeyTemplate::LBracket => vec![(0, 10)],
            KeyTemplate::RBracket => vec![(0, 11)],
            KeyTemplate::Comma => vec![(1, 0)],
            KeyTemplate::Period => vec![(1, 1)],
            KeyTemplate::Minus => vec![(1, 10)],
            KeyTemplate::Plus => vec![(1, 11)],
            KeyTemplate::ForwardSlash => vec![(2, 10)],
            KeyTemplate::SemiColon => vec![(1, 5), (3, 4)],
            KeyTemplate::Quote => vec![(1, 5), (3, 4)],
            KeyTemplate::Q => {
                let ex = vec![(1, 0)];
                assert(ex@ =~= seq![(1usize, 0usize)]);
                not_home(&ex)
            },
            KeyTemplate::W => {
                let ex = vec![(1, 1)];
                assert(ex@ =~= seq![(1usize, 1usize)]);
                not_home(&ex)
            },
            KeyTemplate::E => vec![(2, 6), (2, 7)],
            KeyTemplate::R => {
                let ex = vec![(1, 3)];
                assert(ex@ =~= seq![(1usize, 3usize)]);
                alpha_slots(&ex)
            },
            KeyTemplate::T => {
                let ex = vec![(1, 4)];
                assert(ex@ =~= seq![(1usize, 4usize)]);
                alpha_slots(&ex)
            },
            KeyTemplate::Y => {
                let ex = vec![(1, 5)];
                assert(ex@ =~= seq![(1usize, 5usize)]);
                alpha_slots(&ex)
            },
            KeyTemplate::U => {
                let ex = vec![(1, 6)];
                assert(ex@ =~= seq![(1usize, 6usize)]);
                alpha_slots(&ex)
            },
            KeyTemplate::I => {
                let ex = vec![(1, 7)];
                assert(ex@ =~= seq![(1usize, 7usize)]);
                alpha_slots(&ex)
            },
            KeyTemplate::O => {
                let ex = vec![(1, 8)];
                assert(ex@ =~= seq![(1usize, 8usize)]);
                alpha_slots(&ex)
            },
            KeyTemplate::P => {
                let ex = vec![(1, 9)];
                assert(ex@ =~= seq![(1usize, 9usize)]);
                not_home(&ex)
            },
            KeyTemplate::A => {
                let ex = vec![(2, 0)];
                assert(ex@ =~= seq![(2usize, 0usize)]);
                major_home_slots(&ex)
            },
            KeyTemplate::S => {
                let ex = vec![(2, 1)];
                assert(ex@ =~= seq![(2usize, 1usize)]);
                alpha_slots(&ex)
            },
            KeyTemplate::D => {
                let ex = vec![(2, 2)];
                assert(ex@ =~= seq![(2usize, 2usize)]);
                alpha_slots(&ex)
            },
            KeyTemplate::F => {
                let ex = vec![(2, 3)];
                assert(ex@ =~= seq![(2usize, 3usize)]);
                alpha_slots(&ex)
            },
            KeyTemplate::G => {
                let ex = vec![(2, 4)];
                assert(ex@ =~= seq![(2usize, 4usize)]);
                alpha_slots(&ex)
            },
            KeyTemplate::H => {
                let ex = vec![(2, 5)];
                assert(ex@ =~= seq![(2usize, 5usize)]);
                alpha_slots(&ex)
            },
            KeyTemplate::J => vec![(1, 8), (1, 9), (3, 0), (3, 9)],
            KeyTemplate::K => {
                let ex = vec![(2, 7)];
                assert(ex@ =~= seq![(2usize, 7usize)]);
                alpha_slots(&ex)
            },
            KeyTemplate::L => {
                let ex = vec![(2, 8)];
                assert(ex@ =~= seq![(2usize, 8usize)]);
                alpha_slots(&ex)
            },
            KeyTemplate::Z => {
                let ex = vec![(3, 0)];
                assert(ex@ =~= seq![(3usize, 0usize)]);
                not_home(&ex)
            },
            KeyTemplate::X => {
                let ex = vec![(3, 1)];
                assert(ex@ =~= seq![(3usize, 1usize)]);
                not_home(&ex)
            },
            KeyTemplate::C => {
                let ex = vec![(3, 2)];
                assert(ex@ =~= seq![(3usize, 2usize)]);
                alpha_slots(&ex)
            },
            KeyTemplate::V => {
                let ex = vec![(3, 3)];
                assert(ex@ =~= seq![(3usize, 3usize)]);
                not_home(&ex)
            },
            KeyTemplate::B => {
                let ex = vec![(3, 4)];
                assert(ex@ =~= seq![(3usize, 4usize)]);
                not_home(&ex)
            },
            KeyTemplate::N => {
                let ex = vec![(3, 5)];
                assert(ex@ =~= seq![(3usize, 5usize)]);
                alpha_slots(&ex)
            },
            KeyTemplate::M => {
                let ex = vec![(3, 6)];
                assert(ex@ =~= seq![(3usize, 6usize)]);
                alpha_slots(&ex)
            },
        }
    }

    pub fn get_starting_location(self) -> (loc: (usize, usize))
        ensures
            loc == self.spec_starting_location(),
    {
        match self {
            KeyTemplate::One => (0, 0),
            KeyTemplate::Two => (0, 1),
            KeyTemplate::Three => (0, 2),
            KeyTemplate::Four => (0, 3),
            KeyTemplate::Five => (0, 4),
            KeyTemplate::Six => (0, 5),
            KeyTemplate::Seven => (0, 6),
            KeyTemplate::Eight => (0, 7),
            KeyTemplate::Nine => (0, 8),
            KeyTemplate::Zero => (0, 9),
            KeyTemplate::LBracket => (0, 10),
            KeyTemplate::RBracket => (0, 11),
            KeyTemplate::Comma => (1, 0),
            KeyTemplate::Period => (1, 1),
            KeyTemplate::A => (2, 2),
            KeyTemplate::B => (1, 3),
            KeyTemplate::C => (1, 4),
            KeyTemplate::SemiColon => (1, 5),
            KeyTemplate::D => (1, 6),
            KeyTemplate::E => (2, 7),
            KeyTemplate::F => (1, 8),
            KeyTemplate::G => (1, 2),
            KeyTemplate::Minus => (1, 10),
            KeyTemplate::Plus => (1, 11),
            KeyTemplate::H => (2, 0),
            KeyTemplate::I => (2, 1),
            KeyTemplate::J => (1, 9),
            KeyTemplate::K => (2, 3),
            KeyTemplate::L => (2, 4),
            KeyTemplate::M => (2, 5),
            KeyTemplate::N => (2, 6),
            KeyTemplate::O => (1, 7),
            KeyTemplate::P => (3, 1),
            KeyTemplate::Q => (3, 0),
            KeyTemplate::ForwardSlash => (2, 10),
            KeyTemplate::R => (2, 9),
            KeyTemplate::S => (2, 8),
            KeyTemplate::T => (3, 2),
            KeyTemplate::U => (3, 3),
            KeyTemplate::Quote => (3, 4),
            KeyTemplate::V => (3, 5),
            KeyTemplate::W => (3, 6),
            KeyTemplate::X => (3, 7),
            KeyTemplate::Y => (3, 8),
            KeyTemplate::Z => (3, 9),
        }
    }
}

pub open spec fn spec_top_row_alpha() -> Seq<(usize, usize)> {
    seq![(1, 2), (1, 3), (1, 4), (1, 6), (1, 7), (1, 8), (1, 9)]
}

pub open spec fn spec_home_row_alpha() -> Seq<(usize, usize)> {
    seq![(2, 0), (2, 1), (2, 2), (2, 3), (2, 4), (2, 5), (2, 6), (2, 7), (2, 8), (2, 9)]
}

pub open spec fn spec_bottom_row_alpha() -> Seq<(usize, usize)> {
    seq![(3, 0), (3, 1), (3, 2), (3, 3), (3, 5), (3, 6), (3, 7), (3, 8), (3, 9)]
}

/// Keeps the slots of `slots` that `exclusions` does not name, in order.
pub open spec fn without(slots: Seq<(usize, usize)>, exclusions: Seq<(usize, usize)>) -> Seq<
    (usize, usize),
> {
    slots.filter(not_excluded(exclusions))
}

pub open spec fn not_excluded(exclusions: Seq<(usize, usize)>) -> spec_fn((usize, usize)) -> bool {
    |x: (usize, usize)| !exclusions.contains(x)
}

pub open spec fn spec_alpha_slots(exclusions: Seq<(usize, usize)>) -> Seq<(usize, usize)> {
    without(spec_top_row_alpha() + spec_home_row_alpha() + spec_bottom_row_alpha(), exclusions)
}

pub open spec fn spec_major_home_slots(exclusions: Seq<(usize, usize)>) -> Seq<(usize, usize)> {
    without(seq![(2, 0), (2, 1), (2, 2), (2, 3), (2, 6), (2, 7), (2, 8), (2, 9)], exclusions)
}

pub open spec fn spec_not_home(exclusions: Seq<(usize, usize)>) -> Seq<(usize, usize)> {
    without(spec_top_row_alpha() + spec_bottom_row_alpha(), exclusions)
}

/// A sequence with two different slots keeps at least one of them when a
/// single slot is excluded.
proof fn lemma_without_one_nonempty(slots: Seq<(usize, usize)>, exclusions: Seq<(usize, usize)>)
    requires
        exclusions.len() == 1,
        slots.len() >= 2,
        slots[0] != slots[1],
    ensures
        without(slots, exclusions).len() >= 1,
{
    let pred = not_excluded(exclusions);
    if slots[0] != exclusions[0] {
        assert(pred(slots[0]));
        slots.lemma_filter_contains(pred, 0);
    } else {
        assert(pred(slots[1]));
        slots.lemma_filter_contains(pred, 1);
    }
}

/// Every key may be placed somewhere.
pub proof fn lemma_valid_locations_nonempty(t: KeyTemplate)
    ensures
        t.spec_valid_locations().len() >= 1,
{
    let alpha = spec_top_row_alpha() + spec_home_row_alpha() + spec_bottom_row_alpha();
    let not_home = spec_top_row_alpha() + spec_bottom_row_alpha();
    let major = seq![(2usize, 0usize), (2, 1), (2, 2), (2, 3), (2, 6), (2, 7), (2, 8), (2, 9)];
    assert(alpha[0] == (1usize, 2usize) && alpha[1] == (1usize, 3usize));
    assert(not_home[0] == (1usize, 2usize) && not_home[1] == (1usize, 3usize));
    match t {
        KeyTemplate::Q => lemma_without_one_nonempty(not_home, seq![(1, 0)]),
        KeyTemplate::W => lemma_without_one_nonempty(not_home, seq![(1, 1)]),
        KeyTemplate::R => lemma_without_one_nonempty(alpha, seq![(1, 3)]),
        KeyTemplate::T => lemma_without_one_nonempty(alpha, seq![(1, 4)]),
        KeyTemplate::Y => lemma_without_one_nonempty(alpha, seq![(1, 5)]),
        KeyTemplate::U => lemma_without_one_nonempty(alpha, seq![(1, 6)]),
        KeyTemplate::I => lemma_without_one_nonempty(alpha, seq![(1, 7)]),
        KeyTemplate::O => lemma_without_one_nonempty(alpha, seq![(1, 8)]),
        KeyTemplate::P => lemma_without_one_nonempty(not_home, seq![(1, 9)]),
        KeyTemplate::A => lemma_without_one_nonempty(major, seq![(2, 0)]),
        KeyTemplate::S => lemma_without_one_nonempty(alpha, seq![(2, 1)]),
        KeyTemplate::D => lemma_without_one_nonempty(alpha, seq![(2, 2)]),
        KeyTemplate::F => lemma_without_one_nonempty(alpha, seq![(2, 3)]),
        KeyTemplate::G => lemma_without_one_nonempty(alpha, seq![(2, 4)]),
        KeyTemplate::H => lemma_without_one_nonempty(alpha, seq![(2, 5)]),
        KeyTemplate::K => lemma_without_one_nonempty(alpha, seq![(2, 7)]),
        KeyTemplate::L => lemma_without_one_nonempty(alpha, seq![(2, 8)]),
        KeyTemplate::Z => lemma_without_one_nonempty(not_home, seq![(3, 0)]),
        KeyTemplate::X => lemma_without_one_nonempty(not_home, seq![(3, 1)]),
        KeyTemplate::C => lemma_without_one_nonempty(alpha, seq![(3, 2)]),
        KeyTemplate::V => lemma_without_one_nonempty(not_home, seq![(3, 3)]),
        KeyTemplate::B => lemma_without_one_nonempty(not_home, seq![(3, 4)]),
        KeyTemplate::N => lemma_without_one_nonempty(alpha, seq![(3, 5)]),
        KeyTemplate::M => lemma_without_one_nonempty(alpha, seq![(3, 6)]),
        _ => {}
    }
}

/// A slot of the alpha area, as (row, column).
pub open spec fn alpha_location(x: (usize, usize)) -> bool {
    1 <= x.0 <= 3 && x.1 <= 9
}

/// Orders slots by row, then column.
pub open spec fn location_code(x: (usize, usize)) -> int {
    x.0 * 16 + x.1
}

/// The slots ascend strictly, by row and then column.
pub open spec fn ascending(slots: Seq<(usize, usize)>) -> bool {
    forall|i: int| 0 <= i < slots.len() - 1 ==> location_code(#[trigger] slots[i]) < location_code(
        slots[i + 1],
    )
}

proof fn lemma_ascending_pair(slots: Seq<(usize, usize)>, i: int, j: int)
    requires
        ascending(slots),
        forall|k: int| 0 <= k < slots.len() ==> (#[trigger] slots[k]).1 <= 15,
        0 <= i < j < slots.len(),
    ensures
        slots[i] != slots[j],
        location_code(slots[i]) < location_code(slots[j]),
    decreases j - i,
{
    if j > i + 1 {
        lemma_ascending_pair(slots, i, j - 1);
    }
    assert(location_code(slots[j - 1]) < location_code(slots[j]));
}

proof fn lemma_ascending_no_duplicates(slots: Seq<(usize, usize)>)
    requires
        ascending(slots),
        forall|k: int| 0 <= k < slots.len() ==> (#[trigger] slots[k]).1 <= 15,
    ensures
        slots.no_duplicates(),
{
    assert forall|i: int, j: int| 0 <= i < slots.len() && 0 <= j < slots.len() && i != j implies slots[i]
        != slots[j] by {
        if i < j {
            lemma_ascending_pair(slots, i, j);
        } else {
            lemma_ascending_pair(slots, j, i);
        }
    }
}

/// Dropping excluded slots keeps only slots of the list, and no slot twice
/// when the list names none twice.
proof fn lemma_without(slots: Seq<(usize, usize)>, exclusions: Seq<(usize, usize)>)
    ensures
        forall|x: (usize, usize)| #[trigger] without(slots, exclusions).contains(x) ==> slots.contains(x),
        slots.no_duplicates() ==> without(slots, exclusions).no_duplicates(),
    decreases slots.len(),
{
    let pred = not_excluded(exclusions);
    assert forall|x: (usize, usize)| #[trigger] without(slots, exclusions).contains(x) implies slots.contains(x) by {
        slots.lemma_filter_contains_rev(pred, x);
    }
    if slots.len() > 0 {
        let init = slots.drop_last();
        let x = slots.last();
        assert(init.push(x) =~= slots);
        lemma_without(init, exclusions);
        init.lemma_filter_push(x, pred);
        if slots.no_duplicates() {
            assert(init.no_duplicates()) by {
                assert forall|i: int, j: int| 0 <= i < init.len() && 0 <= j < init.len() && i != j implies init[i]
                    != init[j] by {
                    assert(init[i] == slots[i] && init[j] == slots[j]);
                }
            }
            if pred(x) {
                assert(!without(init, exclusions).contains(x)) by {
                    if without(init, exclusions).contains(x) {
                        let k = choose|k: int| 0 <= k < init.len() && init[k] == x;
                        assert(slots[k] == slots[slots.len() - 1]);
                    }
                }
                let w = without(init, exclusions);
                assert forall|i: int, j: int| 0 <= i < w.push(x).len() && 0 <= j < w.push(x).len() && i != j implies w.push(x)[i]
                    != w.push(x)[j] by {
                    if i < w.len() && j < w.len() {
                    } else if i < w.len() {
                        assert(w.contains(w[i]));
                    } else if j < w.len() {
                        assert(w.contains(w[j]));
                    }
                }
            }
        }
    }
}

/// The valid locations of every key name no slot twice and lie on the
/// keyboard; a key with more than one valid location may only go to the
/// alpha area (rows 1 to 3, columns 0 to 9).
pub proof fn lemma_valid_locations_well_formed(t: KeyTemplate)
    ensures
        t.spec_valid_locations().no_duplicates(),
        forall|x: (usize, usize)|
            #[trigger] t.spec_valid_locations().contains(x) ==> x.0 <= 3 && x.1 <= 11,
        t.spec_valid_locations().len() > 1 ==> forall|x: (usize, usize)|
            #[trigger] t.spec_valid_locations().contains(x) ==> alpha_location(x),
{
    let alpha = spec_top_row_alpha() + spec_home_row_alpha() + spec_bottom_row_alpha();
    let not_home = spec_top_row_alpha() + spec_bottom_row_alpha();
    let major = seq![(2usize, 0usize), (2, 1), (2, 2), (2, 3), (2, 6), (2, 7), (2, 8), (2, 9)];
    assert(alpha =~= seq![(1usize, 2usize), (1, 3), (1, 4), (1, 6), (1, 7), (1, 8), (1, 9), (2, 0), (2, 1), (2, 2), (2, 3), (2, 4), (2, 5), (2, 6), (2, 7), (2, 8), (2, 9), (3, 0), (3, 1), (3, 2), (3, 3), (3, 5), (3, 6), (3, 7), (3, 8), (3, 9)]);
    assert(not_home =~= seq![(1usize, 2usize), (1, 3), (1, 4), (1, 6), (1, 7), (1, 8), (1, 9), (3, 0), (3, 1), (3, 2), (3, 3), (3, 5), (3, 6), (3, 7), (3, 8), (3, 9)]);
    assert(ascending(alpha) && ascending(not_home) && ascending(major));
    lemma_ascending_no_duplicates(alpha);
    lemma_ascending_no_duplicates(not_home);
    lemma_ascending_no_duplicates(major);
    assert(forall|x: (usize, usize)| #[trigger] alpha.contains(x) ==> alpha_location(x));
    assert(forall|x: (usize, usize)| #[trigger] not_home.contains(x) ==> alpha_location(x));
    assert(forall|x: (usize, usize)| #[trigger] major.contains(x) ==> alpha_location(x));
    let locs = t.spec_valid_locations();
    match t {
        KeyTemplate::Q => lemma_without(not_home, seq![(1, 0)]),
        KeyTemplate::W => lemma_without(not_home, seq![(1, 1)]),
        KeyTemplate::R => lemma_without(alpha, seq![(1, 3)]),
        KeyTemplate::T => lemma_without(alpha, seq![(1, 4)]),
        KeyTemplate::Y => lemma_without(alpha, seq![(1, 5)]),
        KeyTemplate::U => lemma_without(alpha, seq![(1, 6)]),
        KeyTemplate::I => lemma_without(alpha, seq![(1, 7)]),
        KeyTemplate::O => lemma_without(alpha, seq![(1, 8)]),
        KeyTemplate::P => lemma_without(not_home, seq![(1, 9)]),
        KeyTemplate::A => lemma_without(major, seq![(2, 0)]),
        KeyTemplate::S => lemma_without(alpha, seq![(2, 1)]),
        KeyTemplate::D => lemma_without(alpha, seq![(2, 2)]),
        KeyTemplate::F => lemma_without(alpha, seq![(2, 3)]),
        KeyTemplate::G => lemma_without(alpha, seq![(2, 4)]),
        KeyTemplate::H => lemma_without(alpha, seq![(2, 5)]),
        KeyTemplate::K => lemma_without(alpha, seq![(2, 7)]),
        KeyTemplate::L => lemma_without(alpha, seq![(2, 8)]),
        KeyTemplate::Z => lemma_without(not_home, seq![(3, 0)]),
        KeyTemplate::X => lemma_without(not_home, seq![(3, 1)]),
        KeyTemplate::C => lemma_without(alpha, seq![(3, 2)]),
        KeyTemplate::V => lemma_without(not_home, seq![(3, 3)]),
        KeyTemplate::B => lemma_without(not_home, seq![(3, 4)]),
        KeyTemplate::N => lemma_without(alpha, seq![(3, 5)]),
        KeyTemplate::M => lemma_without(alpha, seq![(3, 6)]),
        _ => {
            assert(ascending(locs));
            lemma_ascending_no_duplicates(locs);
        },
    }
}

/// The slots of `slots` that `exclusions` does not name, in order.
fn retain_not_excluded(slots: Vec<(usize, usize)>, exclusions: &Vec<(usize, usize)>) -> (kept: Vec<
    (usize, usize),
>)
    ensures
        kept@ == without(slots@, exclusions@),
{
    let mut kept: Vec<(usize, usize)> = Vec::new();
    let mut i: usize = 0;
    while i < slots.len()
        invariant
            i <= slots@.len(),
            kept@ == without(slots@.take(i as int), exclusions@),
        decreases slots@.len() - i,
    {
        let x = slots[i];
        let mut excluded = false;
        let mut j: usize = 0;
        while j < exclusions.len()
            invariant
                j <= exclusions@.len(),
                excluded == exclusions@.take(j as int).contains(x),
            decreases exclusions@.len() - j,
        {
            assert(exclusions@.take(j + 1) == exclusions@.take(j as int).push(exclusions@[j as int]));
            if exclusions[j].0 == x.0 && exclusions[j].1 == x.1 {
                excluded = true;
            }
            j = j + 1;
        }
        assert(exclusions@.take(exclusions@.len() as int) == exclusions@);
        assert(slots@.take(i + 1) == slots@.take(i as int).push(x));
        proof {
            slots@.take(i as int).lemma_filter_push(x, not_excluded(exclusions@));
        }
        if !excluded {
            kept.push(x);
        }
        i = i + 1;
    }
    assert(slots@.take(slots@.len() as int) == slots@);
    kept
}

pub fn alpha_slots(exclusions: &Vec<(usize, usize)>) -> (slots: Vec<(usize, usize)>)
    ensures
        slots@ == spec_alpha_slots(exclusions@),
{
    let mut flat = top_row_alpha();
    let mut home = home_row_alpha();
    let mut bottom = bottom_row_alpha();
    flat.append(&mut home);
    flat.append(&mut bottom);
    retain_not_excluded(flat, exclusions)
}

pub fn major_home_slots(exclusions: &Vec<(usize, usize)>) -> (slots: Vec<(usize, usize)>)
    ensures
        slots@ == spec_major_home_slots(exclusions@),
{
    let slots = vec![(2, 0), (2, 1), (2, 2), (2, 3), (2, 6), (2, 7), (2, 8), (2, 9)];
    retain_not_excluded(slots, exclusions)
}

pub fn not_home(exclusions: &Vec<(usize, usize)>) -> (slots: Vec<(usize, usize)>)
    ensures
        slots@ == spec_not_home(exclusions@),
{
    let mut flat = top_row_alpha();
    let mut bottom = bottom_row_alpha();
    flat.append(&mut bottom);
    retain_not_excluded(flat, exclusions)
}

/// The top row of the alpha area. Its two leftmost slots and its middle
/// slot are left out: they hold the comma, the period and a symbol key.
pub fn top_row_alpha() -> (slots: Vec<(usize, usize)>)
    ensures
        slots@ == spec_top_row_alpha(),
{
    vec![(1, 2), (1, 3), (1, 4), (1, 6), (1, 7), (1, 8), (1, 9)]
}

pub fn home_row_alpha() -> (slots: Vec<(usize, usize)>)
    ensures
        slots@ == spec_home_row_alpha(),
{
    vec![(2, 0), (2, 1), (2, 2), (2, 3), (2, 4), (2, 5), (2, 6), (2, 7), (2, 8), (2, 9)]
}

/// The bottom row of the alpha area; its middle slot holds a symbol key.
pub fn bottom_row_alpha() -> (slots: Vec<(usize, usize)>)
    ensures
        slots@ == spec_bottom_row_alpha(),
{
    vec![(3, 0), (3, 1), (3, 2), (3, 3), (3, 5), (3, 6), (3, 7), (3, 8), (3, 9)]
}

} // verus!
