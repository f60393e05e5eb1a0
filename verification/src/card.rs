//! Ranks, suits and cards.

use vstd::prelude::*;
use vstd::std_specs::convert::{FromSpecImpl, TryFromSpecImpl};

verus! {

/// The rank of a card, from the king (highest) down to the ace (lowest).
#[allow(missing_docs)]
#[derive(Debug, Clone, Copy, PartialEq, Eq, Structural)]
pub enum CardValue {
    K,
    Q,
    J,
    Ten,
    Nine,
    Eight,
    Seven,
    Six,
    Five,
    Four,
    Three,
    Two,
    A,
}

/// The failure of turning a number outside 1..=13 into a rank; it carries the
/// offending number.
#[derive(Debug, Clone, Copy, PartialEq, Eq, Structural)]
pub struct InvalidRank {
    /// The number that names no rank.
    pub value: u8,
}

/// The suit of a card.
#[allow(missing_docs)]
#[derive(Debug, Clone, Copy, PartialEq, Eq, Structural)]
pub enum CardSuit {
    Hearts,
    Diamonds,
    Clubs,
    Spades,
}

/// A playing card: a rank and a suit.
#[derive(Debug, Clone, Copy, PartialEq, Eq, Structural)]
pub struct Card {
    /// The rank of the card.
    pub value: CardValue,
    /// The suit of the card.
    pub suit: CardSuit,
}

impl CardValue {
    /// The number of a rank: 13 for the king down to 1 for the ace.
    pub open spec fn number(self) -> int {
        match self {
            CardValue::K => 13,
            CardValue::Q => 12,
            CardValue::J => 11,
            CardValue::Ten => 10,
            CardValue::Nine => 9,
            CardValue::Eight => 8,
            CardValue::Seven => 7,
            CardValue::Six => 6,
            CardValue::Five => 5,
            CardValue::Four => 4,
            CardValue::Three => 3,
            CardValue::Two => 2,
            CardValue::A => 1,
        }
    }

    /// The rank with the given number; the ace for any number outside 1..=13.
    pub open spec fn of_number(n: int) -> CardValue {
        if n == 13 {
            CardValue::K
        } else if n == 12 {
            CardValue::Q
        } else if n == 11 {
            CardValue::J
        } else if n == 10 {
            CardValue::Ten
        } else if n == 9 {
            CardValue::Nine
        } else if n == 8 {
            CardValue::Eight
        } else if n == 7 {
            CardValue::Seven
        } else if n == 6 {
            CardValue::Six
        } else if n == 5 {
            CardValue::Five
        } else if n == 4 {
            CardValue::Four
        } else if n == 3 {
            CardValue::Three
        } else if n == 2 {
            CardValue::Two
        } else {
            CardValue::A
        }
    }

    /// The rank that a number names: the rank with that number for 1..=13, and
    /// for any other number the failure that carries it.
    pub open spec fn from_number(value: u8) -> Result<CardValue, InvalidRank> {
        if 1 <= value <= 13 {
            Ok(CardValue::of_number(value as int))
        } else {
            Err(InvalidRank { value })
        }
    }

    /// The next-higher rank, if there is one.
    pub open spec fn spec_previous(self) -> Option<CardValue> {
        if self.number() == 13 {
            None
        } else {
            Some(CardValue::of_number(self.number() + 1))
        }
    }

    /// The next-lower rank, if there is one.
    pub open spec fn spec_next(self) -> Option<CardValue> {
        if self.number() == 1 {
            None
        } else {
            Some(CardValue::of_number(self.number() - 1))
        }
    }

    /// The display label of a rank.
    pub open spec fn label(self) -> Seq<char> {
        match self {
            CardValue::K => "K"@,
            CardValue::Q => "Q"@,
            CardValue::J => "J"@,
            CardValue::Ten => "10"@,
            CardValue::Nine => "9"@,
            CardValue::Eight => "8"@,
            CardValue::Seven => "7"@,
            CardValue::Six => "6"@,
            CardValue::Five => "5"@,
            CardValue::Four => "4"@,
            CardValue::Three => "3"@,
            CardValue::Two => "2"@,
            CardValue::A => "A"@,
        }
    }

    /// All ranks in descending order, king first.
    pub fn all() -> (r: [CardValue; 13])
        ensures
            forall|i: int| 0 <= i < 13 ==> (#[trigger] r@[i]).number() == 13 - i,
    {
        [
            CardValue::K,
            CardValue::Q,
            CardValue::J,
            CardValue::Ten,
            CardValue::Nine,
            CardValue::Eight,
            CardValue::Seven,
            CardValue::Six,
            CardValue::Five,
            CardValue::Four,
            CardValue::Three,
            CardValue::Two,
            CardValue::A,
        ]
    }

    /// The display label of the rank.
    pub fn as_str(&self) -> (s: &'static str)
        ensures
            s@ == self.label(),
    {
        match self {
            CardValue::K => "K",
            CardValue::Q => "Q",
            CardValue::J => "J",
            CardValue::Ten => "10",
            CardValue::Nine => "9",
            CardValue::Eight => "8",
            CardValue::Seven => "7",
            CardValue::Six => "6",
            CardValue::Five => "5",
            CardValue::Four => "4",
            CardValue::Three => "3",
            CardValue::Two => "2",
            CardValue::A => "A",
        }
    }

    /// The rank one higher than this one; none for the king.
    pub fn previous(&self) -> (r: Option<CardValue>)
        ensures
            r == self.spec_previous(),
            r is None <==> *self == CardValue::K,
            r matches Some(p) ==> p.number() == self.number() + 1,
    {
        match self {
            CardValue::K => None,
            CardValue::Q => Some(CardValue::K),
            CardValue::J => Some(CardValue::Q),
            CardValue::Ten => Some(CardValue::J),
            CardValue::Nine => Some(CardValue::Ten),
            CardValue::Eight => Some(CardValue::Nine),
            CardValue::Seven => Some(CardValue::Eight),
            CardValue::Six => Some(CardValue::Seven),
            CardValue::Five => Some(CardValue::Six),
            CardValue::Four => Some(CardValue::Five),
            CardValue::Three => Some(CardValue::Four),
            CardValue::Two => Some(CardValue::Three),
            CardValue::A => Some(CardValue::Two),
        }
    }

    /// The rank one lower than this one; none for the ace.
    pub fn next(&self) -> (r: Option<CardValue>)
        ensures
            r == self.spec_next(),
            r is None <==> *self == CardValue::A,
            r matches Some(n) ==> n.number() == self.number() - 1,
    {
        match self {
            CardValue::K => Some(CardValue::Q),
            CardValue::Q => Some(CardValue::J),
            CardValue::J => Some(CardValue::Ten),
            CardValue::Ten => Some(CardValue::Nine),
            CardValue::Nine => Some(CardValue::Eight),
            CardValue::Eight => Some(CardValue::Seven),
            CardValue::Seven => Some(CardValue::Six),
            CardValue::Six => Some(CardValue::Five),
            CardValue::Five => Some(CardValue::Four),
            CardValue::Four => Some(CardValue::Three),
            CardValue::Three => Some(CardValue::Two),
            CardValue::Two => Some(CardValue::A),
            CardValue::A => None,
        }
    }
}

impl From<CardValue> for u8 {
    fn from(value: CardValue) -> (n: u8) {
        match value {
            CardValue::K => 13,
            CardValue::Q => 12,
            CardValue::J => 11,
            CardValue::Ten => 10,
            CardValue::Nine => 9,
            CardValue::Eight => 8,
            CardValue::Seven => 7,
            CardValue::Six => 6,
            CardValue::Five => 5,
            CardValue::Four => 4,
            CardValue::Three => 3,
            CardValue::Two => 2,
            CardValue::A => 1,
        }
    }
}

impl FromSpecImpl<CardValue> for u8 {
    open spec fn obeys_from_spec() -> bool {
        true
    }

    open spec fn from_spec(value: CardValue) -> u8 {
        value.number() as u8
    }
}

impl TryFrom<u8> for CardValue {
    type Error = InvalidRank;

    fn try_from(value: u8) -> (r: Result<CardValue, InvalidRank>) {
        match value {
            13 => Ok(CardValue::K),
            12 => Ok(CardValue::Q),
            11 => Ok(CardValue::J),
            10 => Ok(CardValue::Ten),
            9 => Ok(CardValue::Nine),
            8 => Ok(CardValue::Eight),
            7 => Ok(CardValue::Seven),
            6 => Ok(CardValue::Six),
            5 => Ok(CardValue::Five),
            4 => Ok(CardValue::Four),
            3 => Ok(CardValue::Three),
            2 => Ok(CardValue::Two),
            1 => Ok(CardValue::A),
            _ => Err(InvalidRank { value }),
        }
    }
}

impl TryFromSpecImpl<u8> for CardValue {
    open spec fn obeys_try_from_spec() -> bool {
        true
    }

    open spec fn try_from_spec(value: u8) -> Result<CardValue, InvalidRank> {
        CardValue::from_number(value)
    }
}

impl InvalidRank {
    /// The text of the failure, which names the offending number.
    pub fn message(&self) -> (s: String)
        ensures
            s@ == "Unexpected card value: "@ + decimal(self.value as nat),
    {
        let mut s = String::from_str("Unexpected card value: ");
        let n: u8 = self.value;
        if n >= 100 {
            s.push(digit_char(n / 100));
        }
        if n >= 10 {
            s.push(digit_char((n / 10) % 10));
        }
        s.push(digit_char(n % 10));
        proof {
            reveal_with_fuel(decimal, 4);
        }
        s
    }
}

/// `String::push` of std appends the given character to the end of the string
/// and changes nothing else.
pub assume_specification[ String::push ](s: &mut String, c: char)
    ensures
        final(s)@ == old(s)@.push(c),
;

/// The decimal digits of a number, most significant first.
pub open spec fn decimal(n: nat) -> Seq<char>
    decreases n,
{
    if n < 10 {
        seq![digit(n)]
    } else {
        decimal(n / 10).push(digit(n % 10))
    }
}

/// The character of a single decimal digit.
pub open spec fn digit(d: nat) -> char {
    if d == 0 {
        '0'
    } else if d == 1 {
        '1'
    } else if d == 2 {
        '2'
    } else if d == 3 {
        '3'
    } else if d == 4 {
        '4'
    } else if d == 5 {
        '5'
    } else if d == 6 {
        '6'
    } else if d == 7 {
        '7'
    } else if d == 8 {
        '8'
    } else {
        '9'
    }
}

fn digit_char(d: u8) -> (c: char)
    requires
        d < 10,
    ensures
        c == digit(d as nat),
{
    if d == 0 {
        '0'
    } else if d == 1 {
        '1'
    } else if d == 2 {
        '2'
    } else if d == 3 {
        '3'
    } else if d == 4 {
        '4'
    } else if d == 5 {
        '5'
    } else if d == 6 {
        '6'
    } else if d == 7 {
        '7'
    } else if d == 8 {
        '8'
    } else {
        '9'
    }
}

impl CardSuit {
    /// The place of a suit in the conventional order of the suits.
    pub open spec fn index(self) -> int {
        match self {
            CardSuit::Hearts => 0,
            CardSuit::Diamonds => 1,
            CardSuit::Clubs => 2,
            CardSuit::Spades => 3,
        }
    }

    /// The suit at the given place; spades for any place outside 0..=3.
    pub open spec fn of_index(i: int) -> CardSuit {
        if i == 0 {
            CardSuit::Hearts
        } else if i == 1 {
            CardSuit::Diamonds
        } else if i == 2 {
            CardSuit::Clubs
        } else {
            CardSuit::Spades
        }
    }

    /// The display glyph of a suit.
    pub open spec fn glyph(self) -> Seq<char> {
        match self {
            CardSuit::Hearts => "\u{2665}"@,
            CardSuit::Diamonds => "\u{2666}"@,
            CardSuit::Clubs => "\u{2663}"@,
            CardSuit::Spades => "\u{2660}"@,
        }
    }

    /// Whether the suit is drawn in red (hearts and diamonds) rather than black.
    pub open spec fn spec_is_red(self) -> bool {
        self == CardSuit::Hearts || self == CardSuit::Diamonds
    }

    /// All suits: hearts, diamonds, clubs, spades.
    pub fn all() -> (r: [CardSuit; 4])
        ensures
            forall|i: int| 0 <= i < 4 ==> (#[trigger] r@[i]).index() == i,
    {
        [CardSuit::Hearts, CardSuit::Diamonds, CardSuit::Clubs, CardSuit::Spades]
    }

    /// The display glyph of the suit.
    pub fn as_str(&self) -> (s: &'static str)
        ensures
            s@ == self.glyph(),
    {
        match self {
            CardSuit::Hearts => "\u{2665}",
            CardSuit::Diamonds => "\u{2666}",
            CardSuit::Clubs => "\u{2663}",
            CardSuit::Spades => "\u{2660}",
        }
    }

    /// Whether the suit is drawn in red (hearts and diamonds) rather than black.
    pub fn is_red(&self) -> (b: bool)
        ensures
            b == self.spec_is_red(),
    {
        match self {
            CardSuit::Hearts | CardSuit::Diamonds => true,
            CardSuit::Clubs | CardSuit::Spades => false,
        }
    }
}

/// From the king nothing leads up and from the ace nothing leads down; from
/// every other rank, one step down and one step up again gives the rank back,
/// and so does one step up and one step down.
pub proof fn lemma_step_round_trip(r: CardValue)
    ensures
        CardValue::K.spec_previous() is None,
        CardValue::A.spec_next() is None,
        r != CardValue::A ==> r.spec_next() is Some && r.spec_next().unwrap().spec_previous()
            == Some(r),
        r != CardValue::K ==> r.spec_previous() is Some && r.spec_previous().unwrap().spec_next()
            == Some(r),
{
}

/// The numbering of the ranks is a bijection onto 1..=13: the king is 13, the
/// ace is 1, every rank is found again from its number, and every number in
/// range from its rank; exactly the numbers outside the range are refused.
pub proof fn lemma_number_bijection(r: CardValue, n: u8)
    ensures
        CardValue::K.number() == 13,
        CardValue::A.number() == 1,
        1 <= r.number() <= 13,
        CardValue::from_number(r.number() as u8) == Ok::<CardValue, InvalidRank>(r),
        1 <= n <= 13 ==> CardValue::from_number(n) is Ok && CardValue::from_number(
            n,
        ).unwrap().number() == n,
        !(1 <= n <= 13) ==> CardValue::from_number(n) == Err::<CardValue, InvalidRank>(
            InvalidRank { value: n },
        ),
{
}

} // verus!
