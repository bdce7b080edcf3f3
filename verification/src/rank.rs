//! The thirteen ranks, ordered from ace (low) to king (high).

use vstd::prelude::*;

verus! {

/// The rank of a card. Aces are low.
#[derive(Debug, Clone, Copy, PartialEq, Eq, Structural)]
pub enum Rank {
    Ace,
    Two,
    Three,
    Four,
    Five,
    Six,
    Seven,
    Eight,
    Nine,
    Ten,
    Jack,
    Queen,
    King,
}

impl Rank {
    /// The position of the rank in the order `Ace < Two < ... < King`,
    /// counted from 1.
    pub open spec fn value(self) -> int {
        match self {
            Rank::Ace => 1,
            Rank::Two => 2,
            Rank::Three => 3,
            Rank::Four => 4,
            Rank::Five => 5,
            Rank::Six => 6,
            Rank::Seven => 7,
            Rank::Eight => 8,
            Rank::Nine => 9,
            Rank::Ten => 10,
            Rank::Jack => 11,
            Rank::Queen => 12,
            Rank::King => 13,
        }
    }

    /// The name of the rank as it appears in asset file names.
    pub open spec fn name(self) -> Seq<char> {
        match self {
            Rank::Ace => "ace"@,
            Rank::Two => "2"@,
            Rank::Three => "3"@,
            Rank::Four => "4"@,
            Rank::Five => "5"@,
            Rank::Six => "6"@,
            Rank::Seven => "7"@,
            Rank::Eight => "8"@,
            Rank::Nine => "9"@,
            Rank::Ten => "10"@,
            Rank::Jack => "jack"@,
            Rank::Queen => "queen"@,
            Rank::King => "king"@,
        }
    }

    /// Returns the position of the rank in the order, from 1 for the ace
    /// to 13 for the king.
    pub fn number(&self) -> (n: u8)
        ensures
            n == self.value(),
    {
        match self {
            Rank::Ace => 1,
            Rank::Two => 2,
            Rank::Three => 3,
            Rank::Four => 4,
            Rank::Five => 5,
            Rank::Six => 6,
            Rank::Seven => 7,
            Rank::Eight => 8,
            Rank::Nine => 9,
            Rank::Ten => 10,
            Rank::Jack => 11,
            Rank::Queen => 12,
            Rank::King => 13,
        }
    }

    /// Tells whether `next` is the rank directly above `self`. Nothing is
    /// above the king, and the ace is above nothing.
    pub fn is_followed_by(&self, next: Rank) -> (r: bool)
        ensures
            r == (self.value() + 1 == next.value()),
    {
        match self {
            Rank::Ace => next == Rank::Two,
            Rank::Two => next == Rank::Three,
            Rank::Three => next == Rank::Four,
            Rank::Four => next == Rank::Five,
            Rank::Five => next == Rank::Six,
            Rank::Six => next == Rank::Seven,
            Rank::Seven => next == Rank::Eight,
            Rank::Eight => next == Rank::Nine,
            Rank::Nine => next == Rank::Ten,
            Rank::Ten => next == Rank::Jack,
            Rank::Jack => next == Rank::Queen,
            Rank::Queen => next == Rank::King,
            Rank::King => false,
        }
    }

    /// Returns the name of the rank as it appears in asset file names.
    pub fn as_str(&self) -> (name: &'static str)
        ensures
            name@ == self.name(),
    {
        match self {
            Rank::Ace => "ace",
            Rank::Two => "2",
            Rank::Three => "3",
            Rank::Four => "4",
            Rank::Five => "5",
            Rank::Six => "6",
            Rank::Seven => "7",
            Rank::Eight => "8",
            Rank::Nine => "9",
            Rank::Ten => "10",
            Rank::Jack => "jack",
            Rank::Queen => "queen",
            Rank::King => "king",
        }
    }
}

/// The order on ranks is total and has the ace and the king as its ends:
/// every rank has a value from 1 to 13, two ranks with the same value are
/// the same rank, no rank is directly below the ace, and none directly
/// above the king.
pub proof fn lemma_rank_order(a: Rank, b: Rank)
    ensures
        1 <= a.value() <= 13,
        a.value() == b.value() ==> a == b,
        a.value() == 1 <==> a == Rank::Ace,
        a.value() == 13 <==> a == Rank::King,
        a.value() + 1 != Rank::Ace.value(),
        Rank::King.value() + 1 != a.value(),
{
}

} // verus!
