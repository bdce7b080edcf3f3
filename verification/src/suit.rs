//! The four French suits and their colour classes.

use vstd::prelude::*;

verus! {

/// One of the four French suits.
#[derive(Debug, Clone, Copy, PartialEq, Eq, Structural)]
pub enum FrenchSuit {
    Clubs,
    Diamonds,
    Hearts,
    Spades,
}

impl FrenchSuit {
    /// Diamonds and hearts are red; clubs and spades are black.
    pub open spec fn is_red(self) -> bool {
        self == FrenchSuit::Diamonds || self == FrenchSuit::Hearts
    }

    /// The place of the suit in the order clubs, diamonds, hearts, spades,
    /// counted from 0.
    pub open spec fn ordinal(self) -> int {
        match self {
            FrenchSuit::Clubs => 0,
            FrenchSuit::Diamonds => 1,
            FrenchSuit::Hearts => 2,
            FrenchSuit::Spades => 3,
        }
    }

    /// The lower-case English name of the suit, as a sequence of characters.
    pub open spec fn name(self) -> Seq<char> {
        match self {
            FrenchSuit::Clubs => "clubs"@,
            FrenchSuit::Diamonds => "diamonds"@,
            FrenchSuit::Hearts => "hearts"@,
            FrenchSuit::Spades => "spades"@,
        }
    }

    /// Returns the lower-case English name of the suit.
    pub fn as_str(&self) -> (name: &'static str)
        ensures
            name@ == self.name(),
    {
        match self {
            FrenchSuit::Clubs => "clubs",
            FrenchSuit::Diamonds => "diamonds",
            FrenchSuit::Hearts => "hearts",
            FrenchSuit::Spades => "spades",
        }
    }

    /// Tells whether the suit belongs to the red colour class.
    pub fn red(&self) -> (r: bool)
        ensures
            r == self.is_red(),
    {
        match self {
            FrenchSuit::Clubs | FrenchSuit::Spades => false,
            FrenchSuit::Diamonds | FrenchSuit::Hearts => true,
        }
    }
}

} // verus!
