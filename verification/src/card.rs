//! A playing card: a fixed identity and the state in which it is shown.

use vstd::prelude::*;
use crate::rank::Rank;
use crate::suit::FrenchSuit;

verus! {

/// What stands at a card's place on the screen.
#[derive(Debug, Clone, Copy, PartialEq, Eq, Structural)]
pub enum CardFace {
    /// The face of the card with the given rank and suit.
    Front(Rank, FrenchSuit),
    /// The back that all cards share.
    Back,
}

/// One picture for the renderer: which face to show, and where its top
/// left corner goes. Every picture is `CARD_WIDTH` wide and `CARD_HEIGHT`
/// high.
#[derive(Debug, Clone, Copy, PartialEq, Eq, Structural)]
pub struct Sprite {
    pub face: CardFace,
    pub x: i64,
    pub y: i64,
}

/// A card. Rank and suit never change; the position and the two flags
/// follow the card through the game.
#[derive(Debug, Clone, Copy, PartialEq, Eq, Structural)]
pub struct Card {
    pub rank: Rank,
    pub suit: FrenchSuit,
    pub x: i64,
    pub y: i64,
    pub is_hidden: bool,
    pub is_turned: bool,
}

impl Card {
    /// The pair that tells one card of a deck from all others.
    pub open spec fn identity(self) -> (Rank, FrenchSuit) {
        (self.rank, self.suit)
    }

    /// The card moved to `(x, y)`.
    pub open spec fn at(self, x: int, y: int) -> Card {
        Card { x: x as i64, y: y as i64, ..self }
    }

    /// The card as it rests in the deck: neither hidden nor turned, in the
    /// deck's column.
    pub open spec fn stowed(self, x: int) -> Card {
        Card { x: x as i64, is_hidden: false, is_turned: false, ..self }
    }

    /// The card as it lies on the waste pile: shown face up in the waste
    /// pile's column.
    pub open spec fn revealed(self, x: int) -> Card {
        Card { x: x as i64, is_hidden: false, is_turned: true, ..self }
    }

    /// The card turned over.
    pub open spec fn flipped(self) -> Card {
        Card { is_turned: !self.is_turned, ..self }
    }

    /// The picture that shows the card: none for a hidden card, the face
    /// for a turned one, the back otherwise.
    pub open spec fn sprite(self) -> Option<Sprite> {
        if self.is_hidden {
            None
        } else if self.is_turned {
            Some(Sprite { face: CardFace::Front(self.rank, self.suit), x: self.x, y: self.y })
        } else {
            Some(Sprite { face: CardFace::Back, x: self.x, y: self.y })
        }
    }

    /// Makes a card at `(x, y)`, face down and not hidden.
    pub fn new(x: i64, y: i64, rank: Rank, suit: FrenchSuit) -> (card: Card)
        ensures
            card == (Card { rank, suit, x, y, is_hidden: false, is_turned: false }),
    {
        Card { rank, suit, x, y, is_hidden: false, is_turned: false }
    }

    /// Says what the renderer has to draw for this card, if anything.
    pub fn draw(&self) -> (picture: Option<Sprite>)
        ensures
            picture == self.sprite(),
    {
        if self.is_hidden {
            return None;
        }
        let face = if self.is_turned {
            CardFace::Front(self.rank, self.suit)
        } else {
            CardFace::Back
        };
        Some(Sprite { face, x: self.x, y: self.y })
    }

    /// Turns the card over.
    pub fn toggle_visibility(&mut self)
        ensures
            *final(self) == old(self).flipped(),
    {
        self.is_turned = !self.is_turned;
    }

    /// Moves the card to `(x, y)`.
    pub fn update_pos(&mut self, x: i64, y: i64)
        ensures
            *final(self) == old(self).at(x as int, y as int),
    {
        self.x = x;
        self.y = y;
    }
}

} // verus!
