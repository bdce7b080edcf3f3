//! The rules of the game, stated over the board's view: which moves are
//! legal, and the board that each move leaves behind.

use vstd::prelude::*;
use crate::board::{BoardArea, BoardView, HandMemory};
use crate::card::Card;
use crate::{lane_start, CARD_HEIGHT, PADDING};

verus! {

/// Whether `card` may lie on `top` in a lane: the colours differ and the
/// card is one rank below.
pub open spec fn stacks_in_lane(card: Card, top: Card) -> bool {
    card.suit.is_red() != top.suit.is_red() && card.rank.value() + 1 == top.rank.value()
}

/// Whether `card` may lie on `top` in a suit stack: the suits agree and
/// the card is one rank above.
pub open spec fn stacks_on_suit(card: Card, top: Card) -> bool {
    card.suit == top.suit && card.rank.value() == top.rank.value() + 1
}

/// The number of cards that the deal hands to the lanes before lane `k`,
/// counted from 0: one to the first lane, two to the second, and so on.
pub open spec fn dealt_before(k: int) -> int
    decreases k,
{
    if k <= 0 {
        0
    } else {
        dealt_before(k - 1) + k
    }
}

/// The first values of `dealt_before`: the deal takes 28 cards in all.
pub proof fn lemma_dealt_before()
    ensures
        dealt_before(0) == 0,
        dealt_before(1) == 1,
        dealt_before(2) == 3,
        dealt_before(3) == 6,
        dealt_before(4) == 10,
        dealt_before(5) == 15,
        dealt_before(6) == 21,
        dealt_before(7) == 28,
{
    reveal_with_fuel(dealt_before, 8);
}

impl BoardView {
    /// Lane `n`, counted from 1.
    pub open spec fn lane(self, n: int) -> Seq<Card> {
        self.playfield[n - 1]
    }

    /// Suit stack `n`, counted from 1.
    pub open spec fn suit_stack(self, n: int) -> Seq<Card> {
        self.suit_stacks[n - 1]
    }

    /// Whether lane `n` takes `card`: an empty lane takes any card.
    pub open spec fn lane_accepts(self, card: Card, n: int) -> bool {
        self.lane(n).len() == 0 || stacks_in_lane(card, self.lane(n).last())
    }

    /// Whether suit stack `n` takes `card`: an empty stack takes any card.
    pub open spec fn suit_stack_accepts(self, card: Card, n: int) -> bool {
        self.suit_stack(n).len() == 0 || stacks_on_suit(card, self.suit_stack(n).last())
    }

    /// Whether the place below the top card of lane `n` can be written
    /// down as a position.
    pub open spec fn lane_has_room(self, n: int) -> bool {
        self.lane(n).len() > 0 ==> self.lane(n).last().y + PADDING <= i64::MAX
    }

    /// `card` as it comes to lie in lane `n`: one step below the top card,
    /// or where it is if the lane is empty.
    pub open spec fn card_in_lane(self, card: Card, n: int) -> Card {
        if self.lane(n).len() == 0 {
            card
        } else {
            card.at(self.lane(n).last().x as int, self.lane(n).last().y + PADDING)
        }
    }

    /// `card` as it comes to lie on suit stack `n`: exactly on the top
    /// card, or where it is if the stack is empty.
    pub open spec fn card_on_suit_stack(self, card: Card, n: int) -> Card {
        if self.suit_stack(n).len() == 0 {
            card
        } else {
            card.at(self.suit_stack(n).last().x as int, self.suit_stack(n).last().y as int)
        }
    }

    /// `card` as it comes to lie on the waste pile.
    pub open spec fn card_on_waste(card: Card) -> Card {
        card.at(lane_start(6), PADDING as int)
    }

    /// The board with `card` on top of lane `n`.
    pub open spec fn with_card_in_lane(self, card: Card, n: int) -> BoardView {
        BoardView {
            playfield: self.playfield.update(
                n - 1,
                self.lane(n).push(self.card_in_lane(card, n)),
            ),
            ..self
        }
    }

    /// The board with `card` on top of suit stack `n`.
    pub open spec fn with_card_on_suit_stack(self, card: Card, n: int) -> BoardView {
        BoardView {
            suit_stacks: self.suit_stacks.update(
                n - 1,
                self.suit_stack(n).push(self.card_on_suit_stack(card, n)),
            ),
            ..self
        }
    }

    /// The board with `card` on top of the waste pile.
    pub open spec fn with_card_on_waste(self, card: Card) -> BoardView {
        BoardView { turned: self.turned.push(Self::card_on_waste(card)), ..self }
    }

    /// Whether the place that the hand remembers can take `card` back: a
    /// lane or a suit stack must exist and accept the card. The waste pile
    /// takes any card, and so does nowhere.
    pub open spec fn takes_back(self, card: Card) -> bool {
        match self.hand_memory.previous_stack {
            BoardArea::Lane(n) => 1 <= n <= 7 && self.lane_accepts(card, n as int)
                && self.lane_has_room(n as int),
            BoardArea::SuitStack(n) => 1 <= n <= 4 && self.suit_stack_accepts(card, n as int),
            _ => true,
        }
    }

    /// The board after `card` went back to the place that the hand
    /// remembers. A card remembered as taken from the deck or from nowhere
    /// goes nowhere: the board stays as it is.
    pub open spec fn with_card_returned(self, card: Card) -> BoardView {
        match self.hand_memory.previous_stack {
            BoardArea::Lane(n) => self.with_card_in_lane(card, n as int),
            BoardArea::SuitStack(n) => self.with_card_on_suit_stack(card, n as int),
            BoardArea::Turned => self.with_card_on_waste(card),
            _ => self,
        }
    }

    /// The board after the top card of the deck was turned onto the waste
    /// pile; the same board if the deck is empty.
    pub open spec fn with_card_turned(self) -> BoardView {
        if self.deck.len() == 0 {
            self
        } else {
            BoardView {
                deck: self.deck.drop_last(),
                turned: self.turned.push(self.deck.last().revealed(lane_start(6))),
                ..self
            }
        }
    }

    /// The board after the waste pile became the deck, in the same order
    /// and face down; the same board unless the deck is empty.
    pub open spec fn with_deck_refilled(self) -> BoardView {
        if self.deck.len() != 0 {
            self
        } else {
            BoardView {
                deck: self.turned.map_values(|c: Card| c.stowed(lane_start(7))),
                turned: Seq::empty(),
                ..self
            }
        }
    }

    /// Card `j` of the cards dealt to lane `k`, both counted from 0. The
    /// deal takes from the top of the deck, lane after lane; it puts the
    /// card in the lane's column, each a step below the one before, and
    /// turns over the last card of each lane.
    pub open spec fn dealt_card(self, k: int, j: int) -> Card {
        let taken = self.deck[self.deck.len() - 1 - (dealt_before(k) + j)];
        let placed = taken.at(lane_start(k + 1), j * PADDING + PADDING * 2 + CARD_HEIGHT);
        if j == k {
            placed.flipped()
        } else {
            placed
        }
    }

    /// The `k + 1` cards dealt to lane `k`, counted from 0.
    pub open spec fn dealt_lane(self, k: int) -> Seq<Card> {
        Seq::new((k + 1) as nat, |j: int| self.dealt_card(k, j))
    }

    /// The board after the deal: 28 cards less in the deck, and each lane
    /// longer by the cards dealt to it.
    pub open spec fn dealt(self) -> BoardView {
        BoardView {
            deck: self.deck.take(self.deck.len() - dealt_before(7)),
            playfield: Seq::new(7, |k: int| self.playfield[k] + self.dealt_lane(k)),
            ..self
        }
    }


    /// The board with the top card of the waste pile in the hand.
    pub open spec fn with_card_lifted(self) -> BoardView {
        BoardView {
            turned: self.turned.drop_last(),
            hand_memory: HandMemory {
                card: Some(self.turned.last()),
                previous_stack: BoardArea::Turned,
            },
            ..self
        }
    }

    /// The board with an empty hand that remembers nothing.
    pub open spec fn with_empty_hand(self) -> BoardView {
        BoardView {
            hand_memory: HandMemory { card: None, previous_stack: BoardArea::Nowhere },
            ..self
        }
    }

    /// The board (its hand aside) after `card` was let go over `area`: a
    /// lane or a suit stack that accepts the card takes it; from anywhere
    /// else the card goes back to where the hand remembers it from.
    pub open spec fn with_card_dropped(self, card: Card, area: BoardArea) -> BoardView {
        match area {
            BoardArea::Lane(n) if self.lane_accepts(card, n as int) => self.with_card_in_lane(
                card,
                n as int,
            ),
            BoardArea::SuitStack(n) if self.suit_stack_accepts(card, n as int) =>
                self.with_card_on_suit_stack(card, n as int),
            _ => self.with_card_returned(card),
        }
    }
}

} // verus!
