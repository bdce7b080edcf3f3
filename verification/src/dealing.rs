//! What the deal leaves on the board, and what a pass through the deck
//! does: all cards turned one by one, then the waste pile made the deck
//! again.

use vstd::prelude::*;
use crate::board::BoardView;
use crate::rules::{dealt_before, lemma_dealt_before};
use crate::card::Card;
use crate::lane_start;

verus! {

/// The cards of `cards` from the top down, each as it lies on the waste
/// pile once it was turned.
pub open spec fn turned_over(cards: Seq<Card>) -> Seq<Card> {
    cards.reverse().map_values(|c: Card| c.revealed(lane_start(6)))
}

impl BoardView {
    /// The board after `n` cards were turned, one after the other.
    pub open spec fn with_cards_turned(self, n: nat) -> BoardView
        decreases n,
    {
        if n == 0 {
            self
        } else {
            self.with_card_turned().with_cards_turned((n - 1) as nat)
        }
    }

    /// Whether no lane holds a card.
    pub open spec fn has_empty_lanes(self) -> bool {
        forall|k: int| 0 <= k < 7 ==> (#[trigger] self.playfield[k]).len() == 0
    }

    /// Whether every card of the deck lies face down.
    pub open spec fn has_deck_face_down(self) -> bool {
        forall|i: int| 0 <= i < self.deck.len() ==> !(#[trigger] self.deck[i]).is_turned
    }

    /// After the deal, lane `k` (counted from 0) holds `k + 1` cards more
    /// than before and the deck 28 less. If the lanes were empty and the
    /// deck lay face down, then in every lane exactly the last card lies
    /// face up.
    pub proof fn lemma_deal_shape(self)
        requires
            self.wf(),
            self.deck.len() >= 28,
        ensures
            self.dealt().deck.len() == self.deck.len() - 28,
            forall|k: int|
                0 <= k < 7 ==> (#[trigger] self.dealt().playfield[k]).len()
                    == self.playfield[k].len() + k + 1,
            self.has_empty_lanes() && self.has_deck_face_down() ==> forall|k: int, j: int|
                0 <= k < 7 && 0 <= j <= k ==> (#[trigger] self.dealt().playfield[k][j]).is_turned
                    == (j == k),
    {
        lemma_dealt_before();
        if self.has_empty_lanes() && self.has_deck_face_down() {
            assert forall|k: int, j: int| 0 <= k < 7 && 0 <= j <= k implies (
            #[trigger] self.dealt().playfield[k][j]).is_turned == (j == k) by {
                assert(self.playfield[k].len() == 0);
                assert(self.dealt().playfield[k][j] == self.dealt_card(k, j));
                assert(0 <= dealt_before(k) <= 21);
            }
        }
    }

    /// Turning `n` cards takes the top `n` cards of the deck and lays
    /// them on the waste pile, the top card of the deck lowest.
    pub proof fn lemma_turn_many(self, n: nat)
        requires
            n <= self.deck.len(),
        ensures
            self.with_cards_turned(n) == (BoardView {
                deck: self.deck.take(self.deck.len() - n),
                turned: self.turned + turned_over(self.deck.skip(self.deck.len() - n)),
                ..self
            }),
        decreases n,
    {
        let len = self.deck.len() as int;
        let goal = BoardView {
            deck: self.deck.take(len - n),
            turned: self.turned + turned_over(self.deck.skip(len - n)),
            ..self
        };
        if n == 0 {
            assert(self.deck.take(len) =~= self.deck);
            assert(turned_over(self.deck.skip(len)) =~= Seq::<Card>::empty());
            assert(self =~= goal);
        } else {
            let next = self.with_card_turned();
            next.lemma_turn_many((n - 1) as nat);
            let rest = next.with_cards_turned((n - 1) as nat);
            assert(rest.deck =~= goal.deck);
            assert(rest.turned =~= goal.turned);
            assert(rest =~= goal);
        }
    }

    /// A pass through the deck. Turning all cards of the deck empties it
    /// and lays them on the waste pile in the order in which they were
    /// turned. Making the waste pile the deck then gives a deck of the
    /// same cards in the same order, each face down and none hidden, and
    /// an empty waste pile. Doing so once more changes nothing.
    pub proof fn lemma_pass_through_deck(self)
        ensures
            ({
                let drawn = self.with_cards_turned(self.deck.len());
                let recycled = drawn.with_deck_refilled();
                &&& drawn.deck.len() == 0
                &&& drawn.turned == self.turned + turned_over(self.deck)
                &&& drawn.turned.len() == self.turned.len() + self.deck.len()
                &&& recycled.turned.len() == 0
                &&& recycled.deck.len() == drawn.turned.len()
                &&& forall|i: int|
                    0 <= i < recycled.deck.len() ==> #[trigger] recycled.deck[i]
                        == drawn.turned[i].stowed(lane_start(7))
                &&& recycled.with_deck_refilled() == recycled
            }),
    {
        self.lemma_turn_many(self.deck.len());
        assert(self.deck.skip(0) =~= self.deck);
        let drawn = self.with_cards_turned(self.deck.len());
        drawn.lemma_refill_twice();
    }

    /// Making the waste pile the deck twice in a row is the same as doing
    /// it once.
    pub proof fn lemma_refill_twice(self)
        ensures
            self.with_deck_refilled().with_deck_refilled() == self.with_deck_refilled(),
    {
        let once = self.with_deck_refilled();
        if once.deck.len() == 0 {
            assert(once.with_deck_refilled().deck =~= once.deck);
            assert(once.with_deck_refilled() =~= once);
        }
    }
}

} // verus!
