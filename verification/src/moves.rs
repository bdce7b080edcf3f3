//! The moves: laying a card on a lane or a suit stack, taking it back,
//! turning a card of the deck, and making the waste pile the deck again.

use vstd::prelude::*;
use crate::board::{Board, BoardArea};
use crate::card::Card;
use crate::{get_lane_range, lane_start, PADDING, TOP_ROW_RANGE};

verus! {

impl Board {
    /// Tells whether lane `lane_number` takes `card`: an empty lane takes
    /// any card, another one a card of the other colour that is one rank
    /// below its top card.
    pub fn lane_accepts(&self, card: &Card, lane_number: usize) -> (ok: bool)
        requires
            1 <= lane_number <= 7,
        ensures
            ok == self@.lane_accepts(*card, lane_number as int),
    {
        let lane = &self.playfield[lane_number - 1];
        if lane.len() == 0 {
            return true;
        }
        let top = &lane[lane.len() - 1];
        let is_opposite_suit = card.suit.red() != top.suit.red();
        let can_stack = card.rank.is_followed_by(top.rank);
        is_opposite_suit && can_stack
    }

    /// Tells whether suit stack `stack_number` takes `card`: an empty
    /// stack takes any card, another one the card of its top card's suit
    /// that is one rank above it.
    pub fn suit_stack_accepts(&self, card: &Card, stack_number: usize) -> (ok: bool)
        requires
            1 <= stack_number <= 4,
        ensures
            ok == self@.suit_stack_accepts(*card, stack_number as int),
    {
        let stack = &self.suit_stacks[stack_number - 1];
        if stack.len() == 0 {
            return true;
        }
        let top = &stack[stack.len() - 1];
        let can_stack = top.rank.is_followed_by(card.rank);
        can_stack && card.suit == top.suit
    }

    /// Tells whether the place below the top card of lane `lane_number`
    /// can be written down as a position.
    pub fn lane_has_room(&self, lane_number: usize) -> (ok: bool)
        requires
            1 <= lane_number <= 7,
        ensures
            ok == self@.lane_has_room(lane_number as int),
    {
        let lane = &self.playfield[lane_number - 1];
        lane.len() == 0 || lane[lane.len() - 1].y <= i64::MAX - PADDING
    }

    /// Tells whether the place that the hand remembers can take `card`
    /// back, which is what the functions that may have to return a card
    /// ask for.
    pub fn takes_back(&self, card: &Card) -> (ok: bool)
        ensures
            ok == self@.takes_back(*card),
    {
        match self.hand_memory.previous_stack {
            BoardArea::Lane(n) => 1 <= n && n <= 7 && self.lane_accepts(card, n)
                && self.lane_has_room(n),
            BoardArea::SuitStack(n) => 1 <= n && n <= 4 && self.suit_stack_accepts(card, n),
            _ => true,
        }
    }

    /// Lays `card` on lane `lane_number`, a step below the lane's top
    /// card.
    fn put_in_lane(&mut self, card: Card, lane_number: usize)
        requires
            1 <= lane_number <= 7,
            old(self)@.lane_has_room(lane_number as int),
        ensures
            final(self)@ == old(self)@.with_card_in_lane(card, lane_number as int),
    {
        let mut card = card;
        let len = self.playfield[lane_number - 1].len();
        if len > 0 {
            let top = self.playfield[lane_number - 1][len - 1];
            card.update_pos(top.x, top.y + PADDING);
        }
        self.playfield[lane_number - 1].push(card);
        assert(self@.playfield =~= old(self)@.with_card_in_lane(
            card,
            lane_number as int,
        ).playfield);
        assert(self@.suit_stacks =~= old(self)@.suit_stacks);
    }

    /// Lays `card` on suit stack `stack_number`, exactly on its top card.
    fn put_on_suit_stack(&mut self, card: Card, stack_number: usize)
        requires
            1 <= stack_number <= 4,
        ensures
            final(self)@ == old(self)@.with_card_on_suit_stack(card, stack_number as int),
    {
        let mut card = card;
        let len = self.suit_stacks[stack_number - 1].len();
        if len > 0 {
            let top = self.suit_stacks[stack_number - 1][len - 1];
            card.update_pos(top.x, top.y);
        }
        self.suit_stacks[stack_number - 1].push(card);
        assert(self@.suit_stacks =~= old(self)@.with_card_on_suit_stack(
            card,
            stack_number as int,
        ).suit_stacks);
        assert(self@.playfield =~= old(self)@.playfield);
    }

    /// Moves `card` onto lane `lane_number` if the lane takes it, and
    /// says whether it did. A card that the lane refuses goes back to the
    /// place that the hand remembers.
    pub fn add_card_to_lane(&mut self, card: Card, lane_number: usize) -> (placed: bool)
        requires
            1 <= lane_number <= 7,
            old(self)@.lane_accepts(card, lane_number as int) ==> old(self)@.lane_has_room(
                lane_number as int,
            ),
            !old(self)@.lane_accepts(card, lane_number as int) ==> old(self)@.takes_back(card),
        ensures
            placed == old(self)@.lane_accepts(card, lane_number as int),
            placed ==> final(self)@ == old(self)@.with_card_in_lane(card, lane_number as int),
            !placed ==> final(self)@ == old(self)@.with_card_returned(card),
            placed || old(self)@.remembers_a_pile() ==> final(self)@.identities() == old(
                self,
            )@.identities().insert(card.identity()),
    {
        proof {
            self@.lemma_lane_gains(card, lane_number as int);
        }
        if !self.lane_accepts(&card, lane_number) {
            self.return_card_to_previous_stack(card);
            return false;
        }
        self.put_in_lane(card, lane_number);
        true
    }

    /// Moves `card` onto suit stack `stack_number` if the stack takes it,
    /// and says whether it did. A card that the stack refuses goes back to
    /// the place that the hand remembers.
    pub fn add_card_to_suit(&mut self, card: Card, stack_number: usize) -> (placed: bool)
        requires
            1 <= stack_number <= 4,
            !old(self)@.suit_stack_accepts(card, stack_number as int) ==> old(self)@.takes_back(
                card,
            ),
        ensures
            placed == old(self)@.suit_stack_accepts(card, stack_number as int),
            placed ==> final(self)@ == old(self)@.with_card_on_suit_stack(
                card,
                stack_number as int,
            ),
            !placed ==> final(self)@ == old(self)@.with_card_returned(card),
            placed || old(self)@.remembers_a_pile() ==> final(self)@.identities() == old(
                self,
            )@.identities().insert(card.identity()),
    {
        proof {
            self@.lemma_suit_stack_gains(card, stack_number as int);
        }
        if !self.suit_stack_accepts(&card, stack_number) {
            self.return_card_to_previous_stack(card);
            return false;
        }
        self.put_on_suit_stack(card, stack_number);
        true
    }

    /// Puts `card` back where the hand remembers having taken it from: on
    /// that lane or suit stack, or on the waste pile at the pile's place.
    /// A card remembered as taken from the deck or from nowhere is put
    /// nowhere. The answer is always `true`.
    pub fn return_card_to_previous_stack(&mut self, card: Card) -> (done: bool)
        requires
            old(self)@.takes_back(card),
        ensures
            done,
            final(self)@ == old(self)@.with_card_returned(card),
            old(self)@.remembers_a_pile() ==> final(self)@.identities() == old(
                self,
            )@.identities().insert(card.identity()),
    {
        proof {
            if self@.remembers_a_pile() {
                self@.lemma_return_gains(card);
            }
        }
        match self.hand_memory.previous_stack {
            BoardArea::Lane(x) => {
                self.put_in_lane(card, x);
            },
            BoardArea::SuitStack(x) => {
                self.put_on_suit_stack(card, x);
            },
            BoardArea::Turned => {
                let mut card = card;
                card.update_pos(get_lane_range(6).start, TOP_ROW_RANGE.start);
                self.turned.push(card);
                assert(self@.playfield =~= old(self)@.playfield);
                assert(self@.suit_stacks =~= old(self)@.suit_stacks);
            },
            _ => {},
        }
        true
    }
}

impl Board {
    /// Turns the top card of the deck face up onto the waste pile. With an
    /// empty deck nothing happens.
    pub fn turn_card(&mut self)
        ensures
            final(self)@ == old(self)@.with_card_turned(),
            final(self)@.identities() == old(self)@.identities(),
    {
        proof {
            self@.lemma_turn_conserves();
        }
        if let Some(mut card) = self.deck.pop() {
            card.is_hidden = false;
            card.is_turned = true;
            card.x = get_lane_range(6).start;
            self.turned.push(card);
            assert(self@.playfield =~= old(self)@.playfield);
            assert(self@.suit_stacks =~= old(self)@.suit_stacks);
        }
    }

    /// Makes the waste pile the new deck, in the same order and face down.
    /// Unless the deck is empty nothing happens.
    pub fn refill_deck(&mut self)
        ensures
            final(self)@ == old(self)@.with_deck_refilled(),
            final(self)@.identities() == old(self)@.identities(),
    {
        proof {
            self@.lemma_refill_conserves();
        }
        if self.deck.len() == 0 {
            self.deck.append(&mut self.turned);
            let mut i: usize = 0;
            while i < self.deck.len()
                invariant
                    i <= self.deck@.len(),
                    self.deck@.len() == old(self).turned@.len(),
                    self.turned@.len() == 0,
                    self.playfield == old(self).playfield,
                    self.suit_stacks == old(self).suit_stacks,
                    self.hand_memory == old(self).hand_memory,
                    forall|j: int|
                        0 <= j < i ==> self.deck@[j] == old(self).turned@[j].stowed(
                            lane_start(7),
                        ),
                    forall|j: int| i <= j < self.deck@.len() ==> self.deck@[j] == old(
                        self,
                    ).turned@[j],
                decreases self.deck@.len() - i,
            {
                let mut card = self.deck[i];
                card.is_hidden = false;
                card.is_turned = false;
                card.x = get_lane_range(7).start;
                self.deck[i] = card;
                i += 1;
            }
            assert(self@.deck =~= old(self)@.with_deck_refilled().deck);
            assert(self@.turned =~= Seq::<Card>::empty());
            assert(self@.playfield =~= old(self)@.playfield);
            assert(self@.suit_stacks =~= old(self)@.suit_stacks);
        }
    }
}

} // verus!
