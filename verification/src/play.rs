//! What holds of the controller whatever the pointer does: no card is
//! lost or made, the controller stays well formed, and the board stays
//! tidy. And what the two gestures do: a click on the waste pile, and a
//! drag from it.

use vstd::prelude::*;
use crate::areas::{area_at, lemma_area_in_range};
use crate::board::{BoardArea, BoardView};
use crate::card::Card;
use crate::conservation::{is_full_deck, lemma_full_deck_size};
use crate::controller::{ControllerView, PointerSample};
use crate::conservation::{identities, pile_identities};
use crate::{lane_start, CARD_HEIGHT, CARD_WIDTH, PADDING};

verus! {

impl ControllerView {
    /// A press keeps the cards of the board.
    pub proof fn lemma_press_conserves(self, x: int, y: int)
        ensures
            self.pressed(x, y).board.identities() == self.board.identities(),
    {
        if self.lifts(x, y) {
            self.board.lemma_lift_conserves();
        } else {
            self.board.lemma_turn_conserves();
        }
    }

    /// Dragging the card in the hand keeps the cards of the board.
    pub proof fn lemma_drag_conserves(self, x: int, y: int)
        ensures
            self.dragged(x, y).board.identities() == self.board.identities(),
    {
    }

    /// A release keeps the cards of the board: the card in the hand
    /// comes to lie on one of the piles.
    pub proof fn lemma_release_conserves(self, x: int, y: int)
        requires
            self.wf(),
        ensures
            self.released(x, y).board.identities() == self.board.identities(),
    {
        broadcast use vstd::multiset::group_multiset_axioms;

        let board = if self.clicks_waste(x, y) {
            self.board.with_deck_refilled()
        } else {
            self.board
        };
        self.board.lemma_refill_conserves();
        match self.board.hand_memory.card {
            Some(card) => {
                lemma_area_in_range(x, y);
                board.lemma_return_gains(card);
                board.lemma_drop_gains(card, area_at(x, y));
                let settled = if self.clicks_waste(x, y) {
                    board.with_card_returned(card)
                } else {
                    board.with_card_dropped(card, area_at(x, y))
                };
                assert(settled.hand_memory == self.board.hand_memory);
                assert(settled.identities() == self.board.identities().insert(card.identity()));
                let piles = identities(settled.deck).add(identities(settled.turned)).add(
                    pile_identities(settled.playfield),
                ).add(pile_identities(settled.suit_stacks));
                assert(settled.identities() =~= piles.insert(card.identity()));
                assert(settled.with_empty_hand().identities() =~= piles);
                assert(piles =~= piles.insert(card.identity()).remove(card.identity()));
                assert(self.board.identities() =~= self.board.identities().insert(
                    card.identity(),
                ).remove(card.identity()));
                assert(self.released(x, y).board == settled.with_empty_hand());
            },
            None => {
                assert(self.released(x, y).board.identities() =~= self.board.identities());
            },
        }
    }

    /// A frame keeps the cards of the board.
    pub proof fn lemma_sample_conserves(self, sample: PointerSample)
        requires
            self.wf(),
        ensures
            self.sampled(sample).board.identities() == self.board.identities(),
    {
        let x = sample.x as int;
        let y = sample.y as int;
        let a = if sample.pressed {
            self.pressed(x, y)
        } else {
            self
        };
        let b = if sample.down {
            a.dragged(x, y)
        } else {
            a
        };
        self.lemma_press_conserves(x, y);
        a.lemma_drag_conserves(x, y);
        self.lemma_press_keeps_wf(x, y);
        a.lemma_drag_keeps_wf(x, y);
        b.lemma_release_conserves(x, y);
    }

    /// A release leaves the controller well formed.
    pub proof fn lemma_release_keeps_wf(self, x: int, y: int)
        requires
            self.wf(),
        ensures
            self.released(x, y).wf(),
    {
    }

    /// A press, a drag and a release each leave a tidy board tidy.
    pub proof fn lemma_stays_tidy(self, x: int, y: int)
        requires
            self.wf(),
            self.board.tidy(),
        ensures
            self.pressed(x, y).board.tidy(),
            self.dragged(x, y).board.tidy(),
            self.released(x, y).board.tidy(),
    {
        lemma_area_in_range(x, y);
    }

    /// A frame leaves the controller well formed.
    pub proof fn lemma_sample_keeps_wf(self, sample: PointerSample)
        requires
            self.wf(),
        ensures
            self.sampled(sample).wf(),
    {
        let x = sample.x as int;
        let y = sample.y as int;
        let a = if sample.pressed {
            self.pressed(x, y)
        } else {
            self
        };
        let b = if sample.down {
            a.dragged(x, y)
        } else {
            a
        };
        self.lemma_press_keeps_wf(x, y);
        a.lemma_drag_keeps_wf(x, y);
        b.lemma_release_keeps_wf(x, y);
    }

    /// A frame leaves a tidy board tidy.
    pub proof fn lemma_sample_keeps_tidy(self, sample: PointerSample)
        requires
            self.wf(),
            self.board.tidy(),
        ensures
            self.sampled(sample).board.tidy(),
    {
        let x = sample.x as int;
        let y = sample.y as int;
        let a = if sample.pressed {
            self.pressed(x, y)
        } else {
            self
        };
        let b = if sample.down {
            a.dragged(x, y)
        } else {
            a
        };
        self.lemma_press_keeps_wf(x, y);
        a.lemma_drag_keeps_wf(x, y);
        self.lemma_stays_tidy(x, y);
        a.lemma_stays_tidy(x, y);
        b.lemma_stays_tidy(x, y);
    }

    /// Whatever the pointer does, for however long: a well-formed
    /// controller stays well formed, the board keeps its cards, and a tidy
    /// board stays tidy. A game that starts with a full deck therefore
    /// has, in every state it can come to, every card of the deck exactly
    /// once, 52 in all.
    pub proof fn lemma_play_keeps_the_game(self, samples: Seq<PointerSample>)
        requires
            self.wf(),
        ensures
            self.played(samples).wf(),
            self.played(samples).board.identities() == self.board.identities(),
            is_full_deck(self.board.identities()) ==> is_full_deck(
                self.played(samples).board.identities(),
            ) && self.played(samples).board.card_count() == 52,
            self.board.tidy() ==> self.played(samples).board.tidy(),
        decreases samples.len(),
    {
        if samples.len() > 0 {
            let before = self.played(samples.drop_last());
            self.lemma_play_keeps_the_game(samples.drop_last());
            before.lemma_sample_keeps_wf(samples.last());
            before.lemma_sample_conserves(samples.last());
            if self.board.tidy() {
                before.lemma_sample_keeps_tidy(samples.last());
            }
        }
        if is_full_deck(self.board.identities()) {
            self.played(samples).board.lemma_card_count();
            lemma_full_deck_size(self.played(samples).board.identities());
        }
    }

    /// A press leaves the controller well formed.
    pub proof fn lemma_press_keeps_wf(self, x: int, y: int)
        requires
            self.wf(),
        ensures
            self.pressed(x, y).wf(),
    {
    }

    /// A drag by a pointer on the screen leaves the controller well
    /// formed.
    pub proof fn lemma_drag_keeps_wf(self, x: int, y: int)
        requires
            self.wf(),
            i32::MIN <= x <= i32::MAX,
            i32::MIN <= y <= i32::MAX,
        ensures
            self.dragged(x, y).wf(),
    {
    }
}

impl BoardView {
    /// Lifting the top card of the waste pile and putting it back, from
    /// wherever it was carried to, undoes the lifting, if the card lay at
    /// the waste pile's place.
    pub proof fn lemma_lift_and_return(self, x: int, y: int)
        requires
            self.turned.len() > 0,
            self.turned.last().x == lane_start(6),
            self.turned.last().y == PADDING,
        ensures
            self.with_card_lifted().with_card_returned(
                self.turned.last().at(x, y),
            ).with_empty_hand() == self.with_empty_hand(),
    {
        let back = self.with_card_lifted().with_card_returned(
            self.turned.last().at(x, y),
        ).with_empty_hand();
        assert(back.turned =~= self.turned);
        assert(back =~= self.with_empty_hand());
    }
}

impl ControllerView {
    /// Whether the place under `(x, y)` refuses the card in the hand: it
    /// is a lane or a suit stack that does not accept the card, or no
    /// such pile at all.
    pub open spec fn refuses(self, x: int, y: int) -> bool {
        self.board.hand_memory.card matches Some(card) && match area_at(x, y) {
            BoardArea::Lane(n) => !self.board.lane_accepts(card, n as int),
            BoardArea::SuitStack(n) => !self.board.suit_stack_accepts(card, n as int),
            _ => true,
        }
    }

    /// A card let go over a place that refuses it goes back to the pile
    /// that the hand remembers, and nothing else changes on the board.
    pub proof fn lemma_refused_card_returns(self, x: int, y: int)
        requires
            self.refuses(x, y),
            !self.clicks_waste(x, y),
        ensures
            self.released(x, y).board == self.board.with_card_returned(
                self.board.hand_memory.card.unwrap(),
            ).with_empty_hand(),
    {
    }

    /// A card that is lifted from the waste pile, dragged, and let go
    /// over a place that refuses it lies afterwards where it lay before,
    /// and so does every other card.
    pub proof fn lemma_refused_drag_restores(
        self,
        x: int,
        y: int,
        x1: int,
        y1: int,
        x2: int,
        y2: int,
    )
        requires
            self.lifts(x, y),
            self.board.turned.last().x == lane_start(6),
            self.board.turned.last().y == PADDING,
            self.pressed(x, y).dragged(x1, y1).refuses(x2, y2),
        ensures
            self.pressed(x, y).dragged(x1, y1).released(x2, y2).board
                == self.board.with_empty_hand(),
    {
        let dragged = self.pressed(x, y).dragged(x1, y1);
        let card = dragged.board.hand_memory.card.unwrap();
        dragged.lemma_refused_card_returns(x2, y2);
        let top = self.board.turned.last();
        let dx = dragged.distance_to_origin.0;
        let dy = dragged.distance_to_origin.1;
        assert(card == top.at(x1 - dx, y1 - dy));
        self.board.lemma_lift_and_return((x1 - dx) as i64 as int, (y1 - dy) as i64 as int);
        assert(card == top.at((x1 - dx) as i64 as int, (y1 - dy) as i64 as int));
        let back = dragged.board.with_card_returned(card).with_empty_hand();
        assert(back.turned =~= self.board.turned);
        assert(back =~= self.board.with_empty_hand());
    }

    /// A press and a release on the waste pile with no movement between
    /// them is a click: no card goes to a lane or a suit stack, and the
    /// card that the press lifted, if any, lies on top of the waste pile
    /// again, at the pile's place. With cards left in the deck nothing
    /// else happens. With an empty deck the rest of the waste pile becomes
    /// the deck, in the same order and face down.
    pub proof fn lemma_click_on_waste(self, x: int, y: int, x2: int, y2: int)
        requires
            !self.holding(),
            !self.has_moved_after_click,
            area_at(x, y) == BoardArea::Turned,
            area_at(x2, y2) == BoardArea::Turned,
        ensures
            ({
                let after = self.pressed(x, y).released(x2, y2).board;
                let rest = if self.lifts(x, y) {
                    self.board.turned.drop_last()
                } else {
                    self.board.turned
                };
                let back = if self.lifts(x, y) {
                    seq![BoardView::card_on_waste(self.board.turned.last())]
                } else {
                    Seq::empty()
                };
                &&& after.playfield == self.board.playfield
                &&& after.suit_stacks == self.board.suit_stacks
                &&& after.hand_memory.card.is_none()
                &&& self.board.deck.len() > 0 ==> after.deck == self.board.deck && after.turned
                    == rest + back
                &&& self.board.deck.len() == 0 ==> after.deck == rest.map_values(
                    |c: Card| c.stowed(lane_start(7)),
                ) && after.turned == back
            }),
    {
        let after = self.pressed(x, y).released(x2, y2).board;
        if self.lifts(x, y) {
            let top = BoardView::card_on_waste(self.board.turned.last());
            assert(self.board.turned.drop_last().push(top) =~= self.board.turned.drop_last()
                + seq![top]);
            assert(Seq::<Card>::empty().push(top) =~= seq![top]);
        } else {
            assert(self.board.turned + Seq::<Card>::empty() =~= self.board.turned);
        }
    }

    /// A card that is lifted from the waste pile, dragged, and let go
    /// over lane `n` is offered to that lane: the lane takes it if the
    /// rules allow, else the card goes back to the waste pile.
    pub proof fn lemma_drag_to_lane(
        self,
        x: int,
        y: int,
        x1: int,
        y1: int,
        x2: int,
        y2: int,
        n: int,
    )
        requires
            self.lifts(x, y),
            1 <= n <= 7,
            area_at(x2, y2) == BoardArea::Lane(n as usize),
        ensures
            ({
                let lifted = self.board.with_card_lifted();
                let card = self.board.turned.last().at(
                    x1 - (x - self.board.turned.last().x),
                    y1 - (y - self.board.turned.last().y),
                );
                let after = self.pressed(x, y).dragged(x1, y1).released(x2, y2);
                after.board == if lifted.lane_accepts(card, n) {
                    lifted.with_card_in_lane(card, n).with_empty_hand()
                } else {
                    lifted.with_card_on_waste(card).with_empty_hand()
                }
            }),
    {
        let lifted = self.board.with_card_lifted();
        let top = self.board.turned.last();
        let card = top.at(x1 - (x - top.x), y1 - (y - top.y));
        let dragged = self.pressed(x, y).dragged(x1, y1);
        assert(0 <= x - top.x < CARD_WIDTH && 0 <= y - top.y < CARD_HEIGHT);
        assert(dragged.board.hand_memory.card == Some(card));
        let after = dragged.released(x2, y2);
        if lifted.lane_accepts(card, n) {
            assert(after.board =~= lifted.with_card_in_lane(card, n).with_empty_hand());
        } else {
            assert(after.board =~= lifted.with_card_on_waste(card).with_empty_hand());
        }
    }
}

} // verus!
