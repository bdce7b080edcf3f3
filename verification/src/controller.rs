//! The interaction controller: it turns what the pointer does into moves
//! on the board.
//!
//! A press on the waste pile lifts its top card into the hand, a press on
//! the deck turns a card. While the button is down the card in the hand
//! follows the pointer. A release lets the card go over the place under
//! the pointer; a release on the waste pile that no movement came before
//! is a click, which makes the waste pile the new deck.

use vstd::prelude::*;
use crate::areas::area_at;
use crate::board::{Board, BoardArea, BoardView, HandMemory};
use crate::conservation::{is_full_deck, lemma_board_identities_of_deck};
use crate::board::{lane_within_reach, within_reach};
use crate::rules::lemma_dealt_before;
use crate::{get_distance_to_card_origin, on_card, CARD_HEIGHT, CARD_WIDTH};

verus! {

/// What the pointer does in one frame.
#[derive(Debug, Clone, Copy, PartialEq, Eq, Structural)]
pub struct PointerSample {
    pub x: i32,
    pub y: i32,
    /// The button went down in this frame.
    pub pressed: bool,
    /// The button is down.
    pub down: bool,
    /// The button came up in this frame.
    pub released: bool,
}

/// The board together with what a drag has to remember: where on the card
/// the pointer took hold, and whether the pointer was seen down since.
#[derive(Debug)]
pub struct Controller {
    pub board: Board,
    pub distance_to_origin: (i64, i64),
    pub has_moved_after_click: bool,
}

/// The controller over the board's view.
#[verifier::ext_equal]
pub struct ControllerView {
    pub board: BoardView,
    pub distance_to_origin: (i64, i64),
    pub has_moved_after_click: bool,
}

impl View for Controller {
    type V = ControllerView;

    open spec fn view(&self) -> ControllerView {
        ControllerView {
            board: self.board@,
            distance_to_origin: self.distance_to_origin,
            has_moved_after_click: self.has_moved_after_click,
        }
    }
}

impl ControllerView {
    /// Whether a card is in the hand.
    pub open spec fn holding(self) -> bool {
        self.board.hand_memory.card.is_some()
    }

    /// What the controller keeps true from frame to frame: the board is
    /// playable, the pointer holds the card somewhere on its face, and a
    /// card in the hand was lifted from the waste pile.
    pub open spec fn wf(self) -> bool {
        &&& self.board.playable()
        &&& 0 <= self.distance_to_origin.0 < CARD_WIDTH
        &&& 0 <= self.distance_to_origin.1 < CARD_HEIGHT
        &&& self.holding() ==> self.board.hand_memory.previous_stack == BoardArea::Turned
    }

    /// Whether a press at `(x, y)` lifts a card: the hand is empty, the
    /// point lies on the waste pile's place, and the pile's top card is
    /// under it.
    pub open spec fn lifts(self, x: int, y: int) -> bool {
        &&& !self.holding()
        &&& area_at(x, y) == BoardArea::Turned
        &&& self.board.turned.len() > 0
        &&& on_card(self.board.turned.last().x as int, self.board.turned.last().y as int, x, y)
    }

    /// The controller after a press at `(x, y)`. With an empty hand, a
    /// press that lifts a card puts it in the hand and notes where the
    /// pointer took hold, and a press on the deck turns a card. Any other
    /// press changes nothing.
    pub open spec fn pressed(self, x: int, y: int) -> ControllerView {
        if self.lifts(x, y) {
            ControllerView {
                board: self.board.with_card_lifted(),
                distance_to_origin: (
                    (x - self.board.turned.last().x) as i64,
                    (y - self.board.turned.last().y) as i64,
                ),
                ..self
            }
        } else if !self.holding() && area_at(x, y) == BoardArea::Deck {
            ControllerView { board: self.board.with_card_turned(), ..self }
        } else {
            self
        }
    }

    /// The controller after the pointer was seen down at `(x, y)`: the
    /// card in the hand, if there is one, lies where the pointer holds it,
    /// and the pointer counts as moved.
    pub open spec fn dragged(self, x: int, y: int) -> ControllerView {
        ControllerView {
            board: match self.board.hand_memory.card {
                Some(card) => BoardView {
                    hand_memory: HandMemory {
                        card: Some(
                            card.at(x - self.distance_to_origin.0, y - self.distance_to_origin.1),
                        ),
                        ..self.board.hand_memory
                    },
                    ..self.board
                },
                None => self.board,
            },
            has_moved_after_click: true,
            ..self
        }
    }

    /// Whether a release at `(x, y)` is a click on the waste pile.
    pub open spec fn clicks_waste(self, x: int, y: int) -> bool {
        !self.has_moved_after_click && area_at(x, y) == BoardArea::Turned
    }

    /// The controller after a release at `(x, y)`. A click on the waste
    /// pile makes the waste pile the new deck if the deck is empty, and
    /// then puts the card in the hand back. Any other release drops the
    /// card in the hand on the place under the pointer. Either way the
    /// hand is empty afterwards and the drag is forgotten.
    pub open spec fn released(self, x: int, y: int) -> ControllerView {
        let board = if self.clicks_waste(x, y) {
            self.board.with_deck_refilled()
        } else {
            self.board
        };
        let settled = match self.board.hand_memory.card {
            Some(card) if self.clicks_waste(x, y) => board.with_card_returned(card),
            Some(card) => board.with_card_dropped(card, area_at(x, y)),
            None => board,
        };
        ControllerView {
            board: settled.with_empty_hand(),
            distance_to_origin: (0, 0),
            has_moved_after_click: false,
        }
    }

    /// The controller after one frame: first the press, then the button
    /// being down, then the release, each if the sample reports it.
    pub open spec fn sampled(self, sample: PointerSample) -> ControllerView {
        let a = if sample.pressed {
            self.pressed(sample.x as int, sample.y as int)
        } else {
            self
        };
        let b = if sample.down {
            a.dragged(sample.x as int, sample.y as int)
        } else {
            a
        };
        if sample.released {
            b.released(sample.x as int, sample.y as int)
        } else {
            b
        }
    }

    /// The controller after a run of frames.
    pub open spec fn played(self, samples: Seq<PointerSample>) -> ControllerView
        decreases samples.len(),
    {
        if samples.len() == 0 {
            self
        } else {
            self.played(samples.drop_last()).sampled(samples.last())
        }
    }
}

impl Controller {
    /// A controller for `board`, with no drag under way.
    pub fn new(board: Board) -> (controller: Controller)
        ensures
            controller@ == (ControllerView {
                board: board@,
                distance_to_origin: (0, 0),
                has_moved_after_click: false,
            }),
    {
        Controller { board, distance_to_origin: (0, 0), has_moved_after_click: false }
    }

    /// A controller for a new game: a shuffled deck of 52 cards, dealt.
    /// Lane `k` (counted from 0) holds `k + 1` cards, of which the last
    /// lies face up; the other 24 cards are in the deck.
    pub fn new_game() -> (controller: Controller)
        ensures
            controller@.wf(),
            !controller@.holding(),
            controller@.distance_to_origin == (0i64, 0i64),
            !controller@.has_moved_after_click,
            is_full_deck(controller@.board.identities()),
            controller@.board.tidy(),
            controller@.board.deck.len() == 24,
            controller@.board.turned.len() == 0,
            forall|k: int|
                0 <= k < 4 ==> (#[trigger] controller@.board.suit_stacks[k]).len() == 0,
            forall|k: int| 0 <= k < 7 ==> (#[trigger] controller@.board.playfield[k]).len() == k + 1,
            forall|k: int, j: int|
                0 <= k < 7 && 0 <= j <= k ==> (#[trigger] controller@.board.playfield[k][j]).is_turned
                    == (j == k),
    {
        let mut board = Board::new();
        let ghost empty = board@;
        board.initialize_deck();
        let ghost full = board@;
        board.initialize_playfield();
        proof {
            full.lemma_deal_shape();
            full.lemma_deal_conserves();
            lemma_board_identities_of_deck(empty, full);
            lemma_dealt_before();
            assert forall|k: int| 0 <= k < 7 implies lane_within_reach(
                #[trigger] board@.playfield[k],
            ) by {
                assert forall|j: int| 0 <= j < board@.playfield[k].len() implies within_reach(
                    #[trigger] board@.playfield[k][j],
                    j,
                ) by {
                    assert(board@.playfield[k][j] == full.dealt_card(k, j));
                }
            }
        }
        Controller::new(board)
    }

    /// Tells whether the controller is well formed, which is what
    /// `mouse_down`, `mouse_released` and `update` ask for.
    pub fn is_well_formed(&self) -> (ok: bool)
        ensures
            ok == self@.wf(),
    {
        let (dx, dy) = self.distance_to_origin;
        let from_waste = match self.board.hand_memory.card {
            Some(_) => self.board.hand_memory.previous_stack == BoardArea::Turned,
            None => true,
        };
        self.board.is_playable() && 0 <= dx && dx < CARD_WIDTH && 0 <= dy && dy < CARD_HEIGHT
            && from_waste
    }

    /// Takes note of a press of the button at `(x, y)`.
    pub fn mouse_pressed(&mut self, x: i32, y: i32)
        ensures
            final(self)@ == old(self)@.pressed(x as int, y as int),
            final(self)@.board.identities() == old(self)@.board.identities(),
            old(self)@.wf() ==> final(self)@.wf(),
            old(self)@.wf() && old(self)@.board.tidy()
                ==> final(self)@.board.tidy(),
    {
        proof {
            self@.lemma_press_conserves(x as int, y as int);
            if self@.wf() && self@.board.tidy() {
                self@.lemma_stays_tidy(x as int, y as int);
            }
        }
        if self.board.hand_memory.card.is_some() {
            return;
        }
        match Board::get_current_mouse_location(x, y) {
            BoardArea::Turned => {
                let len = self.board.turned.len();
                if len > 0 {
                    let top = self.board.turned[len - 1];
                    if let Some(distance) = get_distance_to_card_origin(&top, x, y) {
                        self.board.turned.pop();
                        self.distance_to_origin = distance;
                        self.board.hand_memory.card = Some(top);
                        self.board.hand_memory.previous_stack = BoardArea::Turned;
                        assert(self@.board.playfield =~= old(self)@.board.playfield);
                        assert(self@.board.suit_stacks =~= old(self)@.board.suit_stacks);
                    }
                }
            },
            BoardArea::Deck => {
                self.board.turn_card();
            },
            _ => {},
        }
    }

    /// Takes note of the button being down with the pointer at `(x, y)`.
    pub fn mouse_down(&mut self, x: i32, y: i32)
        requires
            old(self)@.wf(),
        ensures
            final(self)@ == old(self)@.dragged(x as int, y as int),
            final(self)@.board.identities() == old(self)@.board.identities(),
            final(self)@.wf(),
            old(self)@.board.tidy() ==> final(self)@.board.tidy(),
    {
        proof {
            if self@.board.tidy() {
                self@.lemma_stays_tidy(x as int, y as int);
            }
        }
        let (dx, dy) = self.distance_to_origin;
        if let Some(card) = self.board.hand_memory.card {
            let mut card = card;
            card.update_pos(x as i64 - dx, y as i64 - dy);
            self.board.hand_memory.card = Some(card);
        }
        if !self.has_moved_after_click {
            self.has_moved_after_click = true;
        }
        assert(self@.board.playfield =~= old(self)@.board.playfield);
        assert(self@.board.suit_stacks =~= old(self)@.board.suit_stacks);
    }

    /// Takes note of a release of the button at `(x, y)`.
    pub fn mouse_released(&mut self, x: i32, y: i32)
        requires
            old(self)@.wf(),
        ensures
            final(self)@ == old(self)@.released(x as int, y as int),
            final(self)@.board.identities() == old(self)@.board.identities(),
            final(self)@.wf(),
            !final(self)@.holding(),
            old(self)@.board.tidy() ==> final(self)@.board.tidy(),
    {
        proof {
            self@.lemma_release_conserves(x as int, y as int);
            self@.lemma_release_keeps_wf(x as int, y as int);
            if self@.board.tidy() {
                self@.lemma_stays_tidy(x as int, y as int);
            }
        }
        let area = Board::get_current_mouse_location(x, y);
        let click = !self.has_moved_after_click && area == BoardArea::Turned;
        if click {
            self.board.refill_deck();
        }
        if let Some(card) = self.board.hand_memory.card {
            self.board.hand_memory.card = None;
            if click {
                self.board.return_card_to_previous_stack(card);
            } else {
                match area {
                    BoardArea::SuitStack(n) => {
                        self.board.add_card_to_suit(card, n);
                    },
                    BoardArea::Lane(n) => {
                        self.board.add_card_to_lane(card, n);
                    },
                    _ => {
                        self.board.return_card_to_previous_stack(card);
                    },
                }
            }
        }
        self.distance_to_origin = (0, 0);
        self.has_moved_after_click = false;
        self.board.hand_memory.previous_stack = BoardArea::Nowhere;
    }

    /// Takes note of one frame's sample: of the press, then of the button
    /// being down, then of the release, each if the sample reports it.
    pub fn update(&mut self, sample: PointerSample)
        requires
            old(self)@.wf(),
        ensures
            final(self)@ == old(self)@.sampled(sample),
            final(self)@.board.identities() == old(self)@.board.identities(),
            final(self)@.wf(),
            old(self)@.board.tidy() ==> final(self)@.board.tidy(),
    {
        if sample.pressed {
            self.mouse_pressed(sample.x, sample.y);
        }
        if sample.down {
            self.mouse_down(sample.x, sample.y);
        }
        if sample.released {
            self.mouse_released(sample.x, sample.y);
        }
    }
}

} // verus!
