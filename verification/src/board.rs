//! The board: where every card is.

use vstd::prelude::*;
use crate::card::Card;
use crate::{lane_start, PADDING};

verus! {

/// A place on the board. Lanes count from 1 to 7, suit stacks from 1 to 4.
/// `Nowhere` stands for empty space, and for "taken from nowhere".
#[derive(Debug, Clone, Copy, PartialEq, Eq, Structural)]
pub enum BoardArea {
    Deck,
    Lane(usize),
    Nowhere,
    SuitStack(usize),
    Turned,
}

/// The card in the player's hand, and the place it was lifted from.
#[derive(Debug, Clone, Copy)]
pub struct HandMemory {
    pub card: Option<Card>,
    pub previous_stack: BoardArea,
}

/// All the cards of a game. The top of every pile is its last element.
#[derive(Debug, Clone)]
pub struct Board {
    pub deck: Vec<Card>,
    pub playfield: [Vec<Card>; 7],
    pub suit_stacks: [Vec<Card>; 4],
    pub turned: Vec<Card>,
    pub hand_memory: HandMemory,
}

/// The board as plain sequences.
#[verifier::ext_equal]
pub struct BoardView {
    pub deck: Seq<Card>,
    pub playfield: Seq<Seq<Card>>,
    pub suit_stacks: Seq<Seq<Card>>,
    pub turned: Seq<Card>,
    pub hand_memory: HandMemory,
}

impl View for Board {
    type V = BoardView;

    open spec fn view(&self) -> BoardView {
        BoardView {
            deck: self.deck@,
            playfield: Seq::new(7, |k: int| self.playfield[k]@),
            suit_stacks: Seq::new(4, |k: int| self.suit_stacks[k]@),
            turned: self.turned@,
            hand_memory: self.hand_memory,
        }
    }
}

/// How far from the screen's origin, in either direction, a card may lie
/// that is not in a lane. The positions that a pointer can drag a card to
/// are within this reach.
pub const REACH: i64 = 0x1_0000_0000;

/// The number of cards in a standard deck.
pub const DECK_SIZE: usize = 52;

/// Whether `card` lies within reach as card `index` of a lane, counted
/// from 0: a card in a lane may lie a step further down for every card
/// above which it lies.
pub open spec fn within_reach(card: Card, index: int) -> bool {
    -REACH <= card.x <= REACH && -REACH <= card.y <= REACH + PADDING * index
}

/// Whether all cards of a pile that is no lane lie within reach.
pub open spec fn pile_within_reach(cards: Seq<Card>) -> bool {
    forall|i: int| 0 <= i < cards.len() ==> within_reach(#[trigger] cards[i], 0)
}

/// Whether all cards of a lane lie within reach.
pub open spec fn lane_within_reach(cards: Seq<Card>) -> bool {
    forall|i: int| 0 <= i < cards.len() ==> within_reach(#[trigger] cards[i], i)
}

impl BoardView {
    /// Seven lanes and four suit stacks.
    pub open spec fn wf(self) -> bool {
        self.playfield.len() == 7 && self.suit_stacks.len() == 4
    }

    /// The number of cards on the board, the card in the hand included.
    pub open spec fn card_count(self) -> int {
        self.deck.len() + self.turned.len() + self.playfield[0].len() + self.playfield[1].len()
            + self.playfield[2].len() + self.playfield[3].len() + self.playfield[4].len()
            + self.playfield[5].len() + self.playfield[6].len() + self.suit_stacks[0].len()
            + self.suit_stacks[1].len() + self.suit_stacks[2].len() + self.suit_stacks[3].len()
            + if self.hand_memory.card.is_some() {
            1int
        } else {
            0int
        }
    }

    /// A board on which a game can go on for ever: it has seven lanes and
    /// four suit stacks, no more cards than a deck has, and every card
    /// within reach.
    pub open spec fn playable(self) -> bool {
        &&& self.wf()
        &&& self.card_count() <= DECK_SIZE
        &&& pile_within_reach(self.deck)
        &&& pile_within_reach(self.turned)
        &&& forall|k: int| 0 <= k < 7 ==> lane_within_reach(#[trigger] self.playfield[k])
        &&& forall|k: int| 0 <= k < 4 ==> pile_within_reach(#[trigger] self.suit_stacks[k])
        &&& self.hand_memory.card matches Some(card) ==> within_reach(card, 0)
    }

    /// Whether the board is tidy. The cards that the player can reach lie
    /// face up: those of the waste pile, the top card of every lane and of
    /// every suit stack, and the card in the hand. The cards of the waste
    /// pile lie at the pile's place, and those of the deck in the top row.
    pub open spec fn tidy(self) -> bool {
        &&& forall|i: int|
            0 <= i < self.turned.len() ==> {
                &&& (#[trigger] self.turned[i]).is_turned
                &&& self.turned[i].x == lane_start(6)
                &&& self.turned[i].y == PADDING
            }
        &&& forall|i: int| 0 <= i < self.deck.len() ==> (#[trigger] self.deck[i]).y == PADDING
        &&& forall|k: int|
            0 <= k < 7 && (#[trigger] self.playfield[k]).len() > 0
                ==> self.playfield[k].last().is_turned
        &&& forall|k: int|
            0 <= k < 4 && (#[trigger] self.suit_stacks[k]).len() > 0
                ==> self.suit_stacks[k].last().is_turned
        &&& self.hand_memory.card matches Some(card) ==> card.is_turned
    }
}

impl Board {
    /// An empty board with an empty hand.
    pub fn new() -> (board: Board)
        ensures
            board@.deck.len() == 0,
            board@.turned.len() == 0,
            forall|k: int| 0 <= k < 7 ==> (#[trigger] board@.playfield[k]).len() == 0,
            forall|k: int| 0 <= k < 4 ==> (#[trigger] board@.suit_stacks[k]).len() == 0,
            board@.hand_memory.card.is_none(),
            board@.hand_memory.previous_stack == BoardArea::Nowhere,
    {
        Board {
            deck: Vec::new(),
            playfield: [
                Vec::new(),
                Vec::new(),
                Vec::new(),
                Vec::new(),
                Vec::new(),
                Vec::new(),
                Vec::new(),
            ],
            suit_stacks: [Vec::new(), Vec::new(), Vec::new(), Vec::new()],
            turned: Vec::new(),
            hand_memory: HandMemory { card: None, previous_stack: BoardArea::Nowhere },
        }
    }

}

/// Tells whether all cards of `cards` lie within reach, as the cards of a
/// lane if `in_lane` is set, else as those of any other pile.
fn pile_is_within_reach(cards: &Vec<Card>, in_lane: bool) -> (ok: bool)
    ensures
        ok == if in_lane {
            lane_within_reach(cards@)
        } else {
            pile_within_reach(cards@)
        },
{
    let mut i: usize = 0;
    while i < cards.len()
        invariant
            i <= cards@.len(),
            forall|j: int|
                0 <= j < i ==> within_reach(
                    #[trigger] cards@[j],
                    if in_lane {
                        j
                    } else {
                        0
                    },
                ),
        decreases cards@.len() - i,
    {
        let card = &cards[i];
        let step: i128 = if in_lane {
            i as i128
        } else {
            0
        };
        let lowest: i128 = REACH as i128 + PADDING as i128 * step;
        if card.x < -REACH || card.x > REACH || card.y < -REACH || card.y as i128 > lowest {
            return false;
        }
        i += 1;
    }
    true
}

impl Board {
    /// Tells whether a game can go on for ever on this board: it holds no
    /// more cards than a deck has, and every card lies within reach.
    pub fn is_playable(&self) -> (ok: bool)
        ensures
            ok == self@.playable(),
    {
        let held: u128 = if self.hand_memory.card.is_some() {
            1
        } else {
            0
        };
        let count: u128 = self.deck.len() as u128 + self.turned.len() as u128
            + self.playfield[0].len() as u128 + self.playfield[1].len() as u128
            + self.playfield[2].len() as u128 + self.playfield[3].len() as u128
            + self.playfield[4].len() as u128 + self.playfield[5].len() as u128
            + self.playfield[6].len() as u128 + self.suit_stacks[0].len() as u128
            + self.suit_stacks[1].len() as u128 + self.suit_stacks[2].len() as u128
            + self.suit_stacks[3].len() as u128 + held;
        if count > DECK_SIZE as u128 {
            return false;
        }
        if !pile_is_within_reach(&self.deck, false) || !pile_is_within_reach(&self.turned, false) {
            return false;
        }
        let mut k: usize = 0;
        while k < 7
            invariant
                k <= 7,
                forall|j: int| 0 <= j < k ==> lane_within_reach(#[trigger] self@.playfield[j]),
            decreases 7 - k,
        {
            if !pile_is_within_reach(&self.playfield[k], true) {
                assert(!lane_within_reach(self@.playfield[k as int]));
                return false;
            }
            k += 1;
        }
        let mut k: usize = 0;
        while k < 4
            invariant
                k <= 4,
                forall|j: int| 0 <= j < k ==> pile_within_reach(#[trigger] self@.suit_stacks[j]),
            decreases 4 - k,
        {
            if !pile_is_within_reach(&self.suit_stacks[k], false) {
                assert(!pile_within_reach(self@.suit_stacks[k as int]));
                return false;
            }
            k += 1;
        }
        match self.hand_memory.card {
            Some(card) => -REACH <= card.x && card.x <= REACH && -REACH <= card.y && card.y
                <= REACH,
            None => true,
        }
    }
}

} // verus!
