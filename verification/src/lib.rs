//! Rules and interaction core of a single-player Klondike patience game.
//!
//! The board keeps the cards in a deck, a waste pile, seven lanes and four
//! suit stacks, and applies the moves between them. The controller turns
//! pointer samples into those moves. All positions are whole pixels.

use vstd::prelude::*;
use std::ops::Range;
use crate::card::Card;
use crate::rank::Rank;
use crate::suit::FrenchSuit;

pub mod areas;
pub mod board;
pub mod card;
pub mod conservation;
pub mod controller;
pub mod dealing;
pub mod moves;
pub mod paint;
pub mod play;
pub mod rank;
pub mod rules;
pub mod setup;
mod shuffle;
pub mod suit;

verus! {

pub const CARD_WIDTH: i64 = 60;

pub const CARD_HEIGHT: i64 = 80;

pub const PADDING: i64 = 20;

/// The vertical band of the deck, the waste pile and the suit stacks.
pub const TOP_ROW_RANGE: Range<i64> = PADDING..PADDING + CARD_HEIGHT;

/// The vertical band of the seven lanes.
pub const PLAYFIELD_RANGE: Range<i64> = (PADDING * 2 + CARD_HEIGHT)..(PADDING * 14 + CARD_HEIGHT
    * 2);

pub const SUITS: [FrenchSuit; 4] = [
    FrenchSuit::Clubs,
    FrenchSuit::Diamonds,
    FrenchSuit::Hearts,
    FrenchSuit::Spades,
];

pub const RANKS: [Rank; 13] = [
    Rank::Ace,
    Rank::Two,
    Rank::Three,
    Rank::Four,
    Rank::Five,
    Rank::Six,
    Rank::Seven,
    Rank::Eight,
    Rank::Nine,
    Rank::Ten,
    Rank::Jack,
    Rank::Queen,
    Rank::King,
];

/// The left edge of column `n`, counted from 1. Column `n` ends where
/// column `n + 1` begins.
pub open spec fn lane_start(n: int) -> int {
    (CARD_WIDTH + PADDING) * (n - 1) + PADDING
}

/// Whether `x` lies in column `n`.
pub open spec fn in_lane(n: int, x: int) -> bool {
    lane_start(n) <= x < lane_start(n + 1)
}

/// Whether `y` lies in the band of the top row.
pub open spec fn in_top_row(y: int) -> bool {
    PADDING <= y < PADDING + CARD_HEIGHT
}

/// Whether `y` lies in the band of the lanes.
pub open spec fn in_playfield(y: int) -> bool {
    PADDING * 2 + CARD_HEIGHT <= y < PADDING * 14 + CARD_HEIGHT * 2
}

/// Whether the point `(x, y)` lies on the face of a card whose top left
/// corner is at `(card_x, card_y)`.
pub open spec fn on_card(card_x: int, card_y: int, x: int, y: int) -> bool {
    card_x <= x < card_x + CARD_WIDTH && card_y <= y < card_y + CARD_HEIGHT
}

/// Whether `v` lies in the half-open range `r`.
pub fn in_range(r: &Range<i64>, v: i64) -> (inside: bool)
    ensures
        inside == (r.start <= v < r.end),
{
    r.start <= v && v < r.end
}

/// The horizontal extent of column `x`, counted from 1.
pub fn get_lane_range(x: usize) -> (r: Range<i64>)
    requires
        1 <= x,
        lane_start(x + 1) <= i64::MAX,
    ensures
        r.start == lane_start(x as int),
        r.end == lane_start(x + 1),
{
    let n: i64 = x as i64;
    ((CARD_WIDTH + PADDING) * (n - 1) + PADDING)..((CARD_WIDTH + PADDING) * n + PADDING)
}

/// Where on the card the pointer at `(mouse_x, mouse_y)` rests, measured
/// from the card's top left corner; `None` when the pointer is not on the
/// card.
pub fn get_distance_to_card_origin(card: &Card, mouse_x: i32, mouse_y: i32) -> (distance: Option<
    (i64, i64),
>)
    ensures
        distance.is_some() == on_card(card.x as int, card.y as int, mouse_x as int, mouse_y as int),
        distance matches Some(d) ==> d.0 == mouse_x - card.x && d.1 == mouse_y - card.y,
{
    let dx: i128 = mouse_x as i128 - card.x as i128;
    let dy: i128 = mouse_y as i128 - card.y as i128;
    if 0 <= dx && dx < CARD_WIDTH as i128 && 0 <= dy && dy < CARD_HEIGHT as i128 {
        return Some((dx as i64, dy as i64));
    }
    None
}

} // verus!
