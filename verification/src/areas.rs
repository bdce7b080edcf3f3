//! Hit testing: which place of the board lies under a point.
//!
//! The board is seven columns wide. Each column has a band in the top row,
//! which holds the suit stacks, the waste pile and the deck, and a band
//! below it, which holds the lanes.

use vstd::prelude::*;
use crate::board::{Board, BoardArea};
use crate::{get_lane_range, in_range, PLAYFIELD_RANGE, TOP_ROW_RANGE};
use crate::{in_lane, in_playfield, in_top_row};
use crate::{CARD_WIDTH, PADDING};

verus! {

/// What the top row holds in column `n`: a suit stack in each of the first
/// four columns, nothing in the fifth, then the waste pile and the deck.
pub open spec fn top_row_area(n: int) -> BoardArea {
    if 1 <= n <= 4 {
        BoardArea::SuitStack(n as usize)
    } else if n == 6 {
        BoardArea::Turned
    } else if n == 7 {
        BoardArea::Deck
    } else {
        BoardArea::Nowhere
    }
}

/// The column that holds `x`, counted from 1; columns below 1 or above 7
/// are off the board.
pub open spec fn lane_at(x: int) -> int {
    (x - PADDING) / (CARD_WIDTH + PADDING) + 1
}

/// The place under the point `(x, y)`.
pub open spec fn area_at(x: int, y: int) -> BoardArea {
    let n = lane_at(x);
    if !(1 <= n <= 7) {
        BoardArea::Nowhere
    } else if in_top_row(y) {
        top_row_area(n)
    } else if in_playfield(y) {
        BoardArea::Lane(n as usize)
    } else {
        BoardArea::Nowhere
    }
}

/// A point lies in column `n` exactly when `lane_at` says so.
pub proof fn lemma_lane_at(n: int, x: int)
    ensures
        in_lane(n, x) <==> lane_at(x) == n,
{
    let w = CARD_WIDTH + PADDING;
    let q = (x - PADDING) / w;
    assert(w == 80);
    assert((x - 20) == 80 * q + (x - 20) % 80 && 0 <= (x - 20) % 80 < 80) by {
        vstd::arithmetic::div_mod::lemma_fundamental_div_mod(x - 20, 80);
    }
}

/// The places of the board do not overlap: no point lies in two columns
/// or in both bands, and a point resolves to a place exactly when it lies
/// inside that place's column and band.
pub proof fn lemma_areas_disjoint(x: int, y: int, n: int, m: int)
    ensures
        in_lane(n, x) && in_lane(m, x) ==> n == m,
        !(in_top_row(y) && in_playfield(y)),
        1 <= n <= 7 ==> (area_at(x, y) == BoardArea::Lane(n as usize) <==> in_lane(n, x)
            && in_playfield(y)),
        1 <= n <= 4 ==> (area_at(x, y) == BoardArea::SuitStack(n as usize) <==> in_lane(n, x)
            && in_top_row(y)),
        area_at(x, y) == BoardArea::Turned <==> in_lane(6, x) && in_top_row(y),
        area_at(x, y) == BoardArea::Deck <==> in_lane(7, x) && in_top_row(y),
{
    lemma_lane_at(n, x);
    lemma_lane_at(m, x);
    lemma_lane_at(6, x);
    lemma_lane_at(7, x);
}

/// A place that a point resolves to exists: its lane is one of the seven,
/// its suit stack one of the four.
pub proof fn lemma_area_in_range(x: int, y: int)
    ensures
        area_at(x, y) matches BoardArea::Lane(n) ==> 1 <= n <= 7,
        area_at(x, y) matches BoardArea::SuitStack(n) ==> 1 <= n <= 4,
{
}

impl Board {
    /// Resolves the point `(x, y)` to the place that lies under it.
    pub fn get_current_mouse_location(x: i32, y: i32) -> (area: BoardArea)
        ensures
            area == area_at(x as int, y as int),
    {
        let px: i64 = x as i64;
        let py: i64 = y as i64;
        let mut n: usize = 1;
        while n <= 7
            invariant
                1 <= n <= 8,
                px == x,
                py == y,
                forall|m: int| 1 <= m < n ==> !in_lane(m, x as int),
            decreases 8 - n,
        {
            let columns = get_lane_range(n);
            if in_range(&columns, px) {
                proof {
                    lemma_lane_at(n as int, x as int);
                }
                if in_range(&TOP_ROW_RANGE, py) {
                    if n <= 4 {
                        return BoardArea::SuitStack(n);
                    } else if n == 6 {
                        return BoardArea::Turned;
                    } else if n == 7 {
                        return BoardArea::Deck;
                    }
                    return BoardArea::Nowhere;
                }
                if in_range(&PLAYFIELD_RANGE, py) {
                    return BoardArea::Lane(n);
                }
                return BoardArea::Nowhere;
            }
            n += 1;
        }
        proof {
            let k = lane_at(x as int);
            lemma_lane_at(k, x as int);
        }
        BoardArea::Nowhere
    }
}

} // verus!
