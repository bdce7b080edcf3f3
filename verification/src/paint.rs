//! What the renderer has to draw.

use vstd::prelude::*;
use crate::board::{Board, BoardView};
use crate::card::{Card, Sprite};

verus! {

/// The pictures of the cards of a pile that are not hidden, bottom first.
pub open spec fn sprites_of(cards: Seq<Card>) -> Seq<Sprite>
    decreases cards.len(),
{
    if cards.len() == 0 {
        Seq::empty()
    } else {
        match cards.last().sprite() {
            Some(picture) => sprites_of(cards.drop_last()).push(picture),
            None => sprites_of(cards.drop_last()),
        }
    }
}

/// The pictures of several piles, pile after pile.
pub open spec fn sprites_of_piles(piles: Seq<Seq<Card>>) -> Seq<Sprite>
    decreases piles.len(),
{
    if piles.len() == 0 {
        Seq::empty()
    } else {
        sprites_of_piles(piles.drop_last()) + sprites_of(piles.last())
    }
}

impl BoardView {
    /// The pictures of the board in the order in which they are painted:
    /// deck, waste pile, lanes, suit stacks, and last the card in the
    /// hand.
    pub open spec fn sprites(self) -> Seq<Sprite> {
        sprites_of(self.deck) + sprites_of(self.turned) + sprites_of_piles(self.playfield)
            + sprites_of_piles(self.suit_stacks) + match self.hand_memory.card {
            Some(card) => sprites_of(seq![card]),
            None => Seq::empty(),
        }
    }
}

impl Board {
    /// Lists what the renderer has to draw, in this order: the deck, the
    /// waste pile, the lanes, the suit stacks, and last the card in the
    /// hand. Hidden cards are left out.
    pub fn paint(&self) -> (pictures: Vec<Sprite>)
        ensures
            pictures@ == self@.sprites(),
    {
        let mut pictures: Vec<Sprite> = Vec::new();
        paint_pile(&self.deck, &mut pictures);
        paint_pile(&self.turned, &mut pictures);
        let ghost flat = pictures@;
        let mut k: usize = 0;
        while k < 7
            invariant
                k <= 7,
                pictures@ == flat + sprites_of_piles(self@.playfield.take(k as int)),
            decreases 7 - k,
        {
            paint_pile(&self.playfield[k], &mut pictures);
            proof {
                let piles = self@.playfield;
                assert(piles.take(k + 1).drop_last() =~= piles.take(k as int));
                assert(piles.take(k + 1).last() == self.playfield[k as int]@);
            }
            k += 1;
        }
        assert(self@.playfield.take(7) =~= self@.playfield);
        let ghost flat = pictures@;
        let mut k: usize = 0;
        while k < 4
            invariant
                k <= 4,
                pictures@ == flat + sprites_of_piles(self@.suit_stacks.take(k as int)),
            decreases 4 - k,
        {
            paint_pile(&self.suit_stacks[k], &mut pictures);
            proof {
                let piles = self@.suit_stacks;
                assert(piles.take(k + 1).drop_last() =~= piles.take(k as int));
                assert(piles.take(k + 1).last() == self.suit_stacks[k as int]@);
            }
            k += 1;
        }
        assert(self@.suit_stacks.take(4) =~= self@.suit_stacks);
        if let Some(card) = &self.hand_memory.card {
            assert(seq![*card].drop_last() =~= Seq::<Card>::empty());
            assert(sprites_of(seq![*card].drop_last()) =~= Seq::<Sprite>::empty());
            if let Some(picture) = card.draw() {
                pictures.push(picture);
            }
        }
        pictures
    }
}

/// Appends the pictures of the cards of `pile` that are not hidden to
/// `pictures`, bottom card first.
fn paint_pile(pile: &Vec<Card>, pictures: &mut Vec<Sprite>)
    ensures
        final(pictures)@ == old(pictures)@ + sprites_of(pile@),
{
    let mut i: usize = 0;
    while i < pile.len()
        invariant
            i <= pile@.len(),
            pictures@ == old(pictures)@ + sprites_of(pile@.take(i as int)),
        decreases pile@.len() - i,
    {
        proof {
            assert(pile@.take(i + 1).drop_last() =~= pile@.take(i as int));
            assert(pile@.take(i + 1).last() == pile@[i as int]);
        }
        if let Some(picture) = pile[i].draw() {
            pictures.push(picture);
        }
        i += 1;
    }
    assert(pile@.take(pile@.len() as int) =~= pile@);
}

} // verus!
