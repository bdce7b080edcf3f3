//! Shuffling, which the library leaves to `macroquad`.

use vstd::prelude::*;
use macroquad::rand::ChooseRandom;
use crate::card::Card;

verus! {

/// Shuffles `cards` in place by `macroquad::rand::ChooseRandom::shuffle`,
/// which walks the slice once and swaps each element with one at a random
/// earlier index. Trusted, not proved: after the call the pile holds the
/// cards it held before, each as often as before. Nothing is claimed of
/// their order, which follows the state of a generator that the whole
/// process shares.
#[verifier::external_body]
pub(crate) fn shuffle(cards: &mut Vec<Card>)
    ensures
        final(cards)@.to_multiset() == old(cards)@.to_multiset(),
{
    cards.shuffle();
}

} // verus!
