//! Setting up a game: a new shuffled deck, and the deal.

use vstd::prelude::*;
use crate::board::{Board, BoardView};
use crate::card::Card;
use crate::conservation::{identities, is_full_deck, lemma_permutation_keeps_identities};
use crate::rank::Rank;
use crate::suit::FrenchSuit;
use crate::rules::{dealt_before, lemma_dealt_before};
use crate::shuffle::shuffle;
use crate::{get_lane_range, lane_start, TOP_ROW_RANGE};
use crate::{CARD_HEIGHT, CARD_WIDTH, PADDING, RANKS, SUITS};

verus! {

/// Card `i` of a new deck before it is shuffled: the ranks in rising
/// order, the four suits of each rank side by side. Every card lies face
/// down at the deck's place.
pub open spec fn fresh_card(i: int) -> Card {
    Card {
        rank: RANKS[i / 4],
        suit: SUITS[i % 4],
        x: lane_start(7) as i64,
        y: PADDING,
        is_hidden: false,
        is_turned: false,
    }
}

/// Whether `card` lies as the cards of a new deck do: face down at the
/// deck's place.
pub open spec fn is_fresh(card: Card) -> bool {
    card.x == lane_start(7) && card.y == PADDING && !card.is_hidden && !card.is_turned
}

/// The 52 cards of a new deck before it is shuffled.
pub open spec fn fresh_deck() -> Seq<Card> {
    Seq::new(52, |i: int| fresh_card(i))
}

/// A new deck holds every card exactly once.
pub proof fn lemma_fresh_deck_is_full()
    ensures
        is_full_deck(identities(fresh_deck())),
{
    broadcast use vstd::seq_lib::group_to_multiset_ensures;

    let ids = fresh_deck().map_values(|c: Card| c.identity());
    assert forall|i: int| 0 <= i < 52 implies (#[trigger] ids[i]).0.value() == i / 4 + 1
        && ids[i].1.ordinal() == i % 4 by {
        assert(ids[i] == fresh_card(i).identity());
    }
    assert(ids.no_duplicates());
    ids.lemma_multiset_has_no_duplicates();
    assert forall|id: (Rank, FrenchSuit)| #[trigger] ids.to_multiset().count(id) == 1 by {
        let i = 4 * (id.0.value() - 1) + id.1.ordinal();
        assert(0 <= i < 52);
        assert(ids[i].0.value() == id.0.value() && ids[i].1.ordinal() == id.1.ordinal());
        assert(ids[i] == id);
        assert(ids.contains(id));
    }
}

/// Every card of a shuffled new deck lies as the cards of a new deck do.
pub proof fn lemma_shuffled_deck_is_fresh(cards: Seq<Card>)
    requires
        cards.to_multiset() == fresh_deck().to_multiset(),
    ensures
        forall|i: int| 0 <= i < cards.len() ==> is_fresh(#[trigger] cards[i]),
{
    broadcast use vstd::seq_lib::group_to_multiset_ensures;

    assert forall|i: int| 0 <= i < cards.len() implies is_fresh(#[trigger] cards[i]) by {
        assert(cards.contains(cards[i]));
        assert(fresh_deck().to_multiset().count(cards[i]) > 0);
        assert(fresh_deck().contains(cards[i]));
        let j = choose|j: int| 0 <= j < fresh_deck().len() && fresh_deck()[j] == cards[i];
        assert(fresh_deck()[j] == fresh_card(j));
    }
}

impl Board {
    /// Replaces the deck by a new one of 52 cards, shuffled. Every card
    /// lies face down at the deck's place. The piles and the hand stay as
    /// they are.
    pub fn initialize_deck(&mut self)
        ensures
            final(self)@.deck.to_multiset() == fresh_deck().to_multiset(),
            final(self)@.deck.len() == 52,
            is_full_deck(identities(final(self)@.deck)),
            forall|i: int| 0 <= i < 52 ==> is_fresh(#[trigger] final(self)@.deck[i]),
            final(self)@ == (BoardView { deck: final(self)@.deck, ..old(self)@ }),
    {
        let mut cards: Vec<Card> = Vec::new();
        let mut r: usize = 0;
        while r < 13
            invariant
                r <= 13,
                cards@ == fresh_deck().take(4 * r),
            decreases 13 - r,
        {
            let mut s: usize = 0;
            while s < 4
                invariant
                    r < 13,
                    s <= 4,
                    cards@ == fresh_deck().take(4 * r + s),
                decreases 4 - s,
            {
                let card = Card::new(
                    get_lane_range(7).start,
                    TOP_ROW_RANGE.start,
                    RANKS[r],
                    SUITS[s],
                );
                assert(card == fresh_card(4 * r + s));
                cards.push(card);
                assert(cards@ =~= fresh_deck().take(4 * r + s + 1));
                s += 1;
            }
            r += 1;
        }
        assert(cards@ =~= fresh_deck());
        shuffle(&mut cards);
        proof {
            lemma_permutation_keeps_identities(cards@, fresh_deck());
            lemma_fresh_deck_is_full();
            lemma_shuffled_deck_is_fresh(cards@);
            vstd::seq_lib::to_multiset_len(cards@);
            vstd::seq_lib::to_multiset_len(fresh_deck());
        }
        self.deck = cards;
        assert(self@.playfield =~= old(self)@.playfield);
        assert(self@.suit_stacks =~= old(self)@.suit_stacks);
    }
}

impl Board {
    /// Deals from the top of the deck: one card to the first lane, two to
    /// the second, up to seven to the last. Each lane's cards go below
    /// those it has, a step apart, and the last one is turned over.
    pub fn initialize_playfield(&mut self)
        requires
            old(self)@.deck.len() >= 28,
        ensures
            final(self)@ == old(self)@.dealt(),
            final(self)@.identities() == old(self)@.identities(),
    {
        let ghost before = self@;
        proof {
            before.lemma_deal_conserves();
            lemma_dealt_before();
        }
        let mut x: usize = 0;
        while x < 7
            invariant
                x <= 7,
                before == old(self)@,
                before.deck.len() >= 28,
                self.deck@ == before.deck.take(before.deck.len() - dealt_before(x as int)),
                forall|k: int|
                    0 <= k < x ==> self.playfield[k]@ == before.playfield[k] + before.dealt_lane(k),
                forall|k: int| x <= k < 7 ==> self.playfield[k]@ == before.playfield[k],
                self.suit_stacks == old(self).suit_stacks,
                self.turned == old(self).turned,
                self.hand_memory == old(self).hand_memory,
            decreases 7 - x,
        {
            let mut y: usize = 0;
            while y < x + 1
                invariant
                    x < 7,
                    y <= x + 1,
                    before == old(self)@,
                    before.deck.len() >= 28,
                    self.deck@ == before.deck.take(
                        before.deck.len() - dealt_before(x as int) - y,
                    ),
                    forall|k: int|
                        0 <= k < x ==> self.playfield[k]@ == before.playfield[k]
                            + before.dealt_lane(k),
                    self.playfield[x as int]@ == before.playfield[x as int] + before.dealt_lane(
                        x as int,
                    ).take(y as int),
                    forall|k: int| x < k < 7 ==> self.playfield[k]@ == before.playfield[k],
                    self.suit_stacks == old(self).suit_stacks,
                    self.turned == old(self).turned,
                    self.hand_memory == old(self).hand_memory,
                decreases x + 1 - y,
            {
                proof {
                    lemma_dealt_before();
                }
                let mut card = self.deck.pop().unwrap();
                assert(0 <= (x as i64) * (PADDING + CARD_WIDTH) <= 480) by {
                    assert(PADDING + CARD_WIDTH == 80);
                }
                card.update_pos(
                    PADDING + (x as i64) * (PADDING + CARD_WIDTH),
                    (y as i64) * PADDING + PADDING * 2 + CARD_HEIGHT,
                );
                if y == x {
                    card.toggle_visibility();
                }
                assert(card == before.dealt_card(x as int, y as int));
                self.playfield[x].push(card);
                assert(before.dealt_lane(x as int).take(y + 1) =~= before.dealt_lane(
                    x as int,
                ).take(y as int).push(card));
                assert(self.playfield[x as int]@ =~= before.playfield[x as int]
                    + before.dealt_lane(x as int).take(y + 1));
                assert(self.deck@ =~= before.deck.take(
                    before.deck.len() - dealt_before(x as int) - (y + 1),
                ));
                y += 1;
            }
            assert(before.dealt_lane(x as int).take(x + 1) =~= before.dealt_lane(x as int));
            x += 1;
        }
        assert(self@.playfield =~= before.dealt().playfield);
        assert(self@.suit_stacks =~= before.suit_stacks);
    }
}

} // verus!
