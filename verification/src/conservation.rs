//! No card is lost and none is made: what the moves do to the identities
//! of the cards on the board.

use vstd::prelude::*;
use vstd::multiset::Multiset;
use crate::card::Card;
use crate::board::{BoardArea, BoardView, HandMemory};
use crate::rank::Rank;
use crate::suit::FrenchSuit;
use crate::lane_start;
use crate::setup::{fresh_deck, lemma_fresh_deck_is_full};

verus! {

/// The identities of the cards of a pile, each as often as it occurs.
pub open spec fn identities(cards: Seq<Card>) -> Multiset<(Rank, FrenchSuit)> {
    cards.map_values(|c: Card| c.identity()).to_multiset()
}

/// The identities of the cards of several piles.
pub open spec fn pile_identities(piles: Seq<Seq<Card>>) -> Multiset<(Rank, FrenchSuit)>
    decreases piles.len(),
{
    if piles.len() == 0 {
        Multiset::empty()
    } else {
        pile_identities(piles.drop_last()).add(identities(piles.last()))
    }
}

/// The identity of the card in the hand, if there is one.
pub open spec fn held_identities(hand: HandMemory) -> Multiset<(Rank, FrenchSuit)> {
    match hand.card {
        Some(card) => Multiset::singleton(card.identity()),
        None => Multiset::empty(),
    }
}

impl BoardView {
    /// The identities of all cards of the board, the card in the hand
    /// included.
    pub open spec fn identities(self) -> Multiset<(Rank, FrenchSuit)> {
        identities(self.deck).add(identities(self.turned)).add(
            pile_identities(self.playfield),
        ).add(pile_identities(self.suit_stacks)).add(held_identities(self.hand_memory))
    }
}

/// Whether `ids` is a standard deck: every pair of a rank and a suit
/// exactly once.
pub open spec fn is_full_deck(ids: Multiset<(Rank, FrenchSuit)>) -> bool {
    forall|id: (Rank, FrenchSuit)| #[trigger] ids.count(id) == 1
}

/// A card on top of a pile adds its identity to those of the pile.
pub proof fn lemma_identities_push(cards: Seq<Card>, card: Card)
    ensures
        identities(cards.push(card)) == identities(cards).insert(card.identity()),
{
    broadcast use vstd::seq_lib::group_to_multiset_ensures;

    let f = |c: Card| c.identity();
    assert(cards.push(card).map_values(f) =~= cards.map_values(f).push(f(card)));
}

/// A pile without its top card lacks that card's identity.
pub proof fn lemma_identities_drop_last(cards: Seq<Card>)
    requires
        cards.len() > 0,
    ensures
        identities(cards) == identities(cards.drop_last()).insert(cards.last().identity()),
{
    assert(cards.drop_last().push(cards.last()) =~= cards);
    lemma_identities_push(cards.drop_last(), cards.last());
}

/// The identities of a pile do not depend on the order of its cards.
pub proof fn lemma_permutation_keeps_identities(a: Seq<Card>, b: Seq<Card>)
    requires
        a.to_multiset() == b.to_multiset(),
    ensures
        identities(a) == identities(b),
    decreases a.len(),
{
    broadcast use vstd::seq_lib::group_to_multiset_ensures;
    broadcast use vstd::multiset::group_multiset_axioms;

    let f = |c: Card| c.identity();
    if a.len() == 0 {
        vstd::seq_lib::to_multiset_len(a);
        vstd::seq_lib::to_multiset_len(b);
        assert(a =~= b);
    } else {
        let top = a.last();
        assert(a.contains(top));
        assert(b.to_multiset().count(top) > 0);
        assert(b.contains(top));
        let i = choose|i: int| 0 <= i < b.len() && b[i] == top;
        let rest_a = a.drop_last();
        let rest_b = b.remove(i);
        assert(rest_a.push(top) =~= a);
        assert(rest_a.to_multiset() =~= a.to_multiset().remove(top)) by {
            assert(a.to_multiset() =~= rest_a.to_multiset().insert(top));
        }
        assert(rest_b.to_multiset() =~= b.to_multiset().remove(top));
        lemma_permutation_keeps_identities(rest_a, rest_b);
        lemma_identities_push(rest_a, top);
        assert(b.map_values(f).remove(i) =~= rest_b.map_values(f));
        assert(identities(rest_b) =~= identities(b).remove(f(top)));
        assert(b.map_values(f).contains(f(top))) by {
            assert(b.map_values(f)[i] == f(top));
        }
        assert(identities(b) =~= identities(rest_b).insert(f(top)));
    }
}

/// A standard deck has 52 cards.
pub proof fn lemma_full_deck_size(ids: Multiset<(Rank, FrenchSuit)>)
    requires
        is_full_deck(ids),
    ensures
        ids.len() == 52,
{
    lemma_fresh_deck_is_full();
    let fresh = fresh_deck().map_values(|c: Card| c.identity());
    assert(ids =~= fresh.to_multiset());
    vstd::seq_lib::to_multiset_len(fresh);
}

/// A pile has as many identities as cards.
pub proof fn lemma_identities_len(cards: Seq<Card>)
    ensures
        identities(cards).len() == cards.len(),
{
    vstd::seq_lib::to_multiset_len(cards.map_values(|c: Card| c.identity()));
}

/// An empty pile has no identities.
pub proof fn lemma_identities_empty()
    ensures
        identities(Seq::<Card>::empty()) == Multiset::<(Rank, FrenchSuit)>::empty(),
{
    let ids = Seq::<Card>::empty().map_values(|c: Card| c.identity());
    vstd::seq_lib::to_multiset_len(ids);
    vstd::multiset::lemma_multiset_empty_len(ids.to_multiset());
}

/// A card on top of one pile among several adds its identity to those of
/// the piles.
pub proof fn lemma_pile_identities_push(piles: Seq<Seq<Card>>, k: int, card: Card)
    requires
        0 <= k < piles.len(),
    ensures
        pile_identities(piles.update(k, piles[k].push(card))) == pile_identities(piles).insert(
            card.identity(),
        ),
    decreases piles.len(),
{
    broadcast use vstd::multiset::group_multiset_axioms;

    let after = piles.update(k, piles[k].push(card));
    if k == piles.len() - 1 {
        assert(after.drop_last() =~= piles.drop_last());
        lemma_identities_push(piles[k], card);
    } else {
        assert(after.drop_last() =~= piles.drop_last().update(k, piles.drop_last()[k].push(card)));
        lemma_pile_identities_push(piles.drop_last(), k, card);
    }
    assert(pile_identities(after) =~= pile_identities(piles).insert(card.identity()));
}

/// Cards that change their place or turn over keep their identities.
pub proof fn lemma_same_identities(a: Seq<Card>, b: Seq<Card>)
    requires
        a.len() == b.len(),
        forall|i: int| 0 <= i < a.len() ==> a[i].identity() == b[i].identity(),
    ensures
        identities(a) == identities(b),
{
    assert(a.map_values(|c: Card| c.identity()) =~= b.map_values(|c: Card| c.identity()));
}

/// The identities of two piles laid end to end are those of both.
pub proof fn lemma_identities_add(a: Seq<Card>, b: Seq<Card>)
    ensures
        identities(a + b) == identities(a).add(identities(b)),
{
    let f = |c: Card| c.identity();
    assert((a + b).map_values(f) =~= a.map_values(f) + b.map_values(f));
    vstd::seq_lib::lemma_multiset_commutative(a.map_values(f), b.map_values(f));
}

impl BoardView {
    /// The board has as many cards as it has identities.
    pub proof fn lemma_card_count(self)
        requires
            self.wf(),
        ensures
            self.card_count() == self.identities().len(),
    {
        broadcast use vstd::multiset::group_multiset_axioms;

        lemma_identities_len(self.deck);
        lemma_identities_len(self.turned);
        lemma_pile_identities_seven(self.playfield);
        assert forall|k: int| 0 <= k < 7 implies identities(#[trigger] self.playfield[k]).len()
            == self.playfield[k].len() by {
            lemma_identities_len(self.playfield[k]);
        }
        assert forall|k: int| 0 <= k < 4 implies identities(#[trigger] self.suit_stacks[k]).len()
            == self.suit_stacks[k].len() by {
            lemma_identities_len(self.suit_stacks[k]);
        }
        lemma_pile_identities_four(self.suit_stacks);
    }

    /// Turning a card keeps the cards of the board.
    pub proof fn lemma_turn_conserves(self)
        ensures
            self.with_card_turned().identities() == self.identities(),
    {
        broadcast use vstd::multiset::group_multiset_axioms;

        if self.deck.len() > 0 {
            lemma_identities_drop_last(self.deck);
            lemma_identities_push(self.turned, self.deck.last().revealed(lane_start(6)));
            assert(self.with_card_turned().identities() =~= self.identities());
        }
    }

    /// Making the waste pile the deck keeps the cards of the board.
    pub proof fn lemma_refill_conserves(self)
        ensures
            self.with_deck_refilled().identities() == self.identities(),
    {
        broadcast use vstd::multiset::group_multiset_axioms;

        if self.deck.len() == 0 {
            lemma_same_identities(self.turned, self.with_deck_refilled().deck);
            assert(self.deck =~= Seq::<Card>::empty());
            lemma_identities_empty();
            assert(self.with_deck_refilled().identities() =~= self.identities());
        }
    }

    /// A card laid on a lane is one card more on the board.
    pub proof fn lemma_lane_gains(self, card: Card, n: int)
        requires
            self.wf(),
            1 <= n <= 7,
        ensures
            self.with_card_in_lane(card, n).identities() == self.identities().insert(
                card.identity(),
            ),
    {
        broadcast use vstd::multiset::group_multiset_axioms;

        lemma_pile_identities_push(self.playfield, n - 1, self.card_in_lane(card, n));
        assert(self.with_card_in_lane(card, n).identities() =~= self.identities().insert(
            card.identity(),
        ));
    }

    /// A card laid on a suit stack is one card more on the board.
    pub proof fn lemma_suit_stack_gains(self, card: Card, n: int)
        requires
            self.wf(),
            1 <= n <= 4,
        ensures
            self.with_card_on_suit_stack(card, n).identities() == self.identities().insert(
                card.identity(),
            ),
    {
        broadcast use vstd::multiset::group_multiset_axioms;

        lemma_pile_identities_push(self.suit_stacks, n - 1, self.card_on_suit_stack(card, n));
        assert(self.with_card_on_suit_stack(card, n).identities() =~= self.identities().insert(
            card.identity(),
        ));
    }

    /// Whether the hand remembers a place that a card can go back to: a
    /// lane, a suit stack or the waste pile.
    pub open spec fn remembers_a_pile(self) -> bool {
        match self.hand_memory.previous_stack {
            BoardArea::Lane(n) => 1 <= n <= 7,
            BoardArea::SuitStack(n) => 1 <= n <= 4,
            BoardArea::Turned => true,
            _ => false,
        }
    }

    /// A card that goes back to the pile it was taken from is one card
    /// more on the board. (A card remembered as taken from the deck or
    /// from nowhere is lost instead.)
    pub proof fn lemma_return_gains(self, card: Card)
        requires
            self.wf(),
            self.remembers_a_pile(),
        ensures
            self.with_card_returned(card).identities() == self.identities().insert(
                card.identity(),
            ),
    {
        broadcast use vstd::multiset::group_multiset_axioms;

        match self.hand_memory.previous_stack {
            BoardArea::Lane(n) => self.lemma_lane_gains(card, n as int),
            BoardArea::SuitStack(n) => self.lemma_suit_stack_gains(card, n as int),
            _ => {
                lemma_identities_push(self.turned, Self::card_on_waste(card));
                assert(self.with_card_returned(card).identities() =~= self.identities().insert(
                    card.identity(),
                ));
            },
        }
    }

    /// A card that goes back comes to lie on top of the pile that the
    /// hand remembers, at the place that the pile gives it, and every
    /// other pile stays as it is.
    pub proof fn lemma_return_touches_one_pile(self, card: Card)
        requires
            self.wf(),
            self.remembers_a_pile(),
        ensures
            ({
                let after = self.with_card_returned(card);
                &&& after.deck == self.deck
                &&& after.hand_memory == self.hand_memory
                &&& match self.hand_memory.previous_stack {
                    BoardArea::Lane(n) => {
                        &&& after.lane(n as int) == self.lane(n as int).push(
                            self.card_in_lane(card, n as int),
                        )
                        &&& forall|m: int|
                            1 <= m <= 7 && m != n ==> #[trigger] after.lane(m) == self.lane(m)
                        &&& after.suit_stacks == self.suit_stacks
                        &&& after.turned == self.turned
                    },
                    BoardArea::SuitStack(n) => {
                        &&& after.suit_stack(n as int) == self.suit_stack(n as int).push(
                            self.card_on_suit_stack(card, n as int),
                        )
                        &&& forall|m: int|
                            1 <= m <= 4 && m != n ==> #[trigger] after.suit_stack(m)
                                == self.suit_stack(m)
                        &&& after.playfield == self.playfield
                        &&& after.turned == self.turned
                    },
                    _ => {
                        &&& after.turned == self.turned.push(Self::card_on_waste(card))
                        &&& after.playfield == self.playfield
                        &&& after.suit_stacks == self.suit_stacks
                    },
                }
            }),
    {
    }

    /// A card let go anywhere is one card more on the board, whether the
    /// place under it takes it or not.
    pub proof fn lemma_drop_gains(self, card: Card, area: BoardArea)
        requires
            self.wf(),
            self.remembers_a_pile(),
            area matches BoardArea::Lane(n) ==> 1 <= n <= 7,
            area matches BoardArea::SuitStack(n) ==> 1 <= n <= 4,
        ensures
            self.with_card_dropped(card, area).identities() == self.identities().insert(
                card.identity(),
            ),
    {
        self.lemma_return_gains(card);
        match area {
            BoardArea::Lane(n) => self.lemma_lane_gains(card, n as int),
            BoardArea::SuitStack(n) => self.lemma_suit_stack_gains(card, n as int),
            _ => {},
        }
    }

    /// Lifting the top card of the waste pile into an empty hand keeps
    /// the cards of the board.
    pub proof fn lemma_lift_conserves(self)
        requires
            self.turned.len() > 0,
            self.hand_memory.card.is_none(),
        ensures
            self.with_card_lifted().identities() == self.identities(),
    {
        broadcast use vstd::multiset::group_multiset_axioms;

        lemma_identities_drop_last(self.turned);
        assert(self.with_card_lifted().identities() =~= self.identities());
    }

    /// The deal keeps the cards of the board.
    pub proof fn lemma_deal_conserves(self)
        requires
            self.wf(),
            self.deck.len() >= 28,
        ensures
            self.dealt().identities() == self.identities(),
    {
        broadcast use vstd::multiset::group_multiset_axioms;

        crate::rules::lemma_dealt_before();
        let rest = self.deck.take(self.deck.len() - 28);
        let lanes = self.dealt().playfield;
        // The 28 cards that leave the deck, in the order of the lanes.
        let taken = self.dealt_lane(0) + self.dealt_lane(1) + self.dealt_lane(2) + self.dealt_lane(
            3,
        ) + self.dealt_lane(4) + self.dealt_lane(5) + self.dealt_lane(6);
        let top = self.deck.skip(self.deck.len() - 28);
        assert(self.deck =~= rest + top);
        lemma_identities_add(rest, top);
        assert(taken.len() == 28);
        assert forall|i: int| 0 <= i < 28 implies (#[trigger] taken[i]).identity()
            == top.reverse()[i].identity() by {
            if i < 1 {
                assert(taken[i] == self.dealt_card(0, i));
            } else if i < 3 {
                assert(taken[i] == self.dealt_card(1, i - 1));
            } else if i < 6 {
                assert(taken[i] == self.dealt_card(2, i - 3));
            } else if i < 10 {
                assert(taken[i] == self.dealt_card(3, i - 6));
            } else if i < 15 {
                assert(taken[i] == self.dealt_card(4, i - 10));
            } else if i < 21 {
                assert(taken[i] == self.dealt_card(5, i - 15));
            } else {
                assert(taken[i] == self.dealt_card(6, i - 21));
            }
        }
        lemma_same_identities(taken, top.reverse());
        top.lemma_reverse_to_multiset();
        lemma_permutation_keeps_identities(top.reverse(), top);
        lemma_identities_add(self.dealt_lane(0), self.dealt_lane(1));
        lemma_identities_add(self.dealt_lane(0) + self.dealt_lane(1), self.dealt_lane(2));
        lemma_identities_add(
            self.dealt_lane(0) + self.dealt_lane(1) + self.dealt_lane(2),
            self.dealt_lane(3),
        );
        lemma_identities_add(
            self.dealt_lane(0) + self.dealt_lane(1) + self.dealt_lane(2) + self.dealt_lane(3),
            self.dealt_lane(4),
        );
        lemma_identities_add(
            self.dealt_lane(0) + self.dealt_lane(1) + self.dealt_lane(2) + self.dealt_lane(3)
                + self.dealt_lane(4),
            self.dealt_lane(5),
        );
        lemma_identities_add(
            self.dealt_lane(0) + self.dealt_lane(1) + self.dealt_lane(2) + self.dealt_lane(3)
                + self.dealt_lane(4) + self.dealt_lane(5),
            self.dealt_lane(6),
        );
        lemma_pile_identities_seven(self.playfield);
        lemma_pile_identities_seven(lanes);
        assert forall|k: int| 0 <= k < 7 implies identities(#[trigger] lanes[k]) == identities(
            self.playfield[k],
        ).add(identities(self.dealt_lane(k))) by {
            lemma_identities_add(self.playfield[k], self.dealt_lane(k));
        }
        assert(self.dealt().identities() =~= self.identities());
    }
}

/// On a board that holds cards in its deck alone, the cards of the board
/// are those of the deck.
pub proof fn lemma_board_identities_of_deck(empty: BoardView, full: BoardView)
    requires
        full == (BoardView { deck: full.deck, ..empty }),
        empty.wf(),
        empty.turned.len() == 0,
        forall|k: int| 0 <= k < 7 ==> (#[trigger] empty.playfield[k]).len() == 0,
        forall|k: int| 0 <= k < 4 ==> (#[trigger] empty.suit_stacks[k]).len() == 0,
        empty.hand_memory.card.is_none(),
    ensures
        full.identities() == identities(full.deck),
{
    broadcast use vstd::multiset::group_multiset_axioms;

    lemma_identities_empty();
    assert(empty.turned =~= Seq::<Card>::empty());
    assert forall|k: int| 0 <= k < 7 implies #[trigger] empty.playfield[k] == Seq::<
        Card,
    >::empty() by {
        assert(empty.playfield[k] =~= Seq::<Card>::empty());
    }
    assert forall|k: int| 0 <= k < 4 implies #[trigger] empty.suit_stacks[k] == Seq::<
        Card,
    >::empty() by {
        assert(empty.suit_stacks[k] =~= Seq::<Card>::empty());
    }
    lemma_pile_identities_seven(empty.playfield);
    lemma_pile_identities_four(empty.suit_stacks);
    assert(pile_identities(empty.suit_stacks) =~= Multiset::empty());
    assert(pile_identities(empty.playfield) =~= Multiset::empty());
    assert(full.identities() =~= identities(full.deck));
}

/// The identities of four piles, pile by pile.
pub proof fn lemma_pile_identities_four(piles: Seq<Seq<Card>>)
    requires
        piles.len() == 4,
    ensures
        pile_identities(piles) == identities(piles[0]).add(identities(piles[1])).add(
            identities(piles[2]),
        ).add(identities(piles[3])),
{
    broadcast use vstd::multiset::group_multiset_axioms;

    reveal_with_fuel(pile_identities, 5);
    let first_3 = piles.drop_last();
    let first_2 = first_3.drop_last();
    let first_1 = first_2.drop_last();
    let first_0 = first_1.drop_last();
    assert(pile_identities(first_0) =~= Multiset::empty());
    assert(pile_identities(piles) =~= identities(piles[0]).add(identities(piles[1])).add(
        identities(piles[2]),
    ).add(identities(piles[3])));
}

/// The identities of seven piles, pile by pile.
pub proof fn lemma_pile_identities_seven(piles: Seq<Seq<Card>>)
    requires
        piles.len() == 7,
    ensures
        pile_identities(piles) == identities(piles[0]).add(identities(piles[1])).add(
            identities(piles[2]),
        ).add(identities(piles[3])).add(identities(piles[4])).add(identities(piles[5])).add(
            identities(piles[6]),
        ),
{
    broadcast use vstd::multiset::group_multiset_axioms;

    reveal_with_fuel(pile_identities, 8);
    let first_6 = piles.drop_last();
    let first_5 = first_6.drop_last();
    let first_4 = first_5.drop_last();
    let first_3 = first_4.drop_last();
    let first_2 = first_3.drop_last();
    let first_1 = first_2.drop_last();
    let first_0 = first_1.drop_last();
    assert(pile_identities(first_0) =~= Multiset::empty());
    assert(pile_identities(piles) =~= identities(piles[0]).add(identities(piles[1])).add(
        identities(piles[2]),
    ).add(identities(piles[3])).add(identities(piles[4])).add(identities(piles[5])).add(
        identities(piles[6]),
    ));
}

} // verus!
