use solitaire::board::Board;
use solitaire::card::Card;
use solitaire::rank::Rank;
use solitaire::suit::FrenchSuit;
use solitaire::{RANKS, SUITS};

fn all_cards(board: &Board) -> Vec<(Rank, FrenchSuit)> {
    let mut cards: Vec<Card> = Vec::new();
    cards.extend(board.deck.iter());
    cards.extend(board.turned.iter());
    for lane in board.playfield.iter() {
        cards.extend(lane.iter());
    }
    for stack in board.suit_stacks.iter() {
        cards.extend(stack.iter());
    }
    cards.extend(board.hand_memory.card.iter());
    cards.iter().map(|c| (c.rank, c.suit)).collect()
}

fn assert_full_deck(board: &Board) {
    let cards = all_cards(board);
    assert_eq!(cards.len(), 52);
    for rank in RANKS {
        for suit in SUITS {
            assert_eq!(cards.iter().filter(|c| **c == (rank, suit)).count(), 1);
        }
    }
}

#[test]
fn a_new_deck_holds_every_card_once() {
    let mut board = Board::new();
    board.initialize_deck();
    assert_eq!(board.deck.len(), 52);
    assert_full_deck(&board);
}

#[test]
fn a_new_deck_lies_face_down_at_the_deck_s_place() {
    let mut board = Board::new();
    board.initialize_deck();
    for card in board.deck.iter() {
        assert_eq!((card.x, card.y), (500, 20));
        assert!(!card.is_hidden);
        assert!(!card.is_turned);
    }
}

#[test]
fn a_new_deck_is_shuffled() {
    let mut board = Board::new();
    board.initialize_deck();
    let mut sorted = Vec::new();
    for rank in RANKS {
        for suit in SUITS {
            sorted.push((rank, suit));
        }
    }
    let dealt: Vec<(Rank, FrenchSuit)> = board.deck.iter().map(|c| (c.rank, c.suit)).collect();
    assert_ne!(dealt, sorted);
}

#[test]
fn a_new_deck_replaces_the_old_one_and_leaves_the_piles() {
    let mut board = Board::new();
    board.deck.push(Card::new(0, 0, Rank::Ace, FrenchSuit::Clubs));
    board.turned.push(Card::new(1, 1, Rank::Two, FrenchSuit::Clubs));
    board.playfield[3].push(Card::new(2, 2, Rank::Three, FrenchSuit::Clubs));
    board.suit_stacks[1].push(Card::new(3, 3, Rank::Four, FrenchSuit::Clubs));
    board.initialize_deck();
    assert_eq!(board.deck.len(), 52);
    assert_eq!(board.turned, vec![Card::new(1, 1, Rank::Two, FrenchSuit::Clubs)]);
    assert_eq!(board.playfield[3], vec![Card::new(2, 2, Rank::Three, FrenchSuit::Clubs)]);
    assert_eq!(board.suit_stacks[1], vec![Card::new(3, 3, Rank::Four, FrenchSuit::Clubs)]);
}

#[test]
fn the_deal_gives_lane_k_k_plus_one_cards_and_leaves_24() {
    let mut board = Board::new();
    board.initialize_deck();
    board.initialize_playfield();
    assert_eq!(board.deck.len(), 24);
    for k in 0..7 {
        assert_eq!(board.playfield[k].len(), k + 1);
    }
    assert_full_deck(&board);
}

#[test]
fn the_deal_turns_over_the_last_card_of_each_lane_only() {
    let mut board = Board::new();
    board.initialize_deck();
    board.initialize_playfield();
    for k in 0..7 {
        for j in 0..=k {
            assert_eq!(board.playfield[k][j].is_turned, j == k);
            assert!(!board.playfield[k][j].is_hidden);
        }
    }
}

#[test]
fn the_deal_lays_the_cards_in_cascades() {
    let mut board = Board::new();
    board.initialize_deck();
    board.initialize_playfield();
    for k in 0..7 {
        for j in 0..=k {
            let card = board.playfield[k][j];
            assert_eq!(card.x, 20 + 80 * k as i64);
            assert_eq!(card.y, 120 + 20 * j as i64);
        }
    }
    assert_eq!((board.playfield[6][6].x, board.playfield[6][6].y), (500, 240));
}

#[test]
fn the_deal_takes_from_the_top_of_the_deck_lane_after_lane() {
    let mut board = Board::new();
    board.initialize_deck();
    let deck = board.deck.clone();
    board.initialize_playfield();
    assert_eq!(board.deck[..], deck[..24]);
    let mut taken = 0;
    for k in 0..7 {
        for j in 0..=k {
            let from = deck[51 - taken];
            let card = board.playfield[k][j];
            assert_eq!((card.rank, card.suit), (from.rank, from.suit));
            taken += 1;
        }
    }
    assert_eq!(taken, 28);
}

#[test]
fn the_deal_goes_below_the_cards_that_a_lane_has() {
    let mut board = Board::new();
    board.initialize_deck();
    board.playfield[0].push(Card::new(9, 9, Rank::Ace, FrenchSuit::Clubs));
    board.initialize_playfield();
    assert_eq!(board.playfield[0].len(), 2);
    assert_eq!(board.playfield[0][0], Card::new(9, 9, Rank::Ace, FrenchSuit::Clubs));
    assert_eq!((board.playfield[0][1].x, board.playfield[0][1].y), (20, 120));
}

#[test]
fn the_deal_turns_a_face_up_card_face_down() {
    let mut board = Board::new();
    for _ in 0..28 {
        let mut card = Card::new(0, 0, Rank::Ace, FrenchSuit::Clubs);
        card.is_turned = true;
        board.deck.push(card);
    }
    board.initialize_playfield();
    assert!(board.deck.is_empty());
    for k in 0..7 {
        for j in 0..=k {
            assert_eq!(board.playfield[k][j].is_turned, j != k);
        }
    }
}

#[test]
fn turning_moves_the_top_card_face_up_to_the_waste_pile() {
    let mut board = Board::new();
    board.deck.push(Card::new(500, 20, Rank::Ace, FrenchSuit::Clubs));
    let mut top = Card::new(500, 33, Rank::Queen, FrenchSuit::Hearts);
    top.is_hidden = true;
    board.deck.push(top);
    board.turn_card();
    assert_eq!(board.deck, vec![Card::new(500, 20, Rank::Ace, FrenchSuit::Clubs)]);
    assert_eq!(board.turned.len(), 1);
    let turned = board.turned[0];
    assert_eq!((turned.rank, turned.suit), (Rank::Queen, FrenchSuit::Hearts));
    assert_eq!((turned.x, turned.y), (420, 33));
    assert!(turned.is_turned);
    assert!(!turned.is_hidden);
}

#[test]
fn turning_with_an_empty_deck_does_nothing() {
    let mut board = Board::new();
    board.turned.push(Card::new(420, 20, Rank::Ace, FrenchSuit::Clubs));
    board.turn_card();
    assert!(board.deck.is_empty());
    assert_eq!(board.turned, vec![Card::new(420, 20, Rank::Ace, FrenchSuit::Clubs)]);
}

#[test]
fn a_pass_through_the_deck() {
    let mut board = Board::new();
    board.initialize_deck();
    board.initialize_playfield();
    let deck = board.deck.clone();
    assert_eq!(deck.len(), 24);
    for _ in 0..24 {
        board.turn_card();
    }
    assert!(board.deck.is_empty());
    assert_eq!(board.turned.len(), 24);
    for i in 0..24 {
        let drawn = board.turned[i];
        let from = deck[23 - i];
        assert_eq!((drawn.rank, drawn.suit), (from.rank, from.suit));
        assert!(drawn.is_turned);
        assert_eq!(drawn.x, 420);
    }
    let waste = board.turned.clone();
    board.refill_deck();
    assert!(board.turned.is_empty());
    assert_eq!(board.deck.len(), 24);
    for i in 0..24 {
        let card = board.deck[i];
        assert_eq!((card.rank, card.suit), (waste[i].rank, waste[i].suit));
        assert!(!card.is_turned);
        assert!(!card.is_hidden);
        assert_eq!((card.x, card.y), (500, 20));
    }
    let refilled = board.deck.clone();
    board.refill_deck();
    assert_eq!(board.deck, refilled);
    assert!(board.turned.is_empty());
    assert_full_deck(&board);
}

#[test]
fn refilling_does_nothing_while_cards_are_left_in_the_deck() {
    let mut board = Board::new();
    board.deck.push(Card::new(500, 20, Rank::Ace, FrenchSuit::Clubs));
    let mut lying = Card::new(420, 20, Rank::Two, FrenchSuit::Clubs);
    lying.is_turned = true;
    board.turned.push(lying);
    board.refill_deck();
    assert_eq!(board.deck, vec![Card::new(500, 20, Rank::Ace, FrenchSuit::Clubs)]);
    assert_eq!(board.turned, vec![lying]);
}

#[test]
fn refilling_an_empty_deck_from_an_empty_waste_pile_leaves_both_empty() {
    let mut board = Board::new();
    board.refill_deck();
    assert!(board.deck.is_empty());
    assert!(board.turned.is_empty());
}
