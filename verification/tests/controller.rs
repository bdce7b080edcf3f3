use solitaire::board::{Board, BoardArea};
use solitaire::card::Card;
use solitaire::controller::{Controller, PointerSample};
use solitaire::rank::Rank;
use solitaire::suit::FrenchSuit;
use solitaire::{RANKS, SUITS};

fn face_up(x: i64, y: i64, rank: Rank, suit: FrenchSuit) -> Card {
    let mut card = Card::new(x, y, rank, suit);
    card.is_turned = true;
    card
}

fn identities(board: &Board) -> Vec<(Rank, FrenchSuit)> {
    let mut cards: Vec<Card> = Vec::new();
    cards.extend(board.deck.iter());
    cards.extend(board.turned.iter());
    for lane in board.playfield.iter() {
        cards.extend(lane.iter());
    }
    for stack in board.suit_stacks.iter() {
        cards.extend(stack.iter());
    }
    cards.extend(board.hand_memory.card.iter());
    let mut ids: Vec<(Rank, FrenchSuit)> = cards.iter().map(|c| (c.rank, c.suit)).collect();
    ids.sort_by_key(|(rank, suit)| (rank.number(), suit.as_str()));
    ids
}

/// A board with three cards on the waste pile, one in the deck, a six of
/// spades in lane 3 and an ace of clubs on suit stack 1.
fn table() -> Controller {
    let mut board = Board::new();
    board.deck.push(Card::new(500, 20, Rank::King, FrenchSuit::Diamonds));
    board.turned.push(face_up(420, 20, Rank::Nine, FrenchSuit::Clubs));
    board.turned.push(face_up(420, 20, Rank::Two, FrenchSuit::Clubs));
    board.turned.push(face_up(420, 20, Rank::Five, FrenchSuit::Hearts));
    board.playfield[2].push(face_up(180, 120, Rank::Six, FrenchSuit::Spades));
    board.suit_stacks[0].push(face_up(20, 20, Rank::Ace, FrenchSuit::Clubs));
    Controller::new(board)
}

#[test]
fn a_new_controller_is_idle() {
    let controller = Controller::new(Board::new());
    assert_eq!(controller.distance_to_origin, (0, 0));
    assert!(!controller.has_moved_after_click);
    assert_eq!(controller.board.hand_memory.card, None);
}

#[test]
fn a_new_game_is_dealt() {
    let game = Controller::new_game();
    assert_eq!(game.board.deck.len(), 24);
    assert!(game.board.turned.is_empty());
    for k in 0..7 {
        assert_eq!(game.board.playfield[k].len(), k + 1);
        for j in 0..=k {
            assert_eq!(game.board.playfield[k][j].is_turned, j == k);
        }
    }
    for stack in game.board.suit_stacks.iter() {
        assert!(stack.is_empty());
    }
    assert_eq!(game.board.hand_memory.card, None);
    let ids = identities(&game.board);
    assert_eq!(ids.len(), 52);
    for rank in RANKS {
        for suit in SUITS {
            assert_eq!(ids.iter().filter(|id| **id == (rank, suit)).count(), 1);
        }
    }
}

#[test]
fn a_press_on_the_waste_pile_lifts_its_top_card() {
    let mut c = table();
    c.mouse_pressed(431, 27);
    assert_eq!(c.board.turned.len(), 2);
    assert_eq!(
        c.board.hand_memory.card,
        Some(face_up(420, 20, Rank::Five, FrenchSuit::Hearts))
    );
    assert_eq!(c.board.hand_memory.previous_stack, BoardArea::Turned);
    assert_eq!(c.distance_to_origin, (11, 7));
    assert!(!c.has_moved_after_click);
}

#[test]
fn a_press_beside_the_top_card_lifts_nothing() {
    let mut c = table();
    c.mouse_pressed(490, 50);
    assert_eq!(c.board.turned.len(), 3);
    assert_eq!(c.board.hand_memory.card, None);
    assert_eq!(c.board.hand_memory.previous_stack, BoardArea::Nowhere);
    assert_eq!(c.distance_to_origin, (0, 0));
}

#[test]
fn a_press_on_an_empty_waste_pile_lifts_nothing() {
    let mut c = Controller::new(Board::new());
    c.mouse_pressed(430, 30);
    assert_eq!(c.board.hand_memory.card, None);
    assert!(c.board.turned.is_empty());
}

#[test]
fn a_press_on_the_deck_turns_a_card_and_lifts_nothing() {
    let mut c = table();
    c.mouse_pressed(510, 30);
    assert!(c.board.deck.is_empty());
    assert_eq!(c.board.turned.len(), 4);
    assert_eq!(c.board.turned[3], face_up(420, 20, Rank::King, FrenchSuit::Diamonds));
    assert_eq!(c.board.hand_memory.card, None);
}

#[test]
fn a_press_anywhere_else_changes_nothing() {
    for (x, y) in [(30, 30), (190, 130), (350, 50), (0, 0), (300, 450)] {
        let mut c = table();
        c.mouse_pressed(x, y);
        assert_eq!(c.board.deck.len(), 1);
        assert_eq!(c.board.turned.len(), 3);
        assert_eq!(c.board.playfield[2].len(), 1);
        assert_eq!(c.board.suit_stacks[0].len(), 1);
        assert_eq!(c.board.hand_memory.card, None);
    }
}

#[test]
fn a_press_with_a_card_in_the_hand_changes_nothing() {
    let mut c = table();
    c.mouse_pressed(431, 27);
    c.mouse_pressed(431, 27);
    assert_eq!(c.board.turned.len(), 2);
    c.mouse_pressed(510, 30);
    assert_eq!(c.board.deck.len(), 1);
    assert_eq!(
        c.board.hand_memory.card,
        Some(face_up(420, 20, Rank::Five, FrenchSuit::Hearts))
    );
}

#[test]
fn the_card_in_the_hand_follows_the_pointer() {
    let mut c = table();
    c.mouse_pressed(431, 27);
    c.mouse_down(200, 150);
    assert_eq!(
        c.board.hand_memory.card,
        Some(face_up(189, 143, Rank::Five, FrenchSuit::Hearts))
    );
    assert!(c.has_moved_after_click);
    c.mouse_down(i32::MIN, i32::MAX);
    assert_eq!(
        c.board.hand_memory.card,
        Some(face_up(i32::MIN as i64 - 11, i32::MAX as i64 - 7, Rank::Five, FrenchSuit::Hearts))
    );
}

#[test]
fn the_button_held_down_counts_as_movement_with_an_empty_hand_too() {
    let mut c = table();
    c.mouse_down(10, 10);
    assert!(c.has_moved_after_click);
    assert_eq!(c.board.hand_memory.card, None);
}

#[test]
fn a_drag_to_a_lane_that_accepts_places_the_card() {
    let mut c = table();
    c.mouse_pressed(431, 27);
    c.mouse_down(200, 150);
    c.mouse_released(200, 150);
    assert_eq!(c.board.playfield[2].len(), 2);
    assert_eq!(c.board.playfield[2][1], face_up(180, 140, Rank::Five, FrenchSuit::Hearts));
    assert_eq!(c.board.turned.len(), 2);
    assert_eq!(c.board.hand_memory.card, None);
    assert_eq!(c.board.hand_memory.previous_stack, BoardArea::Nowhere);
    assert_eq!(c.distance_to_origin, (0, 0));
    assert!(!c.has_moved_after_click);
}

#[test]
fn a_drag_to_an_empty_lane_leaves_the_card_where_it_was_let_go() {
    let mut c = table();
    c.mouse_pressed(431, 27);
    c.mouse_down(40, 300);
    c.mouse_released(40, 300);
    assert_eq!(c.board.playfield[0], vec![face_up(29, 293, Rank::Five, FrenchSuit::Hearts)]);
}

#[test]
fn a_drag_to_a_lane_that_refuses_brings_the_card_back() {
    let mut c = table();
    c.mouse_pressed(431, 27);
    c.mouse_down(300, 150);
    c.board.playfield[3].push(face_up(260, 120, Rank::Six, FrenchSuit::Diamonds));
    let before = identities(&c.board);
    c.mouse_released(300, 150);
    assert_eq!(c.board.playfield[3].len(), 1);
    assert_eq!(c.board.turned.len(), 3);
    assert_eq!(c.board.turned[2], face_up(420, 20, Rank::Five, FrenchSuit::Hearts));
    assert_eq!(c.board.hand_memory.card, None);
    assert_eq!(identities(&c.board), before);
}

#[test]
fn a_refused_drag_leaves_the_board_as_it_was() {
    let mut c = table();
    c.board.playfield[3].push(face_up(260, 120, Rank::Six, FrenchSuit::Diamonds));
    let before = c.board.clone();
    c.mouse_pressed(431, 27);
    c.mouse_down(300, 150);
    c.mouse_released(300, 150);
    assert_eq!(c.board.deck, before.deck);
    assert_eq!(c.board.turned, before.turned);
    assert_eq!(c.board.playfield, before.playfield);
    assert_eq!(c.board.suit_stacks, before.suit_stacks);
    assert_eq!(c.board.hand_memory.card, None);
}

#[test]
fn a_drag_to_a_suit_stack_offers_the_card_to_it() {
    let mut c = table();
    c.mouse_pressed(431, 27);
    c.mouse_down(30, 30);
    c.mouse_released(30, 30);
    assert_eq!(c.board.suit_stacks[0].len(), 1);
    assert_eq!(c.board.turned.len(), 3);
    c.mouse_pressed(431, 27);
    c.mouse_down(30, 30);
    c.mouse_released(120, 30);
    assert_eq!(c.board.suit_stacks[1], vec![face_up(19, 23, Rank::Five, FrenchSuit::Hearts)]);
    c.mouse_pressed(431, 27);
    c.mouse_down(30, 30);
    c.mouse_released(30, 30);
    assert_eq!(c.board.suit_stacks[0].len(), 2);
    assert_eq!(c.board.suit_stacks[0][1], face_up(20, 20, Rank::Two, FrenchSuit::Clubs));
    assert_eq!(c.board.turned.len(), 1);
}

#[test]
fn a_drag_to_no_pile_brings_the_card_back() {
    for (x, y) in [(510, 30), (430, 30), (350, 50), (0, 0), (300, 450)] {
        let mut c = table();
        c.mouse_pressed(431, 27);
        c.mouse_down(x, y);
        c.mouse_released(x, y);
        assert_eq!(c.board.turned.len(), 3);
        assert_eq!(c.board.turned[2], face_up(420, 20, Rank::Five, FrenchSuit::Hearts));
        assert_eq!(c.board.deck.len(), 1);
        assert_eq!(c.board.hand_memory.card, None);
    }
}

#[test]
fn a_click_on_the_waste_pile_with_cards_in_the_deck_moves_nothing() {
    let mut c = table();
    let before = c.board.clone();
    c.mouse_pressed(431, 27);
    c.mouse_released(431, 27);
    assert_eq!(c.board.deck, before.deck);
    assert_eq!(c.board.turned, before.turned);
    assert_eq!(c.board.playfield, before.playfield);
    assert_eq!(c.board.suit_stacks, before.suit_stacks);
    assert_eq!(c.board.hand_memory.card, None);
}

#[test]
fn a_click_on_the_waste_pile_with_an_empty_deck_recycles() {
    let mut c = table();
    c.board.deck.clear();
    c.mouse_pressed(431, 27);
    c.mouse_released(433, 29);
    assert_eq!(
        c.board.deck,
        vec![
            Card::new(500, 20, Rank::Nine, FrenchSuit::Clubs),
            Card::new(500, 20, Rank::Two, FrenchSuit::Clubs)
        ]
    );
    assert_eq!(c.board.turned, vec![face_up(420, 20, Rank::Five, FrenchSuit::Hearts)]);
    assert_eq!(c.board.playfield[2].len(), 1);
    assert_eq!(c.board.suit_stacks[0].len(), 1);
    assert_eq!(c.board.hand_memory.card, None);
    assert_eq!(c.board.hand_memory.previous_stack, BoardArea::Nowhere);
}

#[test]
fn a_click_beside_the_top_card_recycles_the_whole_waste_pile() {
    let mut c = table();
    c.board.deck.clear();
    c.mouse_pressed(490, 50);
    c.mouse_released(490, 50);
    assert_eq!(c.board.deck.len(), 3);
    assert!(c.board.turned.is_empty());
    for card in c.board.deck.iter() {
        assert!(!card.is_turned);
        assert_eq!(card.x, 500);
    }
}

#[test]
fn a_release_on_the_waste_pile_after_movement_is_no_click() {
    let mut c = table();
    c.board.deck.clear();
    c.mouse_pressed(431, 27);
    c.mouse_down(432, 28);
    c.mouse_released(431, 27);
    assert!(c.board.deck.is_empty());
    assert_eq!(c.board.turned.len(), 3);
    assert_eq!(c.board.hand_memory.card, None);
}

#[test]
fn a_release_without_movement_over_a_lane_places_the_card() {
    let mut c = table();
    c.mouse_pressed(431, 27);
    c.mouse_released(200, 150);
    assert_eq!(c.board.playfield[2].len(), 2);
    assert_eq!(c.board.playfield[2][1], face_up(180, 140, Rank::Five, FrenchSuit::Hearts));
}

#[test]
fn a_release_with_an_empty_hand_only_forgets_the_drag() {
    let mut c = table();
    c.mouse_down(200, 150);
    c.mouse_released(200, 150);
    assert!(!c.has_moved_after_click);
    assert_eq!(c.board.turned.len(), 3);
    assert_eq!(c.board.playfield[2].len(), 1);
}

#[test]
fn a_frame_takes_press_hold_and_release_in_this_order() {
    let mut c = table();
    c.board.deck.clear();
    let sample = PointerSample { x: 431, y: 27, pressed: true, down: true, released: true };
    c.update(sample);
    assert!(c.board.deck.is_empty());
    assert_eq!(c.board.turned.len(), 3);
    assert_eq!(c.board.hand_memory.card, None);
    assert!(!c.has_moved_after_click);
}

#[test]
fn frames_of_a_drag() {
    let mut c = table();
    c.update(PointerSample { x: 431, y: 27, pressed: true, down: true, released: false });
    assert!(c.has_moved_after_click);
    assert_eq!(
        c.board.hand_memory.card,
        Some(face_up(420, 20, Rank::Five, FrenchSuit::Hearts))
    );
    c.update(PointerSample { x: 300, y: 200, pressed: false, down: true, released: false });
    assert_eq!(
        c.board.hand_memory.card,
        Some(face_up(289, 193, Rank::Five, FrenchSuit::Hearts))
    );
    c.update(PointerSample { x: 200, y: 150, pressed: false, down: false, released: true });
    assert_eq!(c.board.playfield[2].len(), 2);
    assert_eq!(c.board.hand_memory.card, None);
}

#[test]
fn a_frame_without_flags_changes_nothing() {
    let mut c = table();
    c.update(PointerSample { x: 431, y: 27, pressed: false, down: false, released: false });
    assert_eq!(c.board.turned.len(), 3);
    assert_eq!(c.board.hand_memory.card, None);
    assert!(!c.has_moved_after_click);
}

#[test]
fn a_game_keeps_its_cards() {
    let mut game = Controller::new_game();
    let all = identities(&game.board);
    let mut seed: u32 = 12345;
    for _ in 0..4000 {
        seed = seed.wrapping_mul(1664525).wrapping_add(1013904223);
        let x = ((seed >> 8) % 620) as i32 - 10;
        seed = seed.wrapping_mul(1664525).wrapping_add(1013904223);
        let y = ((seed >> 8) % 480) as i32 - 10;
        seed = seed.wrapping_mul(1664525).wrapping_add(1013904223);
        match (seed >> 8) % 4 {
            0 => game.mouse_pressed(x, y),
            1 => game.mouse_down(x, y),
            2 => game.mouse_released(x, y),
            _ => {
                game.mouse_pressed(510, 30);
                game.mouse_released(510, 30);
            }
        }
        assert_eq!(identities(&game.board), all);
    }
}

#[test]
fn a_new_game_is_well_formed_and_stays_so() {
    let mut game = Controller::new_game();
    assert!(game.is_well_formed());
    game.mouse_pressed(510, 30);
    game.mouse_released(510, 30);
    game.mouse_pressed(431, 27);
    assert!(game.is_well_formed());
    game.mouse_down(i32::MAX, i32::MIN);
    assert!(game.is_well_formed());
    game.mouse_released(i32::MAX, i32::MIN);
    assert!(game.is_well_formed());
}

#[test]
fn a_controller_is_not_well_formed_with_a_card_lifted_from_elsewhere() {
    let mut c = table();
    assert!(c.is_well_formed());
    c.board.hand_memory.card = Some(face_up(0, 0, Rank::Ace, FrenchSuit::Hearts));
    c.board.hand_memory.previous_stack = BoardArea::Lane(1);
    assert!(!c.is_well_formed());
    c.board.hand_memory.previous_stack = BoardArea::Turned;
    assert!(c.is_well_formed());
    c.distance_to_origin = (60, 0);
    assert!(!c.is_well_formed());
    c.distance_to_origin = (59, 79);
    assert!(c.is_well_formed());
    c.distance_to_origin = (0, -1);
    assert!(!c.is_well_formed());
}
