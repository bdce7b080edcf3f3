use solitaire::card::Card;
use solitaire::rank::Rank;
use solitaire::suit::FrenchSuit;
use solitaire::{
    get_distance_to_card_origin, get_lane_range, in_range, CARD_HEIGHT, CARD_WIDTH, PADDING,
    PLAYFIELD_RANGE, TOP_ROW_RANGE,
};

#[test]
fn layout_constants() {
    assert_eq!(CARD_WIDTH, 60);
    assert_eq!(CARD_HEIGHT, 80);
    assert_eq!(PADDING, 20);
    assert_eq!(TOP_ROW_RANGE, 20..100);
    assert_eq!(PLAYFIELD_RANGE, 120..440);
}

#[test]
fn lane_ranges_are_eighty_wide_and_adjoin() {
    assert_eq!(get_lane_range(1), 20..100);
    assert_eq!(get_lane_range(2), 100..180);
    assert_eq!(get_lane_range(3), 180..260);
    assert_eq!(get_lane_range(4), 260..340);
    assert_eq!(get_lane_range(5), 340..420);
    assert_eq!(get_lane_range(6), 420..500);
    assert_eq!(get_lane_range(7), 500..580);
    for n in 1..7usize {
        assert_eq!(get_lane_range(n).end, get_lane_range(n + 1).start);
    }
}

#[test]
fn ranges_are_half_open() {
    let r = 20..100;
    assert!(!in_range(&r, 19));
    assert!(in_range(&r, 20));
    assert!(in_range(&r, 99));
    assert!(!in_range(&r, 100));
}

#[test]
fn distance_is_measured_from_the_top_left_corner() {
    let card = Card::new(420, 20, Rank::Five, FrenchSuit::Hearts);
    assert_eq!(get_distance_to_card_origin(&card, 420, 20), Some((0, 0)));
    assert_eq!(get_distance_to_card_origin(&card, 431, 27), Some((11, 7)));
    assert_eq!(get_distance_to_card_origin(&card, 479, 99), Some((59, 79)));
}

#[test]
fn no_distance_off_the_card() {
    let card = Card::new(420, 20, Rank::Five, FrenchSuit::Hearts);
    assert_eq!(get_distance_to_card_origin(&card, 419, 50), None);
    assert_eq!(get_distance_to_card_origin(&card, 480, 50), None);
    assert_eq!(get_distance_to_card_origin(&card, 450, 19), None);
    assert_eq!(get_distance_to_card_origin(&card, 450, 100), None);
}

#[test]
fn distance_copes_with_cards_far_away() {
    let far = Card::new(i64::MIN, i64::MAX, Rank::Ace, FrenchSuit::Clubs);
    assert_eq!(get_distance_to_card_origin(&far, i32::MAX, i32::MIN), None);
    let near = Card::new(i32::MAX as i64 - 10, i32::MIN as i64, Rank::Ace, FrenchSuit::Clubs);
    assert_eq!(get_distance_to_card_origin(&near, i32::MAX, i32::MIN), Some((10, 0)));
}
