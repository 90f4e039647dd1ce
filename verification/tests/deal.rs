use solitaire::board::State;
use solitaire::card::{Card, Color, Suit};
use solitaire::deck::{arrange, load_cards, ordered_pack};
use solitaire::geometry::Point;
use solitaire::model::DrawMode;

fn suits() -> [Suit; 4] {
    [Suit::Clubs, Suit::Spades, Suit::Hearts, Suit::Diamonds]
}

#[test]
fn ordered_pack_lists_suits_and_ranks() {
    let pack = ordered_pack();
    assert_eq!(pack.len(), 52);
    for (place, suit) in suits().iter().enumerate() {
        for rank in 1..=13u32 {
            let card = pack[place * 13 + rank as usize - 1];
            assert_eq!(card, Card { suit: *suit, rank, visible: false });
        }
    }
    assert_eq!(pack[0], Card { suit: Suit::Clubs, rank: 1, visible: false });
    assert_eq!(pack[25], Card { suit: Suit::Spades, rank: 13, visible: false });
    assert_eq!(pack[26], Card { suit: Suit::Hearts, rank: 1, visible: false });
    assert_eq!(pack[51], Card { suit: Suit::Diamonds, rank: 13, visible: false });
}

#[test]
fn suit_colours_and_places() {
    assert_eq!(Suit::Clubs.color(), Color::Black);
    assert_eq!(Suit::Spades.color(), Color::Black);
    assert_eq!(Suit::Hearts.color(), Color::Red);
    assert_eq!(Suit::Diamonds.color(), Color::Red);
    assert_eq!(Suit::Clubs.index(), 0);
    assert_eq!(Suit::Spades.index(), 1);
    assert_eq!(Suit::Hearts.index(), 2);
    assert_eq!(Suit::Diamonds.index(), 3);
    let card = Card { suit: Suit::Diamonds, rank: 7, visible: true };
    assert_eq!(card.color(), Color::Red);
}

#[test]
fn load_cards_gives_every_card_once() {
    for _ in 0..20 {
        let cards = load_cards();
        assert_eq!(cards.len(), 52);
        for suit in suits() {
            for rank in 1..=13u32 {
                let count = cards.iter().filter(|c| c.suit == suit && c.rank == rank).count();
                assert_eq!(count, 1, "{:?} {}", suit, rank);
            }
        }
        assert!(cards.iter().all(|c| !c.visible));
        assert!(cards.iter().all(|c| 1 <= c.rank && c.rank <= 13));
    }
}

#[test]
fn load_cards_shuffles() {
    // a shuffle that left the pack in its order twenty times over would be no shuffle
    let pack = ordered_pack();
    let mut moved = false;
    for _ in 0..20 {
        if load_cards() != pack {
            moved = true;
        }
    }
    assert!(moved);
}

#[test]
fn arrange_follows_the_order() {
    let order: Vec<u32> = (0..52).rev().collect();
    let cards = arrange(&order).unwrap();
    let pack = ordered_pack();
    assert_eq!(cards.len(), 52);
    for i in 0..52 {
        assert_eq!(cards[i], pack[51 - i]);
    }
    let some = arrange(&vec![51, 0, 13]).unwrap();
    assert_eq!(
        some,
        vec![
            Card { suit: Suit::Diamonds, rank: 13, visible: false },
            Card { suit: Suit::Clubs, rank: 1, visible: false },
            Card { suit: Suit::Spades, rank: 1, visible: false },
        ]
    );
    assert_eq!(arrange(&vec![]), Some(vec![]));
}

#[test]
fn arrange_refuses_a_place_outside_the_pack() {
    assert_eq!(arrange(&vec![0, 52]), None);
    assert_eq!(arrange(&vec![u32::MAX]), None);
}

#[test]
fn new_board_is_empty() {
    let state = State::new();
    assert!(!state.start);
    assert!(state.cards.is_empty());
    assert!(state.stock_card_indexes.is_empty());
    assert!(state.waste_card_indexes.is_empty());
    assert_eq!(state.tab_card_indexes, vec![Vec::<usize>::new(); 7]);
    assert_eq!(state.tab_positions, vec![Vec::<(Point, Point)>::new(); 7]);
    assert_eq!(state.foundation_cards, vec![None; 4]);
    assert_eq!(state.card_rounds, 0);
    assert_eq!(state.cards_moved_from_waste, 0);
    assert_eq!(state.cards_to_play, DrawMode::Three);
    assert_eq!(state.stock_position, (Point { x: 50, y: 25 }, Point { x: 150, y: 175 }));
    assert_eq!(state.waste_position, (Point { x: 170, y: 25 }, Point { x: 270, y: 175 }));
    assert_eq!(
        state.foundation_positions,
        vec![
            (Point { x: 400, y: 25 }, Point { x: 500, y: 175 }),
            (Point { x: 520, y: 25 }, Point { x: 620, y: 175 }),
            (Point { x: 640, y: 25 }, Point { x: 740, y: 175 }),
            (Point { x: 760, y: 25 }, Point { x: 860, y: 175 }),
        ]
    );
    assert!(!state.foundation_dirty && !state.stock_dirty && !state.waste_dirty);
    assert_eq!(state.tab_dirty, vec![false; 7]);
    assert!(!state.stock_has_more());
    assert_eq!(state.waste_top(), None);
    let other = State::default();
    assert!(!other.start);
    assert_eq!(other.cards_to_play, DrawMode::Three);
}

#[test]
fn start_deals_the_tableau_and_the_stock() {
    let mut state = State::new();
    state.start();
    assert!(state.start);
    assert_eq!(state.cards.len(), 52);
    let mut total = state.stock_card_indexes.len();
    for i in 0..7 {
        assert_eq!(state.tab_card_indexes[i].len(), i + 1);
        total += state.tab_card_indexes[i].len();
        for (j, handle) in state.tab_card_indexes[i].iter().enumerate() {
            assert_eq!(state.cards[*handle].visible, j == i);
        }
    }
    assert_eq!(total, 52);
    assert_eq!(state.stock_card_indexes.len(), 24);
    assert!(state.stock_card_indexes.iter().all(|h| !state.cards[*h].visible));
    assert!(state.waste_card_indexes.is_empty());
    assert_eq!(state.foundation_cards, vec![None; 4]);
    assert_eq!(state.card_rounds, 0);
    assert_eq!(state.cards_moved_from_waste, 0);
    assert!(state.stock_has_more());
    // every handle lies in exactly one place
    let mut seen = vec![0; 52];
    for h in state.stock_card_indexes.iter() {
        seen[*h] += 1;
    }
    for column in state.tab_card_indexes.iter() {
        for h in column.iter() {
            seen[*h] += 1;
        }
    }
    assert_eq!(seen, vec![1; 52]);
}

#[test]
fn start_with_deals_by_handle() {
    let mut state = State::new();
    state.cards_to_play = DrawMode::One;
    assert!(state.start_with(ordered_pack()));
    assert_eq!(
        state.tab_card_indexes,
        vec![
            vec![0],
            vec![1, 2],
            vec![3, 4, 5],
            vec![6, 7, 8, 9],
            vec![10, 11, 12, 13, 14],
            vec![15, 16, 17, 18, 19, 20],
            vec![21, 22, 23, 24, 25, 26, 27],
        ]
    );
    assert_eq!(state.stock_card_indexes, (28..52).collect::<Vec<usize>>());
    let pack = ordered_pack();
    for h in 0..52 {
        assert_eq!(state.cards[h].suit, pack[h].suit);
        assert_eq!(state.cards[h].rank, pack[h].rank);
        assert_eq!(state.cards[h].visible, [0, 2, 5, 9, 14, 20, 27].contains(&h));
    }
    // what is no part of a deal stays
    assert_eq!(state.cards_to_play, DrawMode::One);
}

#[test]
fn start_with_turns_cards_face_down() {
    let mut deck = ordered_pack();
    for card in deck.iter_mut() {
        card.visible = true;
    }
    let mut state = State::new();
    assert!(state.start_with(deck));
    assert!(!state.cards[1].visible);
    assert!(state.cards[2].visible);
    assert!(!state.cards[28].visible);
    assert!(!state.cards[51].visible);
}

#[test]
fn start_with_refuses_a_short_deck() {
    let mut state = State::new();
    let mut deck = ordered_pack();
    deck.pop();
    assert!(!state.start_with(deck));
    assert!(!state.start);
    assert!(state.cards.is_empty());
    assert!(!state.start_with(Vec::new()));
    let mut long = ordered_pack();
    long.push(Card { suit: Suit::Clubs, rank: 1, visible: false });
    assert!(!state.start_with(long));
    assert!(state.cards.is_empty());
}

#[test]
fn start_again_resets_the_game() {
    let mut state = State::new();
    assert!(state.start_with(ordered_pack()));
    state.move_stock_to_waste();
    state.card_rounds = 5;
    state.cards_moved_from_waste = 2;
    state.tab_card_indexes[0].clear();
    state.foundation_cards[1] = Some(0);
    assert!(state.start_with(ordered_pack()));
    assert_eq!(state.stock_card_indexes.len(), 24);
    assert!(state.waste_card_indexes.is_empty());
    assert_eq!(state.foundation_cards, vec![None; 4]);
    assert_eq!(state.card_rounds, 0);
    assert_eq!(state.cards_moved_from_waste, 0);
}
