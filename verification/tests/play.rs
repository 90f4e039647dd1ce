use solitaire::deck::ordered_pack;
use solitaire::game::{Message, Solitaire};
use solitaire::geometry::Point;
use solitaire::gesture::{press, Pending};
use solitaire::model::{CardPosition, DrawMode};

fn p(x: i32, y: i32) -> Point {
    Point { x, y }
}

#[test]
fn first_press_arms_and_second_press_asks() {
    let mut game = Solitaire::new();
    assert!(game.board.start_with(ordered_pack()));
    let mut pending: Option<Pending> = None;
    assert_eq!(press(&game.board, &mut pending, p(100, 100)), None);
    assert_eq!(pending, Some(Pending::One { from: p(100, 100) }));
    let asked = press(&game.board, &mut pending, p(200, 100));
    assert_eq!(asked, Some(CardPosition { from: p(100, 100), to: p(200, 100) }));
    assert_eq!(pending, None);
}

#[test]
fn press_outside_is_ignored() {
    let mut game = Solitaire::new();
    assert!(game.board.start_with(ordered_pack()));
    let mut pending: Option<Pending> = None;
    assert_eq!(press(&game.board, &mut pending, p(5, 5)), None);
    assert_eq!(pending, None);
}

#[test]
fn press_outside_cancels_a_pending_move() {
    let mut game = Solitaire::new();
    assert!(game.board.start_with(ordered_pack()));
    let stock_before = game.board.stock_card_indexes.clone();
    let tableau_before = game.board.tab_card_indexes.clone();
    let mut pending: Option<Pending> = None;
    assert_eq!(press(&game.board, &mut pending, p(100, 100)), None);
    assert!(pending.is_some());
    assert_eq!(press(&game.board, &mut pending, p(5, 5)), None);
    assert_eq!(pending, None);
    assert_eq!(game.board.stock_card_indexes, stock_before);
    assert_eq!(game.board.tab_card_indexes, tableau_before);
    assert!(game.board.waste_card_indexes.is_empty());
    // the next press starts afresh
    assert_eq!(press(&game.board, &mut pending, p(200, 100)), None);
    assert_eq!(pending, Some(Pending::One { from: p(200, 100) }));
}

#[test]
fn draw_mode_labels() {
    assert_eq!(DrawMode::from_label("1"), DrawMode::One);
    assert_eq!(DrawMode::from_label("3"), DrawMode::Three);
    assert_eq!(DrawMode::from_label(""), DrawMode::Three);
    assert_eq!(DrawMode::from_label("11"), DrawMode::Three);
    assert_eq!(DrawMode::from_label("one"), DrawMode::Three);
}

#[test]
fn update_starts_a_game() {
    let mut game = Solitaire::default();
    assert!(!game.board.start);
    game.update(Message::Start);
    assert!(game.board.start);
    assert_eq!(game.board.stock_card_indexes.len(), 24);
    assert!(game.board.stock_dirty && game.board.waste_dirty && game.board.foundation_dirty);
    assert_eq!(game.board.tab_dirty, vec![true; 7]);
}

#[test]
fn update_selects_the_draw_mode() {
    let mut game = Solitaire::new();
    game.update(Message::Start);
    game.update(Message::SelectCardsToPlay("1".to_string()));
    assert_eq!(game.board.cards_to_play, DrawMode::One);
    let request = CardPosition { from: p(100, 100), to: p(200, 100) };
    game.update(Message::MoveCard(request));
    assert_eq!(game.board.stock_card_indexes.len(), 23);
    assert_eq!(game.board.waste_card_indexes.len(), 1);
    game.update(Message::SelectCardsToPlay("3".to_string()));
    assert_eq!(game.board.cards_to_play, DrawMode::Three);
    game.update(Message::MoveCard(request));
    assert_eq!(game.board.stock_card_indexes.len(), 20);
    assert_eq!(game.board.waste_card_indexes.len(), 4);
}

#[test]
fn update_answers_a_request() {
    let mut game = Solitaire::new();
    assert!(game.board.start_with(ordered_pack()));
    let request = CardPosition { from: p(100, 100), to: p(200, 100) };
    game.update(Message::MoveCard(request));
    assert_eq!(game.board.position, request);
    assert_eq!(game.board.waste_card_indexes, vec![51, 50, 49]);
    assert!(game.board.stock_dirty && game.board.waste_dirty);
    assert!(!game.board.foundation_dirty);
    assert_eq!(game.board.tab_dirty, vec![false; 7]);
    game.board.redrawn();
    // the ace of clubs goes from the first column to a foundation; the slots follow
    let request = CardPosition { from: p(100, 300), to: p(450, 100) };
    game.update(Message::MoveCard(request));
    assert_eq!(game.board.foundation_cards[0], Some(0));
    assert!(game.board.foundation_dirty);
    assert_eq!(game.board.tab_dirty, vec![true, false, false, false, false, false, false]);
    assert_eq!(game.board.tab_positions[0], vec![(p(50, 250), p(150, 425))]);
    assert!(!game.board.stock_dirty && !game.board.waste_dirty);
}

#[test]
fn update_marks_nothing_for_a_refused_move() {
    let mut game = Solitaire::new();
    assert!(game.board.start_with(ordered_pack()));
    let request = CardPosition { from: p(200, 100), to: p(100, 100) };
    game.update(Message::MoveCard(request));
    assert_eq!(game.board.position, request);
    assert!(!game.board.stock_dirty && !game.board.waste_dirty && !game.board.foundation_dirty);
    assert_eq!(game.board.tab_dirty, vec![false; 7]);
    assert_eq!(game.board.stock_card_indexes.len(), 24);
    assert_eq!(game.board.card_rounds, 0);
}
