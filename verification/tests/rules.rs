use solitaire::board::{reversed, top_handle, State};
use solitaire::card::{Card, Suit};
use solitaire::deck::ordered_pack;
use solitaire::model::{DrawMode, Move};

// In a pack in its order the handles are: clubs 0 to 12, spades 13 to 25, hearts 26 to 38,
// diamonds 39 to 51, each suit from the ace up.
const ACE_CLUBS: usize = 0;
const TWO_CLUBS: usize = 1;
const THREE_CLUBS: usize = 2;
const QUEEN_CLUBS: usize = 11;
const KING_CLUBS: usize = 12;
const ACE_SPADES: usize = 13;
const TWO_SPADES: usize = 14;
const JACK_SPADES: usize = 23;
const QUEEN_SPADES: usize = 24;
const KING_SPADES: usize = 25;
const ACE_HEARTS: usize = 26;
const TWO_HEARTS: usize = 27;
const TEN_HEARTS: usize = 35;
const JACK_HEARTS: usize = 36;
const QUEEN_HEARTS: usize = 37;
const KING_HEARTS: usize = 38;
const QUEEN_DIAMONDS: usize = 50;

/// A board with a pack in its order as card table and the zones as given; what is not
/// given is left out of the game.
fn board(stock: Vec<usize>, waste: Vec<usize>, tableau: Vec<Vec<usize>>) -> State {
    let mut state = State::new();
    assert!(state.start_with(ordered_pack()));
    state.stock_card_indexes = stock;
    state.waste_card_indexes = waste;
    for c in 0..7 {
        state.tab_card_indexes[c] = if c < tableau.len() { tableau[c].clone() } else { vec![] };
    }
    for card in state.cards.iter_mut() {
        card.visible = false;
    }
    state.recalc_tab_positions();
    state
}

#[test]
fn draw_three_turns_three_over() {
    let mut state = State::new();
    assert!(state.start_with(ordered_pack()));
    assert!(state.move_stock_to_waste());
    assert_eq!(state.stock_card_indexes, (28..49).collect::<Vec<usize>>());
    assert_eq!(state.stock_card_indexes.len(), 21);
    assert_eq!(state.waste_card_indexes, vec![51, 50, 49]);
    assert_eq!(state.waste_top(), Some(49));
    assert!(state.stock_has_more());
    assert!(state.move_stock_to_waste());
    assert_eq!(state.waste_card_indexes, vec![51, 50, 49, 48, 47, 46]);
    assert_eq!(state.stock_card_indexes.len(), 18);
}

#[test]
fn draw_three_from_exactly_three() {
    let mut state = board(vec![5, 6, 7], vec![9], vec![]);
    assert!(state.move_stock_to_waste());
    assert!(state.stock_card_indexes.is_empty());
    assert_eq!(state.waste_card_indexes, vec![9, 7, 6, 5]);
    assert!(!state.stock_has_more());
}

#[test]
fn draw_three_from_two_keeps_their_order() {
    let mut state = board(vec![5, 6], vec![9], vec![]);
    assert!(state.move_stock_to_waste());
    assert!(state.stock_card_indexes.is_empty());
    assert_eq!(state.waste_card_indexes, vec![9, 5, 6]);
    assert!(!state.stock_has_more());
    assert_eq!(state.waste_top(), Some(6));
}

#[test]
fn draw_three_from_one() {
    let mut state = board(vec![5], vec![], vec![]);
    assert!(state.move_stock_to_waste());
    assert!(state.stock_card_indexes.is_empty());
    assert_eq!(state.waste_card_indexes, vec![5]);
    assert!(!state.stock_has_more());
}

#[test]
fn draw_from_an_empty_stock_does_nothing() {
    let mut state = board(vec![], vec![4, 5], vec![]);
    assert!(!state.move_stock_to_waste());
    assert!(state.stock_card_indexes.is_empty());
    assert_eq!(state.waste_card_indexes, vec![4, 5]);
}

#[test]
fn draw_one_turns_one_over() {
    let mut state = board(vec![5, 6, 7], vec![9], vec![]);
    state.cards_to_play = DrawMode::One;
    assert!(state.move_stock_to_waste());
    assert_eq!(state.stock_card_indexes, vec![5, 6]);
    assert_eq!(state.waste_card_indexes, vec![9, 7]);
    assert!(state.move_stock_to_waste());
    assert!(state.move_stock_to_waste());
    assert!(!state.move_stock_to_waste());
    assert_eq!(state.waste_card_indexes, vec![9, 7, 6, 5]);
}

#[test]
fn eight_draws_and_a_recycle() {
    let mut state = State::new();
    assert!(state.start_with(ordered_pack()));
    let stock_before = state.stock_card_indexes.clone();
    for _ in 0..8 {
        assert!(state.move_stock_to_waste());
    }
    assert!(state.stock_card_indexes.is_empty());
    assert_eq!(state.waste_card_indexes.len(), 24);
    // each three come out turned over, which here turns the whole stock over
    assert_eq!(state.waste_card_indexes, (28..52).rev().collect::<Vec<usize>>());
    assert!(!state.move_stock_to_waste());
    assert!(state.move_waste_to_stock());
    assert_eq!(state.stock_card_indexes.len(), 24);
    assert_eq!(state.stock_card_indexes, stock_before);
    assert!(state.waste_card_indexes.is_empty());
    assert_eq!(state.card_rounds, 1);
    assert_eq!(state.cards_moved_from_waste, 0);
}

#[test]
fn recycle_needs_an_empty_stock() {
    let mut state = board(vec![3], vec![4, 5], vec![]);
    state.cards_moved_from_waste = 1;
    assert!(!state.move_waste_to_stock());
    assert_eq!(state.stock_card_indexes, vec![3]);
    assert_eq!(state.waste_card_indexes, vec![4, 5]);
    assert_eq!(state.card_rounds, 0);
    assert_eq!(state.cards_moved_from_waste, 1);
}

#[test]
fn recycle_of_an_empty_waste_does_nothing() {
    let mut state = board(vec![], vec![], vec![]);
    assert!(!state.move_waste_to_stock());
    assert!(state.stock_card_indexes.is_empty());
    assert!(state.waste_card_indexes.is_empty());
    assert_eq!(state.card_rounds, 0);
}

#[test]
fn recycle_turns_the_waste_over() {
    let mut state = board(vec![], vec![4, 5, 6, 9], vec![]);
    state.cards_moved_from_waste = 3;
    state.card_rounds = 7;
    assert!(state.move_waste_to_stock());
    assert_eq!(state.stock_card_indexes, vec![9, 6, 5, 4]);
    assert!(state.waste_card_indexes.is_empty());
    assert_eq!(state.card_rounds, 8);
    assert_eq!(state.cards_moved_from_waste, 0);
}

#[test]
fn rounds_stop_counting_at_the_largest_number() {
    let mut state = board(vec![], vec![4], vec![]);
    state.card_rounds = u16::MAX - 1;
    assert!(state.move_waste_to_stock());
    assert_eq!(state.card_rounds, u16::MAX);
    assert!(state.move_stock_to_waste());
    assert!(state.move_waste_to_stock());
    assert_eq!(state.card_rounds, u16::MAX);
    assert_eq!(state.stock_card_indexes, vec![4]);
}

#[test]
fn waste_to_foundation_takes_an_ace_first() {
    let mut state = board(vec![], vec![TWO_CLUBS, ACE_CLUBS], vec![]);
    assert!(state.move_waste_to_foundation(2));
    assert_eq!(state.foundation_cards, vec![None, None, Some(ACE_CLUBS), None]);
    assert_eq!(state.waste_card_indexes, vec![TWO_CLUBS]);
    assert_eq!(state.cards_moved_from_waste, 1);
    assert_eq!(state.waste_top(), Some(TWO_CLUBS));
    // then the two of the same suit
    assert!(state.move_waste_to_foundation(2));
    assert_eq!(state.foundation_cards[2], Some(TWO_CLUBS));
    assert!(state.waste_card_indexes.is_empty());
    assert_eq!(state.cards_moved_from_waste, 2);
    assert_eq!(state.waste_top(), None);
}

#[test]
fn waste_to_foundation_refuses_other_cards() {
    // no ace onto an empty foundation
    let mut state = board(vec![], vec![TWO_CLUBS], vec![]);
    assert!(!state.move_waste_to_foundation(0));
    assert_eq!(state.foundation_cards, vec![None; 4]);
    assert_eq!(state.waste_card_indexes, vec![TWO_CLUBS]);
    assert_eq!(state.cards_moved_from_waste, 0);
    // the right rank of another suit of the same colour
    let mut state = board(vec![], vec![TWO_SPADES], vec![]);
    state.foundation_cards[0] = Some(ACE_CLUBS);
    assert!(!state.move_waste_to_foundation(0));
    assert_eq!(state.foundation_cards[0], Some(ACE_CLUBS));
    assert_eq!(state.waste_card_indexes, vec![TWO_SPADES]);
    // the right rank of the other colour
    let mut state = board(vec![], vec![TWO_HEARTS], vec![]);
    state.foundation_cards[0] = Some(ACE_CLUBS);
    assert!(!state.move_waste_to_foundation(0));
    // the same suit, but two ranks up
    let mut state = board(vec![], vec![THREE_CLUBS], vec![]);
    state.foundation_cards[0] = Some(ACE_CLUBS);
    assert!(!state.move_waste_to_foundation(0));
    // the same suit, one rank down
    let mut state = board(vec![], vec![ACE_CLUBS], vec![]);
    state.foundation_cards[0] = Some(TWO_CLUBS);
    assert!(!state.move_waste_to_foundation(0));
    // an ace onto a foundation that has a card
    let mut state = board(vec![], vec![ACE_SPADES], vec![]);
    state.foundation_cards[0] = Some(ACE_CLUBS);
    assert!(!state.move_waste_to_foundation(0));
    assert_eq!(state.foundation_cards[0], Some(ACE_CLUBS));
    assert_eq!(state.waste_card_indexes, vec![ACE_SPADES]);
    assert_eq!(state.cards_moved_from_waste, 0);
}

#[test]
fn waste_to_foundation_needs_a_card_and_a_foundation() {
    let mut state = board(vec![], vec![], vec![]);
    assert!(!state.move_waste_to_foundation(0));
    let mut state = board(vec![], vec![ACE_CLUBS], vec![]);
    assert!(!state.move_waste_to_foundation(4));
    assert!(!state.move_waste_to_foundation(100));
    assert_eq!(state.waste_card_indexes, vec![ACE_CLUBS]);
    assert_eq!(state.foundation_cards, vec![None; 4]);
}

#[test]
fn waste_to_tab_takes_a_king_on_an_empty_column() {
    let mut state = board(vec![], vec![QUEEN_CLUBS, KING_HEARTS], vec![]);
    assert!(state.move_waste_to_tab(3));
    assert_eq!(state.tab_card_indexes[3], vec![KING_HEARTS]);
    assert!(state.cards[KING_HEARTS].visible);
    assert_eq!(state.waste_card_indexes, vec![QUEEN_CLUBS]);
    assert_eq!(state.cards_moved_from_waste, 1);
    // and then the black queen on the red king, which empties the waste
    assert!(state.move_waste_to_tab(3));
    assert_eq!(state.tab_card_indexes[3], vec![KING_HEARTS, QUEEN_CLUBS]);
    assert!(state.cards[QUEEN_CLUBS].visible);
    assert!(state.waste_card_indexes.is_empty());
    assert_eq!(state.cards_moved_from_waste, 2);
    assert_eq!(state.waste_top(), None);
}

#[test]
fn waste_to_tab_refuses_other_cards() {
    // no king onto an empty column
    let mut state = board(vec![], vec![QUEEN_CLUBS], vec![]);
    assert!(!state.move_waste_to_tab(0));
    assert!(state.tab_card_indexes[0].is_empty());
    assert_eq!(state.waste_card_indexes, vec![QUEEN_CLUBS]);
    assert_eq!(state.cards_moved_from_waste, 0);
    assert!(!state.cards[QUEEN_CLUBS].visible);
    // the same colour
    let mut state = board(vec![], vec![QUEEN_CLUBS], vec![vec![KING_SPADES]]);
    assert!(!state.move_waste_to_tab(0));
    assert_eq!(state.tab_card_indexes[0], vec![KING_SPADES]);
    // the other colour, but not one rank lower
    let mut state = board(vec![], vec![JACK_HEARTS], vec![vec![KING_SPADES]]);
    assert!(!state.move_waste_to_tab(0));
    // one rank higher instead of lower
    let mut state = board(vec![], vec![KING_HEARTS], vec![vec![QUEEN_CLUBS]]);
    assert!(!state.move_waste_to_tab(0));
    // a king onto a column that has a card
    let mut state = board(vec![], vec![KING_HEARTS], vec![vec![ACE_CLUBS]]);
    assert!(!state.move_waste_to_tab(0));
    assert_eq!(state.waste_card_indexes, vec![KING_HEARTS]);
    // no such column, no card
    assert!(!state.move_waste_to_tab(7));
    let mut state = board(vec![], vec![], vec![]);
    assert!(!state.move_waste_to_tab(0));
}

#[test]
fn tab_to_tab_moves_the_last_card() {
    let mut state = board(vec![], vec![], vec![vec![ACE_CLUBS, QUEEN_HEARTS], vec![KING_SPADES]]);
    assert!(state.move_tab_to_tab((0, 1), (1, 0)));
    assert_eq!(state.tab_card_indexes[0], vec![ACE_CLUBS]);
    assert_eq!(state.tab_card_indexes[1], vec![KING_SPADES, QUEEN_HEARTS]);
    // the card that is left on top is turned face up
    assert!(state.cards[ACE_CLUBS].visible);
}

#[test]
fn tab_to_tab_moves_a_run_as_one() {
    let mut state = board(
        vec![],
        vec![],
        vec![
            vec![TWO_CLUBS, ACE_HEARTS, QUEEN_HEARTS, JACK_SPADES, TEN_HEARTS],
            vec![THREE_CLUBS, KING_SPADES],
        ],
    );
    assert!(state.move_tab_to_tab((0, 2), (1, 1)));
    assert_eq!(state.tab_card_indexes[0], vec![TWO_CLUBS, ACE_HEARTS]);
    assert_eq!(
        state.tab_card_indexes[1],
        vec![THREE_CLUBS, KING_SPADES, QUEEN_HEARTS, JACK_SPADES, TEN_HEARTS]
    );
    assert!(state.cards[ACE_HEARTS].visible);
    assert!(!state.cards[TWO_CLUBS].visible);
}

#[test]
fn tab_to_tab_takes_a_king_headed_run_on_an_empty_column() {
    let mut state = board(
        vec![],
        vec![],
        vec![vec![ACE_CLUBS, KING_HEARTS, QUEEN_SPADES], vec![]],
    );
    assert!(state.move_tab_to_tab((0, 1), (1, 0)));
    assert_eq!(state.tab_card_indexes[0], vec![ACE_CLUBS]);
    assert_eq!(state.tab_card_indexes[1], vec![KING_HEARTS, QUEEN_SPADES]);
    assert!(state.cards[ACE_CLUBS].visible);
    // a whole column may go, and then no card is left to turn
    let mut state = board(vec![], vec![], vec![vec![KING_HEARTS, QUEEN_SPADES], vec![]]);
    assert!(state.move_tab_to_tab((0, 0), (1, 0)));
    assert!(state.tab_card_indexes[0].is_empty());
    assert_eq!(state.tab_card_indexes[1], vec![KING_HEARTS, QUEEN_SPADES]);
}

#[test]
fn tab_to_tab_refuses_other_runs() {
    // no king onto an empty column
    let mut state = board(vec![], vec![], vec![vec![ACE_CLUBS, QUEEN_HEARTS], vec![]]);
    assert!(!state.move_tab_to_tab((0, 1), (1, 0)));
    assert_eq!(state.tab_card_indexes[0], vec![ACE_CLUBS, QUEEN_HEARTS]);
    assert!(state.tab_card_indexes[1].is_empty());
    assert!(!state.cards[ACE_CLUBS].visible);
    // the same colour
    let mut state = board(vec![], vec![], vec![vec![QUEEN_HEARTS], vec![KING_HEARTS]]);
    state.tab_card_indexes[0] = vec![QUEEN_DIAMONDS];
    assert!(!state.move_tab_to_tab((0, 0), (1, 0)));
    assert_eq!(state.tab_card_indexes[1], vec![KING_HEARTS]);
    // not one rank lower
    let mut state = board(vec![], vec![], vec![vec![JACK_HEARTS], vec![KING_SPADES]]);
    assert!(!state.move_tab_to_tab((0, 0), (1, 0)));
    // the first card of the run decides, not its last
    let mut state = board(
        vec![],
        vec![],
        vec![vec![JACK_HEARTS, QUEEN_HEARTS], vec![KING_SPADES]],
    );
    assert!(!state.move_tab_to_tab((0, 0), (1, 0)));
    assert!(state.move_tab_to_tab((0, 1), (1, 0)));
}

#[test]
fn tab_to_tab_needs_a_card_at_the_slot() {
    let mut state = board(vec![], vec![], vec![vec![], vec![KING_SPADES]]);
    assert!(!state.move_tab_to_tab((0, 0), (1, 0)));
    let mut state = board(vec![], vec![], vec![vec![QUEEN_HEARTS], vec![KING_SPADES]]);
    assert!(!state.move_tab_to_tab((0, 1), (1, 0)));
    assert!(!state.move_tab_to_tab((7, 0), (1, 0)));
    assert!(!state.move_tab_to_tab((0, 0), (7, 0)));
    assert_eq!(state.tab_card_indexes[0], vec![QUEEN_HEARTS]);
    assert_eq!(state.tab_card_indexes[1], vec![KING_SPADES]);
}

#[test]
fn tab_to_foundation_follows_the_foundation_rule() {
    let mut state = board(vec![], vec![], vec![vec![TWO_CLUBS, TWO_HEARTS, ACE_HEARTS]]);
    // a column gives its last card only
    assert!(state.move_tab_to_foundation(0, 1));
    assert_eq!(state.foundation_cards, vec![None, Some(ACE_HEARTS), None, None]);
    assert_eq!(state.tab_card_indexes[0], vec![TWO_CLUBS, TWO_HEARTS]);
    assert!(state.cards[TWO_HEARTS].visible);
    assert_eq!(state.cards_moved_from_waste, 0);
    assert!(state.move_tab_to_foundation(0, 1));
    assert_eq!(state.foundation_cards[1], Some(TWO_HEARTS));
    assert_eq!(state.tab_card_indexes[0], vec![TWO_CLUBS]);
    assert!(state.cards[TWO_CLUBS].visible);
    // a black two does not go onto a red two, nor onto an empty foundation
    assert!(!state.move_tab_to_foundation(0, 1));
    assert!(!state.move_tab_to_foundation(0, 0));
    assert_eq!(state.tab_card_indexes[0], vec![TWO_CLUBS]);
    assert_eq!(state.foundation_cards, vec![None, Some(TWO_HEARTS), None, None]);
}

#[test]
fn tab_to_foundation_empties_a_column() {
    let mut state = board(vec![], vec![], vec![vec![ACE_SPADES]]);
    assert!(state.move_tab_to_foundation(0, 3));
    assert!(state.tab_card_indexes[0].is_empty());
    assert_eq!(state.foundation_cards[3], Some(ACE_SPADES));
    assert!(!state.move_tab_to_foundation(0, 3));
    assert!(!state.move_tab_to_foundation(7, 0));
    assert!(!state.move_tab_to_foundation(1, 4));
}

#[test]
fn perform_carries_out_each_move() {
    let mut state = board(
        vec![5, 6, 7],
        vec![ACE_CLUBS],
        vec![vec![QUEEN_HEARTS], vec![KING_SPADES], vec![ACE_SPADES]],
    );
    assert!(!state.perform(Move::Nothing));
    assert!(!state.perform(Move::WasteToStock));
    assert!(!state.perform(Move::WasteToTab(0)));
    assert!(state.perform(Move::WasteToFoundation(0)));
    assert_eq!(state.foundation_cards[0], Some(ACE_CLUBS));
    assert!(state.perform(Move::TabToTab(0, 0, 1)));
    assert_eq!(state.tab_card_indexes[1], vec![KING_SPADES, QUEEN_HEARTS]);
    assert!(state.perform(Move::TabToFoundation(2, 1)));
    assert_eq!(state.foundation_cards[1], Some(ACE_SPADES));
    assert!(state.perform(Move::StockToWaste));
    assert_eq!(state.waste_card_indexes, vec![7, 6, 5]);
    assert!(state.perform(Move::WasteToStock));
    assert_eq!(state.stock_card_indexes, vec![5, 6, 7]);
    assert_eq!(state.card_rounds, 1);
}

#[test]
fn the_rules_compare_ranks_and_suits() {
    let mut state = State::new();
    assert!(state.start_with(ordered_pack()));
    assert!(state.stacks_on(KING_CLUBS, None));
    assert!(!state.stacks_on(QUEEN_CLUBS, None));
    assert!(state.stacks_on(QUEEN_HEARTS, Some(KING_CLUBS)));
    assert!(!state.stacks_on(QUEEN_SPADES, Some(KING_CLUBS)));
    assert!(!state.stacks_on(KING_HEARTS, Some(QUEEN_CLUBS)));
    assert!(state.builds_on(ACE_HEARTS, None));
    assert!(!state.builds_on(TWO_HEARTS, None));
    assert!(state.builds_on(TWO_HEARTS, Some(ACE_HEARTS)));
    assert!(!state.builds_on(TWO_CLUBS, Some(ACE_HEARTS)));
    assert!(!state.builds_on(ACE_HEARTS, Some(TWO_HEARTS)));
    // a card of rank nought goes nowhere by mistake
    state.cards[5] = Card { suit: Suit::Hearts, rank: 0, visible: false };
    assert!(state.stacks_on(5, Some(ACE_CLUBS)));
    assert!(!state.builds_on(5, Some(ACE_HEARTS)));
    assert!(!state.builds_on(5, None));
    state.cards[6] = Card { suit: Suit::Hearts, rank: u32::MAX, visible: false };
    assert!(!state.stacks_on(6, Some(ACE_CLUBS)));
    assert!(!state.builds_on(ACE_HEARTS, Some(6)));
}

#[test]
fn piles_turned_and_topped() {
    assert_eq!(reversed(&vec![1, 2, 3]), vec![3, 2, 1]);
    assert_eq!(reversed(&vec![]), Vec::<usize>::new());
    assert_eq!(reversed(&vec![9]), vec![9]);
    assert_eq!(top_handle(&vec![4, 8]), Some(8));
    assert_eq!(top_handle(&vec![]), None);
}

#[test]
fn moves_keep_every_card_in_one_place() {
    let mut state = State::new();
    state.start();
    let requests = [
        Move::StockToWaste,
        Move::WasteToTab(0),
        Move::WasteToTab(3),
        Move::WasteToFoundation(0),
        Move::TabToTab(1, 1, 2),
        Move::TabToTab(6, 6, 0),
        Move::TabToFoundation(4, 1),
        Move::StockToWaste,
        Move::WasteToStock,
    ];
    for round in 0..40 {
        for request in requests.iter() {
            state.perform(*request);
        }
        let mut seen = vec![0; 52];
        for h in state.stock_card_indexes.iter().chain(state.waste_card_indexes.iter()) {
            seen[*h] += 1;
        }
        for column in state.tab_card_indexes.iter() {
            for h in column.iter() {
                seen[*h] += 1;
            }
        }
        for top in state.foundation_cards.iter().flatten() {
            seen[*top] += 1;
        }
        assert!(seen.iter().all(|n| *n <= 1), "round {}", round);
        // a card that lies in no zone lies under a foundation's top card of its suit
        for h in 0..52 {
            if seen[h] == 0 {
                assert!(state.foundation_cards.iter().flatten().any(|top| {
                    state.cards[*top].suit == state.cards[h].suit
                        && state.cards[h].rank < state.cards[*top].rank
                }));
            }
        }
    }
}
