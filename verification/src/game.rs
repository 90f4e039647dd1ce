use crate::board::State;
use crate::card::Card;
use crate::deck::{all_face_down, is_full_deck};
use crate::model::{draw_mode_of, Board, CardPosition, DrawMode};
use vstd::prelude::*;

verus! {

/// What the player can ask of the game.
#[derive(Clone, Debug)]
pub enum Message {
    /// Move cards as the two points of the request say.
    MoveCard(CardPosition),
    /// Start a new game.
    Start,
    /// Draw as many cards at a time as the label says: `"1"` or `"3"`.
    SelectCardsToPlay(String),
}

/// A game of Klondike: its board.
pub struct Solitaire {
    pub board: State,
}

impl Solitaire {
    /// A game with a board before the first deal.
    pub fn new() -> (game: Solitaire)
        ensures
            game.board.wf(),
            game.board@ == Board::empty(),
    {
        Solitaire { board: State::new() }
    }

    /// Takes in what the player asks.
    ///
    /// A request to move cards is answered by the board: it notes the request, carries
    /// the move out if the rules allow it, lays the slots out afresh and marks the zones
    /// that changed. A new game shuffles and deals a full deck and marks every zone. A
    /// choice of draw mode changes the draw mode and nothing else.
    pub fn update(&mut self, message: Message)
        requires
            old(self).board.wf(),
        ensures
            final(self).board.wf(),
            match message {
                Message::MoveCard(positions) => final(self).board@ == old(self).board@.answer(
                    positions,
                ),
                Message::Start => exists|deck: Seq<Card>| #[trigger]
                    is_full_deck(deck) && all_face_down(deck) && final(self).board@ == old(
                        self,
                    ).board@.dealt(deck).all_dirty(),
                Message::SelectCardsToPlay(selected) => final(self).board@ == (Board {
                    cards_to_play: draw_mode_of(selected@),
                    ..old(self).board@
                }),
            },
    {
        let ghost before = self.board@;
        match message {
            Message::MoveCard(positions) => {
                self.board.position = positions;
                proof {
                    let noted = Board { position: positions, ..before };
                    assert(self.board@ =~~= noted);
                    before.lemma_same_cards(noted);
                }
                let areas = self.board.move_cards(positions);
                self.board.recalc_tab_positions();
                self.board.request_redraw(areas);
            },
            Message::Start => {
                self.board.start();
                self.board.redraw_all();
            },
            Message::SelectCardsToPlay(selected) => {
                self.board.cards_to_play = DrawMode::from_label(selected.as_str());
                proof {
                    let chosen = Board { cards_to_play: draw_mode_of(selected@), ..before };
                    assert(self.board@ =~~= chosen);
                    before.lemma_same_cards(chosen);
                }
            },
        }
    }
}

impl Default for Solitaire {
    /// A game with a board before the first deal.
    fn default() -> (game: Solitaire)
        ensures
            game.board.wf(),
            game.board@ == Board::empty(),
    {
        Solitaire::new()
    }
}

} // verus!
