use crate::board::State;
use crate::geometry::Point;
use crate::model::CardPosition;
use vstd::prelude::*;

verus! {

/// A press that has chosen where a move starts and waits for the press that says where
/// the move goes.
#[derive(Clone, Copy, Debug, PartialEq, Eq, Structural)]
pub enum Pending {
    One { from: Point },
}

/// What a press brings about: what is pending afterwards, and the request that the press
/// completes, if it completes one.
///
/// With nothing pending, a press where cards are played starts a move, and a press
/// elsewhere does nothing. With a move pending, the next press ends it: where cards are
/// played it completes the request, elsewhere it calls the move off.
pub open spec fn after_press(pending: Option<Pending>, playable: bool, at: Point) -> (
    Option<Pending>,
    Option<CardPosition>,
) {
    match pending {
        None => (
            if playable {
                Some(Pending::One { from: at })
            } else {
                None
            },
            None,
        ),
        Some(Pending::One { from }) => (
            None,
            if playable {
                Some(CardPosition { from, to: at })
            } else {
                None
            },
        ),
    }
}

/// Takes in a press of the main button at `cursor_position`, a point of the board.
/// Updates what is pending and returns the request for the board, if the press completes
/// one. The board itself is only looked at.
pub fn press(board: &State, pending: &mut Option<Pending>, cursor_position: Point) -> (message:
    Option<CardPosition>)
    ensures
        (*final(pending), message) == after_press(
            *old(pending),
            board@.playable(cursor_position),
            cursor_position,
        ),
{
    let playable = board.is_point_in_any_area(cursor_position);
    match *pending {
        None => {
            if playable {
                *pending = Some(Pending::One { from: cursor_position });
            } else {
                *pending = None;
            }
            None
        },
        Some(Pending::One { from }) => {
            *pending = None;
            if playable {
                Some(CardPosition { from, to: cursor_position })
            } else {
                None
            }
        },
    }
}

} // verus!
