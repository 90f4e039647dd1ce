//! Klondike solitaire: the board, the rules of its moves, the lookup of the zone under a
//! point, and the reading of presses as requests to move cards.

pub mod board;
pub mod card;
pub mod deck;
pub mod game;
pub mod geometry;
pub mod gesture;
pub mod invariants;
pub mod laws;
pub mod model;

pub use board::State;
pub use card::{Card, Color, Suit};
pub use game::{Message, Solitaire};
pub use geometry::Point;
pub use gesture::Pending;
pub use model::{Area, Board, CardPosition, DrawMode, Move};
