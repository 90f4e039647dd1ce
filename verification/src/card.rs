use vstd::prelude::*;

verus! {

/// The four suits, in the order in which a fresh pack lists them.
#[derive(Clone, Copy, Debug, PartialEq, Eq, Structural)]
pub enum Suit {
    Clubs,
    Spades,
    Hearts,
    Diamonds,
}

/// The colour of a suit.
#[derive(Clone, Copy, Debug, PartialEq, Eq, Structural)]
pub enum Color {
    Black,
    Red,
}

/// The rank of an ace, the lowest card of a suit.
pub const ACE: u32 = 1;

/// The rank of a king, the highest card of a suit.
pub const KING: u32 = 13;

impl Suit {
    /// Clubs and spades are black, hearts and diamonds are red.
    pub open spec fn spec_color(self) -> Color {
        match self {
            Suit::Clubs | Suit::Spades => Color::Black,
            Suit::Hearts | Suit::Diamonds => Color::Red,
        }
    }

    /// The colour of this suit.
    #[verifier::when_used_as_spec(spec_color)]
    pub fn color(self) -> (color: Color)
        ensures
            color == self.spec_color(),
    {
        match self {
            Suit::Clubs => Color::Black,
            Suit::Spades => Color::Black,
            Suit::Hearts => Color::Red,
            Suit::Diamonds => Color::Red,
        }
    }

    /// The place of this suit in a fresh pack: 0 for clubs up to 3 for diamonds.
    pub open spec fn spec_index(self) -> nat {
        match self {
            Suit::Clubs => 0,
            Suit::Spades => 1,
            Suit::Hearts => 2,
            Suit::Diamonds => 3,
        }
    }

    /// The place of this suit in a fresh pack.
    pub fn index(self) -> (index: u32)
        ensures
            index == self.spec_index(),
    {
        match self {
            Suit::Clubs => 0,
            Suit::Spades => 1,
            Suit::Hearts => 2,
            Suit::Diamonds => 3,
        }
    }
}

/// A playing card: what it shows, and whether it lies face up.
///
/// Suit and rank never change once a card is dealt; `visible` does.
#[derive(Clone, Copy, Debug, PartialEq, Eq, Structural)]
pub struct Card {
    pub suit: Suit,
    pub rank: u32,
    pub visible: bool,
}

impl Card {
    /// The colour of the card, which is that of its suit.
    pub open spec fn spec_color(self) -> Color {
        self.suit.spec_color()
    }

    /// The colour of the card.
    #[verifier::when_used_as_spec(spec_color)]
    pub fn color(self) -> (color: Color)
        ensures
            color == self.spec_color(),
    {
        self.suit.color()
    }

    /// The same card lying face up.
    pub open spec fn face_up(self) -> Card {
        Card { suit: self.suit, rank: self.rank, visible: true }
    }

    /// Whether two cards show the same suit and rank, whichever way up they lie.
    pub open spec fn same_face(self, other: Card) -> bool {
        self.suit == other.suit && self.rank == other.rank
    }
}

} // verus!
