use crate::card::{Card, ACE, KING};
use crate::geometry::{first_hit, in_any_area, in_any_stack, in_area, stack_hit, Point};
use vstd::multiset::Multiset;
use vstd::prelude::*;

verus! {

/// The number of cards in a pack.
pub const DECK_SIZE: usize = 52;

/// The number of tableau columns.
pub const TABLEAU_COLUMNS: usize = 7;

/// The number of foundation piles.
pub const FOUNDATIONS: usize = 4;

/// The number of cards dealt to the tableau at the start of a game: 1 + 2 + ... + 7.
pub const TABLEAU_DEAL: usize = 28;

/// Left edge of the first tableau column.
pub const TAB_X_OFFSET: i32 = 50;

/// Top edge of every tableau column.
pub const TAB_Y_OFFSET: i32 = 250;

/// Horizontal distance from one column, or foundation, to the next.
pub const CARD_DIST_X: i32 = 120;

/// Vertical distance from one card of a column to the next.
pub const CARD_DIST_Y: i32 = 25;

/// Width of a card.
pub const CARD_SIZE_X: i32 = 100;

/// Height of a card.
pub const CARD_SIZE_Y: i32 = 150;

/// Left edge of the first foundation.
pub const FOUNDATION_X_OFFSET: i32 = 400;

/// Top edge of the stock, the waste and the foundations.
pub const TOP_ROW_Y: i32 = 25;

/// Bottom edge of the stock, the waste and the foundations.
pub const TOP_ROW_BOTTOM: i32 = 175;

/// How many cards one draw from the stock turns over.
#[derive(Clone, Copy, Debug, PartialEq, Eq, Structural)]
pub enum DrawMode {
    One,
    Three,
}

/// The draw mode that a label chosen by the player stands for: `"1"` for one card to a
/// draw, anything else for three.
pub open spec fn draw_mode_of(label: Seq<char>) -> DrawMode {
    if label == seq!['1'] {
        DrawMode::One
    } else {
        DrawMode::Three
    }
}

impl DrawMode {
    /// The draw mode that a label stands for.
    pub fn from_label(label: &str) -> (mode: DrawMode)
        ensures
            mode == draw_mode_of(label@),
    {
        if label.unicode_len() == 1 && label.get_char(0) == '1' {
            assert(label@ =~= seq!['1']);
            DrawMode::One
        } else {
            DrawMode::Three
        }
    }
}

/// A zone of the board, as named in a list of zones to draw afresh.
#[derive(Clone, Copy, Debug, PartialEq, Eq, Structural)]
pub enum Area {
    /// No zone at all: what a request that moved nothing reports.
    Nowhere,
    /// A foundation pile, by its index.
    Foundation(usize),
    Stock,
    Waste,
    /// A tableau column, by its index.
    Tableau(usize),
}

/// A requested move: where the player pressed first, and where next.
#[derive(Clone, Copy, Debug, PartialEq, Eq, Structural)]
pub struct CardPosition {
    pub from: Point,
    pub to: Point,
}

/// What a requested move comes to, once its two points are resolved to zones.
#[derive(Clone, Copy, Debug, PartialEq, Eq, Structural)]
pub enum Move {
    /// Draw from the stock to the waste.
    StockToWaste,
    /// Turn the waste over to refill the stock.
    WasteToStock,
    /// Put the top card of the waste on the tableau column named.
    WasteToTab(usize),
    /// Put the top card of the waste on the foundation named.
    WasteToFoundation(usize),
    /// Move the run of a column that starts at a slot to another column (column, slot,
    /// column to go to).
    TabToTab(usize, usize, usize),
    /// Put the top card of a tableau column on a foundation (column, foundation).
    TabToFoundation(usize, usize),
    /// The two points name no move.
    Nothing,
}

/// The mathematical content of a board: where every card lies, what each card shows, where
/// each zone is drawn, and the session's counters.
///
/// A card is known by its handle, its index in `cards`. `stock` and `waste` list handles
/// from the bottom of the pile to its top; a tableau column lists them from the card lying
/// deepest to the card on top. A foundation holds the handle of its top card only.
pub struct Board {
    pub start: bool,
    pub position: CardPosition,
    pub cards: Seq<Card>,
    pub tableau: Seq<Seq<usize>>,
    pub tab_positions: Seq<Seq<(Point, Point)>>,
    pub foundations: Seq<Option<usize>>,
    pub foundation_positions: Seq<(Point, Point)>,
    pub stock_position: (Point, Point),
    pub stock: Seq<usize>,
    pub waste_position: (Point, Point),
    pub waste: Seq<usize>,
    pub card_rounds: u16,
    pub cards_moved_from_waste: u16,
    pub cards_to_play: DrawMode,
    pub foundation_dirty: bool,
    pub stock_dirty: bool,
    pub waste_dirty: bool,
    pub tab_dirty: Seq<bool>,
}

/// The handle of the card on top of a pile, if the pile has a card.
pub open spec fn top_of(pile: Seq<usize>) -> Option<usize> {
    if pile.len() > 0 {
        Some(pile[pile.len() - 1])
    } else {
        None
    }
}

/// The handles held by a run of tableau columns, each as often as it occurs.
pub open spec fn columns_cards(columns: Seq<Seq<usize>>) -> Multiset<usize>
    decreases columns.len(),
{
    if columns.len() == 0 {
        Multiset::empty()
    } else {
        columns_cards(columns.drop_last()).add(columns.last().to_multiset())
    }
}

/// The handle shown by a foundation, as a collection of at most one handle.
pub open spec fn top_card(top: Option<usize>) -> Multiset<usize> {
    match top {
        Some(handle) => Multiset::singleton(handle),
        None => Multiset::empty(),
    }
}

/// The handles shown on top of a run of foundations, each as often as it occurs.
pub open spec fn tops_cards(tops: Seq<Option<usize>>) -> Multiset<usize>
    decreases tops.len(),
{
    if tops.len() == 0 {
        Multiset::empty()
    } else {
        tops_cards(tops.drop_last()).add(top_card(tops.last()))
    }
}

/// The rectangle of slot `slot` of tableau column `column`. A slot that shows a face-up
/// card reaches a card's height further down than one that shows a face-down card.
pub open spec fn slot_area(column: int, slot: int, visible: bool) -> (Point, Point) {
    (
        Point {
            x: (TAB_X_OFFSET + CARD_DIST_X * column) as i32,
            y: (TAB_Y_OFFSET + CARD_DIST_Y * slot) as i32,
        },
        Point {
            x: (TAB_X_OFFSET + CARD_DIST_X * column + CARD_SIZE_X) as i32,
            y: (TAB_Y_OFFSET + CARD_DIST_Y + CARD_DIST_Y * slot + if visible {
                CARD_SIZE_Y as int
            } else {
                0
            }) as i32,
        },
    )
}

/// The slots of one tableau column: one per card, or, for a column without cards, the
/// single slot of a face-up card, which marks where a king may be put.
pub open spec fn column_slots(cards: Seq<Card>, column: int, pile: Seq<usize>) -> Seq<
    (Point, Point),
> {
    if pile.len() == 0 {
        seq![slot_area(column, 0, true)]
    } else {
        Seq::new(pile.len(), |slot: int| slot_area(column, slot, cards[pile[slot] as int].visible))
    }
}

/// The rectangle of the stock.
pub open spec fn stock_area() -> (Point, Point) {
    (Point { x: 50, y: 25 }, Point { x: 150, y: 175 })
}

/// The rectangle of the waste.
pub open spec fn waste_area() -> (Point, Point) {
    (Point { x: 170, y: 25 }, Point { x: 270, y: 175 })
}

/// The rectangle of foundation `fd`: the foundations stand in a row, as far apart as the
/// columns of the tableau.
pub open spec fn foundation_area(fd: int) -> (Point, Point) {
    (
        Point { x: (FOUNDATION_X_OFFSET + CARD_DIST_X * fd) as i32, y: TOP_ROW_Y },
        Point {
            x: (FOUNDATION_X_OFFSET + CARD_DIST_X * fd + CARD_SIZE_X) as i32,
            y: TOP_ROW_BOTTOM,
        },
    )
}

/// The handle of the first card of tableau column `column` in a fresh deal.
pub open spec fn column_start(column: int) -> int
    decreases column,
{
    if column <= 0 {
        0
    } else {
        column_start(column - 1) + column
    }
}

/// Whether `handle` is dealt as the top card of one of the first `columns` columns.
pub open spec fn top_among(handle: int, columns: int) -> bool
    decreases columns,
{
    if columns <= 0 {
        false
    } else {
        handle == column_start(columns - 1) + columns - 1 || top_among(handle, columns - 1)
    }
}

/// Whether `handle` is dealt as the top card of a tableau column.
pub open spec fn dealt_on_top(handle: int) -> bool {
    top_among(handle, TABLEAU_COLUMNS as int)
}

/// The `count` handles from `first` on, in their order.
pub open spec fn run(first: int, count: nat) -> Seq<usize> {
    Seq::new(count, |k: int| (first + k) as usize)
}

impl Board {
    /// The board before the first deal: no cards anywhere, seven columns without slots,
    /// the stock, the waste and the four foundations at their places, nothing marked,
    /// three cards to a draw.
    pub open spec fn empty() -> Board {
        Board {
            start: false,
            position: CardPosition { from: Point { x: 0, y: 0 }, to: Point { x: 0, y: 0 } },
            cards: Seq::empty(),
            tableau: Seq::new(TABLEAU_COLUMNS as nat, |column: int| Seq::empty()),
            tab_positions: Seq::new(TABLEAU_COLUMNS as nat, |column: int| Seq::empty()),
            foundations: Seq::new(FOUNDATIONS as nat, |fd: int| None),
            foundation_positions: Seq::new(FOUNDATIONS as nat, |fd: int| foundation_area(fd)),
            stock_position: stock_area(),
            stock: Seq::empty(),
            waste_position: waste_area(),
            waste: Seq::empty(),
            card_rounds: 0,
            cards_moved_from_waste: 0,
            cards_to_play: DrawMode::Three,
            foundation_dirty: false,
            stock_dirty: false,
            waste_dirty: false,
            tab_dirty: Seq::new(TABLEAU_COLUMNS as nat, |column: int| false),
        }
    }

    /// The card that a handle names.
    pub open spec fn card(self, handle: usize) -> Card {
        self.cards[handle as int]
    }

    /// Every handle that lies in some zone, each as often as it occurs there: in the
    /// stock, in the waste, in a tableau column, or on top of a foundation.
    pub open spec fn placed(self) -> Multiset<usize> {
        self.stock.to_multiset().add(self.waste.to_multiset()).add(
            columns_cards(self.tableau),
        ).add(tops_cards(self.foundations))
    }

    /// The board has seven columns with their slots and flags and four foundations with
    /// their rectangles.
    pub open spec fn shaped(self) -> bool {
        &&& self.tableau.len() == TABLEAU_COLUMNS
        &&& self.tab_positions.len() == TABLEAU_COLUMNS
        &&& self.tab_dirty.len() == TABLEAU_COLUMNS
        &&& self.foundations.len() == FOUNDATIONS
        &&& self.foundation_positions.len() == FOUNDATIONS
    }

    /// Every handle that lies in a zone names a card of the card table.
    pub open spec fn handles_in_range(self) -> bool {
        &&& forall|i: int| 0 <= i < self.stock.len() ==> #[trigger] self.stock[i] < self.cards.len()
        &&& forall|i: int| 0 <= i < self.waste.len() ==> #[trigger] self.waste[i] < self.cards.len()
        &&& forall|c: int, i: int|
            0 <= c < self.tableau.len() && 0 <= i < self.tableau[c].len()
                ==> #[trigger] self.tableau[c][i] < self.cards.len()
        &&& forall|f: int|
            0 <= f < self.foundations.len() ==> match #[trigger] self.foundations[f] {
                Some(handle) => handle < self.cards.len(),
                None => true,
            }
    }

    /// No handle lies in two places at once.
    pub open spec fn no_card_twice(self) -> bool {
        forall|handle: usize| self.placed().count(handle) <= 1
    }

    /// What every operation of the board expects and keeps: the board is shaped, the card
    /// table holds at most a pack, the handles in the zones name cards and are all
    /// different, and the cards moved from the waste since the stock was last refilled,
    /// together with those still in stock and waste, are no more than the card table holds.
    pub open spec fn valid(self) -> bool {
        &&& self.shaped()
        &&& self.cards.len() <= DECK_SIZE
        &&& self.handles_in_range()
        &&& self.no_card_twice()
        &&& self.cards_moved_from_waste + self.stock.len() + self.waste.len() <= self.cards.len()
    }

    /// Whether card `handle` lies under the top card of foundation `fd`: the foundation
    /// shows a card of the same suit and of higher rank.
    pub open spec fn under(self, handle: usize, fd: int) -> bool {
        &&& 0 <= fd < self.foundations.len()
        &&& match self.foundations[fd] {
            Some(top) => self.card(top).suit == self.card(handle).suit && self.card(handle).rank
                < self.card(top).rank,
            None => false,
        }
    }

    /// Whether a card lies under the top card of some foundation.
    pub open spec fn buried(self, handle: usize) -> bool {
        exists|fd: int| #[trigger] self.under(handle, fd)
    }

    /// No card is lost: every card of the card table lies in a zone or under the top card
    /// of a foundation.
    pub open spec fn complete(self) -> bool {
        forall|handle: usize|
            handle < self.cards.len() ==> self.placed().count(handle) >= 1 || self.buried(handle)
    }

    /// No two cards of the card table show the same suit and rank, and none has a rank
    /// below the ace. This holds of a full deck.
    pub open spec fn faces_differ(self) -> bool {
        &&& forall|i: int, j: int|
            0 <= i < j < self.cards.len() ==> !(#[trigger] self.cards[i]).same_face(
                #[trigger] self.cards[j],
            )
        &&& forall|i: int| 0 <= i < self.cards.len() ==> (#[trigger] self.cards[i]).rank >= ACE
    }

    /// No card that lies under the top card of a foundation lies in a zone as well.
    pub open spec fn buried_apart(self) -> bool {
        forall|handle: usize, fd: int|
            handle < self.cards.len() && #[trigger] self.under(handle, fd) ==> self.placed().count(
                handle,
            ) == 0
    }

    /// The card on top of each tableau column that has cards lies face up.
    pub open spec fn tops_face_up(self) -> bool {
        forall|column: int|
            0 <= column < self.tableau.len() && (#[trigger] self.tableau[column]).len() > 0
                ==> self.card(self.tableau[column].last()).visible
    }

    /// The tableau rule: a card may go onto an empty column if it is a king, and onto a
    /// column's top card if that card is one rank higher and of the other colour.
    pub open spec fn stacks_on(self, moving: usize, onto: Option<usize>) -> bool {
        match onto {
            None => self.card(moving).rank == KING,
            Some(top) => {
                &&& self.card(top).rank == self.card(moving).rank + 1
                &&& self.card(top).color() != self.card(moving).color()
            },
        }
    }

    /// The foundation rule: a card may go onto an empty foundation if it is an ace, and
    /// onto a foundation's top card if that card is one rank lower and of the same suit
    /// (and so of the same colour).
    pub open spec fn builds_on(self, moving: usize, onto: Option<usize>) -> bool {
        match onto {
            None => self.card(moving).rank == ACE,
            Some(top) => {
                &&& self.card(top).rank + 1 == self.card(moving).rank
                &&& self.card(top).color() == self.card(moving).color()
                &&& self.card(top).suit == self.card(moving).suit
            },
        }
    }

    /// The card table with one card turned face up.
    pub open spec fn shown(self, handle: usize) -> Seq<Card> {
        self.cards.update(handle as int, self.card(handle).face_up())
    }

    /// The card table after the top card of `pile`, if it has one, is turned face up.
    pub open spec fn top_shown(self, pile: Seq<usize>) -> Seq<Card> {
        match top_of(pile) {
            Some(top) => self.shown(top),
            None => self.cards,
        }
    }

    // ----- stock to waste -----

    /// A draw takes place whenever the stock has a card.
    pub open spec fn can_draw(self) -> bool {
        self.stock.len() > 0
    }

    /// The number of cards that a draw takes from the stock: the number that the draw mode
    /// names, or all that are left if they are fewer.
    pub open spec fn draw_count(self) -> int {
        let wanted: int = match self.cards_to_play {
            DrawMode::One => 1,
            DrawMode::Three => 3,
        };
        if self.stock.len() < wanted {
            self.stock.len() as int
        } else {
            wanted
        }
    }

    /// The cards that a draw lays on the waste, from the lowest to the new top. They are
    /// the topmost cards of the stock; a full three are turned over as one, so that the
    /// one that lay deepest in the stock comes out on top, while fewer keep their order.
    pub open spec fn drawn(self) -> Seq<usize> {
        let taken = self.stock.subrange(self.stock.len() - self.draw_count(), self.stock.len() as int);
        if self.draw_count() == 3 {
            taken.reverse()
        } else {
            taken
        }
    }

    /// The board after a draw from the stock to the waste.
    pub open spec fn draw(self) -> Board {
        if self.can_draw() {
            Board {
                stock: self.stock.subrange(0, self.stock.len() - self.draw_count()),
                waste: self.waste + self.drawn(),
                ..self
            }
        } else {
            self
        }
    }

    // ----- waste to stock -----

    /// The waste goes back to the stock only when the stock is empty and the waste is not.
    pub open spec fn can_recycle(self) -> bool {
        self.stock.len() == 0 && self.waste.len() > 0
    }

    /// The count of rounds after one more, which stays at the largest number it can hold.
    pub open spec fn next_round(self) -> u16 {
        if self.card_rounds < u16::MAX {
            (self.card_rounds + 1) as u16
        } else {
            self.card_rounds
        }
    }

    /// The board after the waste is turned over to become the stock.
    pub open spec fn recycle(self) -> Board {
        if self.can_recycle() {
            Board {
                stock: self.waste.reverse(),
                waste: Seq::empty(),
                card_rounds: self.next_round(),
                cards_moved_from_waste: 0,
                ..self
            }
        } else {
            self
        }
    }

    // ----- waste to tableau -----

    /// The top card of the waste may go to column `tab` when the column exists, the waste
    /// has a card and the tableau rule admits that card on the column.
    pub open spec fn can_waste_to_tab(self, tab: int) -> bool {
        &&& 0 <= tab < self.tableau.len()
        &&& self.waste.len() > 0
        &&& self.stacks_on(self.waste.last(), top_of(self.tableau[tab]))
    }

    /// The board after the top card of the waste is put, face up, on column `tab`.
    pub open spec fn waste_to_tab(self, tab: int) -> Board {
        if self.can_waste_to_tab(tab) {
            Board {
                cards: self.shown(self.waste.last()),
                waste: self.waste.drop_last(),
                tableau: self.tableau.update(tab, self.tableau[tab].push(self.waste.last())),
                cards_moved_from_waste: (self.cards_moved_from_waste + 1) as u16,
                ..self
            }
        } else {
            self
        }
    }

    // ----- waste to foundation -----

    /// The top card of the waste may go to foundation `fd` when the foundation exists, the
    /// waste has a card and the foundation rule admits that card.
    pub open spec fn can_waste_to_foundation(self, fd: int) -> bool {
        &&& 0 <= fd < self.foundations.len()
        &&& self.waste.len() > 0
        &&& self.builds_on(self.waste.last(), self.foundations[fd])
    }

    /// The board after the top card of the waste becomes the top of foundation `fd`.
    pub open spec fn waste_to_foundation(self, fd: int) -> Board {
        if self.can_waste_to_foundation(fd) {
            Board {
                waste: self.waste.drop_last(),
                foundations: self.foundations.update(fd, Some(self.waste.last())),
                cards_moved_from_waste: (self.cards_moved_from_waste + 1) as u16,
                ..self
            }
        } else {
            self
        }
    }

    // ----- tableau to tableau -----

    /// The run of column `from` that starts at slot `slot` may go to column `to` when both
    /// columns exist, the slot holds a card, and the tableau rule admits the run's first
    /// card on column `to`.
    pub open spec fn can_tab_to_tab(self, from: int, slot: int, to: int) -> bool {
        &&& 0 <= from < self.tableau.len()
        &&& 0 <= to < self.tableau.len()
        &&& 0 <= slot < self.tableau[from].len()
        &&& self.stacks_on(self.tableau[from][slot], top_of(self.tableau[to]))
    }

    /// The tableau after the cards of column `from` from slot `slot` to the top are taken
    /// off and laid, in the same order, on column `to`.
    pub open spec fn run_moved(self, from: int, slot: int, to: int) -> Seq<Seq<usize>> {
        let run = self.tableau[from].subrange(slot, self.tableau[from].len() as int);
        let lifted = self.tableau.update(from, self.tableau[from].subrange(0, slot));
        lifted.update(to, lifted[to] + run)
    }

    /// The board after a run is moved from one column to another; the card that the run
    /// leaves on top of its old column, if any, is turned face up.
    pub open spec fn tab_to_tab(self, from: int, slot: int, to: int) -> Board {
        if self.can_tab_to_tab(from, slot, to) {
            let tableau = self.run_moved(from, slot, to);
            Board { cards: self.top_shown(tableau[from]), tableau, ..self }
        } else {
            self
        }
    }

    // ----- tableau to foundation -----

    /// The top card of column `tab` may go to foundation `fd` when both exist, the column
    /// has a card and the foundation rule admits its top card.
    pub open spec fn can_tab_to_foundation(self, tab: int, fd: int) -> bool {
        &&& 0 <= tab < self.tableau.len()
        &&& 0 <= fd < self.foundations.len()
        &&& self.tableau[tab].len() > 0
        &&& self.builds_on(self.tableau[tab].last(), self.foundations[fd])
    }

    /// The board after the top card of column `tab` becomes the top of foundation `fd`;
    /// the card that it leaves on top of the column, if any, is turned face up.
    pub open spec fn tab_to_foundation(self, tab: int, fd: int) -> Board {
        if self.can_tab_to_foundation(tab, fd) {
            let pile = self.tableau[tab].drop_last();
            Board {
                cards: self.top_shown(pile),
                tableau: self.tableau.update(tab, pile),
                foundations: self.foundations.update(fd, Some(self.tableau[tab].last())),
                ..self
            }
        } else {
            self
        }
    }

    // ----- geometry -----

    /// The slots of all columns as the cards lie now.
    pub open spec fn layout(self) -> Seq<Seq<(Point, Point)>> {
        Seq::new(
            self.tableau.len(),
            |column: int| column_slots(self.cards, column, self.tableau[column]),
        )
    }

    /// The board with the slots of all columns laid out afresh.
    pub open spec fn recalc(self) -> Board {
        Board { tab_positions: self.layout(), ..self }
    }

    /// The column and slot that a point selects in the tableau, if any.
    pub open spec fn tab_area(self, position: Point) -> Option<(int, int)> {
        stack_hit(self.tab_positions, position)
    }

    /// The foundation that a point selects, if any.
    pub open spec fn foundation_area(self, position: Point) -> Option<int> {
        first_hit(self.foundation_positions, position)
    }

    // ----- requests -----

    /// The move that two points ask for. The first of these that applies decides: from
    /// the stock to the waste; from the waste to the stock; from the waste to a tableau
    /// column; from the waste to a foundation; from a tableau slot to a tableau column;
    /// from a tableau slot to a foundation. Where none applies, the points ask for nothing.
    pub open spec fn resolve(self, positions: CardPosition) -> Move {
        let from_stock = in_area(positions.from, self.stock_position);
        let from_waste = in_area(positions.from, self.waste_position);
        let to_stock = in_area(positions.to, self.stock_position);
        let to_waste = in_area(positions.to, self.waste_position);
        let from_tab = self.tab_area(positions.from);
        let to_tab = self.tab_area(positions.to);
        let to_fd = self.foundation_area(positions.to);
        if from_stock && to_waste {
            Move::StockToWaste
        } else if from_waste && to_stock {
            Move::WasteToStock
        } else if to_tab is Some && from_waste {
            Move::WasteToTab(to_tab.unwrap().0 as usize)
        } else if to_fd is Some && from_waste {
            Move::WasteToFoundation(to_fd.unwrap() as usize)
        } else if from_tab is Some && to_tab is Some {
            Move::TabToTab(
                from_tab.unwrap().0 as usize,
                from_tab.unwrap().1 as usize,
                to_tab.unwrap().0 as usize,
            )
        } else if from_tab is Some && to_fd is Some {
            Move::TabToFoundation(from_tab.unwrap().0 as usize, to_fd.unwrap() as usize)
        } else {
            Move::Nothing
        }
    }

    /// Whether the rules allow a move on this board.
    pub open spec fn allows(self, request: Move) -> bool {
        match request {
            Move::StockToWaste => self.can_draw(),
            Move::WasteToStock => self.can_recycle(),
            Move::WasteToTab(tab) => self.can_waste_to_tab(tab as int),
            Move::WasteToFoundation(fd) => self.can_waste_to_foundation(fd as int),
            Move::TabToTab(from, slot, to) => self.can_tab_to_tab(from as int, slot as int, to as int),
            Move::TabToFoundation(tab, fd) => self.can_tab_to_foundation(tab as int, fd as int),
            Move::Nothing => false,
        }
    }

    /// The board after a move. A move that the rules do not allow leaves it as it is.
    pub open spec fn perform(self, request: Move) -> Board {
        match request {
            Move::StockToWaste => self.draw(),
            Move::WasteToStock => self.recycle(),
            Move::WasteToTab(tab) => self.waste_to_tab(tab as int),
            Move::WasteToFoundation(fd) => self.waste_to_foundation(fd as int),
            Move::TabToTab(from, slot, to) => self.tab_to_tab(from as int, slot as int, to as int),
            Move::TabToFoundation(tab, fd) => self.tab_to_foundation(tab as int, fd as int),
            Move::Nothing => self,
        }
    }

    /// The zones that a move changes when the rules allow it; otherwise no zone changes,
    /// which the single entry `Area::Nowhere` says.
    pub open spec fn touched(self, request: Move) -> Seq<Area> {
        if self.allows(request) {
            match request {
                Move::StockToWaste => seq![Area::Stock, Area::Waste],
                Move::WasteToStock => seq![Area::Waste, Area::Stock],
                Move::WasteToTab(tab) => seq![Area::Waste, Area::Tableau(tab)],
                Move::WasteToFoundation(fd) => seq![Area::Waste, Area::Foundation(fd)],
                Move::TabToTab(from, slot, to) => seq![Area::Tableau(from), Area::Tableau(to)],
                Move::TabToFoundation(tab, fd) => seq![Area::Tableau(tab), Area::Foundation(fd)],
                Move::Nothing => seq![Area::Nowhere],
            }
        } else {
            seq![Area::Nowhere]
        }
    }

    /// The board after the move that two points ask for.
    pub open spec fn move_cards(self, positions: CardPosition) -> Board {
        self.perform(self.resolve(positions))
    }

    /// The board after a request is taken in: the request is noted, the move that it asks
    /// for is carried out if the rules allow it, the slots are laid out afresh, and the
    /// zones that changed are marked.
    pub open spec fn answer(self, positions: CardPosition) -> Board {
        let noted = Board { position: positions, ..self };
        noted.move_cards(positions).recalc().redraw(noted.touched(noted.resolve(positions)))
    }

    /// Whether a list of zones names some foundation.
    pub open spec fn names_foundation(areas: Seq<Area>) -> bool {
        exists|i: int| 0 <= i < areas.len() && #[trigger] areas[i] is Foundation
    }

    /// The board after the zones listed are marked as changed since they were last drawn.
    /// All foundations share one mark. A tableau index that names no column marks nothing.
    pub open spec fn redraw(self, areas: Seq<Area>) -> Board {
        Board {
            foundation_dirty: self.foundation_dirty || Self::names_foundation(areas),
            stock_dirty: self.stock_dirty || areas.contains(Area::Stock),
            waste_dirty: self.waste_dirty || areas.contains(Area::Waste),
            tab_dirty: Seq::new(
                self.tab_dirty.len(),
                |column: int| self.tab_dirty[column] || areas.contains(Area::Tableau(column as usize)),
            ),
            ..self
        }
    }

    /// The board after every zone is marked as changed.
    pub open spec fn all_dirty(self) -> Board {
        Board {
            foundation_dirty: true,
            stock_dirty: true,
            waste_dirty: true,
            tab_dirty: Seq::new(self.tab_dirty.len(), |column: int| true),
            ..self
        }
    }

    /// The board after every zone has been drawn: no zone is marked as changed.
    pub open spec fn all_drawn(self) -> Board {
        Board {
            foundation_dirty: false,
            stock_dirty: false,
            waste_dirty: false,
            tab_dirty: Seq::new(self.tab_dirty.len(), |column: int| false),
            ..self
        }
    }

    // ----- dealing -----

    /// The card table of a fresh deal: the cards of `deck` in their order, face down but
    /// for the top card of each tableau column.
    pub open spec fn dealt_cards(deck: Seq<Card>) -> Seq<Card> {
        Seq::new(
            deck.len(),
            |h: int| Card { suit: deck[h].suit, rank: deck[h].rank, visible: dealt_on_top(h) },
        )
    }

    /// The tableau of a fresh deal: column `c` holds the `c + 1` handles that follow those
    /// of the columns before it.
    pub open spec fn dealt_tableau() -> Seq<Seq<usize>> {
        Seq::new(
            TABLEAU_COLUMNS as nat,
            |column: int| run(column_start(column), (column + 1) as nat),
        )
    }

    /// The stock of a fresh deal of `count` cards: the handles that the tableau left, in
    /// their order, the last on top.
    pub open spec fn dealt_stock(count: nat) -> Seq<usize> {
        run(TABLEAU_DEAL as int, (count - TABLEAU_DEAL) as nat)
    }

    /// The board after `deck` is dealt: the tableau gets its 28 cards, the rest is the
    /// stock, waste and foundations are empty, the counters are at zero, and the slots are
    /// laid out. What is not part of a deal stays: the draw mode, the last request, the
    /// zones' rectangles and their marks.
    pub open spec fn dealt(self, deck: Seq<Card>) -> Board {
        Board {
            start: true,
            cards: Self::dealt_cards(deck),
            tableau: Self::dealt_tableau(),
            foundations: Seq::new(FOUNDATIONS as nat, |fd: int| None::<usize>),
            stock: Self::dealt_stock(deck.len()),
            waste: Seq::empty(),
            card_rounds: 0,
            cards_moved_from_waste: 0,
            ..self
        }.recalc()
    }

    /// Whether a point lies where cards are played: on the stock, on the waste, on a
    /// foundation, or within the bounding box of a tableau column.
    pub open spec fn playable(self, position: Point) -> bool {
        ||| in_area(position, self.stock_position)
        ||| in_area(position, self.waste_position)
        ||| in_any_area(self.foundation_positions, position)
        ||| in_any_stack(self.tab_positions, position)
    }
}

} // verus!
