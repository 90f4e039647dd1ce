use crate::card::{Card, ACE, KING};
use crate::deck::{all_face_down, is_full_deck, load_cards};
use crate::geometry::{
    bounding_box, find_area, find_slot, in_area, lemma_first_hit_from, point_in_area, stack_hit,
    stack_hit_from, Point,
};
use crate::invariants::{lemma_dealt_columns, lemma_empty_board};
use crate::model::{
    column_slots, column_start, foundation_area, run, slot_area, top_among, top_of, Area, Board,
    CardPosition, DrawMode, Move, CARD_DIST_X, CARD_DIST_Y, CARD_SIZE_X, CARD_SIZE_Y, DECK_SIZE,
    FOUNDATIONS, FOUNDATION_X_OFFSET, TABLEAU_COLUMNS, TABLEAU_DEAL, TAB_X_OFFSET, TAB_Y_OFFSET,
    TOP_ROW_BOTTOM, TOP_ROW_Y,
};
use vstd::prelude::*;

verus! {

/// The board of a game of Klondike: the card table, the cards of every zone, the
/// rectangles in which the zones are drawn, the session's counters, and for each zone
/// whether it has changed since it was last drawn.
///
/// A card is known by its handle, its index in `cards`. The stock and the waste list
/// handles from the bottom of the pile to its top, a tableau column from the card lying
/// deepest to the card on top, and a foundation holds the handle of its top card.
pub struct State {
    pub start: bool,
    pub foundation_dirty: bool,
    pub stock_dirty: bool,
    pub waste_dirty: bool,
    pub tab_dirty: Vec<bool>,
    pub position: CardPosition,
    pub cards: Vec<Card>,
    pub tab_card_indexes: Vec<Vec<usize>>,
    pub tab_positions: Vec<Vec<(Point, Point)>>,
    pub foundation_cards: Vec<Option<usize>>,
    pub foundation_positions: Vec<(Point, Point)>,
    pub stock_position: (Point, Point),
    pub stock_card_indexes: Vec<usize>,
    pub waste_position: (Point, Point),
    pub waste_card_indexes: Vec<usize>,
    pub card_rounds: u16,
    pub cards_moved_from_waste: u16,
    pub cards_to_play: DrawMode,
}

impl View for State {
    type V = Board;

    open spec fn view(&self) -> Board {
        Board {
            start: self.start,
            position: self.position,
            cards: self.cards@,
            tableau: Seq::new(
                self.tab_card_indexes@.len(),
                |column: int| self.tab_card_indexes@[column]@,
            ),
            tab_positions: Seq::new(
                self.tab_positions@.len(),
                |column: int| self.tab_positions@[column]@,
            ),
            foundations: self.foundation_cards@,
            foundation_positions: self.foundation_positions@,
            stock_position: self.stock_position,
            stock: self.stock_card_indexes@,
            waste_position: self.waste_position,
            waste: self.waste_card_indexes@,
            card_rounds: self.card_rounds,
            cards_moved_from_waste: self.cards_moved_from_waste,
            cards_to_play: self.cards_to_play,
            foundation_dirty: self.foundation_dirty,
            stock_dirty: self.stock_dirty,
            waste_dirty: self.waste_dirty,
            tab_dirty: self.tab_dirty@,
        }
    }
}

/// The handle on top of a pile, if the pile has a card.
pub fn top_handle(pile: &Vec<usize>) -> (top: Option<usize>)
    ensures
        top == top_of(pile@),
{
    if pile.len() > 0 {
        Some(pile[pile.len() - 1])
    } else {
        None
    }
}

/// The cards of a pile in the opposite order.
pub fn reversed(pile: &Vec<usize>) -> (turned: Vec<usize>)
    ensures
        turned@ == pile@.reverse(),
{
    let mut turned: Vec<usize> = Vec::new();
    let mut left: usize = pile.len();
    while left > 0
        invariant
            left <= pile.len(),
            turned@.len() == pile.len() - left,
            forall|i: int| 0 <= i < turned@.len() ==> turned@[i] == pile@[pile.len() - 1 - i],
        decreases left,
    {
        left -= 1;
        turned.push(pile[left]);
    }
    assert(turned@ =~= pile@.reverse());
    turned
}

/// The rectangle of slot `slot` of tableau column `column`, for a card that lies face up
/// or face down.
pub fn slot_rect(column: usize, slot: usize, visible: bool) -> (area: (Point, Point))
    requires
        TAB_X_OFFSET + CARD_DIST_X * column + CARD_SIZE_X <= i32::MAX,
        TAB_Y_OFFSET + CARD_DIST_Y + CARD_DIST_Y * slot + CARD_SIZE_Y <= i32::MAX,
    ensures
        area == slot_area(column as int, slot as int, visible),
{
    let x: i32 = TAB_X_OFFSET + CARD_DIST_X * (column as i32);
    let y: i32 = TAB_Y_OFFSET + CARD_DIST_Y * (slot as i32);
    let height: i32 = if visible {
        CARD_DIST_Y + CARD_SIZE_Y
    } else {
        CARD_DIST_Y
    };
    (Point { x, y }, Point { x: x + CARD_SIZE_X, y: y + height })
}

impl State {
    /// The board is well formed when its content is a valid board.
    pub open spec fn wf(&self) -> bool {
        self@.valid()
    }

    /// A board before the first deal: no cards anywhere, the zones at their fixed places,
    /// three cards to a draw.
    pub fn new() -> (state: State)
        ensures
            state.wf(),
            state@ == Board::empty(),
    {
        let mut foundation_positions: Vec<(Point, Point)> = Vec::new();
        let mut foundation_cards: Vec<Option<usize>> = Vec::new();
        let mut x: i32 = FOUNDATION_X_OFFSET;
        for i in 0..FOUNDATIONS
            invariant
                x == FOUNDATION_X_OFFSET + CARD_DIST_X * i,
                foundation_cards@.len() == i,
                foundation_positions@.len() == i,
                forall|fd: int| 0 <= fd < i ==> #[trigger] foundation_cards@[fd] is None,
                forall|fd: int|
                    0 <= fd < i ==> #[trigger] foundation_positions@[fd] == foundation_area(fd),
        {
            foundation_positions.push(
                (Point { x, y: TOP_ROW_Y }, Point { x: x + CARD_SIZE_X, y: TOP_ROW_BOTTOM }),
            );
            foundation_cards.push(None);
            x = x + CARD_DIST_X;
        }
        let mut tab_dirty: Vec<bool> = Vec::new();
        let mut tab_card_indexes: Vec<Vec<usize>> = Vec::new();
        let mut tab_positions: Vec<Vec<(Point, Point)>> = Vec::new();
        for i in 0..TABLEAU_COLUMNS
            invariant
                tab_dirty@.len() == i,
                tab_card_indexes@.len() == i,
                tab_positions@.len() == i,
                forall|c: int| 0 <= c < i ==> !(#[trigger] tab_dirty@[c]),
                forall|c: int| 0 <= c < i ==> (#[trigger] tab_card_indexes@[c])@.len() == 0,
                forall|c: int| 0 <= c < i ==> (#[trigger] tab_positions@[c])@.len() == 0,
        {
            tab_dirty.push(false);
            tab_card_indexes.push(Vec::new());
            tab_positions.push(Vec::new());
        }
        let state = State {
            start: false,
            foundation_dirty: false,
            stock_dirty: false,
            waste_dirty: false,
            tab_dirty,
            position: CardPosition { from: Point { x: 0, y: 0 }, to: Point { x: 0, y: 0 } },
            cards: Vec::new(),
            tab_card_indexes,
            tab_positions,
            foundation_cards,
            foundation_positions,
            stock_position: (Point { x: 50, y: 25 }, Point { x: 150, y: 175 }),
            stock_card_indexes: Vec::new(),
            waste_position: (Point { x: 170, y: 25 }, Point { x: 270, y: 175 }),
            waste_card_indexes: Vec::new(),
            card_rounds: 0,
            cards_moved_from_waste: 0,
            cards_to_play: DrawMode::Three,
        };
        proof {
            let empty = Board::empty();
            assert(state@.cards =~= empty.cards);
            assert(state@.stock =~= empty.stock);
            assert(state@.waste =~= empty.waste);
            assert(state@.tableau =~~= empty.tableau);
            assert(state@.tab_positions =~~= empty.tab_positions);
            assert(state@.foundations =~= empty.foundations);
            assert(state@.foundation_positions =~= empty.foundation_positions);
            assert(state@.tab_dirty =~= empty.tab_dirty);
            assert(state@ =~~= empty);
            lemma_empty_board(state@);
        }
        state
    }

    /// Whether the tableau rule admits card `moving` on a pile whose top card is `onto`.
    pub fn stacks_on(&self, moving: usize, onto: Option<usize>) -> (admitted: bool)
        requires
            moving < self.cards@.len(),
            onto matches Some(top) ==> top < self.cards@.len(),
        ensures
            admitted == self@.stacks_on(moving, onto),
    {
        let card = self.cards[moving];
        match onto {
            None => card.rank == KING,
            Some(top) => {
                let last_card = self.cards[top];
                last_card.rank >= 1 && last_card.rank - 1 == card.rank && last_card.color()
                    != card.color()
            },
        }
    }

    /// Whether the foundation rule admits card `moving` on a foundation whose top card
    /// is `onto`.
    pub fn builds_on(&self, moving: usize, onto: Option<usize>) -> (admitted: bool)
        requires
            moving < self.cards@.len(),
            onto matches Some(top) ==> top < self.cards@.len(),
        ensures
            admitted == self@.builds_on(moving, onto),
    {
        let card = self.cards[moving];
        match onto {
            None => card.rank == ACE,
            Some(top) => {
                let fd_card = self.cards[top];
                card.rank >= 1 && fd_card.rank == card.rank - 1 && fd_card.color() == card.color()
                    && fd_card.suit == card.suit
            },
        }
    }

    /// Puts the top card of the waste, face up, on tableau column `tab_index` if the
    /// tableau rule admits it there, and counts it as moved from the waste. Otherwise the
    /// board stays as it is. Returns whether the card was moved.
    pub fn move_waste_to_tab(&mut self, tab_index: usize) -> (moved: bool)
        requires
            old(self).wf(),
        ensures
            final(self).wf(),
            moved == old(self)@.can_waste_to_tab(tab_index as int),
            final(self)@ == old(self)@.waste_to_tab(tab_index as int),
    {
        if tab_index >= self.tab_card_indexes.len() || self.waste_card_indexes.len() == 0 {
            return false;
        }
        let waste_card_index = self.waste_card_indexes[self.waste_card_indexes.len() - 1];
        let last_tab_card_index_opt = top_handle(&self.tab_card_indexes[tab_index]);
        proof {
            self@.lemma_waste_to_tab(tab_index as int);
            assert(self@.waste[self@.waste.len() - 1] < self@.cards.len());
            if self@.tableau[tab_index as int].len() > 0 {
                assert(self@.tableau[tab_index as int][self@.tableau[tab_index as int].len() - 1]
                    < self@.cards.len());
            }
        }
        if !self.stacks_on(waste_card_index, last_tab_card_index_opt) {
            return false;
        }
        self.cards[waste_card_index].visible = true;
        self.tab_card_indexes[tab_index].push(waste_card_index);
        self.waste_card_indexes.pop();
        self.cards_moved_from_waste += 1;
        assert(self@.cards =~= old(self)@.waste_to_tab(tab_index as int).cards);
        assert(self@.waste =~= old(self)@.waste_to_tab(tab_index as int).waste);
        assert(self@.tableau =~~= old(self)@.waste_to_tab(tab_index as int).tableau);
        assert(self@.tab_positions =~~= old(self)@.waste_to_tab(tab_index as int).tab_positions);
        assert(self@ =~~= old(self)@.waste_to_tab(tab_index as int));
        true
    }

    /// Moves the run of column `from.0` that starts at slot `from.1` onto column `to.0`
    /// if the tableau rule admits the run's first card there, and turns the card that the
    /// run leaves on top of its column face up. The run is the one card when the slot is
    /// the column's last. Otherwise the board stays as it is. Only the column of `to`
    /// counts, not its slot. Returns whether the run was moved.
    pub fn move_tab_to_tab(&mut self, from: (usize, usize), to: (usize, usize)) -> (moved: bool)
        requires
            old(self).wf(),
        ensures
            final(self).wf(),
            moved == old(self)@.can_tab_to_tab(from.0 as int, from.1 as int, to.0 as int),
            final(self)@ == old(self)@.tab_to_tab(from.0 as int, from.1 as int, to.0 as int),
    {
        let (tab_index_from, from_index) = from;
        let (tab_index_to, _to_index) = to;
        if tab_index_from >= self.tab_card_indexes.len() || tab_index_to
            >= self.tab_card_indexes.len() {
            return false;
        }
        if from_index >= self.tab_card_indexes[tab_index_from].len() {
            return false;
        }
        let card_from_index = self.tab_card_indexes[tab_index_from][from_index];
        let card_to_index_opt = top_handle(&self.tab_card_indexes[tab_index_to]);
        let ghost before = self@;
        let ghost after = before.tab_to_tab(from.0 as int, from.1 as int, to.0 as int);
        proof {
            before.lemma_tab_to_tab(from.0 as int, from.1 as int, to.0 as int);
            assert(before.tableau[tab_index_from as int][from_index as int] < before.cards.len());
            if before.tableau[tab_index_to as int].len() > 0 {
                assert(before.tableau[tab_index_to as int][before.tableau[tab_index_to as int].len()
                    - 1] < before.cards.len());
            }
        }
        if !self.stacks_on(card_from_index, card_to_index_opt) {
            return false;
        }
        let mut moving_indexes = self.tab_card_indexes[tab_index_from].split_off(from_index);
        self.tab_card_indexes[tab_index_to].append(&mut moving_indexes);
        assert(self@.tableau =~~= after.tableau);
        // turn over the card that is now last, if the column is not empty
        let left = self.tab_card_indexes[tab_index_from].len();
        if left > 0 {
            let index = self.tab_card_indexes[tab_index_from][left - 1];
            assert(index == after.tableau[tab_index_from as int][left - 1]);
            self.cards[index].visible = true;
        }
        assert(self@.cards =~= after.cards);
        assert(self@.tableau =~~= after.tableau);
        assert(self@.tab_positions =~~= after.tab_positions);
        assert(self@ =~~= after);
        true
    }

    /// Makes the top card of the waste the top of foundation `fd_index` if the foundation
    /// rule admits it, and counts it as moved from the waste. Otherwise the board stays as
    /// it is. Returns whether the card was moved.
    pub fn move_waste_to_foundation(&mut self, fd_index: usize) -> (moved: bool)
        requires
            old(self).wf(),
        ensures
            final(self).wf(),
            moved == old(self)@.can_waste_to_foundation(fd_index as int),
            final(self)@ == old(self)@.waste_to_foundation(fd_index as int),
    {
        if fd_index >= self.foundation_cards.len() || self.waste_card_indexes.len() == 0 {
            return false;
        }
        let waste_card_index = self.waste_card_indexes[self.waste_card_indexes.len() - 1];
        let ghost before = self@;
        let ghost after = before.waste_to_foundation(fd_index as int);
        proof {
            before.lemma_waste_to_foundation(fd_index as int);
            assert(before.waste[before.waste.len() - 1] < before.cards.len());
            assert(before.foundations[fd_index as int] matches Some(top) ==> top
                < before.cards.len());
        }
        if !self.builds_on(waste_card_index, self.foundation_cards[fd_index]) {
            return false;
        }
        self.foundation_cards[fd_index] = Some(waste_card_index);
        self.waste_card_indexes.pop();
        self.cards_moved_from_waste += 1;
        assert(self@.waste =~= after.waste);
        assert(self@.foundations =~= after.foundations);
        assert(self@.tableau =~~= after.tableau);
        assert(self@.tab_positions =~~= after.tab_positions);
        assert(self@ =~~= after);
        true
    }

    /// Draws from the stock to the waste: one card, or up to three, as the draw mode says.
    /// A full three are turned over as one, so that the card that lay deepest in the stock
    /// comes out on top of the waste; a last one or two keep their order. An empty stock
    /// leaves the board as it is. Returns whether cards were drawn.
    pub fn move_stock_to_waste(&mut self) -> (moved: bool)
        requires
            old(self).wf(),
        ensures
            final(self).wf(),
            moved == old(self)@.can_draw(),
            final(self)@ == old(self)@.draw(),
    {
        let stock_len = self.stock_card_indexes.len();
        if stock_len == 0 {
            return false;
        }
        let ghost before = self@;
        let ghost after = before.draw();
        proof {
            before.lemma_draw();
        }
        match self.cards_to_play {
            DrawMode::One => {
                let mut tail = self.stock_card_indexes.split_off(stock_len - 1);
                self.waste_card_indexes.append(&mut tail);
            },
            DrawMode::Three => {
                if stock_len >= 3 {
                    let tail = self.stock_card_indexes.split_off(stock_len - 3);
                    let mut tail = reversed(&tail);
                    self.waste_card_indexes.append(&mut tail);
                } else {
                    let mut tail = self.stock_card_indexes.split_off(0);
                    self.waste_card_indexes.append(&mut tail);
                }
            },
        }
        assert(self@.stock =~= after.stock);
        assert(self@.waste =~= after.waste);
        assert(self@.tableau =~~= after.tableau);
        assert(self@.tab_positions =~~= after.tab_positions);
        assert(self@ =~~= after);
        true
    }

    /// Makes the top card of tableau column `tab_index` the top of foundation `fd_index`
    /// if the foundation rule admits it, and turns the card that it leaves on top of the
    /// column face up. Otherwise the board stays as it is. Returns whether the card was
    /// moved.
    pub fn move_tab_to_foundation(&mut self, tab_index: usize, fd_index: usize) -> (moved: bool)
        requires
            old(self).wf(),
        ensures
            final(self).wf(),
            moved == old(self)@.can_tab_to_foundation(tab_index as int, fd_index as int),
            final(self)@ == old(self)@.tab_to_foundation(tab_index as int, fd_index as int),
    {
        if tab_index >= self.tab_card_indexes.len() || fd_index >= self.foundation_cards.len() {
            return false;
        }
        let pile_len = self.tab_card_indexes[tab_index].len();
        if pile_len == 0 {
            return false;
        }
        let tab_card_index = self.tab_card_indexes[tab_index][pile_len - 1];
        let ghost before = self@;
        let ghost after = before.tab_to_foundation(tab_index as int, fd_index as int);
        proof {
            before.lemma_tab_to_foundation(tab_index as int, fd_index as int);
            assert(before.tableau[tab_index as int][pile_len - 1] < before.cards.len());
            assert(before.foundations[fd_index as int] matches Some(top) ==> top
                < before.cards.len());
        }
        if !self.builds_on(tab_card_index, self.foundation_cards[fd_index]) {
            return false;
        }
        self.foundation_cards[fd_index] = Some(tab_card_index);
        self.tab_card_indexes[tab_index].pop();
        assert(self@.tableau =~~= after.tableau);
        // show the card that is now last
        if pile_len > 1 {
            let index = self.tab_card_indexes[tab_index][pile_len - 2];
            assert(index == after.tableau[tab_index as int][pile_len - 2]);
            self.cards[index].visible = true;
        }
        assert(self@.cards =~= after.cards);
        assert(self@.foundations =~= after.foundations);
        assert(self@.tableau =~~= after.tableau);
        assert(self@.tab_positions =~~= after.tab_positions);
        assert(self@ =~~= after);
        true
    }

    /// Turns the waste over to become the stock again, which starts a new round: the
    /// cards will be drawn in the order in which they were drawn before. This happens only
    /// when the stock is empty and the waste is not; otherwise the board stays as it is.
    /// The count of rounds grows by one, unless it is at the largest number that it can
    /// hold, and the count of cards moved from the waste starts again at zero. Returns
    /// whether the waste was turned over.
    pub fn move_waste_to_stock(&mut self) -> (moved: bool)
        requires
            old(self).wf(),
        ensures
            final(self).wf(),
            moved == old(self)@.can_recycle(),
            final(self)@ == old(self)@.recycle(),
    {
        if !(self.stock_card_indexes.len() == 0) || self.waste_card_indexes.len() == 0 {
            return false;
        }
        let ghost before = self@;
        let ghost after = before.recycle();
        proof {
            before.lemma_recycle();
        }
        self.stock_card_indexes = reversed(&self.waste_card_indexes);
        self.waste_card_indexes = Vec::new();
        if self.card_rounds < u16::MAX {
            self.card_rounds += 1;
        }
        self.cards_moved_from_waste = 0;
        assert(self@.stock =~= after.stock);
        assert(self@.waste =~= after.waste);
        assert(self@.tableau =~~= after.tableau);
        assert(self@.tab_positions =~~= after.tab_positions);
        assert(self@ =~~= after);
        true
    }

    /// Lays the slots of all tableau columns out afresh, as the cards lie now: one slot
    /// for each card, taller where the card lies face up, and one slot for a column
    /// without cards.
    pub fn recalc_tab_positions(&mut self)
        requires
            old(self).wf(),
        ensures
            final(self).wf(),
            final(self)@ == old(self)@.recalc(),
    {
        let ghost before = self@;
        let mut positions: Vec<Vec<(Point, Point)>> = Vec::new();
        let columns = self.tab_card_indexes.len();
        let mut i: usize = 0;
        while i < columns
            invariant
                self@ == before,
                before.valid(),
                columns == before.tableau.len(),
                i <= columns,
                positions@.len() == i,
                forall|c: int|
                    0 <= c < i ==> (#[trigger] positions@[c])@ == column_slots(
                        before.cards,
                        c,
                        before.tableau[c],
                    ),
            decreases columns - i,
        {
            let mut slots: Vec<(Point, Point)> = Vec::new();
            let pile_len = self.tab_card_indexes[i].len();
            proof {
                before.lemma_column_length(i as int);
            }
            if pile_len == 0 {
                slots.push(slot_rect(i, 0, true));
                assert(slots@ =~= column_slots(before.cards, i as int, before.tableau[i as int]));
            } else {
                let mut j: usize = 0;
                while j < pile_len
                    invariant
                        self@ == before,
                        before.valid(),
                        i < columns,
                        columns == before.tableau.len(),
                        pile_len == before.tableau[i as int].len(),
                        pile_len <= DECK_SIZE,
                        j <= pile_len,
                        slots@.len() == j,
                        forall|k: int|
                            0 <= k < j ==> #[trigger] slots@[k] == slot_area(
                                i as int,
                                k,
                                before.cards[before.tableau[i as int][k] as int].visible,
                            ),
                    decreases pile_len - j,
                {
                    let card_index = self.tab_card_indexes[i][j];
                    assert(before.tableau[i as int][j as int] < before.cards.len());
                    slots.push(slot_rect(i, j, self.cards[card_index].visible));
                    j += 1;
                }
                assert(slots@ =~= column_slots(before.cards, i as int, before.tableau[i as int]));
            }
            positions.push(slots);
            i += 1;
        }
        self.tab_positions = positions;
        proof {
            before.lemma_recalc();
            assert(self@.tab_positions =~~= before.recalc().tab_positions);
            assert(self@.tableau =~~= before.recalc().tableau);
            assert(self@ =~~= before.recalc());
        }
    }

    /// Finds the tableau slot that a point selects. The columns are tried in order; a
    /// column without slots, or whose bounding box does not hold the point, is passed
    /// over; in the others the first slot that holds the point is the answer. Returns the
    /// column and the slot, or nothing twice.
    pub fn find_tab_area(&self, position: Point) -> (found: (Option<usize>, Option<usize>))
        ensures
            match self@.tab_area(position) {
                Some((column, slot)) => found == (Some(column as usize), Some(slot as usize)),
                None => found == (None::<usize>, None::<usize>),
            },
    {
        let ghost stacks = self@.tab_positions;
        let mut i: usize = 0;
        while i < self.tab_positions.len()
            invariant
                stacks == self@.tab_positions,
                i <= self.tab_positions@.len(),
                stack_hit(stacks, position) == stack_hit_from(stacks, position, i as int),
            decreases self.tab_positions@.len() - i,
        {
            assert(stacks[i as int] == self.tab_positions@[i as int]@);
            match find_slot(&self.tab_positions[i], position) {
                Some(index) => {
                    return (Some(i), Some(index));
                },
                None => {},
            }
            i += 1;
        }
        (None, None)
    }

    /// Finds the foundation that a point selects: the first whose rectangle holds it.
    pub fn find_foundation_area(&self, position: Point) -> (found: Option<usize>)
        ensures
            match self@.foundation_area(position) {
                Some(fd) => found == Some(fd as usize),
                None => found is None,
            },
    {
        find_area(&self.foundation_positions, position)
    }

    /// Tells whether a point lies where cards are played: on the stock, on the waste, on
    /// a foundation, or within the bounding box of a tableau column that has slots.
    pub fn is_point_in_any_area(&self, point: Point) -> (playable: bool)
        ensures
            playable == self@.playable(point),
    {
        if point_in_area(point, self.stock_position) {
            return true;
        }
        if point_in_area(point, self.waste_position) {
            return true;
        }
        let found = find_area(&self.foundation_positions, point);
        proof {
            lemma_first_hit_from(self.foundation_positions@, point, 0);
        }
        if found.is_some() {
            return true;
        }
        let ghost stacks = self@.tab_positions;
        let mut i: usize = 0;
        while i < self.tab_positions.len()
            invariant
                stacks == self@.tab_positions,
                i <= self.tab_positions@.len(),
                forall|c: int|
                    0 <= c < i ==> !((#[trigger] stacks[c]).len() > 0 && in_area(
                        point,
                        bounding_box(stacks[c]),
                    )),
            decreases self.tab_positions@.len() - i,
        {
            assert(stacks[i as int] == self.tab_positions@[i as int]@);
            let slots = &self.tab_positions[i];
            if slots.len() > 0 {
                let top_left = slots[0].0;
                let bottom_right = slots[slots.len() - 1].1;
                if point_in_area(point, (top_left, bottom_right)) {
                    return true;
                }
            }
            i += 1;
        }
        false
    }

    /// Marks the zones listed as changed since they were last drawn. All foundations
    /// share one mark; `Area::Nowhere` marks nothing, and neither does a tableau index
    /// that names no column.
    pub fn request_redraw(&mut self, areas: Vec<Area>)
        requires
            old(self).wf(),
        ensures
            final(self).wf(),
            final(self)@ == old(self)@.redraw(areas@),
    {
        let ghost before = self@;
        let mut i: usize = 0;
        proof {
            assert(areas@.take(0) =~= Seq::<Area>::empty());
            assert(self@.tab_dirty =~= before.redraw(areas@.take(0)).tab_dirty);
            assert(self@ =~~= before.redraw(areas@.take(0)));
        }
        while i < areas.len()
            invariant
                i <= areas.len(),
                before.valid(),
                self@ == before.redraw(areas@.take(i as int)),
            decreases areas.len() - i,
        {
            let ghost seen = areas@.take(i as int);
            let ghost next = areas@.take(i + 1);
            let area = areas[i];
            proof {
                assert(next =~= seen.push(area));
                assert forall|a: Area| next.contains(a) == (seen.contains(a) || a == area) by {
                    if seen.contains(a) {
                        let k = choose|k: int| 0 <= k < seen.len() && seen[k] == a;
                        assert(next[k] == a);
                    }
                    if a == area {
                        assert(next[i as int] == a);
                    }
                }
                assert(Board::names_foundation(next) == (Board::names_foundation(seen)
                    || area is Foundation)) by {
                    if Board::names_foundation(seen) {
                        let k = choose|k: int| 0 <= k < seen.len() && #[trigger] seen[k] is Foundation;
                        assert(next[k] is Foundation);
                    }
                    if area is Foundation {
                        assert(next[i as int] is Foundation);
                    }
                }
            }
            match area {
                Area::Nowhere => (),
                Area::Foundation(_) => {
                    self.foundation_dirty = true;
                },
                Area::Stock => {
                    self.stock_dirty = true;
                },
                Area::Waste => {
                    self.waste_dirty = true;
                },
                Area::Tableau(tab) => {
                    if tab < self.tab_dirty.len() {
                        self.tab_dirty[tab] = true;
                    }
                },
            }
            i += 1;
            proof {
                assert(self@.tab_dirty =~= before.redraw(next).tab_dirty);
                assert(self@.tableau =~~= before.tableau);
                assert(self@.tab_positions =~~= before.tab_positions);
                assert(self@ =~~= before.redraw(next));
            }
        }
        proof {
            assert(areas@.take(areas@.len() as int) =~= areas@);
            before.lemma_same_cards(self@);
        }
    }

    /// Marks every zone as changed since it was last drawn.
    pub fn redraw_all(&mut self)
        requires
            old(self).wf(),
        ensures
            final(self).wf(),
            final(self)@ == old(self)@.all_dirty(),
    {
        let ghost before = self@;
        self.set_marks(true);
        assert(self@ =~~= before.all_dirty());
    }

    /// Takes every zone's mark away, once all that changed has been drawn.
    pub fn redrawn(&mut self)
        requires
            old(self).wf(),
        ensures
            final(self).wf(),
            final(self)@ == old(self)@.all_drawn(),
    {
        let ghost before = self@;
        self.set_marks(false);
        assert(self@ =~~= before.all_drawn());
    }

    /// Gives every zone the same mark.
    fn set_marks(&mut self, dirty: bool)
        requires
            old(self).wf(),
        ensures
            final(self).wf(),
            final(self)@ == (Board {
                foundation_dirty: dirty,
                stock_dirty: dirty,
                waste_dirty: dirty,
                tab_dirty: Seq::new(old(self)@.tab_dirty.len(), |column: int| dirty),
                ..old(self)@
            }),
    {
        let ghost before = self@;
        self.foundation_dirty = dirty;
        self.stock_dirty = dirty;
        self.waste_dirty = dirty;
        let mut i: usize = 0;
        assert(self@ =~~= (Board {
            foundation_dirty: dirty,
            stock_dirty: dirty,
            waste_dirty: dirty,
            ..before
        }));
        while i < self.tab_dirty.len()
            invariant
                i <= self.tab_dirty@.len(),
                self.tab_dirty@.len() == before.tab_dirty.len(),
                forall|c: int| 0 <= c < i ==> self.tab_dirty@[c] == dirty,
                self@ == (Board {
                    foundation_dirty: dirty,
                    stock_dirty: dirty,
                    waste_dirty: dirty,
                    tab_dirty: self.tab_dirty@,
                    ..before
                }),
            decreases self.tab_dirty@.len() - i,
        {
            self.tab_dirty[i] = dirty;
            i += 1;
            assert(self@ =~~= (Board {
                foundation_dirty: dirty,
                stock_dirty: dirty,
                waste_dirty: dirty,
                tab_dirty: self.tab_dirty@,
                ..before
            }));
        }
        proof {
            assert(self@.tab_dirty =~= Seq::new(before.tab_dirty.len(), |column: int| dirty));
            before.lemma_same_cards(self@);
        }
    }

    /// Resolves a request's two points to the move that they ask for. The first of these
    /// that applies decides: from the stock to the waste; from the waste to the stock;
    /// from the waste to a tableau column; from the waste to a foundation; from a tableau
    /// slot to a tableau column; from a tableau slot to a foundation.
    pub fn resolve(&self, positions: CardPosition) -> (request: Move)
        ensures
            request == self@.resolve(positions),
    {
        // stock to waste
        if point_in_area(positions.from, self.stock_position) && point_in_area(
            positions.to,
            self.waste_position,
        ) {
            return Move::StockToWaste;
        }
        // waste to stock
        let waste_area = point_in_area(positions.from, self.waste_position);
        if waste_area && point_in_area(positions.to, self.stock_position) {
            return Move::WasteToStock;
        }
        // waste to a column: only the column counts, not the slot in it
        let (tab_index_to, _tab_card_index) = self.find_tab_area(positions.to);
        if let Some(tab) = tab_index_to {
            if waste_area {
                return Move::WasteToTab(tab);
            }
        }
        // waste to a foundation
        let fd_index_to = self.find_foundation_area(positions.to);
        if let Some(fd) = fd_index_to {
            if waste_area {
                return Move::WasteToFoundation(fd);
            }
        }
        let (tab_index_from, tab_card_index_from) = self.find_tab_area(positions.from);
        if let (Some(from), Some(slot)) = (tab_index_from, tab_card_index_from) {
            // column to column
            if let Some(tab) = tab_index_to {
                return Move::TabToTab(from, slot, tab);
            }
            // column to a foundation
            if let Some(fd) = fd_index_to {
                return Move::TabToFoundation(from, fd);
            }
        }
        Move::Nothing
    }

    /// Carries out a move if the rules allow it, and leaves the board as it is if they
    /// do not. Returns whether the rules allowed it.
    pub fn perform(&mut self, request: Move) -> (moved: bool)
        requires
            old(self).wf(),
        ensures
            final(self).wf(),
            moved == old(self)@.allows(request),
            final(self)@ == old(self)@.perform(request),
    {
        match request {
            Move::StockToWaste => self.move_stock_to_waste(),
            Move::WasteToStock => self.move_waste_to_stock(),
            Move::WasteToTab(tab) => self.move_waste_to_tab(tab),
            Move::WasteToFoundation(fd) => self.move_waste_to_foundation(fd),
            Move::TabToTab(from, slot, to) => self.move_tab_to_tab((from, slot), (to, 0)),
            Move::TabToFoundation(tab, fd) => self.move_tab_to_foundation(tab, fd),
            Move::Nothing => false,
        }
    }

    /// Answers a request: resolves its two points to a move and carries the move out if
    /// the rules allow it. Returns the zones that changed, or the single entry
    /// `Area::Nowhere` when the points ask for nothing or the rules do not allow what
    /// they ask for; then the board is as it was.
    pub fn move_cards(&mut self, positions: CardPosition) -> (areas: Vec<Area>)
        requires
            old(self).wf(),
        ensures
            final(self).wf(),
            final(self)@ == old(self)@.move_cards(positions),
            areas@ == old(self)@.touched(old(self)@.resolve(positions)),
    {
        let request = self.resolve(positions);
        let ghost before = self@;
        let mut areas: Vec<Area> = Vec::new();
        if self.perform(request) {
            match request {
                Move::StockToWaste => {
                    areas.push(Area::Stock);
                    areas.push(Area::Waste);
                },
                Move::WasteToStock => {
                    areas.push(Area::Waste);
                    areas.push(Area::Stock);
                },
                Move::WasteToTab(tab) => {
                    areas.push(Area::Waste);
                    areas.push(Area::Tableau(tab));
                },
                Move::WasteToFoundation(fd) => {
                    areas.push(Area::Waste);
                    areas.push(Area::Foundation(fd));
                },
                Move::TabToTab(from, _slot, to) => {
                    areas.push(Area::Tableau(from));
                    areas.push(Area::Tableau(to));
                },
                Move::TabToFoundation(tab, fd) => {
                    areas.push(Area::Tableau(tab));
                    areas.push(Area::Foundation(fd));
                },
                Move::Nothing => {
                    areas.push(Area::Nowhere);
                },
            }
        } else {
            areas.push(Area::Nowhere);
        }
        assert(areas@ =~= before.touched(request));
        areas
    }

    /// Deals the cards given: the first 28 go to the tableau, one to the first column up
    /// to seven to the last, with only the last card of each column face up; the other 24
    /// become the stock, face down, the last of them on top. Waste and foundations are
    /// emptied, the counters start at zero, and the slots are laid out.
    ///
    /// Cards that are not 52 in number are not dealt, and the board stays as it is.
    /// Returns whether the cards were dealt.
    pub fn start_with(&mut self, cards: Vec<Card>) -> (dealt: bool)
        requires
            old(self).wf(),
        ensures
            final(self).wf(),
            dealt == (cards@.len() == DECK_SIZE),
            dealt ==> final(self)@ == old(self)@.dealt(cards@),
            !dealt ==> final(self)@ == old(self)@,
    {
        if cards.len() != DECK_SIZE {
            return false;
        }
        let ghost before = self@;
        let ghost deck = cards@;
        let mut cards = cards;
        let mut h: usize = 0;
        while h < DECK_SIZE
            invariant
                h <= DECK_SIZE,
                cards@.len() == DECK_SIZE,
                deck.len() == DECK_SIZE,
                forall|k: int|
                    0 <= k < DECK_SIZE ==> (#[trigger] cards@[k]).suit == deck[k].suit
                        && cards@[k].rank == deck[k].rank,
                forall|k: int| 0 <= k < h ==> !(#[trigger] cards@[k]).visible,
            decreases DECK_SIZE - h,
        {
            cards[h].visible = false;
            h += 1;
        }
        let mut tab_card_indexes: Vec<Vec<usize>> = Vec::new();
        let mut card_index: usize = 0;
        let mut i: usize = 0;
        while i < TABLEAU_COLUMNS
            invariant
                i <= TABLEAU_COLUMNS,
                card_index == column_start(i as int),
                card_index <= TABLEAU_DEAL,
                cards@.len() == DECK_SIZE,
                deck.len() == DECK_SIZE,
                forall|k: int|
                    0 <= k < DECK_SIZE ==> (#[trigger] cards@[k]).suit == deck[k].suit
                        && cards@[k].rank == deck[k].rank,
                forall|k: int|
                    0 <= k < DECK_SIZE ==> (#[trigger] cards@[k]).visible == top_among(k, i as int),
                tab_card_indexes@.len() == i,
                forall|c: int|
                    0 <= c < i ==> (#[trigger] tab_card_indexes@[c])@ == run(
                        column_start(c),
                        (c + 1) as nat,
                    ),
            decreases TABLEAU_COLUMNS - i,
        {
            proof {
                lemma_dealt_columns(i as int);
                lemma_dealt_columns(i + 1);
            }
            let ghost first = card_index;
            let mut pile: Vec<usize> = Vec::new();
            let mut j: usize = 0;
            while j <= i
                invariant
                    i < TABLEAU_COLUMNS,
                    j <= i + 1,
                    card_index == first + j,
                    first + i + 1 <= TABLEAU_DEAL,
                    pile@.len() == j,
                    forall|k: int| 0 <= k < j ==> #[trigger] pile@[k] == first + k,
                decreases i + 1 - j,
            {
                pile.push(card_index);
                card_index += 1;
                j += 1;
            }
            assert(pile@ =~= run(column_start(i as int), (i + 1) as nat));
            // only the last card of the column lies face up
            cards[card_index - 1].visible = true;
            tab_card_indexes.push(pile);
            i += 1;
        }
        // the cards that are left make up the stock
        let mut stock_card_indexes: Vec<usize> = Vec::new();
        let mut i: usize = card_index;
        proof {
            lemma_dealt_columns(TABLEAU_COLUMNS as int);
        }
        while i < DECK_SIZE
            invariant
                TABLEAU_DEAL <= i <= DECK_SIZE,
                stock_card_indexes@.len() == i - TABLEAU_DEAL,
                forall|k: int|
                    0 <= k < stock_card_indexes@.len() ==> #[trigger] stock_card_indexes@[k]
                        == TABLEAU_DEAL + k,
            decreases DECK_SIZE - i,
        {
            stock_card_indexes.push(i);
            i += 1;
        }
        let mut foundation_cards: Vec<Option<usize>> = Vec::new();
        let mut fd: usize = 0;
        while fd < FOUNDATIONS
            invariant
                fd <= FOUNDATIONS,
                foundation_cards@.len() == fd,
                forall|k: int| 0 <= k < fd ==> #[trigger] foundation_cards@[k] is None,
            decreases FOUNDATIONS - fd,
        {
            foundation_cards.push(None);
            fd += 1;
        }
        self.cards = cards;
        self.tab_card_indexes = tab_card_indexes;
        self.foundation_cards = foundation_cards;
        self.stock_card_indexes = stock_card_indexes;
        self.waste_card_indexes = Vec::new();
        self.card_rounds = 0;
        self.cards_moved_from_waste = 0;
        self.start = true;
        proof {
            let laid = Board { tab_positions: before.tab_positions, ..before.dealt(deck) };
            assert(self@.cards =~= laid.cards);
            assert(self@.tableau =~~= laid.tableau);
            assert(self@.stock =~= laid.stock);
            assert(self@.waste =~= laid.waste);
            assert(self@.foundations =~= laid.foundations);
            assert(self@.tab_positions =~~= laid.tab_positions);
            assert(self@ =~~= laid);
            before.lemma_dealt(deck);
            before.dealt(deck).lemma_same_cards(laid);
            assert(laid.recalc() =~~= before.dealt(deck));
        }
        self.recalc_tab_positions();
        true
    }

    /// Starts a new game: shuffles a full deck and deals it.
    ///
    /// Which deck comes out of the shuffle is not known beforehand; whichever it is, it
    /// is a full deck, and the board is the one that dealing this deck gives.
    pub fn start(&mut self)
        requires
            old(self).wf(),
        ensures
            final(self).wf(),
            exists|deck: Seq<Card>| #[trigger]
                is_full_deck(deck) && all_face_down(deck) && final(self)@ == old(self)@.dealt(
                    deck,
                ),
    {
        let cards = load_cards();
        let ghost deck = cards@;
        self.start_with(cards);
        assert(is_full_deck(deck) && all_face_down(deck) && self@ == old(self)@.dealt(deck));
    }

    /// Whether the stock has a card left to draw.
    pub fn stock_has_more(&self) -> (more: bool)
        ensures
            more == (self@.stock.len() > 0),
    {
        self.stock_card_indexes.len() > 0
    }

    /// The card that the waste shows: the one on top, if the waste has a card.
    pub fn waste_top(&self) -> (top: Option<usize>)
        ensures
            top == top_of(self@.waste),
    {
        top_handle(&self.waste_card_indexes)
    }
}

impl Default for State {
    /// The board before the first deal, as `State::new` makes it.
    fn default() -> (state: State)
        ensures
            state.wf(),
            state@ == Board::empty(),
    {
        State::new()
    }
}

} // verus!
