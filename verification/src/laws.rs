use crate::card::{Card, ACE, KING};
use crate::deck::is_full_deck;
use crate::geometry::Point;
use crate::gesture::{after_press, Pending};
use crate::invariants::lemma_dealt_columns;
use crate::model::{
    column_start, top_among, top_of, Area, Board, CardPosition, DrawMode, Move, DECK_SIZE,
    FOUNDATIONS, TABLEAU_COLUMNS, TABLEAU_DEAL,
};
use vstd::prelude::*;

verus! {

/// After a deal of 52 cards the stock holds 24 cards and column `c` of the tableau holds
/// `c + 1`, which makes 52 together; the waste and all foundations are empty; in each
/// column only the last card lies face up, and the stock lies face down.
pub proof fn law_fresh_deal(board: Board, deck: Seq<Card>)
    requires
        board.shaped(),
        deck.len() == DECK_SIZE,
    ensures
        ({
            let dealt = board.dealt(deck);
            &&& dealt.start
            &&& dealt.cards.len() == DECK_SIZE
            &&& dealt.stock.len() == 24
            &&& dealt.waste.len() == 0
            &&& dealt.tableau.len() == TABLEAU_COLUMNS
            &&& forall|c: int| 0 <= c < TABLEAU_COLUMNS ==> (#[trigger] dealt.tableau[c]).len() == c + 1
            &&& dealt.stock.len() + dealt.tableau[0].len() + dealt.tableau[1].len()
                + dealt.tableau[2].len() + dealt.tableau[3].len() + dealt.tableau[4].len()
                + dealt.tableau[5].len() + dealt.tableau[6].len() == 52
            &&& forall|f: int| 0 <= f < FOUNDATIONS ==> #[trigger] dealt.foundations[f] is None
            &&& forall|c: int, j: int|
                0 <= c < TABLEAU_COLUMNS && 0 <= j <= c ==> dealt.card(
                    #[trigger] dealt.tableau[c][j],
                ).visible == (j == c)
            &&& forall|k: int|
                0 <= k < dealt.stock.len() ==> !dealt.card(#[trigger] dealt.stock[k]).visible
            &&& forall|h: int|
                0 <= h < DECK_SIZE ==> (#[trigger] dealt.cards[h]).same_face(deck[h])
            &&& dealt.tab_positions == dealt.layout()
        }),
{
    reveal_with_fuel(column_start, 8);
    reveal_with_fuel(top_among, 8);
    let dealt = board.dealt(deck);
    assert forall|c: int, j: int| 0 <= c < TABLEAU_COLUMNS && 0 <= j <= c implies dealt.card(
        #[trigger] dealt.tableau[c][j],
    ).visible == (j == c) by {
        lemma_dealt_columns(c);
        lemma_dealt_columns(c + 1);
        let h = column_start(c) + j;
        assert(dealt.tableau[c][j] == h);
        assert(dealt.cards[h].visible == top_among(h, 7));
    }
    assert forall|k: int| 0 <= k < dealt.stock.len() implies !dealt.card(
        #[trigger] dealt.stock[k],
    ).visible by {
        let h = TABLEAU_DEAL + k;
        assert(dealt.stock[k] == h);
        assert(dealt.cards[h].visible == top_among(h, 7));
    }
}

/// After a deal of 52 cards the board is valid, and every card lies in exactly one place.
pub proof fn law_fresh_deal_places_every_card_once(board: Board, deck: Seq<Card>)
    requires
        board.shaped(),
        deck.len() == DECK_SIZE,
    ensures
        board.dealt(deck).valid(),
        board.dealt(deck).complete(),
        forall|h: usize| h < DECK_SIZE ==> #[trigger] board.dealt(deck).placed().count(h) == 1,
{
    board.lemma_dealt(deck);
}

/// A draw of three from a stock of at least three cards takes exactly three cards from
/// the stock to the waste: the stock shrinks by three and keeps the cards below them,
/// the waste keeps its cards and grows by the three, and the card that lay deepest of
/// the three in the stock is the new top of the waste.
pub proof fn law_draw_three(board: Board)
    requires
        board.cards_to_play == DrawMode::Three,
        board.stock.len() >= 3,
    ensures
        ({
            let n = board.stock.len() as int;
            let w = board.waste.len() as int;
            let after = board.draw();
            &&& after.stock == board.stock.subrange(0, n - 3)
            &&& after.stock.len() == n - 3
            &&& after.waste.len() == w + 3
            &&& after.waste.subrange(0, w) == board.waste
            &&& after.waste[w] == board.stock[n - 1]
            &&& after.waste[w + 1] == board.stock[n - 2]
            &&& after.waste[w + 2] == board.stock[n - 3]
            &&& top_of(after.waste) == Some(board.stock[n - 3])
        }),
{
    let n = board.stock.len() as int;
    let after = board.draw();
    assert(after.waste.subrange(0, board.waste.len() as int) =~= board.waste);
}

/// A draw of one from a stock that has a card takes the top card of the stock and makes
/// it the top card of the waste.
pub proof fn law_draw_one(board: Board)
    requires
        board.cards_to_play == DrawMode::One,
        board.stock.len() >= 1,
    ensures
        board.draw().stock == board.stock.drop_last(),
        board.draw().waste == board.waste.push(board.stock.last()),
{
    let after = board.draw();
    assert(after.stock =~= board.stock.drop_last());
    assert(after.waste =~= board.waste.push(board.stock.last()));
}

/// A draw that finds no more cards in the stock than it may take, and fewer than three,
/// moves all of them to the waste in their order and leaves the stock empty. This is so
/// for a stock of one or two cards when three are drawn at a time, and for a stock of
/// one card when one is drawn at a time.
pub proof fn law_draw_last_cards(board: Board)
    requires
        1 <= board.stock.len() <= 2,
        board.cards_to_play == DrawMode::Three || board.stock.len() == 1,
    ensures
        board.draw().stock.len() == 0,
        board.draw().waste == board.waste + board.stock,
        !board.draw().can_draw(),
{
    let after = board.draw();
    assert(board.stock.subrange(0, board.stock.len() as int) =~= board.stock);
    assert(after.waste =~= board.waste + board.stock);
}

/// A draw from an empty stock changes nothing.
pub proof fn law_draw_from_empty_stock(board: Board)
    requires
        board.stock.len() == 0,
    ensures
        board.draw() == board,
{
}

/// Turning the waste over does nothing unless the stock is empty and the waste is not.
/// Then all cards of the waste become the stock, in the opposite order, the waste is
/// empty, the count of cards moved from the waste is zero, and the count of rounds has
/// grown by exactly one, provided it was below the largest number that it can hold.
pub proof fn law_recycle(board: Board)
    ensures
        board.stock.len() > 0 ==> board.recycle() == board,
        board.stock.len() == 0 && board.waste.len() == 0 ==> board.recycle() == board,
        board.stock.len() == 0 && board.waste.len() > 0 ==> {
            let after = board.recycle();
            &&& after.stock == board.waste.reverse()
            &&& after.stock.len() == board.waste.len()
            &&& after.waste.len() == 0
            &&& after.cards_moved_from_waste == 0
            &&& board.card_rounds < u16::MAX ==> after.card_rounds == board.card_rounds + 1
            &&& after.cards == board.cards
            &&& after.tableau == board.tableau
            &&& after.foundations == board.foundations
        },
{
}

/// After a recycle the cards come off the stock in the order in which they were laid on
/// the waste: the card that went to the waste first is on top of the stock.
pub proof fn law_recycle_order(board: Board, k: int)
    requires
        board.can_recycle(),
        0 <= k < board.waste.len(),
    ensures
        board.recycle().stock[board.waste.len() - 1 - k] == board.waste[k],
{
}

/// The waste's top card goes to a foundation only as an ace onto an empty foundation, or
/// onto a top card of its own suit that is one rank lower. Then it becomes the top of
/// the foundation, leaves the waste, and is counted. In every other case the board stays
/// exactly as it is.
pub proof fn law_waste_to_foundation(board: Board, fd: int)
    requires
        board.valid(),
        0 <= fd < FOUNDATIONS,
        board.waste.len() > 0,
    ensures
        board.can_waste_to_foundation(fd) <==> match board.foundations[fd] {
            None => board.card(board.waste.last()).rank == ACE,
            Some(top) => board.card(board.waste.last()).rank == board.card(top).rank + 1
                && board.card(board.waste.last()).suit == board.card(top).suit,
        },
        !board.can_waste_to_foundation(fd) ==> board.waste_to_foundation(fd) == board,
        board.can_waste_to_foundation(fd) ==> {
            let after = board.waste_to_foundation(fd);
            &&& after.foundations[fd] == Some(board.waste.last())
            &&& after.waste == board.waste.drop_last()
            &&& after.cards_moved_from_waste == board.cards_moved_from_waste + 1
            &&& after.cards == board.cards
            &&& after.stock == board.stock
            &&& after.tableau == board.tableau
            &&& forall|f: int|
                0 <= f < FOUNDATIONS && f != fd ==> #[trigger] after.foundations[f]
                    == board.foundations[f]
        },
{
}

/// With an empty waste nothing goes from the waste to a foundation or to the tableau.
pub proof fn law_empty_waste(board: Board, target: int)
    requires
        board.waste.len() == 0,
    ensures
        board.waste_to_foundation(target) == board,
        board.waste_to_tab(target) == board,
{
}

/// The waste's top card goes to a tableau column only as a king onto an empty column, or
/// onto a top card of the other colour that is one rank higher. Then it lies face up on
/// top of the column, has left the waste, and is counted. In every other case the board
/// stays exactly as it is.
pub proof fn law_waste_to_tab(board: Board, tab: int)
    requires
        board.valid(),
        0 <= tab < TABLEAU_COLUMNS,
        board.waste.len() > 0,
    ensures
        board.can_waste_to_tab(tab) <==> match top_of(board.tableau[tab]) {
            None => board.card(board.waste.last()).rank == KING,
            Some(top) => board.card(top).rank == board.card(board.waste.last()).rank + 1
                && board.card(top).color() != board.card(board.waste.last()).color(),
        },
        !board.can_waste_to_tab(tab) ==> board.waste_to_tab(tab) == board,
        board.can_waste_to_tab(tab) ==> {
            let after = board.waste_to_tab(tab);
            &&& after.tableau[tab] == board.tableau[tab].push(board.waste.last())
            &&& after.waste == board.waste.drop_last()
            &&& after.card(board.waste.last()).visible
            &&& after.cards_moved_from_waste == board.cards_moved_from_waste + 1
            &&& forall|c: int|
                0 <= c < TABLEAU_COLUMNS && c != tab ==> #[trigger] after.tableau[c]
                    == board.tableau[c]
        },
{
}

/// A run goes from a column onto a column only if its first card is a king and the
/// column that it goes to is empty, or that column's top card is of the other colour and
/// one rank higher. Between two different columns the whole run from the chosen slot to
/// the top moves as one, in its order, however many cards it has; the card that it
/// leaves on top of its old column, if one is left, then lies face up. Where the rule
/// does not admit the run, the board stays exactly as it is.
pub proof fn law_tab_to_tab(board: Board, from: int, slot: int, to: int)
    requires
        board.valid(),
        0 <= from < TABLEAU_COLUMNS,
        0 <= to < TABLEAU_COLUMNS,
        0 <= slot < board.tableau[from].len(),
    ensures
        board.can_tab_to_tab(from, slot, to) <==> match top_of(board.tableau[to]) {
            None => board.card(board.tableau[from][slot]).rank == KING,
            Some(top) => board.card(top).rank == board.card(board.tableau[from][slot]).rank + 1
                && board.card(top).color() != board.card(board.tableau[from][slot]).color(),
        },
        !board.can_tab_to_tab(from, slot, to) ==> board.tab_to_tab(from, slot, to) == board,
        board.can_tab_to_tab(from, slot, to) && from != to ==> {
            let after = board.tab_to_tab(from, slot, to);
            let pile = board.tableau[from];
            &&& after.tableau[from] == pile.subrange(0, slot)
            &&& after.tableau[to] == board.tableau[to] + pile.subrange(slot, pile.len() as int)
            &&& after.tableau[to].len() == board.tableau[to].len() + pile.len() - slot
            &&& forall|c: int|
                0 <= c < TABLEAU_COLUMNS && c != from && c != to ==> #[trigger] after.tableau[c]
                    == board.tableau[c]
            &&& slot > 0 ==> after.card(after.tableau[from].last()).visible
            &&& after.stock == board.stock
            &&& after.waste == board.waste
            &&& after.foundations == board.foundations
        },
{
    if board.can_tab_to_tab(from, slot, to) && from != to {
        let after = board.tab_to_tab(from, slot, to);
        if slot > 0 {
            let top = after.tableau[from].last();
            assert(top == board.tableau[from][slot - 1]);
            assert(top < board.cards.len());
        }
    }
}

/// The top card of a column goes to a foundation by the rule that holds for the waste's
/// top card: as an ace onto an empty foundation, or onto a top card of its own suit that
/// is one rank lower. Then it becomes the top of the foundation and leaves the column,
/// and the card that it leaves on top, if one is left, lies face up. In every other case
/// the board stays exactly as it is.
pub proof fn law_tab_to_foundation(board: Board, tab: int, fd: int)
    requires
        board.valid(),
        0 <= tab < TABLEAU_COLUMNS,
        0 <= fd < FOUNDATIONS,
        board.tableau[tab].len() > 0,
    ensures
        board.can_tab_to_foundation(tab, fd) <==> match board.foundations[fd] {
            None => board.card(board.tableau[tab].last()).rank == ACE,
            Some(top) => board.card(board.tableau[tab].last()).rank == board.card(top).rank + 1
                && board.card(board.tableau[tab].last()).suit == board.card(top).suit,
        },
        !board.can_tab_to_foundation(tab, fd) ==> board.tab_to_foundation(tab, fd) == board,
        board.can_tab_to_foundation(tab, fd) ==> {
            let after = board.tab_to_foundation(tab, fd);
            &&& after.foundations[fd] == Some(board.tableau[tab].last())
            &&& after.tableau[tab] == board.tableau[tab].drop_last()
            &&& board.tableau[tab].len() > 1 ==> after.card(after.tableau[tab].last()).visible
            &&& after.stock == board.stock
            &&& after.waste == board.waste
        },
{
    if board.can_tab_to_foundation(tab, fd) && board.tableau[tab].len() > 1 {
        let after = board.tab_to_foundation(tab, fd);
        let top = after.tableau[tab].last();
        assert(top == board.tableau[tab][board.tableau[tab].len() - 2]);
        assert(top < board.cards.len());
    }
}

/// Whatever move is asked of a valid board, the board stays valid: no card comes to lie
/// in two places. No card is lost either: each lies in a zone or under the top card of
/// a foundation. The card table keeps its size, and no card changes its suit or rank.
pub proof fn law_moves_keep_the_cards(board: Board, request: Move)
    requires
        board.valid(),
    ensures
        board.perform(request).valid(),
        board.complete() ==> board.perform(request).complete(),
        board.perform(request).cards.len() == board.cards.len(),
        forall|h: int|
            0 <= h < board.cards.len() ==> (#[trigger] board.perform(request).cards[h]).same_face(
                board.cards[h],
            ),
{
    match request {
        Move::StockToWaste => board.lemma_draw(),
        Move::WasteToStock => board.lemma_recycle(),
        Move::WasteToTab(tab) => board.lemma_waste_to_tab(tab as int),
        Move::WasteToFoundation(fd) => board.lemma_waste_to_foundation(fd as int),
        Move::TabToTab(from, slot, to) => board.lemma_tab_to_tab(from as int, slot as int, to as int),
        Move::TabToFoundation(tab, fd) => board.lemma_tab_to_foundation(tab as int, fd as int),
        Move::Nothing => {},
    }
}

/// Whatever request a valid board answers, it stays valid and loses no card, and when the
/// answer is given its slots are laid out as its cards lie.
pub proof fn law_answers_keep_the_cards(board: Board, positions: CardPosition)
    requires
        board.valid(),
    ensures
        board.answer(positions).valid(),
        board.complete() ==> board.answer(positions).complete(),
        board.answer(positions).tab_positions == board.answer(positions).layout(),
{
    let noted = Board { position: positions, ..board };
    board.lemma_same_cards(noted);
    let request = noted.resolve(positions);
    law_moves_keep_the_cards(noted, request);
    let moved = noted.perform(request);
    moved.lemma_recalc();
    let laid = moved.recalc();
    let marked = laid.redraw(noted.touched(request));
    laid.lemma_same_cards(marked);
}

/// On a valid board whose cards have different faces, whatever move is asked, what lies
/// under the top card of a foundation stays out of the zones, and the faces stay
/// different. Such a board is any that a game reaches from a deal of a full deck.
pub proof fn law_moves_keep_buried_cards_apart(board: Board, request: Move)
    requires
        board.valid(),
        board.faces_differ(),
        board.buried_apart(),
    ensures
        board.perform(request).faces_differ(),
        board.perform(request).buried_apart(),
{
    let after = board.perform(request);
    match request {
        Move::StockToWaste => {
            board.lemma_draw();
            board.lemma_same_faces_apart(after);
        },
        Move::WasteToStock => {
            board.lemma_recycle();
            board.lemma_same_faces_apart(after);
        },
        Move::WasteToTab(tab) => {
            board.lemma_waste_to_tab(tab as int);
            board.lemma_same_faces_apart(after);
        },
        Move::TabToTab(from, slot, to) => {
            board.lemma_tab_to_tab(from as int, slot as int, to as int);
            board.lemma_same_faces_apart(after);
        },
        Move::WasteToFoundation(fd) => {
            board.lemma_waste_to_foundation(fd as int);
            if board.can_waste_to_foundation(fd as int) {
                assert(after.cards == board.cards);
                board.lemma_covered_apart(after, fd as int, board.waste.last());
            }
        },
        Move::TabToFoundation(tab, fd) => {
            board.lemma_tab_to_foundation(tab as int, fd as int);
            if board.can_tab_to_foundation(tab as int, fd as int) {
                law_moves_keep_the_cards(board, request);
                assert(after.faces_differ()) by {
                    assert forall|i: int, j: int| 0 <= i < j < after.cards.len() implies !(
                    #[trigger] after.cards[i]).same_face(#[trigger] after.cards[j]) by {
                        assert(!board.cards[i].same_face(board.cards[j]));
                    }
                    assert forall|i: int| 0 <= i < after.cards.len() implies (
                    #[trigger] after.cards[i]).rank >= 1 by {
                        assert(board.cards[i].rank >= 1);
                    }
                }
                board.lemma_covered_apart(after, fd as int, board.tableau[tab as int].last());
            }
        },
        Move::Nothing => {},
    }
}

/// After a deal of a full deck the cards' faces differ and no card lies under a
/// foundation, and the top card of every column lies face up.
pub proof fn law_fresh_deal_is_sound(board: Board, deck: Seq<Card>)
    requires
        board.shaped(),
        is_full_deck(deck),
    ensures
        board.dealt(deck).faces_differ(),
        board.dealt(deck).buried_apart(),
        board.dealt(deck).tops_face_up(),
{
    let dealt = board.dealt(deck);
    assert forall|i: int, j: int| 0 <= i < j < dealt.cards.len() implies !(
    #[trigger] dealt.cards[i]).same_face(#[trigger] dealt.cards[j]) by {
        assert(!deck[i].same_face(deck[j]));
    }
    assert forall|i: int| 0 <= i < dealt.cards.len() implies (#[trigger] dealt.cards[i]).rank
        >= 1 by {
        assert(deck[i].rank >= 1);
    }
    law_fresh_deal(board, deck);
    assert forall|column: int|
        0 <= column < dealt.tableau.len() && (#[trigger] dealt.tableau[column]).len()
            > 0 implies dealt.card(dealt.tableau[column].last()).visible by {
        assert(dealt.card(dealt.tableau[column][column]).visible);
    }
}

/// On a board that is valid and complete, whose cards have different faces and on which
/// buried cards lie in no zone, every card is in exactly one state: it lies in exactly
/// one place of the zones, or it lies under the top card of a foundation, and never both.
pub proof fn law_each_card_in_one_place(board: Board, handle: usize)
    requires
        board.valid(),
        board.complete(),
        board.buried_apart(),
        handle < board.cards.len(),
    ensures
        board.placed().count(handle) == 1 <==> !board.buried(handle),
        board.placed().count(handle) == 0 <==> board.buried(handle),
{
    if board.buried(handle) {
        let fd = choose|fd: int| #[trigger] board.under(handle, fd);
        assert(board.placed().count(handle) == 0);
    }
}

/// Whatever move is asked of a valid board on which the top card of every column lies
/// face up, the top card of every column lies face up afterwards.
pub proof fn law_moves_keep_tops_face_up(board: Board, request: Move)
    requires
        board.valid(),
        board.tops_face_up(),
    ensures
        board.perform(request).tops_face_up(),
{
    let after = board.perform(request);
    law_moves_keep_the_cards(board, request);
    if board.allows(request) {
        assert forall|column: int|
            0 <= column < after.tableau.len() && (#[trigger] after.tableau[column]).len()
                > 0 implies after.card(after.tableau[column].last()).visible by {
            match request {
                Move::WasteToTab(tab) => {
                    if column != tab {
                        assert(board.tableau[column].len() > 0);
                    }
                },
                Move::TabToTab(from, slot, to) => {
                    let top = after.tableau[column].last();
                    assert(after.tableau[from as int].len() > 0 ==> after.tableau[from as int].last()
                        < board.cards.len());
                    if column == to as int && column != from as int {
                        assert(top == board.tableau[from as int].last());
                        assert(board.tableau[from as int].len() > 0);
                        assert(board.card(top).visible);
                    } else if column != from as int {
                        assert(board.tableau[column].len() > 0);
                        assert(top == board.tableau[column].last());
                    }
                },
                Move::TabToFoundation(tab, fd) => {
                    if column != tab as int {
                        assert(board.tableau[column].len() > 0);
                    } else {
                        assert(after.tableau[column].last() < board.cards.len());
                    }
                },
                _ => {
                    assert(board.tableau[column].len() > 0);
                },
            }
        }
    }
}

/// A move between stock, waste and tableau takes no card out of the zones and brings
/// none in: the zones hold the same handles afterwards, each as often as before.
pub proof fn law_moves_off_the_foundations_keep_the_zones(board: Board, request: Move)
    requires
        board.valid(),
        !(request is WasteToFoundation),
        !(request is TabToFoundation),
    ensures
        board.perform(request).placed() == board.placed(),
{
    match request {
        Move::StockToWaste => board.lemma_draw(),
        Move::WasteToStock => board.lemma_recycle(),
        Move::WasteToTab(tab) => board.lemma_waste_to_tab(tab as int),
        Move::TabToTab(from, slot, to) => board.lemma_tab_to_tab(from as int, slot as int, to as int),
        _ => {},
    }
}

/// A move that the rules do not allow changes nothing and touches no zone: the board is
/// exactly as it was, and the answer names no zone to draw afresh.
pub proof fn law_refused_move_changes_nothing(board: Board, request: Move)
    requires
        !board.allows(request),
    ensures
        board.perform(request) == board,
        board.touched(request) == seq![Area::Nowhere],
{
}

/// A request whose points name no move changes nothing.
pub proof fn law_unresolved_request_changes_nothing(board: Board, positions: CardPosition)
    requires
        board.resolve(positions) == Move::Nothing,
    ensures
        board.move_cards(positions) == board,
        board.touched(board.resolve(positions)) == seq![Area::Nowhere],
{
}

/// A press outside every zone while a move is pending calls the move off: nothing is
/// pending afterwards and no request reaches the board.
pub proof fn law_press_outside_cancels(from: Point, at: Point)
    ensures
        after_press(Some(Pending::One { from }), false, at) == (
            None::<Pending>,
            None::<CardPosition>,
        ),
{
}

/// A press outside every zone with nothing pending does nothing.
pub proof fn law_press_outside_is_ignored(at: Point)
    ensures
        after_press(None, false, at) == (None::<Pending>, None::<CardPosition>),
{
}

/// Two presses where cards are played make one request, from the first point to the
/// second, and leave nothing pending.
pub proof fn law_two_presses_make_a_request(from: Point, to: Point)
    ensures
        after_press(after_press(None, true, from).0, true, to) == (
            None::<Pending>,
            Some(CardPosition { from, to }),
        ),
{
}

} // verus!
