use crate::card::Card;
use crate::model::{
    column_start, columns_cards, run, top_card, tops_cards, Board, DECK_SIZE, TABLEAU_COLUMNS,
    TABLEAU_DEAL,
};
use vstd::multiset::Multiset;
use vstd::prelude::*;
use vstd::seq_lib::{lemma_multiset_commutative, to_multiset_build};

verus! {

/// Replacing one column changes the count of every handle in the columns by what the new
/// column holds of it more than the old one.
pub proof fn lemma_columns_update(columns: Seq<Seq<usize>>, k: int, pile: Seq<usize>)
    requires
        0 <= k < columns.len(),
    ensures
        forall|h: usize| #[trigger]
            columns_cards(columns.update(k, pile)).count(h) == columns_cards(columns).count(h)
                - columns[k].to_multiset().count(h) + pile.to_multiset().count(h),
    decreases columns.len(),
{
    broadcast use vstd::multiset::group_multiset_axioms;

    let updated = columns.update(k, pile);
    assert(columns_cards(updated) == columns_cards(updated.drop_last()).add(
        updated.last().to_multiset(),
    ));
    assert(columns_cards(columns) == columns_cards(columns.drop_last()).add(
        columns.last().to_multiset(),
    ));
    if k == columns.len() - 1 {
        assert(updated.drop_last() =~= columns.drop_last());
    } else {
        assert(updated.drop_last() =~= columns.drop_last().update(k, pile));
        lemma_columns_update(columns.drop_last(), k, pile);
        assert forall|h: usize| #[trigger]
            columns_cards(updated).count(h) == columns_cards(columns).count(h)
                - columns[k].to_multiset().count(h) + pile.to_multiset().count(h) by {
            assert(columns_cards(columns.drop_last().update(k, pile)).count(h) == columns_cards(
                columns.drop_last(),
            ).count(h) - columns.drop_last()[k].to_multiset().count(h) + pile.to_multiset().count(
                h,
            ));
        }
    }
}

/// A column holds no handle more often than all columns together.
pub proof fn lemma_column_within(columns: Seq<Seq<usize>>, k: int)
    requires
        0 <= k < columns.len(),
    ensures
        forall|h: usize|
            columns[k].to_multiset().count(h) <= #[trigger] columns_cards(columns).count(h),
    decreases columns.len(),
{
    broadcast use vstd::multiset::group_multiset_axioms;

    assert(columns_cards(columns) == columns_cards(columns.drop_last()).add(
        columns.last().to_multiset(),
    ));
    if k < columns.len() - 1 {
        lemma_column_within(columns.drop_last(), k);
        assert forall|h: usize|
            columns[k].to_multiset().count(h) <= #[trigger] columns_cards(columns).count(h) by {
            assert(columns.drop_last()[k].to_multiset().count(h) <= columns_cards(
                columns.drop_last(),
            ).count(h));
        }
    }
}

/// Replacing the top of one foundation changes the count of every handle on the
/// foundations by what the new top holds of it more than the old one.
pub proof fn lemma_tops_update(tops: Seq<Option<usize>>, k: int, top: Option<usize>)
    requires
        0 <= k < tops.len(),
    ensures
        forall|h: usize| #[trigger]
            tops_cards(tops.update(k, top)).count(h) == tops_cards(tops).count(h) - top_card(
                tops[k],
            ).count(h) + top_card(top).count(h),
    decreases tops.len(),
{
    broadcast use vstd::multiset::group_multiset_axioms;

    let updated = tops.update(k, top);
    assert(tops_cards(updated) == tops_cards(updated.drop_last()).add(top_card(updated.last())));
    assert(tops_cards(tops) == tops_cards(tops.drop_last()).add(top_card(tops.last())));
    if k == tops.len() - 1 {
        assert(updated.drop_last() =~= tops.drop_last());
    } else {
        assert(updated.drop_last() =~= tops.drop_last().update(k, top));
        lemma_tops_update(tops.drop_last(), k, top);
        assert forall|h: usize| #[trigger]
            tops_cards(updated).count(h) == tops_cards(tops).count(h) - top_card(tops[k]).count(h)
                + top_card(top).count(h) by {
            assert(tops_cards(tops.drop_last().update(k, top)).count(h) == tops_cards(
                tops.drop_last(),
            ).count(h) - top_card(tops.drop_last()[k]).count(h) + top_card(top).count(h));
        }
    }
}

/// The top of one foundation occurs no more often than on all foundations together.
pub proof fn lemma_top_within(tops: Seq<Option<usize>>, k: int)
    requires
        0 <= k < tops.len(),
    ensures
        forall|h: usize| top_card(tops[k]).count(h) <= #[trigger] tops_cards(tops).count(h),
    decreases tops.len(),
{
    broadcast use vstd::multiset::group_multiset_axioms;

    assert(tops_cards(tops) == tops_cards(tops.drop_last()).add(top_card(tops.last())));
    if k < tops.len() - 1 {
        lemma_top_within(tops.drop_last(), k);
        assert forall|h: usize| top_card(tops[k]).count(h) <= #[trigger] tops_cards(tops).count(
            h,
        ) by {
            assert(top_card(tops.drop_last()[k]).count(h) <= tops_cards(tops.drop_last()).count(h));
        }
    }
}

/// A sequence without members holds no handle.
pub proof fn lemma_empty_pile(pile: Seq<usize>)
    requires
        pile.len() == 0,
    ensures
        pile.to_multiset() == Multiset::<usize>::empty(),
{
    broadcast use vstd::multiset::group_multiset_axioms;

    assert forall|h: usize| pile.to_multiset().count(h) == 0 by {
        vstd::seq_lib::to_multiset_contains(pile, h);
    }
    assert(pile.to_multiset() =~= Multiset::<usize>::empty());
}

/// Columns without cards hold no handle.
pub proof fn lemma_empty_columns(columns: Seq<Seq<usize>>)
    requires
        forall|c: int| 0 <= c < columns.len() ==> (#[trigger] columns[c]).len() == 0,
    ensures
        columns_cards(columns) == Multiset::<usize>::empty(),
    decreases columns.len(),
{
    broadcast use vstd::multiset::group_multiset_axioms;

    if columns.len() > 0 {
        lemma_empty_columns(columns.drop_last());
        lemma_empty_pile(columns.last());
        assert(columns_cards(columns) =~= Multiset::<usize>::empty());
    }
}

/// Foundations without cards show no handle.
pub proof fn lemma_empty_tops(tops: Seq<Option<usize>>)
    requires
        forall|f: int| 0 <= f < tops.len() ==> #[trigger] tops[f] is None,
    ensures
        tops_cards(tops) == Multiset::<usize>::empty(),
    decreases tops.len(),
{
    broadcast use vstd::multiset::group_multiset_axioms;

    if tops.len() > 0 {
        lemma_empty_tops(tops.drop_last());
        assert(tops_cards(tops) =~= Multiset::<usize>::empty());
    }
}

/// A shaped board without cards in any zone and with an empty card table is valid.
pub proof fn lemma_empty_board(board: Board)
    requires
        board.shaped(),
        board.cards.len() == 0,
        board.stock.len() == 0,
        board.waste.len() == 0,
        forall|c: int| 0 <= c < board.tableau.len() ==> (#[trigger] board.tableau[c]).len() == 0,
        forall|f: int| 0 <= f < board.foundations.len() ==> #[trigger] board.foundations[f] is None,
        board.cards_moved_from_waste == 0,
    ensures
        board.valid(),
        board.complete(),
{
    broadcast use vstd::multiset::group_multiset_axioms;

    lemma_empty_columns(board.tableau);
    lemma_empty_tops(board.foundations);
    lemma_empty_pile(board.stock);
    lemma_empty_pile(board.waste);
    assert(board.placed() =~= Multiset::<usize>::empty());
}

/// A sequence of different numbers below `bound` has at most `bound` members.
pub proof fn lemma_distinct_bounded(s: Seq<usize>, bound: nat)
    requires
        s.no_duplicates(),
        forall|i: int| 0 <= i < s.len() ==> #[trigger] s[i] < bound,
    ensures
        s.len() <= bound,
    decreases bound,
{
    if s.len() > 0 {
        if exists|i: int| 0 <= i < s.len() && #[trigger] s[i] == bound - 1 {
            let i = choose|i: int| 0 <= i < s.len() && #[trigger] s[i] == bound - 1;
            let rest = s.remove(i);
            assert forall|j: int| 0 <= j < rest.len() implies #[trigger] rest[j] < bound - 1 by {
                if j < i {
                    assert(rest[j] == s[j]);
                } else {
                    assert(rest[j] == s[j + 1]);
                }
            }
            lemma_distinct_bounded(rest, (bound - 1) as nat);
        } else {
            assert(s[0] < bound);
            lemma_distinct_bounded(s, (bound - 1) as nat);
        }
    }
}

/// A run of handles holds each of its handles once and no other.
pub proof fn lemma_run_count(first: int, count: nat)
    requires
        0 <= first,
        first + count <= usize::MAX,
    ensures
        forall|h: usize| #[trigger]
            run(first, count).to_multiset().count(h) == if first <= h < first + count {
                1nat
            } else {
                0nat
            },
{
    broadcast use vstd::multiset::group_multiset_axioms;

    let pile = run(first, count);
    assert(pile.no_duplicates());
    pile.lemma_multiset_has_no_duplicates();
    assert forall|h: usize| #[trigger]
        pile.to_multiset().count(h) == if first <= h < first + count {
            1nat
        } else {
            0nat
        } by {
        vstd::seq_lib::to_multiset_contains(pile, h);
        if first <= h < first + count {
            assert(pile[h - first] == h);
            assert(pile.contains(h));
        } else if pile.contains(h) {
            let k = choose|k: int| 0 <= k < pile.len() && pile[k] == h;
            assert(false);
        }
    }
}

/// The first `columns` columns of a fresh deal hold the handles below the first handle of
/// the next column, each once, and no other.
pub proof fn lemma_dealt_columns(columns: int)
    requires
        0 <= columns <= TABLEAU_COLUMNS,
    ensures
        0 <= column_start(columns) <= TABLEAU_DEAL,
        columns == TABLEAU_COLUMNS ==> column_start(columns) == TABLEAU_DEAL,
        forall|h: usize| #[trigger]
            columns_cards(Board::dealt_tableau().take(columns)).count(h) == if h < column_start(
                columns,
            ) {
                1nat
            } else {
                0nat
            },
    decreases columns,
{
    broadcast use vstd::multiset::group_multiset_axioms;

    reveal_with_fuel(column_start, 8);
    let dealt = Board::dealt_tableau().take(columns);
    if columns > 0 {
        lemma_dealt_columns(columns - 1);
        assert(dealt.drop_last() =~= Board::dealt_tableau().take(columns - 1));
        assert(dealt.last() == run(column_start(columns - 1), columns as nat));
        lemma_run_count(column_start(columns - 1), columns as nat);
        assert(columns_cards(dealt) == columns_cards(dealt.drop_last()).add(
            dealt.last().to_multiset(),
        ));
        assert forall|h: usize| #[trigger]
            columns_cards(dealt).count(h) == if h < column_start(columns) {
                1nat
            } else {
                0nat
            } by {
            assert(columns_cards(Board::dealt_tableau().take(columns - 1)).count(h) == if h
                < column_start(columns - 1) {
                1nat
            } else {
                0nat
            });
        }
    }
}

impl Board {
    /// A fresh deal of a pack of cards is valid, and every card lies in exactly one place.
    pub proof fn lemma_dealt(self, deck: Seq<Card>)
        requires
            self.shaped(),
            deck.len() == DECK_SIZE,
        ensures
            self.dealt(deck).valid(),
            self.dealt(deck).complete(),
            forall|h: usize| h < DECK_SIZE ==> #[trigger] self.dealt(deck).placed().count(h) == 1,
    {
        broadcast use vstd::multiset::group_multiset_axioms;

        let dealt = self.dealt(deck);
        lemma_dealt_columns(TABLEAU_COLUMNS as int);
        assert(Board::dealt_tableau().take(TABLEAU_COLUMNS as int) =~= dealt.tableau);
        lemma_run_count(TABLEAU_DEAL as int, (DECK_SIZE - TABLEAU_DEAL) as nat);
        lemma_empty_pile(dealt.waste);
        lemma_empty_tops(dealt.foundations);
        assert forall|h: usize| #[trigger] dealt.placed().count(h) == if h < DECK_SIZE {
            1nat
        } else {
            0nat
        } by {
            assert(columns_cards(dealt.tableau).count(h) == if h < TABLEAU_DEAL {
                1nat
            } else {
                0nat
            });
        }
        assert forall|c: int, i: int|
            0 <= c < dealt.tableau.len() && 0 <= i < dealt.tableau[c].len() implies #[trigger]
            dealt.tableau[c][i] < dealt.cards.len() by {
            lemma_column_within(dealt.tableau, c);
            vstd::seq_lib::to_multiset_contains(dealt.tableau[c], dealt.tableau[c][i]);
            assert(dealt.tableau[c].contains(dealt.tableau[c][i]));
            assert(dealt.placed().count(dealt.tableau[c][i]) >= 1);
        }
    }

    /// On a valid board no column is longer than the card table.
    pub proof fn lemma_column_length(self, column: int)
        requires
            self.valid(),
            0 <= column < self.tableau.len(),
        ensures
            self.tableau[column].len() <= self.cards.len(),
    {
        broadcast use vstd::multiset::group_multiset_axioms;

        let pile = self.tableau[column];
        lemma_column_within(self.tableau, column);
        assert forall|h: usize| pile.to_multiset().contains(h) implies pile.to_multiset().count(h)
            == 1 by {
            assert(columns_cards(self.tableau).count(h) <= self.placed().count(h));
        }
        pile.lemma_multiset_has_no_duplicates_conv();
        lemma_distinct_bounded(pile, self.cards.len());
    }

    /// A draw keeps the board valid, moves no card out of the zones or into them, and
    /// loses no card.
    pub proof fn lemma_draw(self)
        requires
            self.valid(),
        ensures
            self.draw().valid(),
            self.draw().placed() == self.placed(),
            self.complete() ==> self.draw().complete(),
    {
        broadcast use vstd::multiset::group_multiset_axioms;

        if self.can_draw() {
            let after = self.draw();
            let n = self.stock.len() as int;
            let k = self.draw_count();
            let keep = self.stock.subrange(0, n - k);
            let taken = self.stock.subrange(n - k, n);
            assert(self.stock =~= keep + taken);
            lemma_multiset_commutative(keep, taken);
            lemma_multiset_commutative(self.waste, self.drawn());
            taken.lemma_reverse_to_multiset();
            assert(after.placed() =~= self.placed());
            assert forall|i: int| 0 <= i < after.waste.len() implies #[trigger] after.waste[i]
                < after.cards.len() by {
                if i >= self.waste.len() {
                    let j = i - self.waste.len();
                    if k == 3 {
                        assert(self.drawn()[j] == self.stock[n - 1 - j]);
                    } else {
                        assert(self.drawn()[j] == self.stock[n - k + j]);
                    }
                }
            }
            self.lemma_same_faces_complete(after);
        }
    }

    /// Turning the waste over keeps the board valid, moves no card out of the zones or
    /// into them, and loses no card.
    pub proof fn lemma_recycle(self)
        requires
            self.valid(),
        ensures
            self.recycle().valid(),
            self.recycle().placed() == self.placed(),
            self.complete() ==> self.recycle().complete(),
    {
        broadcast use vstd::multiset::group_multiset_axioms;

        if self.can_recycle() {
            let after = self.recycle();
            self.waste.lemma_reverse_to_multiset();
            assert(self.stock =~= Seq::<usize>::empty());
            assert(after.placed() =~= self.placed());
            assert forall|i: int| 0 <= i < after.stock.len() implies #[trigger] after.stock[i]
                < after.cards.len() by {
                assert(after.stock[i] == self.waste[self.waste.len() - 1 - i]);
            }
            self.lemma_same_faces_complete(after);
        }
    }

    /// Putting the waste's top card on a column keeps the board valid, moves no card out
    /// of the zones or into them, and loses no card.
    pub proof fn lemma_waste_to_tab(self, tab: int)
        requires
            self.valid(),
        ensures
            self.waste_to_tab(tab).valid(),
            self.waste_to_tab(tab).placed() == self.placed(),
            self.complete() ==> self.waste_to_tab(tab).complete(),
    {
        broadcast use vstd::multiset::group_multiset_axioms;

        if self.can_waste_to_tab(tab) {
            let after = self.waste_to_tab(tab);
            let w = self.waste.last();
            assert(self.waste =~= self.waste.drop_last().push(w));
            to_multiset_build(self.waste.drop_last(), w);
            to_multiset_build(self.tableau[tab], w);
            lemma_columns_update(self.tableau, tab, self.tableau[tab].push(w));
            assert(after.placed() =~= self.placed());
            self.lemma_same_faces_complete(after);
        }
    }

    /// Moving a run between columns keeps the board valid, moves no card out of the zones
    /// or into them, and loses no card.
    pub proof fn lemma_tab_to_tab(self, from: int, slot: int, to: int)
        requires
            self.valid(),
        ensures
            self.tab_to_tab(from, slot, to).valid(),
            self.tab_to_tab(from, slot, to).placed() == self.placed(),
            self.complete() ==> self.tab_to_tab(from, slot, to).complete(),
    {
        broadcast use vstd::multiset::group_multiset_axioms;

        if self.can_tab_to_tab(from, slot, to) {
            let after = self.tab_to_tab(from, slot, to);
            let pile = self.tableau[from];
            let rest = pile.subrange(0, slot);
            let run = pile.subrange(slot, pile.len() as int);
            let lifted = self.tableau.update(from, rest);
            assert(pile =~= rest + run);
            lemma_multiset_commutative(rest, run);
            lemma_multiset_commutative(lifted[to], run);
            lemma_columns_update(self.tableau, from, rest);
            lemma_columns_update(lifted, to, lifted[to] + run);
            assert(after.placed() =~= self.placed());
            assert forall|c: int, i: int|
                0 <= c < after.tableau.len() && 0 <= i < after.tableau[c].len() implies #[trigger]
                after.tableau[c][i] < after.cards.len() by {
                if c == to {
                    if i < lifted[to].len() {
                        if to == from {
                            assert(after.tableau[c][i] == self.tableau[from][i]);
                        } else {
                            assert(after.tableau[c][i] == self.tableau[to][i]);
                        }
                    } else {
                        assert(after.tableau[c][i] == self.tableau[from][slot + i - lifted[to].len()]);
                    }
                } else if c == from {
                    assert(after.tableau[c][i] == self.tableau[from][i]);
                } else {
                    assert(after.tableau[c][i] == self.tableau[c][i]);
                }
            }
            self.lemma_same_faces_complete(after);
        }
    }

    /// Putting the waste's top card on a foundation keeps the board valid, takes out of
    /// the zones only the card that the foundation showed before, and loses no card.
    pub proof fn lemma_waste_to_foundation(self, fd: int)
        requires
            self.valid(),
        ensures
            self.waste_to_foundation(fd).valid(),
            self.can_waste_to_foundation(fd) ==> self.waste_to_foundation(fd).placed()
                == self.placed().sub(top_card(self.foundations[fd])),
            self.complete() ==> self.waste_to_foundation(fd).complete(),
    {
        broadcast use vstd::multiset::group_multiset_axioms;

        if self.can_waste_to_foundation(fd) {
            let after = self.waste_to_foundation(fd);
            let w = self.waste.last();
            assert(self.waste =~= self.waste.drop_last().push(w));
            to_multiset_build(self.waste.drop_last(), w);
            lemma_tops_update(self.foundations, fd, Some(w));
            lemma_top_within(self.foundations, fd);
            assert(after.placed() =~= self.placed().sub(top_card(self.foundations[fd])));
            self.lemma_covered_complete(after, fd, w);
        }
    }

    /// Putting a column's top card on a foundation keeps the board valid, takes out of the
    /// zones only the card that the foundation showed before, and loses no card.
    pub proof fn lemma_tab_to_foundation(self, tab: int, fd: int)
        requires
            self.valid(),
        ensures
            self.tab_to_foundation(tab, fd).valid(),
            self.can_tab_to_foundation(tab, fd) ==> self.tab_to_foundation(tab, fd).placed()
                == self.placed().sub(top_card(self.foundations[fd])),
            self.complete() ==> self.tab_to_foundation(tab, fd).complete(),
    {
        broadcast use vstd::multiset::group_multiset_axioms;

        if self.can_tab_to_foundation(tab, fd) {
            let after = self.tab_to_foundation(tab, fd);
            let pile = self.tableau[tab];
            let w = pile.last();
            assert(pile =~= pile.drop_last().push(w));
            to_multiset_build(pile.drop_last(), w);
            lemma_columns_update(self.tableau, tab, pile.drop_last());
            lemma_tops_update(self.foundations, fd, Some(w));
            lemma_top_within(self.foundations, fd);
            assert(after.placed() =~= self.placed().sub(top_card(self.foundations[fd])));
            self.lemma_covered_complete(after, fd, w);
        }
    }

    /// A shaped board that holds the same cards in the same places as a valid one, with the
    /// same count of cards moved from the waste, is valid, and complete if that one is.
    pub proof fn lemma_same_cards(self, after: Board)
        requires
            self.valid(),
            after.shaped(),
            after.cards == self.cards,
            after.stock == self.stock,
            after.waste == self.waste,
            after.tableau == self.tableau,
            after.foundations == self.foundations,
            after.cards_moved_from_waste == self.cards_moved_from_waste,
        ensures
            after.valid(),
            after.placed() == self.placed(),
            self.complete() ==> after.complete(),
    {
        self.lemma_same_faces_complete(after);
    }

    /// Laying the slots out afresh keeps the board valid and touches no card.
    pub proof fn lemma_recalc(self)
        requires
            self.valid(),
        ensures
            self.recalc().valid(),
            self.recalc().placed() == self.placed(),
            self.complete() ==> self.recalc().complete(),
    {
        self.lemma_same_faces_complete(self.recalc());
    }

    /// A board that differs from a complete one only in which cards lie face up, the
    /// same handles lying in its zones, is complete.
    pub proof fn lemma_same_faces_complete(self, after: Board)
        requires
            after.placed() == self.placed(),
            after.foundations == self.foundations,
            after.cards.len() == self.cards.len(),
            forall|h: int|
                0 <= h < self.cards.len() ==> (#[trigger] after.cards[h]).same_face(self.cards[h]),
            self.handles_in_range(),
        ensures
            self.complete() ==> after.complete(),
    {
        if self.complete() {
            assert forall|handle: usize| handle < after.cards.len() implies after.placed().count(
                handle,
            ) >= 1 || after.buried(handle) by {
                if self.placed().count(handle) < 1 {
                    assert(self.buried(handle));
                    let f = choose|f: int| #[trigger] self.under(handle, f);
                    assert(after.under(handle, f));
                }
            }
        }
    }

    /// A board reached from a complete one by laying card `w` on foundation `fd` by the
    /// foundation rule is complete: what the foundation showed or covered before now lies
    /// under `w`.
    pub proof fn lemma_covered_complete(self, after: Board, fd: int, w: usize)
        requires
            self.handles_in_range(),
            0 <= fd < self.foundations.len(),
            w < self.cards.len(),
            self.builds_on(w, self.foundations[fd]),
            after.foundations == self.foundations.update(fd, Some(w)),
            after.placed() == self.placed().sub(top_card(self.foundations[fd])),
            after.cards.len() == self.cards.len(),
            forall|h: int|
                0 <= h < self.cards.len() ==> (#[trigger] after.cards[h]).same_face(self.cards[h]),
        ensures
            self.complete() ==> after.complete(),
    {
        broadcast use vstd::multiset::group_multiset_axioms;

        if self.complete() {
            assert forall|handle: usize| handle < after.cards.len() implies after.placed().count(
                handle,
            ) >= 1 || after.buried(handle) by {
                if after.placed().count(handle) < 1 {
                    assert(after.foundations[fd] == Some(w));
                    if self.placed().count(handle) >= 1 {
                        assert(self.foundations[fd] == Some(handle));
                        assert(after.under(handle, fd));
                    } else {
                        assert(self.buried(handle));
                        let f = choose|f: int| #[trigger] self.under(handle, f);
                        if f == fd {
                            assert(after.under(handle, fd));
                        } else {
                            assert(after.foundations[f] == self.foundations[f]);
                            assert(after.under(handle, f));
                        }
                    }
                }
            }
        }
    }

    /// A board that differs from this one only in which cards lie face up, with the same
    /// handles in its zones and on its foundations, keeps what lies under a foundation's
    /// top card out of the zones, and keeps the cards' faces different.
    pub proof fn lemma_same_faces_apart(self, after: Board)
        requires
            after.placed() == self.placed(),
            after.foundations == self.foundations,
            after.cards.len() == self.cards.len(),
            forall|h: int|
                0 <= h < self.cards.len() ==> (#[trigger] after.cards[h]).same_face(self.cards[h]),
            self.handles_in_range(),
        ensures
            self.faces_differ() ==> after.faces_differ(),
            self.buried_apart() ==> after.buried_apart(),
    {
        if self.faces_differ() {
            assert forall|i: int, j: int| 0 <= i < j < after.cards.len() implies !(
            #[trigger] after.cards[i]).same_face(#[trigger] after.cards[j]) by {
                assert(!self.cards[i].same_face(self.cards[j]));
            }
            assert forall|i: int| 0 <= i < after.cards.len() implies (
            #[trigger] after.cards[i]).rank >= 1 by {
                assert(self.cards[i].rank >= 1);
            }
        }
        if self.buried_apart() {
            assert forall|handle: usize, fd: int|
                handle < after.cards.len() && #[trigger] after.under(
                    handle,
                    fd,
                ) implies after.placed().count(handle) == 0 by {
                assert(self.under(handle, fd));
            }
        }
    }

    /// A board reached by laying card `w` on foundation `fd` by the foundation rule keeps
    /// what lies under a foundation's top card out of the zones, provided that the cards'
    /// faces differ: what now lies under `w` is what lay under the old top card, and
    /// that card itself, which has left the zones.
    pub proof fn lemma_covered_apart(self, after: Board, fd: int, w: usize)
        requires
            self.handles_in_range(),
            self.no_card_twice(),
            self.faces_differ(),
            self.buried_apart(),
            0 <= fd < self.foundations.len(),
            w < self.cards.len(),
            self.builds_on(w, self.foundations[fd]),
            after.foundations == self.foundations.update(fd, Some(w)),
            after.placed() == self.placed().sub(top_card(self.foundations[fd])),
            after.cards.len() == self.cards.len(),
            forall|h: int|
                0 <= h < self.cards.len() ==> (#[trigger] after.cards[h]).same_face(self.cards[h]),
        ensures
            after.buried_apart(),
    {
        broadcast use vstd::multiset::group_multiset_axioms;

        assert forall|handle: usize, f: int|
            handle < after.cards.len() && #[trigger] after.under(
                handle,
                f,
            ) implies after.placed().count(handle) == 0 by {
            if f != fd {
                assert(after.foundations[f] == self.foundations[f]);
                assert(self.under(handle, f));
            } else {
                assert(after.foundations[fd] == Some(w));
                assert(self.cards[handle as int].rank >= 1);
                match self.foundations[fd] {
                    None => {},
                    Some(top) => {
                        if self.card(handle).rank < self.card(top).rank {
                            assert(self.under(handle, fd));
                        } else {
                            assert(self.cards[handle as int].same_face(self.cards[top as int]));
                            if handle < top {
                                assert(!self.cards[handle as int].same_face(self.cards[top as int]));
                            } else if top < handle {
                                assert(!self.cards[top as int].same_face(self.cards[handle as int]));
                            }
                            assert(handle == top);
                            assert(self.placed().count(top) <= 1);
                        }
                    },
                }
            }
        }
    }
}

} // verus!
