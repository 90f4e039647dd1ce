use crate::card::{Card, Suit};
use crate::model::DECK_SIZE;
use rand::seq::SliceRandom;
use rand::thread_rng;
use vstd::prelude::*;

verus! {

/// The number of cards of one suit.
pub const SUIT_SIZE: u32 = 13;

/// The suit at a place of a fresh pack: clubs, spades, hearts, diamonds.
pub open spec fn suit_at(place: int) -> Suit {
    if place == 0 {
        Suit::Clubs
    } else if place == 1 {
        Suit::Spades
    } else if place == 2 {
        Suit::Hearts
    } else {
        Suit::Diamonds
    }
}

/// The card at place `k` of a fresh pack, which lists the suits one after the other and
/// each suit from the ace to the king, all cards face down.
pub open spec fn pack_card(k: int) -> Card {
    Card { suit: suit_at(k / 13), rank: (k % 13 + 1) as u32, visible: false }
}

/// A fresh pack.
pub open spec fn pack() -> Seq<Card> {
    Seq::new(DECK_SIZE as nat, |k: int| pack_card(k))
}

/// The cards of a fresh pack taken in the order that `order` gives by their places.
pub open spec fn arranged(order: Seq<u32>) -> Seq<Card> {
    Seq::new(order.len(), |i: int| pack_card(order[i] as int))
}

/// Whether some card of `cards` shows the suit and rank given.
pub open spec fn shows(cards: Seq<Card>, suit: Suit, rank: u32) -> bool {
    exists|i: int| 0 <= i < cards.len() && (#[trigger] cards[i]).suit == suit && cards[i].rank == rank
}

/// Whether `cards` is a full deck: 52 cards, each of a rank from ace to king, among them
/// every suit with every rank, and no two that show the same suit and rank.
pub open spec fn is_full_deck(cards: Seq<Card>) -> bool {
    &&& cards.len() == DECK_SIZE
    &&& forall|i: int| 0 <= i < cards.len() ==> 1 <= (#[trigger] cards[i]).rank <= 13
    &&& forall|suit: Suit, rank: u32| 1 <= rank <= 13 ==> #[trigger] shows(cards, suit, rank)
    &&& forall|i: int, j: int|
        0 <= i < j < cards.len() ==> !(#[trigger] cards[i]).same_face(#[trigger] cards[j])
}

/// Whether all cards lie face down.
pub open spec fn all_face_down(cards: Seq<Card>) -> bool {
    forall|i: int| 0 <= i < cards.len() ==> !(#[trigger] cards[i]).visible
}

/// Whether `order` lists every place of a pack exactly once.
pub open spec fn is_permutation(order: Seq<u32>) -> bool {
    &&& order.len() == DECK_SIZE
    &&& order.no_duplicates()
    &&& forall|i: int| 0 <= i < order.len() ==> #[trigger] order[i] < DECK_SIZE
}

/// The places of a pack in their order.
pub open spec fn places() -> Seq<u32> {
    Seq::new(DECK_SIZE as nat, |k: int| k as u32)
}

/// A sequence that holds the same numbers as the places of a pack, each as often, lists
/// every place exactly once.
pub proof fn lemma_shuffled_places(order: Seq<u32>)
    requires
        order.to_multiset() == places().to_multiset(),
    ensures
        is_permutation(order),
{
    broadcast use vstd::seq_lib::group_to_multiset_ensures;

    let places = places();
    assert(places.no_duplicates());
    places.lemma_multiset_has_no_duplicates();
    order.lemma_multiset_has_no_duplicates_conv();
    assert(order.len() == order.to_multiset().len());
    assert(places.len() == places.to_multiset().len());
    assert forall|i: int| 0 <= i < order.len() implies #[trigger] order[i] < DECK_SIZE by {
        assert(order.contains(order[i]));
        assert(places.to_multiset().count(order[i]) > 0);
        assert(places.contains(order[i]));
        let k = choose|k: int| 0 <= k < places.len() && places[k] == order[i];
        assert(places[k] == k);
    }
}

/// Among 52 different numbers below 52 every number below 52 occurs.
proof fn lemma_every_place_listed(order: Seq<u32>, place: u32)
    requires
        is_permutation(order),
        place < DECK_SIZE,
    ensures
        order.contains(place),
{
    if !order.contains(place) {
        // the 52 members would then be 52 different numbers out of 51
        let squeezed = Seq::new(
            order.len(),
            |i: int|
                if order[i] < place {
                    order[i] as usize
                } else {
                    (order[i] - 1) as usize
                },
        );
        assert forall|i: int, j: int|
            0 <= i < squeezed.len() && 0 <= j < squeezed.len() && i != j implies squeezed[i]
            != squeezed[j] by {
            assert(order[i] != order[j]);
            assert(order[i] != place) by {
                assert(order.contains(order[i]));
            }
            assert(order[j] != place) by {
                assert(order.contains(order[j]));
            }
        }
        assert forall|i: int| 0 <= i < squeezed.len() implies #[trigger] squeezed[i] < 51 by {
            assert(order[i] != place) by {
                assert(order.contains(order[i]));
            }
        }
        crate::invariants::lemma_distinct_bounded(squeezed, 51);
    }
}

/// The cards of a fresh pack taken in an order that lists every place once are a full
/// deck, and lie face down.
pub proof fn lemma_arranged_full(order: Seq<u32>)
    requires
        is_permutation(order),
    ensures
        is_full_deck(arranged(order)),
        all_face_down(arranged(order)),
{
    let cards = arranged(order);
    assert forall|suit: Suit, rank: u32| 1 <= rank <= 13 implies #[trigger] shows(
        cards,
        suit,
        rank,
    ) by {
        let place = (suit.spec_index() * 13 + rank - 1) as u32;
        lemma_every_place_listed(order, place);
        let i = choose|i: int| 0 <= i < order.len() && order[i] == place;
        assert(cards[i] == pack_card(place as int));
        assert(cards[i].suit == suit && cards[i].rank == rank);
    }
    assert forall|i: int, j: int| 0 <= i < j < cards.len() implies !(#[trigger] cards[i]).same_face(
        #[trigger] cards[j],
    ) by {
        assert(order[i] != order[j]);
        if cards[i].same_face(cards[j]) {
            assert(order[i] as int / 13 == order[j] as int / 13);
            assert(order[i] as int % 13 == order[j] as int % 13);
        }
    }
}

/// The suit at a place of a fresh pack, for the places 0 to 3.
fn suit_of(place: u32) -> (suit: Suit)
    requires
        place < 4,
    ensures
        suit == suit_at(place as int),
{
    if place == 0 {
        Suit::Clubs
    } else if place == 1 {
        Suit::Spades
    } else if place == 2 {
        Suit::Hearts
    } else {
        Suit::Diamonds
    }
}

/// A fresh pack: clubs, spades, hearts and diamonds, each from the ace to the king, all
/// face down.
pub fn ordered_pack() -> (cards: Vec<Card>)
    ensures
        cards@ == pack(),
{
    let mut cards_ordered: Vec<Card> = Vec::with_capacity(52);
    let mut place: u32 = 0;
    while place < 4
        invariant
            place <= 4,
            cards_ordered@.len() == place * 13,
            forall|k: int| 0 <= k < cards_ordered@.len() ==> cards_ordered@[k] == pack_card(k),
        decreases 4 - place,
    {
        let suit = suit_of(place);
        let mut i: u32 = 1;
        while i <= SUIT_SIZE
            invariant
                place < 4,
                suit == suit_at(place as int),
                1 <= i <= 14,
                cards_ordered@.len() == place * 13 + i - 1,
                forall|k: int| 0 <= k < cards_ordered@.len() ==> cards_ordered@[k] == pack_card(k),
            decreases 14 - i,
        {
            cards_ordered.push(Card { suit, rank: i, visible: false });
            i += 1;
        }
        place += 1;
    }
    assert(cards_ordered@ =~= pack());
    cards_ordered
}

/// Brings the numbers of `order` into a random order.
///
/// The body calls `rand::seq::SliceRandom::shuffle` on the vector's slice, with the
/// generator that `rand::thread_rng` hands out. The shuffle does nothing but exchange
/// members of the slice, so all that is claimed is that the vector holds afterwards the
/// numbers that it held before, each as often; nothing is claimed of their order.
#[verifier::external_body]
fn shuffle(order: &mut Vec<u32>)
    ensures
        final(order)@.to_multiset() == old(order)@.to_multiset(),
{
    order.shuffle(&mut thread_rng());
}

/// Takes the cards of a fresh pack in the order that `order` gives by their places.
/// Returns nothing if `order` names a place that a pack does not have.
pub fn arrange(order: &Vec<u32>) -> (cards: Option<Vec<Card>>)
    ensures
        match cards {
            Some(cards) => {
                &&& forall|i: int| 0 <= i < order@.len() ==> #[trigger] order@[i] < DECK_SIZE
                &&& cards@ == arranged(order@)
            },
            None => exists|i: int| 0 <= i < order@.len() && #[trigger] order@[i] >= DECK_SIZE,
        },
{
    let cards_ordered = ordered_pack();
    let mut cards: Vec<Card> = Vec::new();
    let mut i: usize = 0;
    while i < order.len()
        invariant
            i <= order@.len(),
            cards_ordered@ == pack(),
            cards@.len() == i,
            forall|k: int| 0 <= k < i ==> #[trigger] order@[k] < DECK_SIZE,
            forall|k: int| 0 <= k < i ==> cards@[k] == pack_card(order@[k] as int),
        decreases order@.len() - i,
    {
        let n = order[i];
        if n as usize >= cards_ordered.len() {
            return None;
        }
        cards.push(cards_ordered[n as usize]);
        i += 1;
    }
    assert(cards@ =~= arranged(order@));
    Some(cards)
}

/// A full deck in a random order, all cards face down.
pub fn load_cards() -> (cards: Vec<Card>)
    ensures
        is_full_deck(cards@),
        all_face_down(cards@),
{
    // the places of a pack, in a random order
    let mut rand_vec: Vec<u32> = Vec::new();
    let mut n: u32 = 0;
    while n < 52
        invariant
            n <= 52,
            rand_vec@.len() == n,
            forall|k: int| 0 <= k < n ==> rand_vec@[k] == k,
        decreases 52 - n,
    {
        rand_vec.push(n);
        n += 1;
    }
    assert(rand_vec@ =~= places());
    shuffle(&mut rand_vec);
    proof {
        lemma_shuffled_places(rand_vec@);
        lemma_arranged_full(rand_vec@);
    }
    arrange(&rand_vec).unwrap()
}

} // verus!
