//! Hands of player cards, kept as lists in which no card occurs twice.
use vstd::prelude::*;

use crate::city_graph::CityCard;
use crate::game_enums::PlayerCard;

verus! {

/// The hand with a card added, unless it holds the card already.
pub open spec fn hand_with(hand: Seq<PlayerCard>, card: PlayerCard) -> Seq<PlayerCard> {
    if hand.contains(card) {
        hand
    } else {
        hand.push(card)
    }
}

/// The hand with a card taken out, if it holds the card.
pub open spec fn hand_without(hand: Seq<PlayerCard>, card: PlayerCard) -> Seq<PlayerCard> {
    if hand.contains(card) {
        hand.remove(hand.index_of(card))
    } else {
        hand
    }
}

/// The hand with every card of a list taken out, one after the other.
pub open spec fn hand_without_all(hand: Seq<PlayerCard>, cards: Seq<PlayerCard>) -> Seq<PlayerCard>
    decreases cards.len(),
{
    if cards.len() == 0 {
        hand
    } else {
        hand_without(hand_without_all(hand, cards.drop_last()), cards.last())
    }
}

/// The city cards that stand for a list of cities.
pub open spec fn as_player_cards(cities: Seq<CityCard>) -> Seq<PlayerCard> {
    Seq::new(cities.len(), |i: int| PlayerCard::CityCard(cities[i]))
}

/// Every card of `cards` is in `hand`.
pub open spec fn all_in_hand(hand: Seq<PlayerCard>, cards: Seq<PlayerCard>) -> bool {
    forall|i: int| 0 <= i < cards.len() ==> hand.contains(#[trigger] cards[i])
}

/// In a hand without repeated cards, a card has one position only.
pub proof fn lemma_position_in_hand(hand: Seq<PlayerCard>, card: PlayerCard, k: int)
    requires
        hand.no_duplicates(),
        0 <= k < hand.len(),
        hand[k] == card,
    ensures
        hand.contains(card),
        hand.index_of(card) == k,
{
    assert(hand.contains(card));
    let j = hand.index_of(card);
    assert(hand[j] == card);
}

/// Adding a card keeps a hand free of repeated cards and puts the card in it.
pub proof fn lemma_hand_with(hand: Seq<PlayerCard>, card: PlayerCard)
    requires
        hand.no_duplicates(),
    ensures
        hand_with(hand, card).no_duplicates(),
        hand_with(hand, card).contains(card),
        forall|c: PlayerCard| hand.contains(c) ==> hand_with(hand, card).contains(c),
        forall|c: PlayerCard| hand_with(hand, card).contains(c) ==> c == card || hand.contains(c),
        hand_with(hand, card).len() == if hand.contains(card) { hand.len() } else { hand.len() + 1 },
{
    let after = hand_with(hand, card);
    if !hand.contains(card) {
        assert(after[hand.len() as int] == card);
        assert forall|c: PlayerCard| hand.contains(c) implies after.contains(c) by {
            let i = hand.index_of(c);
            assert(after[i] == c);
        }
        assert forall|c: PlayerCard| after.contains(c) implies c == card || hand.contains(c) by {
            let i = after.index_of(c);
            if i < hand.len() {
                assert(hand[i] == c);
            }
        }
        assert forall|i: int, j: int| 0 <= i < after.len() && 0 <= j < after.len() && i != j
            implies after[i] != after[j] by {
            if i < hand.len() {
                assert(hand.contains(after[i]));
            }
            if j < hand.len() {
                assert(hand.contains(after[j]));
            }
        }
    }
}

/// Taking a card out keeps a hand free of repeated cards, removes just that
/// card, and shortens the hand by one if the card was there.
pub proof fn lemma_hand_without(hand: Seq<PlayerCard>, card: PlayerCard)
    requires
        hand.no_duplicates(),
    ensures
        hand_without(hand, card).no_duplicates(),
        !hand_without(hand, card).contains(card),
        forall|c: PlayerCard| c != card && hand.contains(c) ==> hand_without(hand, card).contains(c),
        forall|c: PlayerCard| hand_without(hand, card).contains(c) ==> hand.contains(c),
        hand_without(hand, card).len() == if hand.contains(card) { hand.len() - 1 } else { hand.len() as int },
{
    let after = hand_without(hand, card);
    if hand.contains(card) {
        let k = hand.index_of(card);
        assert forall|i: int| 0 <= i < after.len() implies after[i] == hand[if i < k { i } else { i + 1 }] by {}
        assert forall|i: int, j: int| 0 <= i < after.len() && 0 <= j < after.len() && i != j
            implies after[i] != after[j] by {
            let i2 = if i < k { i } else { i + 1 };
            let j2 = if j < k { j } else { j + 1 };
            assert(after[i] == hand[i2] && after[j] == hand[j2]);
        }
        if after.contains(card) {
            let i = after.index_of(card);
            let i2 = if i < k { i } else { i + 1 };
            assert(after[i] == hand[i2]);
        }
        assert forall|c: PlayerCard| c != card && hand.contains(c) implies after.contains(c) by {
            let i = hand.index_of(c);
            let i2 = if i < k { i } else { i - 1 };
            assert(after[i2] == c);
        }
        assert forall|c: PlayerCard| after.contains(c) implies hand.contains(c) by {
            let i = after.index_of(c);
            let i2 = if i < k { i } else { i + 1 };
            assert(hand[i2] == c);
        }
    }
}

/// Taking distinct cards of a hand out shortens it by their number and keeps
/// it free of repeated cards; what stays was in the hand.
pub proof fn lemma_hand_without_all(hand: Seq<PlayerCard>, cards: Seq<PlayerCard>)
    requires
        hand.no_duplicates(),
    ensures
        hand_without_all(hand, cards).no_duplicates(),
        forall|c: PlayerCard| hand_without_all(hand, cards).contains(c) ==> hand.contains(c) && !cards.contains(c),
        forall|c: PlayerCard| hand.contains(c) && !cards.contains(c) ==> hand_without_all(hand, cards).contains(c),
        cards.no_duplicates() && all_in_hand(hand, cards) ==> hand_without_all(hand, cards).len()
            == hand.len() - cards.len(),
    decreases cards.len(),
{
    if cards.len() > 0 {
        let before = cards.drop_last();
        let mid = hand_without_all(hand, before);
        lemma_hand_without_all(hand, before);
        lemma_hand_without(mid, cards.last());
        let after = hand_without_all(hand, cards);
        assert forall|c: PlayerCard| after.contains(c) implies hand.contains(c) && !cards.contains(c) by {
            assert(mid.contains(c));
            if cards.contains(c) {
                let i = cards.index_of(c);
                if i < before.len() {
                    assert(before[i] == c);
                    assert(before.contains(c));
                }
            }
        }
        assert forall|c: PlayerCard| hand.contains(c) && !cards.contains(c) implies after.contains(c) by {
            if before.contains(c) {
                let i = before.index_of(c);
                assert(cards[i] == c);
            }
            assert(c != cards.last());
        }
        if cards.no_duplicates() && all_in_hand(hand, cards) {
            assert(before.no_duplicates());
            assert forall|i: int| 0 <= i < before.len() implies hand.contains(#[trigger] before[i]) by {
                assert(before[i] == cards[i]);
            }
            assert(hand.contains(cards[cards.len() - 1]));
            if before.contains(cards.last()) {
                let i = before.index_of(cards.last());
                assert(cards[i] == cards[cards.len() - 1]);
            }
            assert(mid.contains(cards.last()));
        }
    }
}

/// Tells whether `card` occurs in `cards`.
pub fn contains_card(cards: &Vec<PlayerCard>, card: PlayerCard) -> (found: bool)
    ensures
        found == cards@.contains(card),
{
    let mut k: usize = 0;
    while k < cards.len()
        invariant
            k <= cards.len(),
            forall|j: int| 0 <= j < k ==> cards@[j] != card,
        decreases cards.len() - k,
    {
        if cards[k] == card {
            return true;
        }
        k += 1;
    }
    false
}

/// Adds a card to a hand, unless the hand holds it already.
pub fn add_to_hand(hand: &mut Vec<PlayerCard>, card: PlayerCard)
    ensures
        final(hand)@ == hand_with(old(hand)@, card),
{
    if !contains_card(hand, card) {
        hand.push(card);
    }
}

/// Takes a card out of a hand and tells whether it was there.
pub fn remove_from_hand(hand: &mut Vec<PlayerCard>, card: PlayerCard) -> (found: bool)
    requires
        old(hand)@.no_duplicates(),
    ensures
        found == old(hand)@.contains(card),
        final(hand)@ == hand_without(old(hand)@, card),
{
    let mut k: usize = 0;
    while k < hand.len()
        invariant
            k <= hand.len(),
            hand@ == old(hand)@,
            hand@.no_duplicates(),
            forall|j: int| 0 <= j < k ==> hand@[j] != card,
        decreases hand.len() - k,
    {
        if hand[k] == card {
            proof {
                lemma_position_in_hand(hand@, card, k as int);
            }
            hand.remove(k);
            return true;
        }
        k += 1;
    }
    false
}

/// Tells whether no card occurs twice in `cards`.
pub fn all_distinct(cards: &Vec<PlayerCard>) -> (distinct: bool)
    ensures
        distinct == cards@.no_duplicates(),
{
    let mut i: usize = 0;
    while i < cards.len()
        invariant
            i <= cards.len(),
            forall|a: int, b: int| 0 <= a < i && 0 <= b < cards.len() && a != b ==> cards@[a] != cards@[b],
        decreases cards.len() - i,
    {
        let mut j: usize = 0;
        while j < cards.len()
            invariant
                i < cards.len(),
                j <= cards.len(),
                forall|b: int| 0 <= b < j && b != i ==> cards@[i as int] != cards@[b],
            decreases cards.len() - j,
        {
            if j != i && cards[i] == cards[j] {
                return false;
            }
            j += 1;
        }
        i += 1;
    }
    true
}

} // verus!
