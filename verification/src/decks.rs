//! What the decks hold: drawing from the top, counting epidemics, and seeding
//! epidemics into the player deck.
use vstd::prelude::*;
use vstd::seq_lib::*;

use crate::game_enums::PlayerCard;

verus! {

/// Number of epidemic cards among `cards`.
pub open spec fn epidemics_in(cards: Seq<PlayerCard>) -> nat {
    cards.to_multiset().count(PlayerCard::Epidemic)
}

/// The top `k` cards of a deck in the order in which they are drawn: the
/// last card of the deck first.
pub open spec fn top_cards<T>(deck: Seq<T>, k: int) -> Seq<T> {
    deck.subrange(deck.len() - k, deck.len() as int).reverse()
}

/// The deck without its top `k` cards.
pub open spec fn below_top<T>(deck: Seq<T>, k: int) -> Seq<T> {
    deck.subrange(0, deck.len() - k)
}

/// The smaller of two numbers.
pub open spec fn at_most(a: int, b: int) -> int {
    if a <= b {
        a
    } else {
        b
    }
}

/// The epidemics of a deck are those of its top cards and those below them.
pub proof fn lemma_epidemics_split(deck: Seq<PlayerCard>, k: int)
    requires
        0 <= k <= deck.len(),
    ensures
        epidemics_in(deck) == epidemics_in(below_top(deck, k)) + epidemics_in(top_cards(deck, k)),
{
    let low = below_top(deck, k);
    let high = deck.subrange(deck.len() - k, deck.len() as int);
    assert(deck =~= low + high);
    lemma_multiset_commutative(low, high);
    high.lemma_reverse_to_multiset();
}

/// A deck of city and event cards holds no epidemic.
pub proof fn lemma_no_epidemics(cards: Seq<PlayerCard>)
    requires
        forall|i: int| 0 <= i < cards.len() ==> cards[i] != PlayerCard::Epidemic,
    ensures
        epidemics_in(cards) == 0,
{
    to_multiset_contains(cards, PlayerCard::Epidemic);
    if cards.contains(PlayerCard::Epidemic) {
        let i = cards.index_of(PlayerCard::Epidemic);
        assert(cards[i] == PlayerCard::Epidemic);
    }
}

/// Draws up to `ncards` cards from the top of a deck. A deck that runs out
/// gives the cards it has.
pub fn draw_from_top<T: Copy>(deck: &mut Vec<T>, ncards: usize) -> (cards: Vec<T>)
    ensures
        cards@ == top_cards(old(deck)@, at_most(ncards as int, old(deck)@.len() as int)),
        final(deck)@ == below_top(old(deck)@, at_most(ncards as int, old(deck)@.len() as int)),
{
    let mut cards: Vec<T> = Vec::new();
    let ghost whole = deck@;
    let mut i: usize = 0;
    assert(cards@ =~= top_cards(whole, 0));
    assert(deck@ =~= below_top(whole, 0));
    while i < ncards && deck.len() > 0
        invariant
            i <= ncards,
            i <= whole.len(),
            deck@.len() == whole.len() - i,
            cards@ == top_cards(whole, i as int),
            deck@ == below_top(whole, i as int),
        decreases deck.len(),
    {
        let card = deck.pop().unwrap();
        cards.push(card);
        i += 1;
        assert(cards@ =~= top_cards(whole, i as int));
        assert(deck@ =~= below_top(whole, i as int));
    }
    cards
}

/// Length of each of the `nepidemics` segments into which a deck of `len`
/// cards is split; the last segment takes the remainder as well.
pub open spec fn segment_size(len: int, nepidemics: int) -> int {
    len / nepidemics
}

/// Position in the unseeded deck before which the `i`-th epidemic goes: the
/// offset chosen for the `i`-th segment, counted from the start of that segment.
pub open spec fn marker_slot(len: int, offsets: Seq<usize>, i: int) -> int {
    segment_size(len, offsets.len() as int) * i + offsets[i]
}

/// One offset per segment, each inside its segment.
pub open spec fn offsets_ok(len: int, offsets: Seq<usize>) -> bool {
    let e = offsets.len() as int;
    &&& e >= 1
    &&& forall|i: int| 0 <= i < e - 1 ==> (#[trigger] offsets[i]) < segment_size(len, e)
    &&& offsets[e - 1] < segment_size(len, e) + len % e
}

/// The deck with the first `k` epidemics put in, in ascending order, each one
/// moved up by the number of epidemics put in before it.
pub open spec fn seeded_upto(deck: Seq<PlayerCard>, offsets: Seq<usize>, k: int) -> Seq<PlayerCard>
    decreases k,
{
    if k <= 0 {
        deck
    } else {
        seeded_upto(deck, offsets, k - 1).insert(
            marker_slot(deck.len() as int, offsets, k - 1) + (k - 1),
            PlayerCard::Epidemic,
        )
    }
}

/// The deck seeded with one epidemic per offset.
pub open spec fn seeded(deck: Seq<PlayerCard>, offsets: Seq<usize>) -> Seq<PlayerCard> {
    seeded_upto(deck, offsets, offsets.len() as int)
}

/// The offsets of testing mode: the start of every segment.
pub open spec fn zero_offsets(nepidemics: int) -> Seq<usize> {
    Seq::new(nepidemics as nat, |i: int| 0usize)
}

/// The slots lie in the deck, one in each segment, in ascending order.
pub proof fn lemma_marker_slots(len: int, offsets: Seq<usize>, i: int)
    requires
        0 <= len,
        offsets_ok(len, offsets),
        0 <= i < offsets.len(),
    ensures
        0 <= marker_slot(len, offsets, i) < len,
        segment_size(len, offsets.len() as int) >= 1,
        i < offsets.len() - 1 ==> marker_slot(len, offsets, i) / segment_size(len, offsets.len() as int) == i,
        i == offsets.len() - 1 ==> marker_slot(len, offsets, i) / segment_size(len, offsets.len() as int) >= i,
        i < offsets.len() - 1 ==> marker_slot(len, offsets, i) < marker_slot(len, offsets, i + 1),
{
    let e = offsets.len() as int;
    let seg = segment_size(len, e);
    let off = offsets[i] as int;
    assert(len == seg * e + len % e && 0 <= len % e < e) by (nonlinear_arith)
        requires
            seg == len / e,
            e >= 1,
            0 <= len,
    ;
    assert(seg >= 0) by (nonlinear_arith)
        requires
            seg == len / e,
            e >= 1,
            0 <= len,
    ;
    if i < e - 1 {
        assert(off < seg);
    } else {
        assert(off < seg + len % e);
    }
    assert(seg >= 1) by {
        if seg == 0 {
            if i < e - 1 {
            } else if e > 1 {
                assert(offsets[0] < seg);
            } else {
                assert(len == seg * e + len % e);
                assert(seg * e == 0) by (nonlinear_arith)
                    requires
                        seg == 0,
                ;
            }
        }
    }
    assert(seg * i + seg <= seg * (e - 1) + 0 || i == e - 1) by (nonlinear_arith)
        requires
            0 <= i < e,
            seg >= 0,
    ;
    assert(seg * (e - 1) + seg == seg * e) by (nonlinear_arith);
    assert(0 <= seg * i) by (nonlinear_arith)
        requires
            0 <= i,
            seg >= 0,
    ;
    if i < e - 1 {
        assert((seg * i + off) / seg == i) by (nonlinear_arith)
            requires
                0 <= off < seg,
                0 <= i,
        ;
        assert(seg * (i + 1) == seg * i + seg) by (nonlinear_arith);
    } else {
        assert((seg * i + off) / seg >= i) by (nonlinear_arith)
            requires
                0 <= off,
                seg >= 1,
                0 <= i,
        ;
    }
}

/// What holds of a deck seeded with its first `k` epidemics: it has grown by
/// `k` cards, `k` of them new epidemics, each epidemic stands at its slot
/// moved up by the number of epidemics before it, and the cards of the deck
/// follow one another as they did.
pub proof fn lemma_seeded_upto(deck: Seq<PlayerCard>, offsets: Seq<usize>, k: int)
    requires
        offsets_ok(deck.len() as int, offsets),
        0 <= k <= offsets.len(),
    ensures
        seeded_upto(deck, offsets, k).len() == deck.len() + k,
        epidemics_in(seeded_upto(deck, offsets, k)) == epidemics_in(deck) + k,
        forall|i: int|
            0 <= i < k ==> seeded_upto(deck, offsets, k)[#[trigger] marker_slot(
                deck.len() as int,
                offsets,
                i,
            ) + i] == PlayerCard::Epidemic,
        seeded_upto(deck, offsets, k).filter(|c: PlayerCard| c != PlayerCard::Epidemic) == deck.filter(
            |c: PlayerCard| c != PlayerCard::Epidemic,
        ),
    decreases k,
{
    if k > 0 {
        let len = deck.len() as int;
        let before = seeded_upto(deck, offsets, k - 1);
        let at = marker_slot(len, offsets, k - 1) + (k - 1);
        let after = seeded_upto(deck, offsets, k);
        lemma_seeded_upto(deck, offsets, k - 1);
        lemma_marker_slots(len, offsets, k - 1);
        assert(0 <= at <= before.len());
        to_multiset_insert(before, at, PlayerCard::Epidemic);
        assert(after[at] == PlayerCard::Epidemic);
        assert forall|i: int| 0 <= i < k implies after[#[trigger] marker_slot(len, offsets, i) + i]
            == PlayerCard::Epidemic by {
            if i < k - 1 {
                lemma_slots_ascend(len, offsets, i, k - 1);
                assert(after[marker_slot(len, offsets, i) + i] == before[marker_slot(len, offsets, i)
                    + i]);
            }
        }
        let keep = |c: PlayerCard| c != PlayerCard::Epidemic;
        let low = before.subrange(0, at);
        let high = before.subrange(at, before.len() as int);
        assert(before =~= low + high);
        assert(after =~= low.push(PlayerCard::Epidemic) + high);
        Seq::filter_distributes_over_add(low, high, keep);
        Seq::filter_distributes_over_add(low.push(PlayerCard::Epidemic), high, keep);
        low.lemma_filter_push(PlayerCard::Epidemic, keep);
    }
}

/// A later slot lies above an earlier one.
pub proof fn lemma_slots_ascend(len: int, offsets: Seq<usize>, i: int, j: int)
    requires
        0 <= len,
        offsets_ok(len, offsets),
        0 <= i < j < offsets.len(),
    ensures
        marker_slot(len, offsets, i) < marker_slot(len, offsets, j),
    decreases j - i,
{
    lemma_marker_slots(len, offsets, i);
    if i + 1 < j {
        lemma_slots_ascend(len, offsets, i + 1, j);
    }
}

/// Seeding a deck of `L` cards with `E` epidemics gives a deck of `L + E`
/// cards with `E` more epidemics than before. The slot of each epidemic,
/// divided by the segment size `L / E`, gives a segment index that rises
/// strictly from one epidemic to the next; the epidemic stands at its slot
/// moved up by the number of epidemics before it; and the cards of the deck
/// keep their order.
pub proof fn lemma_seeded(deck: Seq<PlayerCard>, offsets: Seq<usize>)
    requires
        offsets_ok(deck.len() as int, offsets),
    ensures
        seeded(deck, offsets).len() == deck.len() + offsets.len(),
        epidemics_in(seeded(deck, offsets)) == epidemics_in(deck) + offsets.len(),
        forall|i: int|
            0 <= i < offsets.len() ==> seeded(deck, offsets)[#[trigger] marker_slot(
                deck.len() as int,
                offsets,
                i,
            ) + i] == PlayerCard::Epidemic,
        forall|i: int, j: int|
            0 <= i < j < offsets.len() ==> #[trigger] marker_slot(deck.len() as int, offsets, i)
                / segment_size(deck.len() as int, offsets.len() as int) < #[trigger] marker_slot(
                deck.len() as int,
                offsets,
                j,
            ) / segment_size(deck.len() as int, offsets.len() as int),
        seeded(deck, offsets).filter(|c: PlayerCard| c != PlayerCard::Epidemic) == deck.filter(
            |c: PlayerCard| c != PlayerCard::Epidemic,
        ),
{
    let len = deck.len() as int;
    lemma_seeded_upto(deck, offsets, offsets.len() as int);
    assert forall|i: int, j: int| 0 <= i < j < offsets.len() implies #[trigger] marker_slot(
        len,
        offsets,
        i,
    ) / segment_size(len, offsets.len() as int) < #[trigger] marker_slot(len, offsets, j)
        / segment_size(len, offsets.len() as int) by {
        lemma_marker_slots(len, offsets, i);
        lemma_marker_slots(len, offsets, j);
    }
}

/// With the offsets of testing mode, the `i`-th epidemic of the seeded deck
/// stands at `i` times the segment size, plus `i`.
pub proof fn lemma_seeded_for_testing(deck: Seq<PlayerCard>, nepidemics: int, i: int)
    requires
        1 <= nepidemics <= deck.len(),
        0 <= i < nepidemics,
    ensures
        offsets_ok(deck.len() as int, zero_offsets(nepidemics)),
        seeded(deck, zero_offsets(nepidemics))[segment_size(deck.len() as int, nepidemics) * i + i]
            == PlayerCard::Epidemic,
{
    let len = deck.len() as int;
    let offsets = zero_offsets(nepidemics);
    assert(len / nepidemics >= 1) by (nonlinear_arith)
        requires
            1 <= nepidemics <= len,
    ;
    assert(len % nepidemics >= 0) by (nonlinear_arith)
        requires
            1 <= nepidemics,
    ;
    assert(offsets_ok(len, offsets));
    lemma_seeded(deck, offsets);
    assert(marker_slot(len, offsets, i) == segment_size(len, nepidemics) * i);
}

/// Puts one epidemic per offset into the deck: the `i`-th goes to the start
/// of the `i`-th segment plus its offset, counted in the deck as it was, and
/// so stands `i` places further up once the epidemics before it are in.
pub fn seed_epidemics(deck: &mut Vec<PlayerCard>, offsets: &Vec<usize>)
    requires
        offsets_ok(old(deck)@.len() as int, offsets@),
    ensures
        final(deck)@ == seeded(old(deck)@, offsets@),
{
    let ghost start = deck@;
    let len = deck.len();
    let e = offsets.len();
    let seg = len / e;
    let mut base: usize = 0;
    let mut i: usize = 0;
    assert(seg * 0 == 0) by (nonlinear_arith);
    while i < e
        invariant
            i <= e,
            e == offsets@.len(),
            len == start.len(),
            seg == segment_size(len as int, e as int),
            offsets_ok(len as int, offsets@),
            base == seg * i,
            deck@ == seeded_upto(start, offsets@, i as int),
        decreases e - i,
    {
        proof {
            lemma_marker_slots(len as int, offsets@, i as int);
            lemma_seeded_upto(start, offsets@, i as int);
            assert(seg * (i + 1) == seg * i + seg) by (nonlinear_arith);
            assert(seg * (i + 1) <= seg * e) by (nonlinear_arith)
                requires
                    i + 1 <= e,
                    seg >= 0,
            ;
            assert(seg * e <= len) by (nonlinear_arith)
                requires
                    seg == (len as int) / (e as int),
                    e >= 1,
            ;
        }
        let slot: usize = base + offsets[i];
        // the deck holds `i` cards more than at the start, and the slot lies
        // in the deck as it was
        let now: usize = deck.len();
        assert(slot + i < now);
        deck.insert(slot + i, PlayerCard::Epidemic);
        base = base + seg;
        i += 1;
    }
}

} // verus!
