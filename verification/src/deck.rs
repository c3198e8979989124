//! The cards of the game, and dealing them at random.

use vstd::prelude::*;
use vstd::multiset::Multiset;
use rand::{thread_rng, Rng};
use crate::card::{AuctionType, Card, CardColor, KINDS};

verus! {

/// The number of groups of like cards: one for each colour and kind.
pub const GROUPS: usize = 25;

/// The number of cards in the game.
pub const CATALOG_SIZE: usize = 70;

/// How many cards of a colour open an auction of a kind.
pub open spec fn copies(color: CardColor, ty: AuctionType) -> nat {
    match (color, ty) {
        (CardColor::Purple, AuctionType::Free) => 3,
        (CardColor::Purple, AuctionType::Fist) => 2,
        (CardColor::Purple, AuctionType::Marked) => 2,
        (CardColor::Purple, AuctionType::Circle) => 3,
        (CardColor::Purple, AuctionType::Double) => 2,
        (CardColor::Blue, AuctionType::Free) => 3,
        (CardColor::Blue, AuctionType::Fist) => 3,
        (CardColor::Blue, AuctionType::Marked) => 3,
        (CardColor::Blue, AuctionType::Circle) => 2,
        (CardColor::Blue, AuctionType::Double) => 2,
        (CardColor::Red, AuctionType::Free) => 3,
        (CardColor::Red, AuctionType::Fist) => 3,
        (CardColor::Red, AuctionType::Marked) => 3,
        (CardColor::Red, AuctionType::Circle) => 3,
        (CardColor::Red, AuctionType::Double) => 2,
        (CardColor::Green, _) => 3,
        (CardColor::Yellow, AuctionType::Free) => 4,
        (CardColor::Yellow, _) => 3,
    }
}

/// The kinds of auction in the order in which the catalogue lists them.
pub open spec fn kind_at(slot: int) -> AuctionType {
    if slot == 0 {
        AuctionType::Free
    } else if slot == 1 {
        AuctionType::Fist
    } else if slot == 2 {
        AuctionType::Marked
    } else if slot == 3 {
        AuctionType::Circle
    } else {
        AuctionType::Double
    }
}

/// The colour of the cards of a group: the groups go colour by colour.
pub open spec fn group_color(group: int) -> CardColor {
    CardColor::of_rank(group / 5)
}

/// The kind of the cards of a group: within a colour, kind by kind.
pub open spec fn group_kind(group: int) -> AuctionType {
    kind_at(group % 5)
}

/// The cards of a group, numbered on from `first_id`.
pub open spec fn group_cards(group: int, first_id: nat, count: nat) -> Seq<Card> {
    Seq::new(
        count,
        |k: int| Card { color: group_color(group), ty: group_kind(group), id: (first_id + k) as usize },
    )
}

/// The cards of the groups below `groups`, numbered from 1 in their order.
pub open spec fn catalog_upto(groups: nat) -> Seq<Card>
    decreases groups,
{
    if groups == 0 {
        Seq::empty()
    } else {
        let before = catalog_upto((groups - 1) as nat);
        before + group_cards(
            groups - 1,
            before.len() + 1,
            copies(group_color(groups - 1), group_kind(groups - 1)),
        )
    }
}

/// All the cards of the game: of each colour and kind as many as `copies`
/// says, numbered from 1.
pub open spec fn catalog() -> Seq<Card> {
    catalog_upto(GROUPS as nat)
}

/// The groups below `groups` hold at most four cards each, and the card at
/// each place bears the number of the place, counted from 1.
pub proof fn lemma_catalog_upto(groups: nat)
    requires
        groups <= GROUPS,
    ensures
        catalog_upto(groups).len() <= 4 * groups,
        forall|i: int|
            0 <= i < catalog_upto(groups).len() ==> (#[trigger] catalog_upto(groups)[i]).id == i + 1,
    decreases groups,
{
    if groups > 0 {
        lemma_catalog_upto((groups - 1) as nat);
        let before = catalog_upto((groups - 1) as nat);
        let added = group_cards(
            groups - 1,
            before.len() + 1,
            copies(group_color(groups - 1), group_kind(groups - 1)),
        );
        assert forall|i: int| 0 <= i < catalog_upto(groups).len() implies (#[trigger] catalog_upto(
            groups,
        )[i]).id == i + 1 by {
            if i >= before.len() {
                assert(catalog_upto(groups)[i] == added[i - before.len()]);
            } else {
                assert(catalog_upto(groups)[i] == before[i]);
            }
        }
    }
}

/// No card is in the catalogue twice.
pub proof fn lemma_catalog_distinct()
    ensures
        catalog().no_duplicates(),
        forall|card: Card| catalog().to_multiset().count(card) <= 1,
{
    lemma_catalog();
    assert forall|i: int, j: int|
        0 <= i < catalog().len() && 0 <= j < catalog().len() && i != j implies catalog()[i]
        != catalog()[j] by {
        assert(catalog()[i].id == i + 1);
        assert(catalog()[j].id == j + 1);
    }
    catalog().lemma_multiset_has_no_duplicates();
}

/// An empty sequence holds nothing.
pub proof fn lemma_empty_to_multiset()
    ensures
        Seq::<Card>::empty().to_multiset() == Multiset::<Card>::empty(),
{
    Seq::<Card>::empty().to_multiset_ensures();
    vstd::multiset::lemma_multiset_empty_len(Seq::<Card>::empty().to_multiset());
}

/// The catalogue has seventy cards, and the card at each place bears the
/// number of the place, counted from 1: no two cards bear the same number.
pub proof fn lemma_catalog()
    ensures
        catalog().len() == CATALOG_SIZE,
        forall|i: int| 0 <= i < CATALOG_SIZE ==> (#[trigger] catalog()[i]).id == i + 1,
{
    lemma_catalog_upto(GROUPS as nat);
    reveal_with_fuel(catalog_upto, 26);
}

/// The kind at a place of the catalogue's order.
fn kind_in_order(slot: usize) -> (ty: AuctionType)
    requires
        slot < KINDS,
    ensures
        ty == kind_at(slot as int),
{
    if slot == 0 {
        AuctionType::Free
    } else if slot == 1 {
        AuctionType::Fist
    } else if slot == 2 {
        AuctionType::Marked
    } else if slot == 3 {
        AuctionType::Circle
    } else {
        AuctionType::Double
    }
}

/// How many cards of a colour open an auction of a kind.
pub fn copies_of(color: CardColor, ty: AuctionType) -> (count: usize)
    ensures
        count == copies(color, ty),
        count <= 4,
{
    match (color, ty) {
        (CardColor::Purple, AuctionType::Free) => 3,
        (CardColor::Purple, AuctionType::Circle) => 3,
        (CardColor::Purple, _) => 2,
        (CardColor::Blue, AuctionType::Circle) => 2,
        (CardColor::Blue, AuctionType::Double) => 2,
        (CardColor::Blue, _) => 3,
        (CardColor::Red, AuctionType::Double) => 2,
        (CardColor::Red, _) => 3,
        (CardColor::Green, _) => 3,
        (CardColor::Yellow, AuctionType::Free) => 4,
        (CardColor::Yellow, _) => 3,
    }
}

/// All the cards of the game, in the order of the catalogue.
pub fn card_list() -> (cards: Vec<Card>)
    ensures
        cards@ == catalog(),
        cards.len() == CATALOG_SIZE,
{
    let mut cards: Vec<Card> = Vec::new();
    let mut group: usize = 0;
    while group < GROUPS
        invariant
            group <= GROUPS,
            cards@ == catalog_upto(group as nat),
        decreases GROUPS - group,
    {
        let color = CardColor::from_index(group / 5);
        let ty = kind_in_order(group % 5);
        let count = copies_of(color, ty);
        let ghost before = cards@;
        proof {
            lemma_catalog_upto(group as nat);
        }
        let mut k: usize = 0;
        while k < count
            invariant
                k <= count <= 4,
                group < GROUPS,
                before.len() <= 4 * group,
                color == group_color(group as int),
                ty == group_kind(group as int),
                cards@ == before + group_cards(group as int, before.len() + 1, k as nat),
            decreases count - k,
        {
            let id = cards.len() + 1;
            cards.push(Card { color, ty, id });
            k = k + 1;
        }
        group = group + 1;
    }
    proof {
        lemma_catalog();
    }
    cards
}

/// Which cards are drawn: at each draw, the place in what is left of the
/// pool. Each place must lie in the pool as it then is.
pub open spec fn valid_picks(pool_len: nat, picks: Seq<int>) -> bool {
    forall|k: int| 0 <= k < picks.len() ==> 0 <= #[trigger] picks[k] < pool_len - k
}

/// What is left of the pool, and what the target holds, once the cards at
/// `picks` have been drawn one after the other, each going to the end of the
/// target.
pub open spec fn deal_with(pool: Seq<Card>, target: Seq<Card>, picks: Seq<int>) -> (Seq<Card>, Seq<
    Card,
>)
    decreases picks.len(),
{
    if picks.len() == 0 {
        (pool, target)
    } else {
        let (left, taken) = deal_with(pool, target, picks.drop_last());
        (left.remove(picks.last()), taken.push(left[picks.last()]))
    }
}

/// Which cards are drawn for each hand in turn. Every hand has `hand_size`
/// cards, and the places of each lie in the pool as the hands before it have
/// left it.
pub open spec fn valid_draws(pool_len: nat, hand_size: nat, draws: Seq<Seq<int>>) -> bool {
    forall|i: int|
        0 <= i < draws.len() ==> (#[trigger] draws[i]).len() == hand_size && valid_picks(
            (pool_len - i * hand_size) as nat,
            draws[i],
        )
}

/// The hands, and what is left of the pool, once a hand has been drawn for
/// each entry of `draws`, one hand after the other, each from what the hands
/// before it have left.
pub open spec fn deal_hands(pool: Seq<Card>, draws: Seq<Seq<int>>) -> (Seq<Seq<Card>>, Seq<Card>)
    decreases draws.len(),
{
    if draws.len() == 0 {
        (Seq::empty(), pool)
    } else {
        let (hands, left) = deal_hands(pool, draws.drop_last());
        let (rest, hand) = deal_with(left, Seq::empty(), draws.last());
        (hands.push(hand), rest)
    }
}

/// Drawing moves cards and neither makes nor loses any: the pool shrinks and
/// the target grows by the number of draws, and the two together hold what
/// they held.
pub proof fn lemma_deal_with(pool: Seq<Card>, target: Seq<Card>, picks: Seq<int>)
    requires
        valid_picks(pool.len(), picks),
    ensures
        deal_with(pool, target, picks).0.len() == pool.len() - picks.len(),
        deal_with(pool, target, picks).1.len() == target.len() + picks.len(),
        deal_with(pool, target, picks).0.to_multiset().add(
            deal_with(pool, target, picks).1.to_multiset(),
        ) == pool.to_multiset().add(target.to_multiset()),
        deal_with(pool, target, picks).1.take(target.len() as int) == target,
    decreases picks.len(),
{
    if picks.len() > 0 {
        let earlier = picks.drop_last();
        assert forall|k: int| 0 <= k < earlier.len() implies 0 <= #[trigger] earlier[k] < pool.len()
            - k by {
            assert(earlier[k] == picks[k]);
        }
        lemma_deal_with(pool, target, earlier);
        let (left, taken) = deal_with(pool, target, earlier);
        let at = picks.last();
        lemma_take_one(left, taken, at);
        assert(taken.push(left[at]).take(target.len() as int) =~= taken.take(target.len() as int));
    } else {
        assert(target.take(target.len() as int) =~= target);
    }
}

/// Moving one card from a pool to the end of a target leaves the two
/// together holding what they held.
pub proof fn lemma_take_one(pool: Seq<Card>, target: Seq<Card>, at: int)
    requires
        0 <= at < pool.len(),
    ensures
        pool.remove(at).to_multiset().add(target.push(pool[at]).to_multiset())
            == pool.to_multiset().add(target.to_multiset()),
{
    pool.to_multiset_ensures();
    target.to_multiset_ensures();
    assert(pool.remove(at).to_multiset().add(target.push(pool[at]).to_multiset())
        =~= pool.to_multiset().add(target.to_multiset()));
}

/// A number below `bound`, drawn by `rand::thread_rng().gen_range(0..bound)`.
/// `gen_range` gives a value of the range that it is handed and panics on an
/// empty range, which `bound > 0` rules out. Which value it gives is left
/// open. The generator of the thread is seeded by the system when it is
/// first used, and panics if the system has no seed to give.
#[verifier::external_body]
fn draw_below(bound: usize) -> (drawn: usize)
    requires
        bound > 0,
    ensures
        drawn < bound,
{
    thread_rng().gen_range(0..bound)
}

/// Moves the card at `index` of the pool to the end of the target.
pub fn take_card(pool: &mut Vec<Card>, index: usize, target: &mut Vec<Card>)
    requires
        index < old(pool).len(),
    ensures
        final(pool)@ == old(pool)@.remove(index as int),
        final(target)@ == old(target)@.push(old(pool)@[index as int]),
{
    let card = pool.remove(index);
    target.push(card);
}

/// Draws `count` cards from the pool at random and puts them at the end of
/// the target, in the order in which they were drawn.
pub fn pick_into(pool: &mut Vec<Card>, count: usize, target: &mut Vec<Card>)
    requires
        count <= old(pool).len(),
    ensures
        exists|picks: Seq<int>|
            {
                &&& picks.len() == count
                &&& valid_picks(old(pool)@.len(), picks)
                &&& (final(pool)@, final(target)@) == #[trigger] deal_with(
                    old(pool)@,
                    old(target)@,
                    picks,
                )
            },
        final(pool).len() == old(pool).len() - count,
        final(target).len() == old(target).len() + count,
        final(target)@.take(old(target).len() as int) == old(target)@,
        final(pool)@.to_multiset().add(final(target)@.to_multiset()) == old(pool)@.to_multiset().add(
            old(target)@.to_multiset(),
        ),
{
    let ghost mut picks: Seq<int> = Seq::empty();
    let mut done: usize = 0;
    while done < count
        invariant
            done <= count <= old(pool).len(),
            picks.len() == done,
            valid_picks(old(pool)@.len(), picks),
            (pool@, target@) == deal_with(old(pool)@, old(target)@, picks),
            pool.len() == old(pool).len() - done,
        decreases count - done,
    {
        let i = draw_below(pool.len());
        proof {
            let longer = picks.push(i as int);
            assert(longer.drop_last() =~= picks);
            assert forall|k: int| 0 <= k < longer.len() implies 0 <= #[trigger] longer[k]
                < old(pool)@.len() - k by {
                if k < picks.len() {
                    assert(longer[k] == picks[k]);
                }
            }
            picks = longer;
        }
        take_card(pool, i, target);
        done = done + 1;
    }
    proof {
        lemma_deal_with(old(pool)@, old(target)@, picks);
    }
}

/// Draws `count` cards from the pool at random.
pub fn pick(pool: &mut Vec<Card>, count: usize) -> (result: Vec<Card>)
    requires
        count <= old(pool).len(),
    ensures
        exists|picks: Seq<int>|
            {
                &&& picks.len() == count
                &&& valid_picks(old(pool)@.len(), picks)
                &&& (final(pool)@, result@) == #[trigger] deal_with(
                    old(pool)@,
                    Seq::empty(),
                    picks,
                )
            },
        final(pool).len() == old(pool).len() - count,
        result.len() == count,
        final(pool)@.to_multiset().add(result@.to_multiset()) == old(pool)@.to_multiset(),
{
    let mut result = Vec::with_capacity(count);
    pick_into(pool, count, &mut result);
    proof {
        lemma_empty_to_multiset();
    }
    result
}

} // verus!
