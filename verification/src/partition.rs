//! Where the cards of a game are: in the hands, among the cards won, in the
//! pool, or up for sale.

use vstd::prelude::*;
use vstd::multiset::Multiset;
use vstd::seq_lib::lemma_multiset_commutative;
use crate::card::Card;
use crate::deck::lemma_empty_to_multiset;
use crate::game_state::{AuctionTarget, SpecAuction, SpecGame, SpecStage, Timestamp};
use crate::input::{ActionInput, PlayCardOptionalInner};
use crate::player::PlayerID;
use crate::purse::Money;
use crate::rules::{first_with_id, is_first_with_id, lemma_winning_bid_exists};

verus! {

/// The cards of all the hands together.
pub open spec fn all_cards(hands: Seq<Seq<Card>>) -> Multiset<Card>
    decreases hands.len(),
{
    if hands.len() == 0 {
        Multiset::empty()
    } else {
        all_cards(hands.drop_last()).add(hands.last().to_multiset())
    }
}

/// The cards that the stage holds: those that are up for sale, and a card
/// that waits for a second one.
pub open spec fn stage_cards(stage: SpecStage) -> Seq<Card> {
    match stage {
        SpecStage::WaitingForNextCard(_) => Seq::empty(),
        SpecStage::WaitingForDoubleTarget { double_card, .. } => seq![double_card.1],
        SpecStage::WaitingForMarkedPrice { target, .. } => target.cards(),
        SpecStage::AuctionInAction { target, .. } => target.cards(),
    }
}

impl SpecGame {
    /// All the cards of the game, wherever they are.
    pub open spec fn universe(self) -> Multiset<Card> {
        all_cards(self.deck).add(all_cards(self.owned_cards)).add(self.pool.to_multiset()).add(
            stage_cards(self.stage).to_multiset(),
        )
    }

    /// No card is in two places at once.
    pub open spec fn is_partition(self) -> bool {
        forall|card: Card| self.universe().count(card) <= 1
    }
}

/// When one hand is exchanged for another, the hands together change by the
/// difference of the two.
pub proof fn lemma_all_cards_update(hands: Seq<Seq<Card>>, at: int, hand: Seq<Card>)
    requires
        0 <= at < hands.len(),
    ensures
        all_cards(hands.update(at, hand)).add(hands[at].to_multiset()) == all_cards(hands).add(
            hand.to_multiset(),
        ),
    decreases hands.len(),
{
    let changed = hands.update(at, hand);
    assert(all_cards(changed) == all_cards(changed.drop_last()).add(changed.last().to_multiset()));
    assert(all_cards(hands) == all_cards(hands.drop_last()).add(hands.last().to_multiset()));
    if at == hands.len() - 1 {
        assert(changed.drop_last() =~= hands.drop_last());
        assert(changed.last() == hand);
        assert(all_cards(changed).add(hands[at].to_multiset()) =~= all_cards(hands).add(
            hand.to_multiset(),
        ));
    } else {
        let fewer = hands.drop_last();
        lemma_all_cards_update(fewer, at, hand);
        assert(changed.drop_last() =~= fewer.update(at, hand));
        assert(changed.last() == hands.last());
        assert(fewer[at] == hands[at]);
        assert forall|card: Card|
            all_cards(changed).add(hands[at].to_multiset()).count(card) == all_cards(hands).add(
                hand.to_multiset(),
            ).count(card) by {
            assert(all_cards(fewer.update(at, hand)).add(fewer[at].to_multiset()).count(card)
                == all_cards(fewer).add(hand.to_multiset()).count(card));
        }
        assert(all_cards(changed).add(hands[at].to_multiset()) =~= all_cards(hands).add(
            hand.to_multiset(),
        ));
    }
}

/// One more hand adds its cards to the hands together.
pub proof fn lemma_all_cards_push(hands: Seq<Seq<Card>>, hand: Seq<Card>)
    ensures
        all_cards(hands.push(hand)) == all_cards(hands).add(hand.to_multiset()),
{
    assert(hands.push(hand).drop_last() =~= hands);
}

/// Hands that are all empty hold no card.
pub proof fn lemma_all_cards_empty(hands: Seq<Seq<Card>>)
    requires
        forall|i: int| 0 <= i < hands.len() ==> (#[trigger] hands[i]).len() == 0,
    ensures
        all_cards(hands) == Multiset::<Card>::empty(),
    decreases hands.len(),
{
    if hands.len() > 0 {
        lemma_all_cards_empty(hands.drop_last());
        assert(hands.last() =~= Seq::<Card>::empty());
        lemma_empty_to_multiset();
        assert(all_cards(hands) =~= Multiset::<Card>::empty());
    }
}

/// Every card of a hand is among the cards of the hands together.
pub proof fn lemma_all_cards_has(hands: Seq<Seq<Card>>, at: int, card: Card)
    requires
        0 <= at < hands.len(),
    ensures
        hands[at].to_multiset().count(card) <= all_cards(hands).count(card),
    decreases hands.len(),
{
    if at < hands.len() - 1 {
        lemma_all_cards_has(hands.drop_last(), at, card);
    }
}

/// What two of the hands hold of a card is among the cards of the hands
/// together.
pub proof fn lemma_all_cards_has_both(hands: Seq<Seq<Card>>, one: int, other: int, card: Card)
    requires
        0 <= one < other < hands.len(),
    ensures
        hands[one].to_multiset().count(card) + hands[other].to_multiset().count(card) <= all_cards(
            hands,
        ).count(card),
    decreases hands.len(),
{
    if other < hands.len() - 1 {
        lemma_all_cards_has_both(hands.drop_last(), one, other, card);
    } else {
        lemma_all_cards_has(hands.drop_last(), one, card);
    }
}

/// Taking a card out of a hand takes it out of the hands together, once.
pub proof fn lemma_all_cards_without(hands: Seq<Seq<Card>>, player: int, at: int)
    requires
        0 <= player < hands.len(),
        0 <= at < hands[player].len(),
    ensures
        all_cards(hands.update(player, hands[player].remove(at))).insert(hands[player][at])
            == all_cards(hands),
{
    let hand = hands[player];
    let card = hand[at];
    lemma_all_cards_update(hands, player, hand.remove(at));
    hand.to_multiset_ensures();
    assert(hand.remove(at).to_multiset() == hand.to_multiset().remove(card));
    assert(hand.to_multiset().count(card) > 0) by {
        assert(hand.contains(card));
    }
    let fewer = all_cards(hands.update(player, hand.remove(at)));
    assert forall|c: Card| fewer.insert(card).count(c) == all_cards(hands).count(c) by {
        assert(fewer.add(hand.to_multiset()).count(c) == all_cards(hands).add(
            hand.remove(at).to_multiset(),
        ).count(c));
    }
    assert(fewer.insert(card) =~= all_cards(hands));
}

/// Cards put with those that a player has won are added to the cards won
/// together.
pub proof fn lemma_all_cards_with(piles: Seq<Seq<Card>>, player: int, cards: Seq<Card>)
    requires
        0 <= player < piles.len(),
    ensures
        all_cards(piles.update(player, piles[player] + cards)) == all_cards(piles).add(
            cards.to_multiset(),
        ),
{
    let pile = piles[player];
    lemma_all_cards_update(piles, player, pile + cards);
    lemma_multiset_commutative(pile, cards);
    let more = all_cards(piles.update(player, pile + cards));
    assert forall|c: Card| more.count(c) == all_cards(piles).add(cards.to_multiset()).count(c) by {
        assert(more.add(pile.to_multiset()).count(c) == all_cards(piles).add(
            (pile + cards).to_multiset(),
        ).count(c));
    }
    assert(more =~= all_cards(piles).add(cards.to_multiset()));
}

/// A completed sale moves the cards sold from the stage to the buyer and no
/// other card.
pub proof fn lemma_settled_cards(g: SpecGame, target: AuctionTarget, amount: Money, buyer: PlayerID)
    requires
        g.table_wf(),
        buyer < g.seats(),
        stage_cards(g.stage) == target.cards(),
    ensures
        g.settled(target, amount, buyer).universe() == g.universe(),
        g.settled(target, amount, buyer).deck == g.deck,
        g.settled(target, amount, buyer).owned_cards == g.owned_cards.update(
            buyer as int,
            g.owned_cards[buyer as int] + target.cards(),
        ),
{
    lemma_all_cards_with(g.owned_cards, buyer as int, target.cards());
    lemma_empty_to_multiset();
    assert(g.settled(target, amount, buyer).universe() =~= g.universe());
}

/// Playing a card moves it from the hand to the stage and moves no other
/// card; if the round is over, the card leaves the game.
pub proof fn lemma_card_played_cards(
    g: SpecGame,
    from: PlayerID,
    at: int,
    pending: Option<(PlayerID, Card)>,
    now: Timestamp,
)
    requires
        g.table_wf(),
        from < g.seats(),
        0 <= at < g.deck[from as int].len(),
        match pending {
            Some(first) => g.stage matches SpecStage::WaitingForDoubleTarget { double_card, .. }
                && double_card == first,
            None => g.stage is WaitingForNextCard,
        },
    ensures
        g.with_card_played(from, at, pending, now).universe().subset_of(g.universe()),
        g.with_card_played(from, at, pending, now).universe().insert(g.deck[from as int][at])
            == g.universe() || g.with_card_played(from, at, pending, now).universe()
            == g.universe(),
        g.with_card_played(from, at, pending, now).owned_cards == g.owned_cards,
        g.with_card_played(from, at, pending, now).deck == g.deck.update(
            from as int,
            g.deck[from as int].remove(at),
        ),
{
    let card = g.deck[from as int][at];
    let next = g.with_card_played(from, at, pending, now);
    lemma_all_cards_without(g.deck, from as int, at);
    lemma_empty_to_multiset();
    let before = stage_cards(g.stage);
    let after = stage_cards(next.stage);
    before.to_multiset_ensures();
    if after != before {
        assert(after =~= before.push(card));
        assert(after.to_multiset() =~= before.to_multiset().insert(card));
        assert(next.universe() =~= g.universe());
    } else {
        assert(next.universe().insert(card) =~= g.universe());
    }
}

/// An accepted action neither makes a card nor puts one in two places: the
/// cards of the game are those that were there, but for a card that was
/// played when the round was over. The hands only lose cards, and what the
/// players have won only grows.
pub proof fn lemma_step_keeps_cards(g: SpecGame, from: PlayerID, input: ActionInput, now: Timestamp)
    requires
        g.wf(),
        g.step(from, input, now) is Ok,
    ensures
        g.step(from, input, now)->Ok_0.universe().subset_of(g.universe()),
        g.is_partition() ==> g.step(from, input, now)->Ok_0.is_partition(),
        forall|p: int|
            0 <= p < g.seats() ==> {
                let hand = #[trigger] g.step(from, input, now)->Ok_0.deck[p];
                hand == g.deck[p] || exists|at: int|
                    0 <= at < g.deck[p].len() && hand == g.deck[p].remove(at)
            },
        forall|p: int|
            0 <= p < g.seats() ==> g.owned_cards[p].is_prefix_of(
                #[trigger] g.step(from, input, now)->Ok_0.owned_cards[p],
            ),
{
    let next = g.step(from, input, now)->Ok_0;
    match (g.stage, input) {
        (SpecStage::WaitingForNextCard(_), ActionInput::PlayCard(id)) => {
            let at = first_with_id(g.deck[from as int], id);
            assert(is_first_with_id(g.deck[from as int], id, at));
            lemma_card_played_cards(g, from, at, None, now);
        },
        (
            SpecStage::WaitingForDoubleTarget { double_card, .. },
            ActionInput::PlayCardOptional(inner),
        ) => {
            match inner {
                PlayCardOptionalInner::Pass => {
                    lemma_all_cards_with(g.owned_cards, double_card.0 as int, seq![double_card.1]);
                    lemma_empty_to_multiset();
                    assert(next.universe() =~= g.universe());
                },
                PlayCardOptionalInner::Play(id) => {
                    let at = first_with_id(g.deck[from as int], id);
                    assert(is_first_with_id(g.deck[from as int], id, at));
                    lemma_card_played_cards(g, from, at, Some(double_card), now);
                },
            }
        },
        (SpecStage::AuctionInAction { state, target }, ActionInput::BidOptional(_)) => {
            if next.stage is WaitingForNextCard {
                let highest = state->Circle_highest;
                lemma_settled_cards(g, target, highest.1, highest.0);
            }
        },
        (SpecStage::AuctionInAction { state, target }, ActionInput::MarkedReaction(_)) => {
            if next.stage is WaitingForNextCard {
                lemma_settled_cards(g, target, state->Marked_price.1, from);
            }
        },
        (SpecStage::AuctionInAction { state, target }, ActionInput::Call) => {
            match state {
                SpecAuction::Free { highest, .. } => {
                    if next.stage is WaitingForNextCard {
                        lemma_settled_cards(g, target, highest.1, highest.0);
                    }
                },
                SpecAuction::Fist { bids, .. } => {
                    let at = lemma_winning_bid_exists(bids);
                    lemma_settled_cards(g, target, bids[at], at as PlayerID);
                },
                _ => {},
            }
        },
        _ => {},
    }
    assert forall|p: int| 0 <= p < g.seats() implies {
        let hand = #[trigger] next.deck[p];
        hand == g.deck[p] || exists|at: int| 0 <= at < g.deck[p].len() && hand == g.deck[p].remove(at)
    } by {
        if next.deck[p] != g.deck[p] {
            assert(next.deck != g.deck);
        }
    }
    assert forall|p: int| 0 <= p < g.seats() implies g.owned_cards[p].is_prefix_of(
        #[trigger] next.owned_cards[p],
    ) by {
        if next.owned_cards[p] != g.owned_cards[p] {
            assert(next.owned_cards != g.owned_cards);
        }
    }
}

/// Where no card is in two places, no hand holds a card that a player has
/// won.
pub proof fn lemma_won_card_in_no_hand(g: SpecGame, owner: int, holder: int, card: Card)
    requires
        g.is_partition(),
        0 <= owner < g.owned_cards.len(),
        0 <= holder < g.deck.len(),
        g.owned_cards[owner].contains(card),
    ensures
        !g.deck[holder].contains(card),
{
    lemma_all_cards_has(g.owned_cards, owner, card);
    lemma_all_cards_has(g.deck, holder, card);
    g.owned_cards[owner].to_multiset_ensures();
    g.deck[holder].to_multiset_ensures();
    assert(g.universe().count(card) <= 1);
}

/// Where no card is in two places, no card is in two hands, nor twice in
/// one.
pub proof fn lemma_card_in_one_hand(g: SpecGame, one: int, other: int, card: Card)
    requires
        g.is_partition(),
        0 <= one < g.deck.len(),
        0 <= other < g.deck.len(),
        g.deck[one].contains(card),
    ensures
        one != other ==> !g.deck[other].contains(card),
        g.deck[one].to_multiset().count(card) == 1,
{
    g.deck[one].to_multiset_ensures();
    g.deck[other].to_multiset_ensures();
    lemma_all_cards_has(g.deck, one, card);
    assert(g.universe().count(card) <= 1);
    if one < other {
        lemma_all_cards_has_both(g.deck, one, other, card);
    } else if other < one {
        lemma_all_cards_has_both(g.deck, other, one, card);
    }
}

} // verus!
