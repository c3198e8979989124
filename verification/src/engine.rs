//! Applying a player's action to a game.

use vstd::prelude::*;
use crate::card::{AuctionType, Card};
use crate::clock::Clock;
use crate::game_state::{
    hands_view, AuctionState, AuctionTarget, CardPair, GameStage, GameState, ShouldEnd,
    SpecAuction, SpecGame, SpecStage, Timestamp, CALLS_TO_CLOSE, CALL_DELAY,
};
use crate::input::{
    ActionInput, BidOptionalInner, CardID, MarkedReactionInner, PlayCardOptionalInner,
};
use crate::player::{Player, PlayerID};
use crate::purse::{lemma_total_transfer, total, Money};
use crate::rejection::Rejection;
use crate::laws::lemma_card_played;
use crate::rules::{
    all_taken, first_with_id, fresh_auction, holds_id, is_first_with_id, is_winning_bid,
    lemma_first_with_id, lemma_winning_seat, sale_stage, winning_seat, Verdict,
};
use crate::server_message::GameEvent;

verus! {

/// The place in the hand of the first card that bears the number.
pub fn position_of(hand: &Vec<Card>, card_id: CardID) -> (at: Option<usize>)
    ensures
        match at {
            Some(i) => is_first_with_id(hand@, card_id, i as int) && first_with_id(hand@, card_id) == i,
            None => !holds_id(hand@, card_id),
        },
        at is Some <==> holds_id(hand@, card_id),
{
    let mut i: usize = 0;
    while i < hand.len()
        invariant
            i <= hand.len(),
            forall|j: int| 0 <= j < i ==> (#[trigger] hand@[j]).id != card_id,
        decreases hand.len() - i,
    {
        if hand[i].id == card_id {
            proof {
                lemma_first_with_id(hand@, card_id, i as int);
            }
            return Some(i);
        }
        i = i + 1;
    }
    None
}

/// Takes the first card that bears the number out of the player's hand.
pub fn play_card(deck: &mut Vec<Vec<Card>>, from: &mut Player, card_id: CardID) -> (played: Result<
    Card,
    Rejection,
>)
    requires
        old(from).id < old(deck).len(),
    ensures
        *final(from) == *old(from),
        final(deck).len() == old(deck).len(),
        match played {
            Ok(card) => {
                let hand = old(deck)@[old(from).id as int]@;
                &&& holds_id(hand, card_id)
                &&& card == hand[first_with_id(hand, card_id)]
                &&& hands_view(final(deck)@) == hands_view(old(deck)@).update(
                    old(from).id as int,
                    hand.remove(first_with_id(hand, card_id)),
                )
            },
            Err(why) => {
                &&& !holds_id(old(deck)@[old(from).id as int]@, card_id)
                &&& why == Rejection::NoSuchCard
                &&& *final(deck) == *old(deck)
            },
        },
{
    let seat = from.id;
    match position_of(&deck[seat], card_id) {
        Some(index) => {
            let card = deck[seat].remove(index);
            assert(hands_view(deck@) =~= hands_view(old(deck)@).update(
                seat as int,
                old(deck)@[seat as int]@.remove(index as int),
            ));
            Ok(card)
        },
        None => Err(Rejection::NoSuchCard),
    }
}

/// The player who is paid for the target.
pub fn target_seller(target: &AuctionTarget) -> (seller: PlayerID)
    ensures
        seller == target.seller(),
{
    match target {
        AuctionTarget::Single(card) => card.0,
        AuctionTarget::Double { target_card, .. } => target_card.0,
    }
}

/// Whether every entry is true.
pub fn all_true(flags: &Vec<bool>) -> (all: bool)
    ensures
        all == all_taken(flags@),
{
    let mut i: usize = 0;
    while i < flags.len()
        invariant
            i <= flags.len(),
            forall|j: int| 0 <= j < i ==> #[trigger] flags@[j],
        decreases flags.len() - i,
    {
        if !flags[i] {
            return false;
        }
        i = i + 1;
    }
    true
}

/// The place of the first of the highest bids.
pub fn first_max(bids: &Vec<Money>) -> (at: usize)
    requires
        bids.len() > 0,
    ensures
        is_winning_bid(bids@, at as int),
        winning_seat(bids@) == at,
{
    let mut at: usize = 0;
    let mut i: usize = 1;
    while i < bids.len()
        invariant
            1 <= i <= bids.len(),
            at < i,
            forall|j: int| 0 <= j < i ==> (#[trigger] bids@[j]) <= bids@[at as int],
            forall|j: int| 0 <= j < at ==> (#[trigger] bids@[j]) < bids@[at as int],
        decreases bids.len() - i,
    {
        if bids[i] > bids[at] {
            at = i;
        }
        i = i + 1;
    }
    proof {
        lemma_winning_seat(bids@, at as int);
    }
    at
}

/// A vector of `count` entries that all hold `entry`.
pub fn filled<T: Copy>(entry: T, count: usize) -> (all: Vec<T>)
    ensures
        all@ == Seq::new(count as nat, |i: int| entry),
{
    let mut all: Vec<T> = Vec::new();
    let mut i: usize = 0;
    while i < count
        invariant
            i <= count,
            all@ == Seq::new(i as nat, |j: int| entry),
        decreases count - i,
    {
        all.push(entry);
        i = i + 1;
    }
    all
}

/// What an action has done to a game is what the rules say: the game is the
/// one that follows and nothing is reported, or the action is rejected for
/// the reason given and the game is as it was.
pub open spec fn follows(
    before: SpecGame,
    after: SpecGame,
    result: Result<Option<GameEvent>, Rejection>,
    verdict: Verdict,
) -> bool {
    match verdict {
        Ok(next) => result == Ok::<Option<GameEvent>, Rejection>(None) && after == next,
        Err(why) => result == Err::<Option<GameEvent>, Rejection>(why) && after == before,
    }
}

impl GameState {
    /// Whether the player holds more than the amount.
    pub fn test_enough_money(
        &self,
        player: PlayerID,
        money: Money,
    ) -> (enough: Result<(), Rejection>)
        requires
            player < self.money.len(),
        ensures
            enough == if self.money@[player as int] > money {
                Ok::<(), Rejection>(())
            } else {
                Err::<(), Rejection>(Rejection::InsufficientFunds)
            },
    {
        if self.money[player] > money {
            Ok(())
        } else {
            Err(Rejection::InsufficientFunds)
        }
    }

    /// The first card of the player's hand that bears the number.
    pub fn get_card(
        &self,
        player_id: PlayerID,
        card_id: CardID,
    ) -> (found: Result<&Card, Rejection>)
        requires
            player_id < self.deck.len(),
        ensures
            match found {
                Ok(card) => {
                    let hand = self.deck@[player_id as int]@;
                    holds_id(hand, card_id) && *card == hand[first_with_id(hand, card_id)]
                },
                Err(why) => why == Rejection::NoSuchCard && !holds_id(
                    self.deck@[player_id as int]@,
                    card_id,
                ),
            },
    {
        match position_of(&self.deck[player_id], card_id) {
            Some(index) => Ok(&self.deck[player_id][index]),
            None => Err(Rejection::NoSuchCard),
        }
    }

    /// Completes the sale of `target` to `current` for `money`, and gives the
    /// stage that follows. The stage itself is left for the caller to set.
    pub fn complete_transaction(
        &mut self,
        target: AuctionTarget,
        money: Money,
        current: PlayerID,
    ) -> (next: GameStage)
        requires
            old(self)@.table_wf(),
            target.seated(old(self)@.seats()),
            current < old(self)@.seats(),
            old(self)@.can_settle(target, money, current),
        ensures
            final(self)@ == old(self)@.with_payment(current, target.seller(), money).with_won(
                current,
                target.cards(),
            ),
            final(self)@.at_stage(next@) == old(self)@.settled(target, money, current),
            final(self)@.table_wf(),
            total(final(self)@.money) == total(old(self)@.money),
    {
        let owner;
        match target {
            AuctionTarget::Single((starter, card)) => {
                self.owned_cards[current].push(card);
                owner = starter;
            },
            AuctionTarget::Double { double_card: (_, double_card), target_card: (starter, target_card) } => {
                self.owned_cards[current].push(double_card);
                self.owned_cards[current].push(target_card);
                owner = starter;
            },
        }
        assert(self.owned_cards@[current as int]@ =~= old(self)@.owned_cards[current as int]
            + target.cards());
        assert(hands_view(self.owned_cards@) =~= old(self)@.owned_cards.update(
            current as int,
            old(self)@.owned_cards[current as int] + target.cards(),
        ));
        if owner != current {
            proof {
                lemma_total_transfer(self.money@, current as int, owner as int, money);
            }
            self.money[current] -= money;
            self.money[owner] += money;
        }
        let next = self.get_next_player_rounded(owner);
        GameStage::WaitingForNextCard(next)
    }

    /// The auction that the card opens when `from` plays it among
    /// `player_count` players.
    pub fn gen_auction_state(
        &self,
        card: &Card,
        from: PlayerID,
        player_count: usize,
        now: Timestamp,
    ) -> (state: AuctionState)
        requires
            card.ty is Free || card.ty is Circle || card.ty is Fist,
            from < self.players.len(),
            player_count == self.players.len(),
            now + CALL_DELAY <= Timestamp::MAX,
        ensures
            state@ == fresh_auction(card.ty, from, self@.seats(), now),
    {
        match card.ty {
            AuctionType::Free => AuctionState::Free {
                host: from,
                highest: (from, 0),
                time_end: now + CALL_DELAY,
                calls: 0,
            },
            AuctionType::Circle => AuctionState::Circle {
                starter: from,
                current_player: self.get_next_player_rounded(from),
                highest: (from, 0),
            },
            _ => {
                let bids = filled(0, player_count);
                let action_taken = filled(false, player_count);
                AuctionState::Fist { host: from, bids, action_taken }
            },
        }
    }

    /// The stage that follows when `from` has put `target` up for sale by
    /// playing `card` as its last card.
    fn open_sale(
        &self,
        card: Card,
        target: AuctionTarget,
        from: PlayerID,
        now: Timestamp,
    ) -> (stage: GameStage)
        requires
            from < self.players.len(),
            !(card.ty is Double),
            now + CALL_DELAY <= Timestamp::MAX,
        ensures
            stage@ == sale_stage(card, target, from, self@.seats(), now),
    {
        if let AuctionType::Marked = card.ty {
            GameStage::WaitingForMarkedPrice { starter: from, target }
        } else {
            let state = self.gen_auction_state(&card, from, self.players.len(), now);
            GameStage::AuctionInAction { state, target }
        }
    }

    /// Goes on after `from` has taken `card` out of the hand: unless the
    /// round is over, the stage becomes the one that the card asks for.
    fn after_card_played(
        &mut self,
        Ghost(before): Ghost<SpecGame>,
        Ghost(at): Ghost<int>,
        card: Card,
        from: PlayerID,
        pending: Option<CardPair>,
        now: Timestamp,
    )
        requires
            before.wf(),
            from < before.seats(),
            0 <= at < before.deck[from as int].len(),
            card == before.deck[from as int][at],
            old(self)@ == before.without_card(from, at),
            pending matches Some(first) ==> first.0 < before.seats() && !(card.ty is Double),
            now + CALL_DELAY <= Timestamp::MAX,
        ensures
            final(self)@ == before.with_card_played(from, at, pending, now),
            final(self).wf(),
    {
        proof {
            lemma_card_played(before, from, at, pending, now);
        }
        if let ShouldEnd::Yes(_) = self.round_should_end() {
            return ;
        }
        let stage = match pending {
            Some(double_card) => self.open_sale(
                card,
                AuctionTarget::Double { double_card, target_card: (from, card) },
                from,
                now,
            ),
            None => {
                if let AuctionType::Double = card.ty {
                    let next = self.get_next_player_rounded(from);
                    GameStage::WaitingForDoubleTarget { double_card: (from, card), current: next }
                } else {
                    self.open_sale(card, AuctionTarget::Single((from, card)), from, now)
                }
            },
        };
        self.stage = stage;
    }

    /// A card is played while the game waits for `expected` to play one.
    fn on_play_card(
        &mut self,
        expected: PlayerID,
        from: PlayerID,
        card_id: CardID,
        now: Timestamp,
    ) -> (result: Result<Option<GameEvent>, Rejection>)
        requires
            old(self).wf(),
            old(self)@.stage == SpecStage::WaitingForNextCard(expected),
            now + CALL_DELAY <= Timestamp::MAX,
        ensures
            follows(
                old(self)@,
                final(self)@,
                result,
                old(self)@.play_card(expected, from, card_id, now),
            ),
            final(self).wf(),
    {
        if expected != from {
            return Err(Rejection::TurnViolation);
        }
        let ghost before = self@;
        let ghost at = first_with_id(before.deck[from as int], card_id);
        assert(before.players[from as int].id == from);
        let card = match play_card(&mut self.deck, &mut self.players[from], card_id) {
            Ok(card) => card,
            Err(why) => {
                assert(self.players@ =~= old(self).players@);
                return Err(why);
            },
        };
        proof {
            assert(self.players@ =~= old(self).players@);
        }
        self.after_card_played(Ghost(before), Ghost(at), card, from, None, now);
        Ok(None)
    }

    /// An open bid is made during an auction.
    fn on_bid(
        &mut self,
        from: PlayerID,
        amount: Money,
        now: Timestamp,
    ) -> (result: Result<Option<GameEvent>, Rejection>)
        requires
            old(self).wf(),
            old(self)@.stage is AuctionInAction,
            now + CALL_DELAY <= Timestamp::MAX,
        ensures
            follows(
                old(self)@,
                final(self)@,
                result,
                old(self)@.bid(
                    old(self)@.stage->AuctionInAction_state,
                    old(self)@.stage->AuctionInAction_target,
                    from,
                    amount,
                    now,
                ),
            ),
            final(self).wf(),
    {
        if from >= self.players.len() {
            return Err(Rejection::UnknownPlayer);
        }
        if let Err(why) = self.test_enough_money(from, amount) {
            return Err(why);
        }
        match &mut self.stage {
            GameStage::AuctionInAction { state, .. } => match state {
                AuctionState::Free { highest, time_end, calls, .. } => {
                    if amount <= highest.1 {
                        return Err(Rejection::BidTooLow);
                    }
                    *highest = (from, amount);
                    *calls = 0;
                    *time_end = now + CALL_DELAY;
                    Ok(None)
                },
                AuctionState::Fist { bids, action_taken, .. } => {
                    bids[from] = amount;
                    action_taken[from] = true;
                    Ok(None)
                },
                _ => Err(Rejection::InvalidForStage),
            },
            _ => Err(Rejection::InvalidForStage),
        }
    }

    /// A second card is played or declined while the game waits for
    /// `current` to add one to `double_card`.
    fn on_double_target(
        &mut self,
        double_card: CardPair,
        current: PlayerID,
        from: PlayerID,
        inner: PlayCardOptionalInner,
        now: Timestamp,
    ) -> (result: Result<Option<GameEvent>, Rejection>)
        requires
            old(self).wf(),
            old(self)@.stage == (SpecStage::WaitingForDoubleTarget { double_card, current }),
            now + CALL_DELAY <= Timestamp::MAX,
        ensures
            follows(
                old(self)@,
                final(self)@,
                result,
                old(self)@.play_double_target(double_card, current, from, inner, now),
            ),
            final(self).wf(),
    {
        if current != from {
            return Err(Rejection::TurnViolation);
        }
        let ghost before = self@;
        match inner {
            PlayCardOptionalInner::Pass => {
                match self.get_next_player(double_card.0, current) {
                    Some(next) => {
                        self.stage = GameStage::WaitingForDoubleTarget { double_card, current: next };
                    },
                    None => {
                        self.owned_cards[double_card.0].push(double_card.1);
                        let next = self.get_next_player_rounded(double_card.0);
                        self.stage = GameStage::WaitingForNextCard(next);
                        proof {
                            assert(self.owned_cards@[double_card.0 as int]@
                                =~= before.owned_cards[double_card.0 as int] + seq![double_card.1]);
                            assert(self@.owned_cards =~= before.owned_cards.update(
                                double_card.0 as int,
                                before.owned_cards[double_card.0 as int] + seq![double_card.1],
                            ));
                        }
                    },
                }
                Ok(None)
            },
            PlayCardOptionalInner::Play(card_id) => {
                let card = match self.get_card(from, card_id) {
                    Ok(card) => *card,
                    Err(why) => {
                        return Err(why);
                    },
                };
                if card.color != double_card.1.color {
                    return Err(Rejection::ColorMismatch);
                }
                if let AuctionType::Double = card.ty {
                    return Err(Rejection::NestedDoubleForbidden);
                }
                let ghost at = first_with_id(before.deck[from as int], card_id);
                assert(before.players[from as int].id == from);
                let card = match play_card(&mut self.deck, &mut self.players[from], card_id) {
                    Ok(card) => card,
                    Err(why) => {
                        return Err(why);
                    },
                };
                proof {
                    assert(self.players@ =~= old(self).players@);
                }
                self.after_card_played(Ghost(before), Ghost(at), card, from, Some(double_card), now);
                Ok(None)
            },
        }
    }

    /// The price of a marked card is set while the game waits for `starter`
    /// to set it.
    fn on_marked_price(
        &mut self,
        starter: PlayerID,
        target: AuctionTarget,
        from: PlayerID,
        money: Money,
    ) -> (result: Result<Option<GameEvent>, Rejection>)
        requires
            old(self).wf(),
            old(self)@.stage == (SpecStage::WaitingForMarkedPrice { starter, target }),
        ensures
            follows(old(self)@, final(self)@, result, old(self)@.assign_price(starter, target, from, money)),
            final(self).wf(),
    {
        if starter != from {
            return Err(Rejection::TurnViolation);
        }
        if let Err(why) = self.test_enough_money(from, money) {
            return Err(why);
        }
        let next = self.get_next_player_rounded(from);
        self.stage = GameStage::AuctionInAction {
            state: AuctionState::Marked { current: next, price: (from, money) },
            target,
        };
        Ok(None)
    }

    /// A bid is made or declined in a circle auction.
    fn on_bid_optional(
        &mut self,
        from: PlayerID,
        inner: BidOptionalInner,
    ) -> (result: Result<Option<GameEvent>, Rejection>)
        requires
            old(self).wf(),
            old(self)@.stage is AuctionInAction,
        ensures
            follows(
                old(self)@,
                final(self)@,
                result,
                old(self)@.bid_optional(
                    old(self)@.stage->AuctionInAction_state,
                    old(self)@.stage->AuctionInAction_target,
                    from,
                    inner,
                ),
            ),
            final(self).wf(),
    {
        let (starter, current_player, highest, target) = match &self.stage {
            GameStage::AuctionInAction {
                state: AuctionState::Circle { starter, current_player, highest },
                target,
            } => (*starter, *current_player, *highest, *target),
            _ => {
                return Err(Rejection::InvalidForStage);
            },
        };
        if current_player != from {
            return Err(Rejection::TurnViolation);
        }
        match inner {
            BidOptionalInner::Pass => {
                if current_player == starter {
                    if highest.0 != target_seller(&target) && self.money[highest.0] < highest.1 {
                        return Err(Rejection::InsufficientFunds);
                    }
                    let next = self.complete_transaction(target, highest.1, highest.0);
                    self.stage = next;
                } else {
                    let next = self.get_next_player_rounded(current_player);
                    self.stage = GameStage::AuctionInAction {
                        state: AuctionState::Circle { starter, current_player: next, highest },
                        target,
                    };
                }
                Ok(None)
            },
            BidOptionalInner::Bid(money) => {
                if money < highest.1 {
                    return Err(Rejection::BidTooLow);
                }
                let next = self.get_next_player_rounded(current_player);
                self.stage = GameStage::AuctionInAction {
                    state: AuctionState::Circle {
                        starter,
                        current_player: next,
                        highest: (from, money),
                    },
                    target,
                };
                Ok(None)
            },
        }
    }

    /// The fixed price of a marked auction is accepted or declined.
    fn on_marked_reaction(
        &mut self,
        from: PlayerID,
        inner: MarkedReactionInner,
    ) -> (result: Result<Option<GameEvent>, Rejection>)
        requires
            old(self).wf(),
            old(self)@.stage is AuctionInAction,
        ensures
            follows(
                old(self)@,
                final(self)@,
                result,
                old(self)@.marked_reaction(
                    old(self)@.stage->AuctionInAction_state,
                    old(self)@.stage->AuctionInAction_target,
                    from,
                    inner,
                ),
            ),
            final(self).wf(),
    {
        let (price, current, target) = match &self.stage {
            GameStage::AuctionInAction { state: AuctionState::Marked { price, current }, target } => (
                *price,
                *current,
                *target,
            ),
            _ => {
                return Err(Rejection::InvalidForStage);
            },
        };
        if current != from {
            return Err(Rejection::TurnViolation);
        }
        if price.0 == current {
            let next = self.complete_transaction(target, price.1, from);
            self.stage = next;
            return Ok(None);
        }
        match inner {
            MarkedReactionInner::Accept => {
                if let Err(why) = self.test_enough_money(from, price.1) {
                    return Err(why);
                }
                let next = self.complete_transaction(target, price.1, from);
                self.stage = next;
            },
            MarkedReactionInner::Pass => {
                let next = self.get_next_player_rounded(current);
                self.stage = GameStage::AuctionInAction {
                    state: AuctionState::Marked { current: next, price },
                    target,
                };
            },
        }
        Ok(None)
    }

    /// The host of a free or a fist auction calls.
    fn on_call(
        &mut self,
        from: PlayerID,
        now: Timestamp,
    ) -> (result: Result<Option<GameEvent>, Rejection>)
        requires
            old(self).wf(),
            old(self)@.stage is AuctionInAction,
            now + CALL_DELAY <= Timestamp::MAX,
        ensures
            follows(
                old(self)@,
                final(self)@,
                result,
                old(self)@.call(
                    old(self)@.stage->AuctionInAction_state,
                    old(self)@.stage->AuctionInAction_target,
                    from,
                    now,
                ),
            ),
            final(self).wf(),
    {
        let (buyer, target) = match &mut self.stage {
            GameStage::AuctionInAction { state, target } => match state {
                AuctionState::Free { host, highest, time_end, calls } => {
                    if *host != from {
                        return Err(Rejection::TurnViolation);
                    }
                    if now < *time_end {
                        return Err(Rejection::CalledTooEarly);
                    }
                    if *calls != CALLS_TO_CLOSE {
                        *calls = *calls + 1;
                        *time_end = now + CALL_DELAY;
                        return Ok(None);
                    }
                    (*highest, *target)
                },
                AuctionState::Fist { host, bids, action_taken } => {
                    if from != *host {
                        return Err(Rejection::InvalidForStage);
                    }
                    if !all_true(action_taken) {
                        return Err(Rejection::IncompleteField);
                    }
                    let max_index = first_max(bids);
                    ((max_index, bids[max_index]), *target)
                },
                _ => {
                    return Err(Rejection::InvalidForStage);
                },
            },
            _ => {
                return Err(Rejection::InvalidForStage);
            },
        };
        let next = self.complete_transaction(target, buyer.1, buyer.0);
        self.stage = next;
        Ok(None)
    }

    /// Applies the action `input` of the player `from`, made at the time
    /// `now`, to the game. The game changes as the rules say, or the action
    /// is rejected and the game stays as it was.
    pub fn process_input_at(
        &mut self,
        from: PlayerID,
        input: ActionInput,
        now: Timestamp,
    ) -> (result: Result<Option<GameEvent>, Rejection>)
        requires
            old(self).wf(),
            now + CALL_DELAY <= Timestamp::MAX,
        ensures
            follows(old(self)@, final(self)@, result, old(self)@.step(from, input, now)),
            final(self).wf(),
    {
        match input {
            ActionInput::PlayCard(card_id) => match self.stage {
                GameStage::WaitingForNextCard(expected) => self.on_play_card(
                    expected,
                    from,
                    card_id,
                    now,
                ),
                _ => Err(Rejection::InvalidForStage),
            },
            ActionInput::PlayCardOptional(inner) => match self.stage {
                GameStage::WaitingForDoubleTarget { double_card, current } => self.on_double_target(
                    double_card,
                    current,
                    from,
                    inner,
                    now,
                ),
                _ => Err(Rejection::InvalidForStage),
            },
            ActionInput::AssignMarkedPrice(money) => match self.stage {
                GameStage::WaitingForMarkedPrice { starter, target } => self.on_marked_price(
                    starter,
                    target,
                    from,
                    money,
                ),
                _ => Err(Rejection::InvalidForStage),
            },
            ActionInput::Bid(money) => match self.stage {
                GameStage::AuctionInAction { .. } => self.on_bid(from, money, now),
                _ => Err(Rejection::InvalidForStage),
            },
            ActionInput::BidOptional(inner) => match self.stage {
                GameStage::AuctionInAction { .. } => self.on_bid_optional(from, inner),
                _ => Err(Rejection::InvalidForStage),
            },
            ActionInput::MarkedReaction(inner) => match self.stage {
                GameStage::AuctionInAction { .. } => self.on_marked_reaction(from, inner),
                _ => Err(Rejection::InvalidForStage),
            },
            ActionInput::Call => match self.stage {
                GameStage::AuctionInAction { .. } => self.on_call(from, now),
                _ => Err(Rejection::InvalidForStage),
            },
        }
    }
}

/// The rules may ask for the time when this kind of action meets this stage:
/// when a card is played, which may open a free auction, and when a player
/// bids or calls in a free auction.
pub open spec fn may_consult_clock(stage: SpecStage, input: ActionInput) -> bool {
    match (stage, input) {
        (SpecStage::WaitingForNextCard(_), ActionInput::PlayCard(_)) => true,
        (
            SpecStage::WaitingForDoubleTarget { .. },
            ActionInput::PlayCardOptional(PlayCardOptionalInner::Play(_)),
        ) => true,
        (
            SpecStage::AuctionInAction { state: SpecAuction::Free { .. }, .. },
            ActionInput::Bid(_),
        ) => true,
        (
            SpecStage::AuctionInAction { state: SpecAuction::Free { .. }, .. },
            ActionInput::Call,
        ) => true,
        _ => false,
    }
}

/// What an action has done to a game is what the rules say for the time
/// `now` that the clock of the room has shown. Where that time is so late
/// that no deadline can be counted from it, an action for which the rules
/// may ask for the time is rejected and the game is as it was, and any other
/// action does what the rules say for every time.
pub open spec fn follows_on_clock(
    before: SpecGame,
    after: SpecGame,
    result: Result<Option<GameEvent>, Rejection>,
    from: PlayerID,
    input: ActionInput,
    now: Timestamp,
) -> bool {
    if now + CALL_DELAY <= Timestamp::MAX {
        follows(before, after, result, before.step(from, input, now))
    } else if may_consult_clock(before.stage, input) {
        result == Err::<Option<GameEvent>, Rejection>(Rejection::ClockFailure) && after == before
    } else {
        follows(before, after, result, before.step(from, input, 0))
    }
}

/// Where the rules do not ask for the time, the time makes no difference.
pub proof fn lemma_clock_unused(
    g: SpecGame,
    from: PlayerID,
    input: ActionInput,
    now: Timestamp,
    other: Timestamp,
)
    requires
        !may_consult_clock(g.stage, input),
    ensures
        g.step(from, input, now) == g.step(from, input, other),
{
}

impl GameState {
    /// Whether the rules may ask for the time when `input` meets the stage
    /// of this game.
    pub fn consults_clock(&self, input: &ActionInput) -> (may: bool)
        ensures
            may == may_consult_clock(self@.stage, *input),
    {
        match (&self.stage, input) {
            (GameStage::WaitingForNextCard(_), ActionInput::PlayCard(_)) => true,
            (
                GameStage::WaitingForDoubleTarget { .. },
                ActionInput::PlayCardOptional(PlayCardOptionalInner::Play(_)),
            ) => true,
            (
                GameStage::AuctionInAction { state: AuctionState::Free { .. }, .. },
                ActionInput::Bid(_),
            ) => true,
            (
                GameStage::AuctionInAction { state: AuctionState::Free { .. }, .. },
                ActionInput::Call,
            ) => true,
            _ => false,
        }
    }

    /// Applies the action `input` of the player `from` to the game, at the
    /// time that the clock of the room shows, which is not before any time
    /// that it has shown. Where the rules may ask for the time and the clock
    /// shows one so late that no deadline can be counted from it, the action
    /// is rejected.
    pub fn process_input(
        &mut self,
        from: PlayerID,
        input: ActionInput,
        clock: &mut Clock,
    ) -> (result: Result<Option<GameEvent>, Rejection>)
        requires
            old(self).wf(),
        ensures
            final(self).wf(),
            final(clock).latest() >= old(clock).latest(),
            follows_on_clock(
                old(self)@,
                final(self)@,
                result,
                from,
                input,
                final(clock).latest(),
            ),
    {
        let now = clock.now();
        if now <= Timestamp::MAX - CALL_DELAY {
            self.process_input_at(from, input, now)
        } else if self.consults_clock(&input) {
            Err(Rejection::ClockFailure)
        } else {
            self.process_input_at(from, input, 0)
        }
    }
}

} // verus!
