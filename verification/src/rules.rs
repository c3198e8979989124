//! The rules of the game: what an action of a player does to a game.
//!
//! `step` gives, for a game, a player, an action and the time, either the
//! game that follows or the reason for which the action is rejected. It is
//! what the functions that change a `GameState` are held to.

use vstd::prelude::*;
use crate::card::{AuctionType, Card};
use crate::game_state::{
    ending_color, AuctionTarget, SpecAuction, SpecGame, SpecStage, Timestamp, CALLS_TO_CLOSE,
    CALL_DELAY,
};
use crate::input::{
    ActionInput, BidOptionalInner, CardID, MarkedReactionInner, PlayCardOptionalInner,
};
use crate::player::PlayerID;
use crate::purse::Money;
use crate::rejection::Rejection;
use crate::turn::{next_seat, next_seat_until};

verus! {

/// What an action leads to: the game that follows, or why there is none.
pub type Verdict = Result<SpecGame, Rejection>;

/// The card at `at` is the first of the hand that bears the number.
pub open spec fn is_first_with_id(hand: Seq<Card>, id: CardID, at: int) -> bool {
    &&& 0 <= at < hand.len()
    &&& hand[at].id == id
    &&& forall|j: int| 0 <= j < at ==> (#[trigger] hand[j]).id != id
}

/// The hand has a card that bears the number.
pub open spec fn holds_id(hand: Seq<Card>, id: CardID) -> bool {
    exists|at: int| is_first_with_id(hand, id, at)
}

/// The place in the hand of the first card that bears the number.
pub open spec fn first_with_id(hand: Seq<Card>, id: CardID) -> int {
    choose|at: int| is_first_with_id(hand, id, at)
}

/// A place that is the first of its number is the one that `first_with_id`
/// names.
pub proof fn lemma_first_with_id(hand: Seq<Card>, id: CardID, at: int)
    requires
        is_first_with_id(hand, id, at),
    ensures
        holds_id(hand, id),
        first_with_id(hand, id) == at,
{
}

/// Every player has bid.
pub open spec fn all_taken(action_taken: Seq<bool>) -> bool {
    forall|i: int| 0 <= i < action_taken.len() ==> #[trigger] action_taken[i]
}

/// The bid at `at` is the highest, and the first of those that are.
pub open spec fn is_winning_bid(bids: Seq<Money>, at: int) -> bool {
    &&& 0 <= at < bids.len()
    &&& forall|j: int| 0 <= j < bids.len() ==> (#[trigger] bids[j]) <= bids[at]
    &&& forall|j: int| 0 <= j < at ==> (#[trigger] bids[j]) < bids[at]
}

/// The seat of the player who wins a fist auction: the first of those who bid
/// the most.
pub open spec fn winning_seat(bids: Seq<Money>) -> int {
    choose|at: int| is_winning_bid(bids, at)
}

/// Some bid of a fist auction is the winning one, and only one.
pub proof fn lemma_winning_seat(bids: Seq<Money>, at: int)
    requires
        is_winning_bid(bids, at),
    ensures
        winning_seat(bids) == at,
{
    let chosen = winning_seat(bids);
    if chosen < at {
        assert(bids[chosen] < bids[at]);
    }
    if at < chosen {
        assert(bids[at] < bids[chosen]);
    }
}

/// Among any bids, at least one, there is a winning one.
pub proof fn lemma_winning_bid_exists(bids: Seq<Money>) -> (at: int)
    requires
        bids.len() > 0,
    ensures
        is_winning_bid(bids, at),
        winning_seat(bids) == at,
    decreases bids.len(),
{
    let at = if bids.len() == 1 {
        0
    } else {
        let before = lemma_winning_bid_exists(bids.drop_last());
        assert(forall|j: int| 0 <= j < bids.len() - 1 ==> bids.drop_last()[j] == bids[j]);
        if bids.last() > bids[before] {
            bids.len() - 1
        } else {
            before
        }
    };
    at
}

/// The time before which the host of a free auction must not call again.
pub open spec fn deadline_after(now: Timestamp) -> Timestamp {
    (now + CALL_DELAY) as Timestamp
}

/// The auction that a card of kind `ty` opens when `from` plays it among `n`
/// players. Only free, circle and fist cards open one at once.
pub open spec fn fresh_auction(
    ty: AuctionType,
    from: PlayerID,
    n: nat,
    now: Timestamp,
) -> SpecAuction
    recommends
        ty is Free || ty is Circle || ty is Fist,
{
    match ty {
        AuctionType::Free => SpecAuction::Free {
            host: from,
            highest: (from, 0),
            time_end: deadline_after(now),
            calls: 0,
        },
        AuctionType::Circle => SpecAuction::Circle {
            starter: from,
            current_player: next_seat(n, from),
            highest: (from, 0),
        },
        _ => SpecAuction::Fist {
            host: from,
            bids: Seq::new(n, |i: int| 0),
            action_taken: Seq::new(n, |i: int| false),
        },
    }
}

/// The stage that follows when `from` has put `target` up for sale by
/// playing `card` as its last card: a marked card waits for its price, any
/// other opens its auction.
pub open spec fn sale_stage(
    card: Card,
    target: AuctionTarget,
    from: PlayerID,
    n: nat,
    now: Timestamp,
) -> SpecStage {
    if card.ty is Marked {
        SpecStage::WaitingForMarkedPrice { starter: from, target }
    } else {
        SpecStage::AuctionInAction { state: fresh_auction(card.ty, from, n, now), target }
    }
}

impl SpecGame {
    /// The game at another stage.
    pub open spec fn at_stage(self, stage: SpecStage) -> SpecGame {
        SpecGame { stage, ..self }
    }

    /// The game once `player` has taken the card at `at` out of the hand.
    pub open spec fn without_card(self, player: PlayerID, at: int) -> SpecGame {
        SpecGame {
            deck: self.deck.update(player as int, self.deck[player as int].remove(at)),
            ..self
        }
    }

    /// The game once `player` has been given `cards`.
    pub open spec fn with_won(self, player: PlayerID, cards: Seq<Card>) -> SpecGame {
        SpecGame {
            owned_cards: self.owned_cards.update(
                player as int,
                self.owned_cards[player as int] + cards,
            ),
            ..self
        }
    }

    /// The game once `amount` has gone from `buyer` to `seller`. A player who
    /// buys from himself pays nothing.
    pub open spec fn with_payment(
        self,
        buyer: PlayerID,
        seller: PlayerID,
        amount: Money,
    ) -> SpecGame {
        if buyer == seller {
            self
        } else {
            SpecGame {
                money: self.money.update(
                    buyer as int,
                    (self.money[buyer as int] - amount) as Money,
                ).update(seller as int, (self.money[seller as int] + amount) as Money),
                ..self
            }
        }
    }

    /// `buyer` can pay `amount` for `target`.
    pub open spec fn can_settle(
        self,
        target: AuctionTarget,
        amount: Money,
        buyer: PlayerID,
    ) -> bool {
        buyer == target.seller() || amount <= self.money[buyer as int]
    }

    /// The game once the sale of `target` to `buyer` for `amount` is
    /// complete: the buyer has paid the seller and holds the cards, and the
    /// player after the seller plays the next card.
    pub open spec fn settled(
        self,
        target: AuctionTarget,
        amount: Money,
        buyer: PlayerID,
    ) -> SpecGame {
        self.with_payment(buyer, target.seller(), amount).with_won(buyer, target.cards()).at_stage(
            SpecStage::WaitingForNextCard(next_seat(self.seats(), target.seller())),
        )
    }

    /// The game once `from` has played the card at `at` of the hand, which
    /// with `pending` makes up what is for sale. If the cards won tell that
    /// the round is over, the card is gone and the stage stays.
    pub open spec fn with_card_played(
        self,
        from: PlayerID,
        at: int,
        pending: Option<(PlayerID, Card)>,
        now: Timestamp,
    ) -> SpecGame {
        let card = self.deck[from as int][at];
        let left = self.without_card(from, at);
        if ending_color(left.owned_cards) is Some {
            left
        } else {
            match pending {
                Some(double_card) => left.at_stage(
                    sale_stage(
                        card,
                        AuctionTarget::Double { double_card, target_card: (from, card) },
                        from,
                        self.seats(),
                        now,
                    ),
                ),
                None => if card.ty is Double {
                    left.at_stage(
                        SpecStage::WaitingForDoubleTarget {
                            double_card: (from, card),
                            current: next_seat(self.seats(), from),
                        },
                    )
                } else {
                    left.at_stage(
                        sale_stage(card, AuctionTarget::Single((from, card)), from, self.seats(), now),
                    )
                },
            }
        }
    }

    /// A card is played while the game waits for `expected` to play one.
    pub open spec fn play_card(
        self,
        expected: PlayerID,
        from: PlayerID,
        id: CardID,
        now: Timestamp,
    ) -> Verdict {
        if expected != from {
            Err(Rejection::TurnViolation)
        } else if !holds_id(self.deck[from as int], id) {
            Err(Rejection::NoSuchCard)
        } else {
            Ok(self.with_card_played(from, first_with_id(self.deck[from as int], id), None, now))
        }
    }

    /// A second card is played or declined while the game waits for
    /// `current` to add one to `double_card`. When every other player has
    /// declined, the player of the first card receives it for nothing.
    pub open spec fn play_double_target(
        self,
        double_card: (PlayerID, Card),
        current: PlayerID,
        from: PlayerID,
        inner: PlayCardOptionalInner,
        now: Timestamp,
    ) -> Verdict {
        if current != from {
            Err(Rejection::TurnViolation)
        } else {
            match inner {
                PlayCardOptionalInner::Pass => match next_seat_until(
                    self.seats(),
                    double_card.0,
                    current,
                ) {
                    Some(next) => Ok(
                        self.at_stage(
                            SpecStage::WaitingForDoubleTarget { double_card, current: next },
                        ),
                    ),
                    None => Ok(
                        self.with_won(double_card.0, seq![double_card.1]).at_stage(
                            SpecStage::WaitingForNextCard(next_seat(self.seats(), double_card.0)),
                        ),
                    ),
                },
                PlayCardOptionalInner::Play(id) => {
                    let hand = self.deck[from as int];
                    if !holds_id(hand, id) {
                        Err(Rejection::NoSuchCard)
                    } else if hand[first_with_id(hand, id)].color != double_card.1.color {
                        Err(Rejection::ColorMismatch)
                    } else if hand[first_with_id(hand, id)].ty is Double {
                        Err(Rejection::NestedDoubleForbidden)
                    } else {
                        Ok(self.with_card_played(from, first_with_id(hand, id), Some(double_card), now))
                    }
                },
            }
        }
    }

    /// The price of a marked card is set while the game waits for `starter`
    /// to set it.
    pub open spec fn assign_price(
        self,
        starter: PlayerID,
        target: AuctionTarget,
        from: PlayerID,
        amount: Money,
    ) -> Verdict {
        if starter != from {
            Err(Rejection::TurnViolation)
        } else if self.money[from as int] <= amount {
            Err(Rejection::InsufficientFunds)
        } else {
            Ok(
                self.at_stage(
                    SpecStage::AuctionInAction {
                        state: SpecAuction::Marked {
                            current: next_seat(self.seats(), from),
                            price: (from, amount),
                        },
                        target,
                    },
                ),
            )
        }
    }

    /// An open bid is made during an auction: in a free auction it must beat
    /// the highest, in a fist auction it replaces the player's earlier one.
    pub open spec fn bid(
        self,
        state: SpecAuction,
        target: AuctionTarget,
        from: PlayerID,
        amount: Money,
        now: Timestamp,
    ) -> Verdict {
        if from >= self.seats() {
            Err(Rejection::UnknownPlayer)
        } else if self.money[from as int] <= amount {
            Err(Rejection::InsufficientFunds)
        } else {
            match state {
                SpecAuction::Free { host, highest, time_end, calls } => if amount <= highest.1 {
                    Err(Rejection::BidTooLow)
                } else {
                    Ok(
                        self.at_stage(
                            SpecStage::AuctionInAction {
                                state: SpecAuction::Free {
                                    host,
                                    highest: (from, amount),
                                    time_end: deadline_after(now),
                                    calls: 0,
                                },
                                target,
                            },
                        ),
                    )
                },
                SpecAuction::Fist { host, bids, action_taken } => Ok(
                    self.at_stage(
                        SpecStage::AuctionInAction {
                            state: SpecAuction::Fist {
                                host,
                                bids: bids.update(from as int, amount),
                                action_taken: action_taken.update(from as int, true),
                            },
                            target,
                        },
                    ),
                ),
                _ => Err(Rejection::InvalidForStage),
            }
        }
    }

    /// A bid is made or declined in a circle auction. When the turn has come
    /// back to the starter and the starter declines, the highest bidder buys,
    /// if the bid can be paid.
    pub open spec fn bid_optional(
        self,
        state: SpecAuction,
        target: AuctionTarget,
        from: PlayerID,
        inner: BidOptionalInner,
    ) -> Verdict {
        match state {
            SpecAuction::Circle { starter, current_player, highest } => if current_player != from {
                Err(Rejection::TurnViolation)
            } else {
                match inner {
                    BidOptionalInner::Pass => if current_player == starter {
                        if self.can_settle(target, highest.1, highest.0) {
                            Ok(self.settled(target, highest.1, highest.0))
                        } else {
                            Err(Rejection::InsufficientFunds)
                        }
                    } else {
                        Ok(
                            self.at_stage(
                                SpecStage::AuctionInAction {
                                    state: SpecAuction::Circle {
                                        starter,
                                        current_player: next_seat(self.seats(), current_player),
                                        highest,
                                    },
                                    target,
                                },
                            ),
                        )
                    },
                    BidOptionalInner::Bid(amount) => if amount < highest.1 {
                        Err(Rejection::BidTooLow)
                    } else {
                        Ok(
                            self.at_stage(
                                SpecStage::AuctionInAction {
                                    state: SpecAuction::Circle {
                                        starter,
                                        current_player: next_seat(self.seats(), current_player),
                                        highest: (from, amount),
                                    },
                                    target,
                                },
                            ),
                        )
                    },
                }
            },
            _ => Err(Rejection::InvalidForStage),
        }
    }

    /// The fixed price of a marked auction is accepted or declined. When the
    /// turn has come back to the player who set the price, that player buys.
    pub open spec fn marked_reaction(
        self,
        state: SpecAuction,
        target: AuctionTarget,
        from: PlayerID,
        inner: MarkedReactionInner,
    ) -> Verdict {
        match state {
            SpecAuction::Marked { price, current } => if current != from {
                Err(Rejection::TurnViolation)
            } else if price.0 == current {
                Ok(self.settled(target, price.1, from))
            } else {
                match inner {
                    MarkedReactionInner::Accept => if self.money[from as int] <= price.1 {
                        Err(Rejection::InsufficientFunds)
                    } else {
                        Ok(self.settled(target, price.1, from))
                    },
                    MarkedReactionInner::Pass => Ok(
                        self.at_stage(
                            SpecStage::AuctionInAction {
                                state: SpecAuction::Marked {
                                    price,
                                    current: next_seat(self.seats(), current),
                                },
                                target,
                            },
                        ),
                    ),
                }
            },
            _ => Err(Rejection::InvalidForStage),
        }
    }

    /// The host calls. In a free auction the call counts once the waiting
    /// time is over, and the third one sells to the highest bidder. In a fist
    /// auction the call sells to the first of the highest bidders once every
    /// player has bid.
    pub open spec fn call(
        self,
        state: SpecAuction,
        target: AuctionTarget,
        from: PlayerID,
        now: Timestamp,
    ) -> Verdict {
        match state {
            SpecAuction::Free { host, highest, time_end, calls } => if host != from {
                Err(Rejection::TurnViolation)
            } else if now < time_end {
                Err(Rejection::CalledTooEarly)
            } else if calls == CALLS_TO_CLOSE {
                Ok(self.settled(target, highest.1, highest.0))
            } else {
                Ok(
                    self.at_stage(
                        SpecStage::AuctionInAction {
                            state: SpecAuction::Free {
                                host,
                                highest,
                                time_end: deadline_after(now),
                                calls: (calls + 1) as u8,
                            },
                            target,
                        },
                    ),
                )
            },
            SpecAuction::Fist { host, bids, action_taken } => if from != host {
                Err(Rejection::InvalidForStage)
            } else if !all_taken(action_taken) {
                Err(Rejection::IncompleteField)
            } else {
                Ok(
                    self.settled(
                        target,
                        bids[winning_seat(bids)],
                        winning_seat(bids) as PlayerID,
                    ),
                )
            },
            _ => Err(Rejection::InvalidForStage),
        }
    }

    /// What the action `input` of the player `from` at the time `now` leads
    /// to. An action that the stage has no use for is rejected.
    pub open spec fn step(self, from: PlayerID, input: ActionInput, now: Timestamp) -> Verdict {
        match (self.stage, input) {
            (SpecStage::WaitingForNextCard(expected), ActionInput::PlayCard(id)) => self.play_card(
                expected,
                from,
                id,
                now,
            ),
            (
                SpecStage::WaitingForDoubleTarget { double_card, current },
                ActionInput::PlayCardOptional(inner),
            ) => self.play_double_target(double_card, current, from, inner, now),
            (
                SpecStage::WaitingForMarkedPrice { starter, target },
                ActionInput::AssignMarkedPrice(amount),
            ) => self.assign_price(starter, target, from, amount),
            (SpecStage::AuctionInAction { state, target }, ActionInput::Bid(amount)) => self.bid(
                state,
                target,
                from,
                amount,
                now,
            ),
            (
                SpecStage::AuctionInAction { state, target },
                ActionInput::BidOptional(inner),
            ) => self.bid_optional(state, target, from, inner),
            (
                SpecStage::AuctionInAction { state, target },
                ActionInput::MarkedReaction(inner),
            ) => self.marked_reaction(state, target, from, inner),
            (SpecStage::AuctionInAction { state, target }, ActionInput::Call) => self.call(
                state,
                target,
                from,
                now,
            ),
            _ => Err(Rejection::InvalidForStage),
        }
    }
}

} // verus!
