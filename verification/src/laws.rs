//! What holds of every game and every action, proved from the rules.

use vstd::prelude::*;
use crate::card::Card;
use crate::game_state::{
    AuctionTarget, SpecAuction, SpecGame, SpecStage, Timestamp, CALLS_TO_CLOSE, CALL_DELAY,
};
use crate::input::{ActionInput, BidOptionalInner, MarkedReactionInner, PlayCardOptionalInner};
use crate::partition::lemma_step_keeps_cards;
use crate::player::PlayerID;
use crate::purse::{lemma_total_transfer, total, Money};
use crate::rejection::Rejection;
use crate::rules::{all_taken, deadline_after, is_winning_bid, lemma_winning_bid_exists};
use crate::turn::{
    lemma_next_seat, lemma_rotation_visits_all_once, lemma_seat_after_step, next_seat, seat_after,
};

verus! {

/// A completed sale leaves the game well formed and moves money only from
/// the buyer to the seller: the balances together are what they were.
pub proof fn lemma_settled(g: SpecGame, target: AuctionTarget, amount: Money, buyer: PlayerID)
    requires
        g.table_wf(),
        target.seated(g.seats()),
        buyer < g.seats(),
        g.can_settle(target, amount, buyer),
    ensures
        g.settled(target, amount, buyer).wf(),
        total(g.settled(target, amount, buyer).money) == total(g.money),
        g.settled(target, amount, buyer).players == g.players,
{
    let seller = target.seller();
    lemma_next_seat(g.seats(), seller);
    if buyer != seller {
        lemma_total_transfer(g.money, buyer as int, seller as int, amount);
    }
}

/// Playing a card leaves the game well formed and the balances untouched.
pub proof fn lemma_card_played(
    g: SpecGame,
    from: PlayerID,
    at: int,
    pending: Option<(PlayerID, Card)>,
    now: Timestamp,
)
    requires
        g.wf(),
        from < g.seats(),
        0 <= at < g.deck[from as int].len(),
        now + CALL_DELAY <= Timestamp::MAX,
        pending matches Some(first) ==> first.0 < g.seats() && !(g.deck[from as int][at].ty is Double),
    ensures
        g.with_card_played(from, at, pending, now).wf(),
        g.with_card_played(from, at, pending, now).money == g.money,
        g.with_card_played(from, at, pending, now).players == g.players,
{
    lemma_next_seat(g.seats(), from);
}

/// An accepted action leaves a well-formed game well formed. It leaves the
/// roster as it was, and the balances together as they were: money only
/// passes from one player to another.
pub proof fn lemma_step_keeps_wf(g: SpecGame, from: PlayerID, input: ActionInput, now: Timestamp)
    requires
        g.wf(),
        now + CALL_DELAY <= Timestamp::MAX,
        g.step(from, input, now) is Ok,
    ensures
        g.step(from, input, now)->Ok_0.wf(),
        g.step(from, input, now)->Ok_0.players == g.players,
        total(g.step(from, input, now)->Ok_0.money) == total(g.money),
{
    if from < g.seats() {
        lemma_next_seat(g.seats(), from);
    }
    if let SpecStage::WaitingForDoubleTarget { double_card, .. } = g.stage {
        lemma_next_seat(g.seats(), double_card.0);
    }
    if let SpecStage::AuctionInAction { state, target } = g.stage {
        let (amount, buyer) = match state {
            SpecAuction::Free { highest, .. } => (highest.1, highest.0),
            SpecAuction::Circle { highest, .. } => (highest.1, highest.0),
            SpecAuction::Fist { bids, .. } => {
                let winner = lemma_winning_bid_exists(bids);
                (bids[winner], winner as PlayerID)
            },
            SpecAuction::Marked { price, .. } => (price.1, from),
        };
        if buyer < g.seats() && g.can_settle(target, amount, buyer) {
            lemma_settled(g, target, amount, buyer);
        }
    }
}

/// An action: who acts, what the action is, and when.
pub type Move = (PlayerID, ActionInput, Timestamp);

/// A deadline can be counted from the time of every move.
pub open spec fn timely(moves: Seq<Move>) -> bool {
    forall|i: int| 0 <= i < moves.len() ==> (#[trigger] moves[i]).2 + CALL_DELAY <= Timestamp::MAX
}

/// The game after the moves, made one after the other. A move that is
/// rejected changes nothing.
pub open spec fn play(g: SpecGame, moves: Seq<Move>) -> SpecGame
    decreases moves.len(),
{
    if moves.len() == 0 {
        g
    } else {
        let prior = play(g, moves.drop_last());
        match prior.step(moves.last().0, moves.last().1, moves.last().2) {
            Ok(next) => next,
            Err(_) => prior,
        }
    }
}

/// Whatever the players do, the game stays well formed, the roster stays as
/// it is, the balances together stay what they were, and no card is made or
/// doubled: no action makes or destroys money, and what was dealt is all
/// there ever is.
pub proof fn lemma_play_keeps_game(g: SpecGame, moves: Seq<Move>)
    requires
        g.wf(),
        timely(moves),
    ensures
        play(g, moves).wf(),
        play(g, moves).players == g.players,
        total(play(g, moves).money) == total(g.money),
        play(g, moves).universe().subset_of(g.universe()),
        g.is_partition() ==> play(g, moves).is_partition(),
    decreases moves.len(),
{
    if moves.len() > 0 {
        let earlier = moves.drop_last();
        assert(timely(earlier)) by {
            assert(forall|i: int| 0 <= i < earlier.len() ==> earlier[i] == moves[i]);
        }
        lemma_play_keeps_game(g, earlier);
        let prior = play(g, earlier);
        let last = moves.last();
        if prior.step(last.0, last.1, last.2) is Ok {
            lemma_step_keeps_wf(prior, last.0, last.1, last.2);
            lemma_step_keeps_cards(prior, last.0, last.1, last.2);
        }
    }
}

/// A completed sale gives the buyer exactly the cards that were for sale, at
/// the end of what the buyer had won, and changes no hand and no other
/// player's cards.
pub proof fn lemma_settled_gives_cards(
    g: SpecGame,
    target: AuctionTarget,
    amount: Money,
    buyer: PlayerID,
    other: PlayerID,
)
    requires
        g.table_wf(),
        buyer < g.seats(),
        other < g.seats(),
        other != buyer,
    ensures
        g.settled(target, amount, buyer).owned_cards[buyer as int] == g.owned_cards[buyer as int]
            + target.cards(),
        g.settled(target, amount, buyer).owned_cards[other as int] == g.owned_cards[other as int],
        g.settled(target, amount, buyer).deck == g.deck,
        g.settled(target, amount, buyer).pool == g.pool,
{
}

/// An accepted action that ends an auction is a sale: one player, the
/// buyer, is given exactly the cards that were for sale, and no hand and no
/// other player's cards change.
pub proof fn lemma_sale_gives_cards(
    g: SpecGame,
    from: PlayerID,
    input: ActionInput,
    now: Timestamp,
) -> (buyer: PlayerID)
    requires
        g.wf(),
        g.stage is AuctionInAction,
        g.step(from, input, now) is Ok,
        g.step(from, input, now)->Ok_0.stage is WaitingForNextCard,
    ensures
        buyer < g.seats(),
        g.step(from, input, now)->Ok_0.owned_cards == g.owned_cards.update(
            buyer as int,
            g.owned_cards[buyer as int] + g.stage->AuctionInAction_target.cards(),
        ),
        g.step(from, input, now)->Ok_0.deck == g.deck,
        g.step(from, input, now)->Ok_0.pool == g.pool,
{
    let state = g.stage->AuctionInAction_state;
    match (state, input) {
        (SpecAuction::Free { highest, .. }, ActionInput::Call) => highest.0,
        (SpecAuction::Fist { bids, .. }, ActionInput::Call) => {
            lemma_winning_bid_exists(bids) as PlayerID
        },
        (SpecAuction::Circle { highest, .. }, ActionInput::BidOptional(_)) => highest.0,
        _ => from,
    }
}

/// A completed sale between two players takes the price from the buyer and
/// gives it to the seller; a player who buys his own card pays nothing. No
/// other balance changes.
pub proof fn lemma_settled_moves_money(
    g: SpecGame,
    target: AuctionTarget,
    amount: Money,
    buyer: PlayerID,
    other: PlayerID,
)
    requires
        g.table_wf(),
        target.seated(g.seats()),
        buyer < g.seats(),
        other < g.seats(),
        g.can_settle(target, amount, buyer),
    ensures
        buyer == target.seller() ==> g.settled(target, amount, buyer).money == g.money,
        buyer != target.seller() ==> {
            &&& g.settled(target, amount, buyer).money[buyer as int] == g.money[buyer as int]
                - amount
            &&& g.settled(target, amount, buyer).money[target.seller() as int]
                == g.money[target.seller() as int] + amount
        },
        other != buyer && other != target.seller() ==> g.settled(
            target,
            amount,
            buyer,
        ).money[other as int] == g.money[other as int],
{
    if buyer != target.seller() {
        lemma_total_transfer(g.money, buyer as int, target.seller() as int, amount);
    }
}

/// The call of the host of a free auction is rejected before the deadline.
/// From the deadline on it is accepted: the first and the second call count
/// and set a new deadline, and the third sells to the highest bidder.
pub proof fn lemma_free_call(g: SpecGame, now: Timestamp)
    requires
        g.wf(),
        g.stage matches SpecStage::AuctionInAction { state: SpecAuction::Free { .. }, .. },
    ensures
        ({
            let target = g.stage->AuctionInAction_target;
            let host = g.stage->AuctionInAction_state->Free_host;
            let highest = g.stage->AuctionInAction_state->Free_highest;
            let time_end = g.stage->AuctionInAction_state->Free_time_end;
            let calls = g.stage->AuctionInAction_state->Free_calls;
            g.step(host, ActionInput::Call, now) == if now < time_end {
                Err::<SpecGame, Rejection>(Rejection::CalledTooEarly)
            } else if calls < CALLS_TO_CLOSE {
                Ok::<SpecGame, Rejection>(
                    g.at_stage(
                        SpecStage::AuctionInAction {
                            state: SpecAuction::Free {
                                host,
                                highest,
                                time_end: deadline_after(now),
                                calls: (calls + 1) as u8,
                            },
                            target,
                        },
                    ),
                )
            } else {
                Ok::<SpecGame, Rejection>(g.settled(target, highest.1, highest.0))
            }
        }),
{
}

/// Three calls of the host, the first not before the deadline and each of
/// the others not before the deadline that the one before has set, close a
/// free auction in which nobody bids meanwhile: the highest bidder buys at
/// the highest bid.
pub proof fn lemma_three_calls_close(
    g: SpecGame,
    first: Timestamp,
    second: Timestamp,
    third: Timestamp,
)
    requires
        g.wf(),
        g.stage matches SpecStage::AuctionInAction {
            state: SpecAuction::Free { time_end, calls, .. },
            ..
        } && calls == 0 && time_end <= first,
        first + CALL_DELAY <= second,
        second + CALL_DELAY <= third,
        third + CALL_DELAY <= Timestamp::MAX,
    ensures
        ({
            let target = g.stage->AuctionInAction_target;
            let host = g.stage->AuctionInAction_state->Free_host;
            let highest = g.stage->AuctionInAction_state->Free_highest;
            play(
                g,
                seq![
                    (host, ActionInput::Call, first),
                    (host, ActionInput::Call, second),
                    (host, ActionInput::Call, third),
                ],
            ) == g.settled(target, highest.1, highest.0)
        }),
{
    let host = g.stage->AuctionInAction_state->Free_host;
    let moves: Seq<Move> = seq![
        (host, ActionInput::Call, first),
        (host, ActionInput::Call, second),
        (host, ActionInput::Call, third),
    ];
    let two = moves.drop_last();
    let one = two.drop_last();
    assert(one.drop_last() =~= Seq::<Move>::empty());
    assert(play(g, one.drop_last()) == g);
    lemma_free_call(g, first);
    let after_one = play(g, one);
    lemma_step_keeps_wf(g, host, ActionInput::Call, first);
    lemma_free_call(after_one, second);
    let after_two = play(g, two);
    lemma_step_keeps_wf(after_one, host, ActionInput::Call, second);
    lemma_free_call(after_two, third);
}

/// The call of the host of a fist auction is rejected while a player has
/// not bid. Once all have, it sells to the player who bid the most, and
/// among several to the one with the lowest seat, at that player's bid.
pub proof fn lemma_fist_call(g: SpecGame) -> (winner: int)
    requires
        g.wf(),
        g.stage matches SpecStage::AuctionInAction { state: SpecAuction::Fist { .. }, .. },
    ensures
        ({
            let target = g.stage->AuctionInAction_target;
            let host = g.stage->AuctionInAction_state->Fist_host;
            let bids = g.stage->AuctionInAction_state->Fist_bids;
            let action_taken = g.stage->AuctionInAction_state->Fist_action_taken;
            &&& is_winning_bid(bids, winner)
            &&& g.step(host, ActionInput::Call, 0) == if all_taken(action_taken) {
                Ok::<SpecGame, Rejection>(g.settled(target, bids[winner], winner as PlayerID))
            } else {
                Err::<SpecGame, Rejection>(Rejection::IncompleteField)
            }
        }),
{
    lemma_winning_bid_exists(g.stage->AuctionInAction_state->Fist_bids)
}

/// Whose turn it is at a stage at which the players act in turn: in a
/// circle or a marked auction, and while a second card is waited for.
pub open spec fn turn_of(stage: SpecStage) -> Option<PlayerID> {
    match stage {
        SpecStage::WaitingForDoubleTarget { current, .. } => Some(current),
        SpecStage::AuctionInAction {
            state: SpecAuction::Circle { current_player, .. },
            ..
        } => Some(current_player),
        SpecStage::AuctionInAction { state: SpecAuction::Marked { current, .. }, .. } => Some(
            current,
        ),
        _ => None,
    }
}

/// The player with whom the turns of such a stage began and to whom they
/// return: who played the first card, started the circle, or set the price.
pub open spec fn turn_origin(stage: SpecStage) -> PlayerID {
    match stage {
        SpecStage::WaitingForDoubleTarget { double_card, .. } => double_card.0,
        SpecStage::AuctionInAction { state, .. } => state.auctioneer(),
        _ => 0,
    }
}

/// The stage with the turn at another seat.
pub open spec fn with_turn(stage: SpecStage, seat: PlayerID) -> SpecStage {
    match stage {
        SpecStage::WaitingForDoubleTarget { double_card, current } => {
            SpecStage::WaitingForDoubleTarget { double_card, current: seat }
        },
        SpecStage::AuctionInAction {
            state: SpecAuction::Circle { starter, current_player, highest },
            target,
        } => SpecStage::AuctionInAction {
            state: SpecAuction::Circle { starter, current_player: seat, highest },
            target,
        },
        SpecStage::AuctionInAction {
            state: SpecAuction::Marked { price, current },
            target,
        } => SpecStage::AuctionInAction { state: SpecAuction::Marked { price, current: seat }, target },
        _ => stage,
    }
}

/// The action by which a player lets the turn go by at such a stage.
pub open spec fn pass_at(stage: SpecStage) -> ActionInput {
    match stage {
        SpecStage::WaitingForDoubleTarget { .. } => ActionInput::PlayCardOptional(
            PlayCardOptionalInner::Pass,
        ),
        SpecStage::AuctionInAction {
            state: SpecAuction::Circle { .. },
            ..
        } => ActionInput::BidOptional(BidOptionalInner::Pass),
        _ => ActionInput::MarkedReaction(MarkedReactionInner::Pass),
    }
}

/// The game after the player whose turn it is has passed, `passes` times
/// over.
pub open spec fn after_passes(g: SpecGame, passes: nat) -> SpecGame
    decreases passes,
{
    if passes == 0 {
        g
    } else {
        let prior = after_passes(g, (passes - 1) as nat);
        match turn_of(prior.stage) {
            Some(current) => match prior.step(current, pass_at(prior.stage), 0) {
                Ok(next) => next,
                Err(_) => prior,
            },
            None => prior,
        }
    }
}

/// While the players pass in turn, the turn goes round the table from the
/// seat after the one where it began: after `passes` passes, fewer than
/// there are other players, it is at the seat `passes + 1` steps on, which
/// is none of the seats it was at before and not the one where it began.
/// Nothing else changes.
pub proof fn lemma_passes_go_round(g: SpecGame, passes: nat)
    requires
        g.wf(),
        turn_of(g.stage) == Some(next_seat(g.seats(), turn_origin(g.stage))),
        passes + 1 < g.seats(),
    ensures
        after_passes(g, passes) == g.at_stage(
            with_turn(g.stage, seat_after(g.seats(), turn_origin(g.stage), passes + 1)),
        ),
        seat_after(g.seats(), turn_origin(g.stage), passes + 1) != turn_origin(g.stage),
        forall|steps: nat|
            0 < steps < passes + 1 ==> #[trigger] seat_after(
                g.seats(),
                turn_origin(g.stage),
                steps,
            ) != seat_after(g.seats(), turn_origin(g.stage), passes + 1),
    decreases passes,
{
    let n = g.seats();
    let origin = turn_origin(g.stage);
    lemma_rotation_visits_all_once(n, origin);
    lemma_seat_after_step(n, origin, 0);
    lemma_seat_after_step(n, origin, passes);
    if passes == 0 {
        assert(with_turn(g.stage, seat_after(n, origin, 1)) == g.stage);
    } else {
        lemma_passes_go_round(g, (passes - 1) as nat);
        let prior = after_passes(g, (passes - 1) as nat);
        let current = seat_after(n, origin, passes);
        assert(turn_of(prior.stage) == Some(current));
        assert(next_seat(n, current) != origin);
    }
}

/// When all the other players have passed, the turn is back where it began.
/// In a circle auction the starter may then pass, and the highest bidder
/// buys if the bid can be paid. In a marked auction the player who set the
/// price buys the card for nothing more than the price set. While a second
/// card is waited for, the pass of the last player gives the first card to
/// the player who played it.
pub proof fn lemma_last_pass(g: SpecGame)
    requires
        g.wf(),
        turn_of(g.stage) == Some(next_seat(g.seats(), turn_origin(g.stage))),
        g.seats() >= 2,
    ensures
        ({
            let n = g.seats();
            let origin = turn_origin(g.stage);
            match g.stage {
                SpecStage::WaitingForDoubleTarget { double_card, current } => after_passes(
                    g,
                    (n - 1) as nat,
                ) == g.with_won(origin, seq![double_card.1]).at_stage(
                    SpecStage::WaitingForNextCard(next_seat(n, origin)),
                ),
                SpecStage::AuctionInAction {
                    state: SpecAuction::Circle { highest, .. },
                    target,
                } => {
                    &&& after_passes(g, (n - 1) as nat) == g.at_stage(with_turn(g.stage, origin))
                    &&& g.can_settle(target, highest.1, highest.0) ==> after_passes(g, n)
                        == g.settled(target, highest.1, highest.0)
                },
                SpecStage::AuctionInAction { state: SpecAuction::Marked { price, .. }, target } => {
                    &&& after_passes(g, (n - 1) as nat) == g.at_stage(with_turn(g.stage, origin))
                    &&& after_passes(g, n) == g.settled(target, price.1, origin)
                    &&& after_passes(g, n).money == g.money
                },
                _ => true,
            }
        }),
{
    let n = g.seats();
    let origin = turn_origin(g.stage);
    lemma_rotation_visits_all_once(n, origin);
    lemma_passes_go_round(g, (n - 2) as nat);
    let prior = after_passes(g, (n - 2) as nat);
    let current = seat_after(n, origin, (n - 1) as nat);
    lemma_seat_after_step(n, origin, (n - 1) as nat);
    assert(next_seat(n, current) == origin);
    assert(turn_of(prior.stage) == Some(current));
    let last = after_passes(g, (n - 1) as nat);
    assert(last == match prior.step(current, pass_at(prior.stage), 0) {
        Ok(next) => next,
        Err(_) => prior,
    });
    match g.stage {
        SpecStage::AuctionInAction { state: SpecAuction::Circle { .. }, .. } => {
            assert(after_passes(g, n) == match last.step(origin, pass_at(last.stage), 0) {
                Ok(next) => next,
                Err(_) => last,
            });
        },
        SpecStage::AuctionInAction { state: SpecAuction::Marked { .. }, .. } => {
            assert(after_passes(g, n) == match last.step(origin, pass_at(last.stage), 0) {
                Ok(next) => next,
                Err(_) => last,
            });
        },
        _ => {},
    }
}

} // verus!