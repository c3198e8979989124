//! Testing at run time whether a game is well formed.

use vstd::prelude::*;
use crate::engine::target_seller;
use crate::game_state::{AuctionState, AuctionTarget, GameStage, GameState, CALLS_TO_CLOSE};
use crate::player::{Player, PlayerID};
use crate::purse::{total, Money};

verus! {

/// The balances up to a place together do not exceed all of them together.
pub proof fn lemma_total_grows(money: Seq<Money>, upto: int)
    requires
        0 <= upto <= money.len(),
    ensures
        total(money.take(upto)) <= total(money),
    decreases money.len() - upto,
{
    if upto < money.len() {
        lemma_total_grows(money, upto + 1);
        assert(money.take(upto + 1).drop_last() =~= money.take(upto));
    } else {
        assert(money.take(upto) =~= money);
    }
}

/// Whether the balances together fit a balance.
pub fn total_fits(money: &Vec<Money>) -> (fits: bool)
    ensures
        fits == (total(money@) <= Money::MAX),
{
    let mut sum: Money = 0;
    let mut i: usize = 0;
    while i < money.len()
        invariant
            i <= money.len(),
            sum == total(money@.take(i as int)),
        decreases money.len() - i,
    {
        proof {
            assert(money@.take(i + 1).drop_last() =~= money@.take(i as int));
            lemma_total_grows(money@, i + 1);
        }
        if money[i] > Money::MAX - sum {
            return false;
        }
        sum = sum + money[i];
        i = i + 1;
    }
    proof {
        assert(money@.take(money.len() as int) =~= money@);
    }
    true
}

/// Whether every player of the roster bears the number of the seat.
pub fn seats_numbered(players: &Vec<Player>) -> (numbered: bool)
    ensures
        numbered == forall|i: int| 0 <= i < players.len() ==> (#[trigger] players@[i]).id == i,
{
    let mut i: usize = 0;
    while i < players.len()
        invariant
            i <= players.len(),
            forall|j: int| 0 <= j < i ==> (#[trigger] players@[j]).id == j,
        decreases players.len() - i,
    {
        if players[i].id != i {
            return false;
        }
        i = i + 1;
    }
    true
}

/// Whether no bid exceeds what the bidder holds.
pub fn bids_covered(bids: &Vec<Money>, money: &Vec<Money>) -> (covered: bool)
    requires
        bids.len() == money.len(),
    ensures
        covered == forall|i: int| 0 <= i < money.len() ==> #[trigger] bids@[i] <= money@[i],
{
    let mut i: usize = 0;
    while i < bids.len()
        invariant
            i <= bids.len() == money.len(),
            forall|j: int| 0 <= j < i ==> #[trigger] bids@[j] <= money@[j],
        decreases bids.len() - i,
    {
        if bids[i] > money[i] {
            return false;
        }
        i = i + 1;
    }
    true
}

/// Whether every player that the target names has a seat among `n`.
pub fn target_seated(target: &AuctionTarget, n: usize) -> (seated: bool)
    ensures
        seated == target.seated(n as nat),
{
    match target {
        AuctionTarget::Single(card) => card.0 < n,
        AuctionTarget::Double { double_card, target_card } => double_card.0 < n && target_card.0 < n,
    }
}

/// Whether the auction fits a game with these balances.
pub fn auction_fits(state: &AuctionState, money: &Vec<Money>) -> (fits: bool)
    ensures
        fits == state@.wf(money@),
{
    let n = money.len();
    match state {
        AuctionState::Free { host, highest, calls, .. } => {
            *host < n && highest.0 < n && highest.1 <= money[highest.0] && *calls <= CALLS_TO_CLOSE
        },
        AuctionState::Circle { starter, current_player, highest } => {
            *starter < n && *current_player < n && highest.0 < n
        },
        AuctionState::Fist { host, bids, action_taken } => {
            *host < n && bids.len() == n && action_taken.len() == n && bids_covered(bids, money)
        },
        AuctionState::Marked { price, current } => {
            *current < n && price.0 < n && price.1 <= money[price.0]
        },
    }
}

/// The player who runs the auction.
pub fn auctioneer_of(state: &AuctionState) -> (seat: PlayerID)
    ensures
        seat == state@.auctioneer(),
{
    match state {
        AuctionState::Free { host, .. } => *host,
        AuctionState::Circle { starter, .. } => *starter,
        AuctionState::Fist { host, .. } => *host,
        AuctionState::Marked { price, .. } => price.0,
    }
}

/// Whether the stage fits a game with these balances.
pub fn stage_fits(stage: &GameStage, money: &Vec<Money>) -> (fits: bool)
    ensures
        fits == stage@.wf(money@),
{
    let n = money.len();
    match stage {
        GameStage::WaitingForNextCard(player) => *player < n,
        GameStage::WaitingForDoubleTarget { double_card, current } => double_card.0 < n && *current
            < n,
        GameStage::WaitingForMarkedPrice { starter, target } => {
            *starter < n && target_seated(target, n) && target_seller(target) == *starter
        },
        GameStage::AuctionInAction { state, target } => {
            target_seated(target, n) && auction_fits(state, money) && auctioneer_of(state)
                == target_seller(target)
        },
    }
}

impl GameState {
    /// Whether the game is well formed. A game that was set up by this
    /// library and changed by it alone always is.
    pub fn is_well_formed(&self) -> (ok: bool)
        ensures
            ok == self.wf(),
    {
        let n = self.players.len();
        let numbered = seats_numbered(&self.players);
        proof {
            if numbered {
                assert forall|i: int| 0 <= i < n implies (#[trigger] self@.players[i]).id == i by {
                    assert(self.players@[i].id == i);
                }
            } else {
                let i = choose|i: int| 0 <= i < n && (#[trigger] self.players@[i]).id != i;
                assert(self@.players[i].id != i);
            }
        }
        self.deck.len() == n && self.money.len() == n && self.owned_cards.len() == n && numbered
            && total_fits(&self.money) && stage_fits(&self.stage, &self.money)
    }
}

} // verus!
