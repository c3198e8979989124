//! What one player is allowed to see of a game.

use vstd::prelude::*;
use crate::card::Card;
use crate::game_state::{
    copy_hands, copy_of, hands_view, AuctionState, GameStage, GameState, SpecAuction, SpecGame,
    SpecStage,
};
use crate::player::{roster_view, Player, PlayerID, SpecPlayer};

verus! {

/// A stage as every player may see it: the bids of a fist auction are
/// taken out, and who has bid stays.
pub open spec fn masked_stage(stage: SpecStage) -> SpecStage {
    match stage {
        SpecStage::AuctionInAction {
            state: SpecAuction::Fist { host, bids, action_taken },
            target,
        } => SpecStage::AuctionInAction {
            state: SpecAuction::Fist { host, bids: Seq::empty(), action_taken },
            target,
        },
        _ => stage,
    }
}

/// A member of the roster as `viewer` may see it: the token of another
/// player is blank.
pub open spec fn masked_player(player: SpecPlayer, viewer: PlayerID) -> SpecPlayer {
    if player.id == viewer {
        player
    } else {
        SpecPlayer { uuid: Seq::empty(), ..player }
    }
}

impl SpecGame {
    /// The game as `viewer` may see it: of the hands only the viewer's own,
    /// of the tokens only the viewer's own, and no bid of a fist auction.
    /// All else is as it is in the game.
    pub open spec fn masked_for(self, viewer: PlayerID) -> SpecGame {
        SpecGame {
            deck: Seq::new(
                self.deck.len(),
                |i: int|
                    if i == viewer {
                        self.deck[i]
                    } else {
                        Seq::empty()
                    },
            ),
            players: Seq::new(self.players.len(), |i: int| masked_player(self.players[i], viewer)),
            stage: masked_stage(self.stage),
            ..self
        }
    }
}

/// The view made for a player of a well-formed game shows that player's hand
/// and token as they are, and of every other player an empty hand and a
/// blank token.
pub proof fn lemma_mask_hides(g: SpecGame, viewer: PlayerID, other: PlayerID)
    requires
        g.wf(),
        viewer < g.seats(),
        other < g.seats(),
        other != viewer,
    ensures
        g.masked_for(viewer).deck[viewer as int] == g.deck[viewer as int],
        g.masked_for(viewer).players[viewer as int] == g.players[viewer as int],
        g.masked_for(viewer).deck[other as int] == Seq::<Card>::empty(),
        g.masked_for(viewer).players[other as int].uuid == Seq::<char>::empty(),
        g.masked_for(viewer).stage matches SpecStage::AuctionInAction {
            state: SpecAuction::Fist { bids, .. },
            ..
        } ==> bids == Seq::<crate::purse::Money>::empty(),
{
}

/// The stage as every player may see it.
fn mask_stage(stage: &GameStage) -> (masked: GameStage)
    ensures
        masked@ == masked_stage(stage@),
{
    match stage {
        GameStage::AuctionInAction { state: AuctionState::Fist { host, bids, action_taken }, target } => {
            GameStage::AuctionInAction {
                state: AuctionState::Fist {
                    host: *host,
                    bids: Vec::new(),
                    action_taken: copy_of(action_taken),
                },
                target: *target,
            }
        },
        _ => stage.clone(),
    }
}

impl GameState {
    /// The game as `player` may see it.
    pub fn mask(&self, player: PlayerID) -> (view: GameState)
        ensures
            view@ == self@.masked_for(player),
    {
        let mut deck: Vec<Vec<Card>> = Vec::new();
        let mut i: usize = 0;
        while i < self.deck.len()
            invariant
                i <= self.deck.len(),
                deck.len() == i,
                forall|j: int|
                    0 <= j < i ==> (#[trigger] deck@[j])@ == self@.masked_for(player).deck[j],
            decreases self.deck.len() - i,
        {
            if i == player {
                deck.push(copy_of(&self.deck[i]));
            } else {
                deck.push(Vec::new());
            }
            i = i + 1;
        }
        let mut players: Vec<Player> = Vec::new();
        let mut k: usize = 0;
        while k < self.players.len()
            invariant
                k <= self.players.len(),
                players.len() == k,
                forall|j: int|
                    0 <= j < k ==> (#[trigger] players@[j])@ == self@.masked_for(player).players[j],
            decreases self.players.len() - k,
        {
            let each = &self.players[k];
            if each.id == player {
                players.push(each.clone());
            } else {
                players.push(
                    Player {
                        uuid: String::new(),
                        id: each.id,
                        name: each.name.clone(),
                        connected: each.connected,
                    },
                );
            }
            k = k + 1;
        }
        proof {
            assert(hands_view(deck@) =~= self@.masked_for(player).deck);
            assert(roster_view(players@) =~= self@.masked_for(player).players);
        }
        GameState {
            deck,
            money: copy_of(&self.money),
            owned_cards: copy_hands(&self.owned_cards),
            players,
            stage: mask_stage(&self.stage),
            current_round: self.current_round,
            values: self.values,
            pool: copy_of(&self.pool),
        }
    }
}

} // verus!
