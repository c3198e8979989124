//! What a player's client may send to the room.

use vstd::prelude::*;
use crate::purse::Money;

verus! {

/// The number that names a card within a game.
pub type CardID = usize;

/// The path under which a room listens for its players.
pub const GAME_WS_URL: &'static str = "/ws/game";

/// What a client sends.
#[derive(Debug, Clone, Copy, PartialEq, Eq)]
pub enum GameInput {
    Action(ActionInput),
    RequestState,
    Connect,
    Disconnect,
}

/// A move in the game.
#[derive(Debug, Clone, Copy, PartialEq, Eq)]
pub enum ActionInput {
    PlayCard(CardID),
    PlayCardOptional(PlayCardOptionalInner),
    Bid(Money),
    BidOptional(BidOptionalInner),
    MarkedReaction(MarkedReactionInner),
    AssignMarkedPrice(Money),
    Call,
}

#[derive(Debug, Clone, Copy, PartialEq, Eq)]
pub enum MarkedReactionInner {
    Accept,
    Pass,
}

#[derive(Debug, Clone, Copy, PartialEq, Eq)]
pub enum BidOptionalInner {
    Pass,
    Bid(Money),
}

#[derive(Debug, Clone, Copy, PartialEq, Eq)]
pub enum PlayCardOptionalInner {
    Pass,
    Play(CardID),
}

} // verus!
