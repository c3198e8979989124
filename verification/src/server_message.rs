//! What the room sends to the clients of its players.

use vstd::prelude::*;
use crate::game_state::{AuctionTarget, GameState, MoneyPair, SpecGame};
use crate::player::PlayerID;

verus! {

/// A message of the room.
#[derive(Debug, PartialEq, Eq)]
pub enum ServerMessage {
    StateUpdate(GameState),
    GameEvent(GameEvent),
    StringMessage(String),
    Disconnect,
    GameStop,
}

/// Something that happened in the room and that every player is told.
#[derive(Debug, Clone, Copy, PartialEq, Eq)]
pub enum GameEvent {
    PlayerConnect(PlayerID),
    PlayerDisconnect(PlayerID),
    AuctionComplete { target: AuctionTarget, buyer: MoneyPair, seller: PlayerID },
}

/// A message as contracts speak of one.
pub enum SpecMessage {
    StateUpdate(SpecGame),
    GameEvent(GameEvent),
    StringMessage(Seq<char>),
    Disconnect,
    GameStop,
}

impl View for ServerMessage {
    type V = SpecMessage;

    open spec fn view(&self) -> SpecMessage {
        match *self {
            ServerMessage::StateUpdate(state) => SpecMessage::StateUpdate(state@),
            ServerMessage::GameEvent(event) => SpecMessage::GameEvent(event),
            ServerMessage::StringMessage(text) => SpecMessage::StringMessage(text@),
            ServerMessage::Disconnect => SpecMessage::Disconnect,
            ServerMessage::GameStop => SpecMessage::GameStop,
        }
    }
}

impl Clone for ServerMessage {
    fn clone(&self) -> (copy: ServerMessage)
        ensures
            copy@ == self@,
    {
        match self {
            ServerMessage::StateUpdate(state) => ServerMessage::StateUpdate(state.clone()),
            ServerMessage::GameEvent(event) => ServerMessage::GameEvent(*event),
            ServerMessage::StringMessage(text) => ServerMessage::StringMessage(text.clone()),
            ServerMessage::Disconnect => ServerMessage::Disconnect,
            ServerMessage::GameStop => ServerMessage::GameStop,
        }
    }
}

} // verus!
