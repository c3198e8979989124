//! The decisions of a room: what it does with what a player's client sends,
//! what it passes on to which client, and whom it lets in.

use vstd::prelude::*;
use crate::clock::Clock;
use crate::engine::{follows, follows_on_clock};
use crate::game_state::{GameState, SpecGame, Timestamp, CALL_DELAY};
use crate::input::GameInput;
use crate::player::{PlayerID, SpecPlayer};
use crate::rejection::Rejection;
use crate::server_message::{GameEvent, ServerMessage, SpecMessage};

verus! {

/// A message and the player it is meant for; all players where none is named.
pub type Addressed = (Option<PlayerID>, ServerMessage);

/// An addressed message as contracts speak of one.
pub type SpecAddressed = (Option<PlayerID>, SpecMessage);

/// Addressed messages as contracts speak of them.
pub open spec fn outbox_view(outbox: Seq<Addressed>) -> Seq<SpecAddressed> {
    Seq::new(outbox.len(), |i: int| (outbox[i].0, outbox[i].1@))
}

/// Why a client is not let into a room.
#[derive(Debug, Clone, Copy, PartialEq, Eq, Structural)]
pub enum Refusal {
    /// There is no room of that name.
    UnknownRoom,
    /// The room has no player with that token.
    UnknownPlayer,
}

impl Refusal {
    /// The words in which the client is told.
    pub open spec fn text(self) -> Seq<char> {
        match self {
            Refusal::UnknownRoom => "Invalid Game ID. "@,
            Refusal::UnknownPlayer => "You are not allowed to join this game."@,
        }
    }

    /// The words in which the client is told.
    pub fn message(&self) -> (words: String)
        ensures
            words@ == self.text(),
    {
        match self {
            Refusal::UnknownRoom => "Invalid Game ID. ".to_owned(),
            Refusal::UnknownPlayer => "You are not allowed to join this game.".to_owned(),
        }
    }

    /// The status with which the request is answered: not found, or
    /// forbidden.
    pub fn status(&self) -> (code: u16)
        ensures
            code == match *self {
                Refusal::UnknownRoom => 404u16,
                Refusal::UnknownPlayer => 403u16,
            },
    {
        match self {
            Refusal::UnknownRoom => 404,
            Refusal::UnknownPlayer => 403,
        }
    }
}

/// The entry at `at` is the first of the roster that bears the token.
pub open spec fn is_first_with_token(
    players: Seq<(String, String)>,
    uuid: Seq<char>,
    at: int,
) -> bool {
    &&& 0 <= at < players.len()
    &&& players[at].0@ == uuid
    &&& forall|j: int| 0 <= j < at ==> (#[trigger] players[j]).0@ != uuid
}

/// The roster has an entry that bears the token.
pub open spec fn has_token(players: Seq<(String, String)>, uuid: Seq<char>) -> bool {
    exists|at: int| is_first_with_token(players, uuid, at)
}

/// The seat of the first player of a roster of tokens and names who bears the
/// token.
pub fn find_player(players: &Vec<(String, String)>, uuid: &String) -> (seat: Option<PlayerID>)
    ensures
        match seat {
            Some(at) => is_first_with_token(players@, uuid@, at as int),
            None => !has_token(players@, uuid@),
        },
{
    let mut i: usize = 0;
    while i < players.len()
        invariant
            i <= players.len(),
            forall|j: int| 0 <= j < i ==> (#[trigger] players@[j]).0@ != uuid@,
        decreases players.len() - i,
    {
        if players[i].0.eq(uuid) {
            return Some(i);
        }
        i = i + 1;
    }
    None
}

/// Whether a client that shows the token is let into the room whose roster
/// is given, and at which seat. `None` stands for a room that does not exist.
pub fn authorize(room: Option<&Vec<(String, String)>>, uuid: &String) -> (seat: Result<
    PlayerID,
    Refusal,
>)
    ensures
        match seat {
            Ok(at) => room matches Some(players) && is_first_with_token(players@, uuid@, at as int),
            Err(Refusal::UnknownRoom) => room is None,
            Err(Refusal::UnknownPlayer) => room matches Some(players) && !has_token(
                players@,
                uuid@,
            ),
        },
{
    match room {
        Some(players) => match find_player(players, uuid) {
            Some(seat) => Ok(seat),
            None => Err(Refusal::UnknownPlayer),
        },
        None => Err(Refusal::UnknownRoom),
    }
}

/// The name of the player who bears the token in the room whose roster is
/// given; no name where there is no such room or no such player.
pub fn get_player_name(room: Option<&Vec<(String, String)>>, uuid: &String) -> (name: String)
    ensures
        match room {
            Some(players) => if has_token(players@, uuid@) {
                exists|at: int|
                    is_first_with_token(players@, uuid@, at) && name@ == (#[trigger] players@[at]).1@
            } else {
                name@ == Seq::<char>::empty()
            },
            None => name@ == Seq::<char>::empty(),
        },
{
    match room {
        Some(players) => match find_player(players, uuid) {
            Some(seat) => players[seat].1.clone(),
            None => String::new(),
        },
        None => String::new(),
    }
}

/// What a room that is torn down sends: to all players that the game has
/// stopped, if the room was there (`found`), and nothing if it was not.
pub fn force_stop_game(found: bool) -> (notice: Option<Addressed>)
    ensures
        match notice {
            Some(sent) => found && sent.0 is None && sent.1@ == SpecMessage::GameStop,
            None => !found,
        },
{
    if found {
        Some((None, ServerMessage::GameStop))
    } else {
        None
    }
}

impl SpecGame {
    /// The game with the player at `seat` marked as connected or not.
    pub open spec fn with_connected(self, seat: PlayerID, connected: bool) -> SpecGame {
        SpecGame {
            players: self.players.update(
                seat as int,
                SpecPlayer { connected, ..self.players[seat as int] },
            ),
            ..self
        }
    }
}

/// What the room sends when a player has acted: on success the game as it
/// now is, to all; on rejection the reason, to that player alone.
pub open spec fn action_reply(
    player_id: PlayerID,
    after: SpecGame,
    result: Result<Option<GameEvent>, Rejection>,
) -> Seq<SpecAddressed> {
    match result {
        Ok(Some(event)) => seq![
            (None, SpecMessage::GameEvent(event)),
            (None, SpecMessage::StateUpdate(after)),
        ],
        Ok(None) => seq![(None, SpecMessage::StateUpdate(after))],
        Err(why) => seq![(Some(player_id), SpecMessage::StringMessage(why.text()))],
    }
}

/// What the room does with an input that is no action: the game that
/// follows, and what is sent.
pub open spec fn attend(g: SpecGame, player_id: PlayerID, input: GameInput) -> (SpecGame, Seq<
    SpecAddressed,
>)
    recommends
        !(input is Action),
{
    match input {
        GameInput::RequestState => (g, seq![(Some(player_id), SpecMessage::StateUpdate(g))]),
        GameInput::Connect => if player_id >= g.seats() {
            (
                g,
                seq![
                    (
                        Some(player_id),
                        SpecMessage::StringMessage(Rejection::UnknownPlayer.text()),
                    ),
                ],
            )
        } else if g.players[player_id as int].connected {
            (
                g.with_connected(player_id, false),
                seq![
                    (Some(player_id), SpecMessage::Disconnect),
                    (None, SpecMessage::GameEvent(GameEvent::PlayerDisconnect(player_id))),
                ],
            )
        } else {
            (
                g.with_connected(player_id, true),
                seq![(None, SpecMessage::GameEvent(GameEvent::PlayerConnect(player_id)))],
            )
        },
        _ => if player_id >= g.seats() {
            (
                g,
                seq![
                    (
                        Some(player_id),
                        SpecMessage::StringMessage(Rejection::UnknownPlayer.text()),
                    ),
                ],
            )
        } else {
            (
                g.with_connected(player_id, false),
                seq![(None, SpecMessage::GameEvent(GameEvent::PlayerDisconnect(player_id)))],
            )
        },
    }
}

/// The messages by which the room reports what an action has led to.
pub fn report(
    state: &GameState,
    player_id: PlayerID,
    result: Result<Option<GameEvent>, Rejection>,
) -> (outbox: Vec<Addressed>)
    ensures
        outbox_view(outbox@) == action_reply(player_id, state@, result),
{
    let mut outbox: Vec<Addressed> = Vec::new();
    match result {
        Ok(inner) => {
            if let Some(event) = inner {
                outbox.push((None, ServerMessage::GameEvent(event)));
            }
            outbox.push((None, ServerMessage::StateUpdate(state.clone())));
        },
        Err(why) => {
            outbox.push((Some(player_id), ServerMessage::StringMessage(why.message())));
        },
    }
    outbox
}

/// Marks the player at `seat` as connected or not.
fn set_connected(state: &mut GameState, seat: PlayerID, connected: bool)
    requires
        old(state).wf(),
        seat < old(state)@.seats(),
    ensures
        final(state)@ == old(state)@.with_connected(seat, connected),
        final(state).wf(),
{
    state.players[seat].connected = connected;
    assert(final(state)@.players =~= old(state)@.players.update(
        seat as int,
        SpecPlayer { connected, ..old(state)@.players[seat as int] },
    ));
}

/// What the room does with an input that is no action.
fn attend_to(
    state: &mut GameState,
    player_id: PlayerID,
    input: GameInput,
) -> (outbox: Vec<Addressed>)
    requires
        old(state).wf(),
        !(input is Action),
    ensures
        final(state).wf(),
        (final(state)@, outbox_view(outbox@)) == attend(old(state)@, player_id, input),
{
    let mut outbox: Vec<Addressed> = Vec::new();
    if let GameInput::RequestState = input {
        outbox.push((Some(player_id), ServerMessage::StateUpdate(state.clone())));
    } else if player_id >= state.players.len() {
        outbox.push(
            (Some(player_id), ServerMessage::StringMessage(Rejection::UnknownPlayer.message())),
        );
    } else if let GameInput::Connect = input {
        if state.players[player_id].connected {
            outbox.push((Some(player_id), ServerMessage::Disconnect));
            set_connected(state, player_id, false);
            outbox.push((None, ServerMessage::GameEvent(GameEvent::PlayerDisconnect(player_id))));
        } else {
            set_connected(state, player_id, true);
            outbox.push((None, ServerMessage::GameEvent(GameEvent::PlayerConnect(player_id))));
        }
    } else {
        set_connected(state, player_id, false);
        outbox.push((None, ServerMessage::GameEvent(GameEvent::PlayerDisconnect(player_id))));
    }
    outbox
}

/// What the room does with the input of a player at the time `now`: the game
/// changes as the input asks, and the messages to send are returned. An
/// action is applied by the rules; its success is reported to all with the
/// game as it now is, its rejection to the player alone. A request for the
/// state is answered to the player alone. A player who connects while marked
/// as connected is told to disconnect and marked as not connected. A player
/// that the game does not have is told so.
pub fn handle_game_input_at(
    state: &mut GameState,
    player_id: PlayerID,
    input: GameInput,
    now: Timestamp,
) -> (outbox: Vec<Addressed>)
    requires
        old(state).wf(),
        now + CALL_DELAY <= Timestamp::MAX,
    ensures
        final(state).wf(),
        match input {
            GameInput::Action(action) => exists|result: Result<Option<GameEvent>, Rejection>|
                {
                    &&& follows(
                        old(state)@,
                        final(state)@,
                        result,
                        old(state)@.step(player_id, action, now),
                    )
                    &&& outbox_view(outbox@) == #[trigger] action_reply(
                        player_id,
                        final(state)@,
                        result,
                    )
                },
            _ => (final(state)@, outbox_view(outbox@)) == attend(old(state)@, player_id, input),
        },
{
    match input {
        GameInput::Action(action) => {
            let result = state.process_input_at(player_id, action, now);
            report(state, player_id, result)
        },
        _ => attend_to(state, player_id, input),
    }
}

/// What the room does with the input of a player, at the time that the
/// clock of the room shows. The clock is read for an action and for nothing
/// else.
pub fn handle_game_input(
    state: &mut GameState,
    player_id: PlayerID,
    input: GameInput,
    clock: &mut Clock,
) -> (outbox: Vec<Addressed>)
    requires
        old(state).wf(),
    ensures
        final(state).wf(),
        final(clock).latest() >= old(clock).latest(),
        !(input is Action) ==> final(clock).latest() == old(clock).latest(),
        match input {
            GameInput::Action(action) => exists|result: Result<Option<GameEvent>, Rejection>|
                {
                    &&& follows_on_clock(
                        old(state)@,
                        final(state)@,
                        result,
                        player_id,
                        action,
                        final(clock).latest(),
                    )
                    &&& outbox_view(outbox@) == #[trigger] action_reply(
                        player_id,
                        final(state)@,
                        result,
                    )
                },
            _ => (final(state)@, outbox_view(outbox@)) == attend(old(state)@, player_id, input),
        },
{
    match input {
        GameInput::Action(action) => {
            let result = state.process_input(player_id, action, clock);
            report(state, player_id, result)
        },
        _ => attend_to(state, player_id, input),
    }
}

/// The message tells that the player connected or disconnected.
pub open spec fn tells_of(message: SpecMessage, player_id: PlayerID) -> bool {
    message == SpecMessage::GameEvent(GameEvent::PlayerConnect(player_id)) || message
        == SpecMessage::GameEvent(GameEvent::PlayerDisconnect(player_id))
}

/// The session of `player_id` keeps the message to itself: it is meant for
/// another player, or it tells the others that this player has connected or
/// disconnected.
pub open spec fn withheld(
    player_id: PlayerID,
    target: Option<PlayerID>,
    message: SpecMessage,
) -> bool {
    ||| target matches Some(to) && to != player_id
    ||| tells_of(message, player_id)
}

/// What the session of `player_id` passes on to its client of a message of
/// the room: nothing of a message meant for another player, nor of the news
/// that this player has connected or disconnected, which is for the others;
/// of any other message a copy, in which a game is shown as this player may
/// see it.
pub fn relay(
    player_id: PlayerID,
    target: Option<PlayerID>,
    message: &ServerMessage,
) -> (passed: Option<ServerMessage>)
    ensures
        match passed {
            Some(sent) => {
                &&& !withheld(player_id, target, message@)
                &&& sent@ == match message@ {
                    SpecMessage::StateUpdate(g) => SpecMessage::StateUpdate(g.masked_for(player_id)),
                    other => other,
                }
            },
            None => withheld(player_id, target, message@),
        },
{
    if let Some(to) = target {
        if to != player_id {
            return None;
        }
    }
    if let ServerMessage::GameEvent(event) = message {
        match event {
            GameEvent::PlayerConnect(who) => {
                if *who == player_id {
                    return None;
                }
            },
            GameEvent::PlayerDisconnect(who) => {
                if *who == player_id {
                    return None;
                }
            },
            _ => {},
        }
    }
    Some(
        match message {
            ServerMessage::StateUpdate(state) => ServerMessage::StateUpdate(state.mask(player_id)),
            ServerMessage::GameEvent(event) => ServerMessage::GameEvent(*event),
            ServerMessage::StringMessage(text) => ServerMessage::StringMessage(text.clone()),
            ServerMessage::Disconnect => ServerMessage::Disconnect,
            ServerMessage::GameStop => ServerMessage::GameStop,
        },
    )
}

} // verus!
