use mart::card::{AuctionType, Card, CardColor};
use mart::clock::Clock;
use mart::game_state::{AuctionState, GameStage, GameState};
use mart::input::{ActionInput, GameInput, MarkedReactionInner, GAME_WS_URL};
use mart::rejection::Rejection;
use mart::room::{
    authorize, find_player, force_stop_game, get_player_name, handle_game_input,
    handle_game_input_at, relay, report, Refusal,
};
use mart::server_message::{GameEvent, ServerMessage};

fn roster(count: usize) -> Vec<(String, String)> {
    (0..count).map(|i| (format!("token-{i}"), format!("Player{i}"))).collect()
}

fn game() -> GameState {
    let free = Card { color: CardColor::Red, ty: AuctionType::Free, id: 1 };
    let marked = Card { color: CardColor::Blue, ty: AuctionType::Marked, id: 2 };
    let spare = Card { color: CardColor::Green, ty: AuctionType::Fist, id: 3 };
    GameState::with_deal(roster(3), vec![vec![free, marked], vec![spare], vec![]], vec![])
}

#[test]
fn the_path_of_the_room_is_fixed() {
    assert_eq!(GAME_WS_URL, "/ws/game");
}

#[test]
fn a_request_for_the_state_is_answered_to_the_requester_alone() {
    let mut state = game();
    let before = state.clone();
    let out = handle_game_input_at(&mut state, 1, GameInput::RequestState, 0);
    assert_eq!(out, vec![(Some(1), ServerMessage::StateUpdate(before.clone()))]);
    assert_eq!(state, before);
    let out = handle_game_input(&mut state, 9, GameInput::RequestState, &mut Clock::start());
    assert_eq!(out, vec![(Some(9), ServerMessage::StateUpdate(before.clone()))]);
    assert_eq!(state, before);
}

#[test]
fn connecting_marks_the_player_and_tells_everyone() {
    let mut state = game();
    let out = handle_game_input_at(&mut state, 2, GameInput::Connect, 0);
    assert_eq!(out, vec![(None, ServerMessage::GameEvent(GameEvent::PlayerConnect(2)))]);
    assert!(state.players[2].connected);
    assert!(!state.players[0].connected);
    assert!(!state.players[1].connected);
    assert!(state.is_well_formed());
}

#[test]
fn connecting_twice_disconnects() {
    let mut state = game();
    handle_game_input_at(&mut state, 2, GameInput::Connect, 0);
    let out = handle_game_input_at(&mut state, 2, GameInput::Connect, 0);
    assert_eq!(
        out,
        vec![
            (Some(2), ServerMessage::Disconnect),
            (None, ServerMessage::GameEvent(GameEvent::PlayerDisconnect(2))),
        ]
    );
    assert!(!state.players[2].connected);
    let out = handle_game_input(&mut state, 2, GameInput::Connect, &mut Clock::start());
    assert_eq!(out, vec![(None, ServerMessage::GameEvent(GameEvent::PlayerConnect(2)))]);
    assert!(state.players[2].connected);
}

#[test]
fn disconnecting_marks_the_player_and_tells_everyone() {
    let mut state = game();
    handle_game_input_at(&mut state, 0, GameInput::Connect, 0);
    let out = handle_game_input_at(&mut state, 0, GameInput::Disconnect, 0);
    assert_eq!(out, vec![(None, ServerMessage::GameEvent(GameEvent::PlayerDisconnect(0)))]);
    assert!(!state.players[0].connected);
    let out = handle_game_input(&mut state, 0, GameInput::Disconnect, &mut Clock::start());
    assert_eq!(out, vec![(None, ServerMessage::GameEvent(GameEvent::PlayerDisconnect(0)))]);
    assert!(!state.players[0].connected);
}

#[test]
fn a_player_that_the_game_does_not_have_is_told_so() {
    let mut state = game();
    let before = state.clone();
    for input in [GameInput::Connect, GameInput::Disconnect] {
        let out = handle_game_input_at(&mut state, 3, input, 0);
        assert_eq!(
            out,
            vec![(Some(3), ServerMessage::StringMessage("No such player.".to_string()))]
        );
        assert_eq!(state, before);
    }
}

#[test]
fn an_accepted_action_is_reported_to_all_with_the_new_state() {
    let mut state = game();
    let out = handle_game_input_at(&mut state, 0, GameInput::Action(ActionInput::PlayCard(1)), 50);
    assert_eq!(out, vec![(None, ServerMessage::StateUpdate(state.clone()))]);
    match &state.stage {
        GameStage::AuctionInAction { state: AuctionState::Free { time_end, host, .. }, .. } => {
            assert_eq!(*time_end, 53);
            assert_eq!(*host, 0);
        }
        other => panic!("unexpected stage {other:?}"),
    }
}

#[test]
fn a_rejected_action_is_reported_to_the_player_alone() {
    let mut state = game();
    let before = state.clone();
    let out = handle_game_input_at(&mut state, 1, GameInput::Action(ActionInput::PlayCard(3)), 0);
    assert_eq!(
        out,
        vec![(Some(1), ServerMessage::StringMessage("Not your turn yet.".to_string()))]
    );
    assert_eq!(state, before);
    let out =
        handle_game_input(&mut state, 0, GameInput::Action(ActionInput::Call), &mut Clock::start());
    assert_eq!(
        out,
        vec![(Some(0), ServerMessage::StringMessage("Invalid action.".to_string()))]
    );
    assert_eq!(state, before);
}

#[test]
fn the_room_reads_the_clock_for_an_action() {
    let mut clock = Clock::start();
    let mut state = game();
    let play = GameInput::Action(ActionInput::PlayCard(1));
    let out = handle_game_input(&mut state, 0, play, &mut clock);
    assert_eq!(out, vec![(None, ServerMessage::StateUpdate(state.clone()))]);
    let call = GameInput::Action(ActionInput::Call);
    let out = handle_game_input(&mut state, 0, call, &mut clock);
    assert_eq!(
        out,
        vec![(
            Some(0),
            ServerMessage::StringMessage(
                "Please wait for at least 3 seconds before calling.".to_string()
            )
        )]
    );

    let mut state = game();
    let play = GameInput::Action(ActionInput::PlayCard(2));
    let out = handle_game_input(&mut state, 0, play, &mut clock);
    assert_eq!(out, vec![(None, ServerMessage::StateUpdate(state.clone()))]);
    let out = handle_game_input(
        &mut state,
        0,
        GameInput::Action(ActionInput::AssignMarkedPrice(30)),
        &mut clock,
    );
    assert_eq!(out, vec![(None, ServerMessage::StateUpdate(state.clone()))]);
    let out = handle_game_input(
        &mut state,
        1,
        GameInput::Action(ActionInput::MarkedReaction(MarkedReactionInner::Accept)),
        &mut clock,
    );
    assert_eq!(out, vec![(None, ServerMessage::StateUpdate(state.clone()))]);
    assert_eq!(state.money, vec![130, 70, 100]);
}

#[test]
fn a_report_tells_of_an_event_before_the_state() {
    let state = game();
    let event = GameEvent::PlayerConnect(1);
    assert_eq!(
        report(&state, 2, Ok(Some(event))),
        vec![
            (None, ServerMessage::GameEvent(event)),
            (None, ServerMessage::StateUpdate(state.clone())),
        ]
    );
    assert_eq!(report(&state, 2, Ok(None)), vec![(None, ServerMessage::StateUpdate(state.clone()))]);
    assert_eq!(
        report(&state, 2, Err(Rejection::NoSuchCard)),
        vec![(Some(2), ServerMessage::StringMessage("No such card.".to_string()))]
    );
}

#[test]
fn a_session_passes_on_what_is_meant_for_its_player() {
    let text = ServerMessage::StringMessage("hello".to_string());
    assert_eq!(relay(1, None, &text), Some(ServerMessage::StringMessage("hello".to_string())));
    assert_eq!(relay(1, Some(1), &text), Some(ServerMessage::StringMessage("hello".to_string())));
    assert_eq!(relay(1, Some(0), &text), None);
    assert_eq!(relay(1, Some(2), &ServerMessage::GameStop), None);
    assert_eq!(relay(0, None, &ServerMessage::GameStop), Some(ServerMessage::GameStop));
    assert_eq!(relay(0, Some(0), &ServerMessage::Disconnect), Some(ServerMessage::Disconnect));
    let event = ServerMessage::GameEvent(GameEvent::PlayerDisconnect(2));
    assert_eq!(
        relay(0, None, &event),
        Some(ServerMessage::GameEvent(GameEvent::PlayerDisconnect(2)))
    );
}

#[test]
fn a_session_keeps_the_news_of_its_own_player_from_its_client() {
    let connect = ServerMessage::GameEvent(GameEvent::PlayerConnect(1));
    let disconnect = ServerMessage::GameEvent(GameEvent::PlayerDisconnect(1));
    assert_eq!(relay(1, None, &connect), None);
    assert_eq!(relay(1, None, &disconnect), None);
    assert_eq!(relay(1, Some(1), &connect), None);
    assert_eq!(relay(0, None, &connect), Some(connect.clone()));
    assert_eq!(relay(2, None, &disconnect), Some(disconnect.clone()));
    assert_eq!(relay(0, Some(1), &connect), None);
    let card = Card { color: CardColor::Red, ty: AuctionType::Free, id: 1 };
    let sale = ServerMessage::GameEvent(GameEvent::AuctionComplete {
        target: mart::game_state::AuctionTarget::Single((1, card)),
        buyer: (1, 10),
        seller: 1,
    });
    assert_eq!(relay(1, None, &sale), Some(sale.clone()));
}

#[test]
fn a_session_shows_the_game_as_its_player_may_see_it() {
    let state = game();
    let update = ServerMessage::StateUpdate(state.clone());
    for viewer in 0..3 {
        assert_eq!(
            relay(viewer, None, &update),
            Some(ServerMessage::StateUpdate(state.mask(viewer)))
        );
    }
    match relay(1, Some(1), &update) {
        Some(ServerMessage::StateUpdate(view)) => {
            assert!(view.deck[0].is_empty());
            assert_eq!(view.deck[1], state.deck[1]);
            assert_eq!(view.players[0].uuid, "");
            assert_eq!(view.players[1].uuid, "token-1");
        }
        other => panic!("unexpected message {other:?}"),
    }
    assert_eq!(relay(1, Some(2), &update), None);
}

#[test]
fn a_client_is_let_in_by_its_token() {
    let players = roster(3);
    assert_eq!(find_player(&players, &"token-0".to_string()), Some(0));
    assert_eq!(find_player(&players, &"token-2".to_string()), Some(2));
    assert_eq!(find_player(&players, &"token-3".to_string()), None);
    assert_eq!(find_player(&players, &"Player1".to_string()), None);
    assert_eq!(find_player(&players, &"".to_string()), None);
    assert_eq!(authorize(Some(&players), &"token-1".to_string()), Ok(1));
    assert_eq!(authorize(Some(&players), &"nobody".to_string()), Err(Refusal::UnknownPlayer));
    assert_eq!(authorize(None, &"token-1".to_string()), Err(Refusal::UnknownRoom));
}

#[test]
fn of_two_players_with_one_token_the_first_is_meant() {
    let players = vec![
        ("a".to_string(), "Ann".to_string()),
        ("b".to_string(), "Bob".to_string()),
        ("b".to_string(), "Bea".to_string()),
    ];
    assert_eq!(find_player(&players, &"b".to_string()), Some(1));
    assert_eq!(get_player_name(Some(&players), &"b".to_string()), "Bob");
}

#[test]
fn refusals_have_their_words_and_status() {
    assert_eq!(Refusal::UnknownRoom.message(), "Invalid Game ID. ");
    assert_eq!(Refusal::UnknownRoom.status(), 404);
    assert_eq!(Refusal::UnknownPlayer.message(), "You are not allowed to join this game.");
    assert_eq!(Refusal::UnknownPlayer.status(), 403);
}

#[test]
fn the_name_of_a_player_is_found_by_the_token() {
    let players = roster(3);
    assert_eq!(get_player_name(Some(&players), &"token-2".to_string()), "Player2");
    assert_eq!(get_player_name(Some(&players), &"token-9".to_string()), "");
    assert_eq!(get_player_name(None, &"token-2".to_string()), "");
}

#[test]
fn a_room_that_is_torn_down_tells_all_that_the_game_has_stopped() {
    assert_eq!(force_stop_game(true), Some((None, ServerMessage::GameStop)));
    assert_eq!(force_stop_game(false), None);
}
