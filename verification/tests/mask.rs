use mart::card::{AuctionType, Card, CardColor};
use mart::game_state::{AuctionState, AuctionTarget, GameStage, GameState};

fn roster(count: usize) -> Vec<(String, String)> {
    (0..count).map(|i| (format!("token-{i}"), format!("Player{i}"))).collect()
}

fn sample() -> GameState {
    let mut state = GameState::new(roster(4));
    state.money = vec![10, 20, 30, 40];
    state.players[1].connected = true;
    let won = state.pool.pop().unwrap();
    state.owned_cards[2].push(won);
    state.current_round = 2;
    state.values[1][3] = 30;
    state
}

#[test]
fn a_view_shows_the_viewer_his_own_hand_and_token_only() {
    let state = sample();
    for viewer in 0..4 {
        let view = state.mask(viewer);
        assert_eq!(view.deck.len(), 4);
        assert_eq!(view.players.len(), 4);
        for seat in 0..4 {
            if seat == viewer {
                assert_eq!(view.deck[seat], state.deck[seat]);
                assert_eq!(view.deck[seat].len(), 9);
                assert_eq!(view.players[seat], state.players[seat]);
                assert_eq!(view.players[seat].uuid, format!("token-{seat}"));
            } else {
                assert!(view.deck[seat].is_empty());
                assert_eq!(view.players[seat].uuid, "");
                assert_eq!(view.players[seat].name, state.players[seat].name);
                assert_eq!(view.players[seat].id, seat);
                assert_eq!(view.players[seat].connected, state.players[seat].connected);
            }
        }
    }
}

#[test]
fn a_view_passes_on_what_is_open_to_all() {
    let state = sample();
    let view = state.mask(3);
    assert_eq!(view.money, vec![10, 20, 30, 40]);
    assert_eq!(view.owned_cards, state.owned_cards);
    assert_eq!(view.stage, state.stage);
    assert_eq!(view.current_round, 2);
    assert_eq!(view.values, state.values);
    assert_eq!(view.pool, state.pool);
}

#[test]
fn a_view_holds_no_bid_of_a_fist_auction() {
    let mut state = sample();
    let target = AuctionTarget::Single((1, Card {
        color: CardColor::Red,
        ty: AuctionType::Fist,
        id: 99,
    }));
    state.stage = GameStage::AuctionInAction {
        state: AuctionState::Fist {
            host: 1,
            bids: vec![5, 6, 7, 8],
            action_taken: vec![true, true, false, true],
        },
        target,
    };
    for viewer in 0..4 {
        assert_eq!(
            state.mask(viewer).stage,
            GameStage::AuctionInAction {
                state: AuctionState::Fist {
                    host: 1,
                    bids: vec![],
                    action_taken: vec![true, true, false, true],
                },
                target,
            }
        );
    }
}

#[test]
fn a_view_keeps_the_stage_of_any_other_auction() {
    let mut state = sample();
    let target = AuctionTarget::Double {
        double_card: (0, Card { color: CardColor::Red, ty: AuctionType::Double, id: 98 }),
        target_card: (1, Card { color: CardColor::Red, ty: AuctionType::Free, id: 99 }),
    };
    let stages = [
        GameStage::WaitingForNextCard(2),
        GameStage::WaitingForMarkedPrice { starter: 1, target },
        GameStage::AuctionInAction {
            state: AuctionState::Free { host: 1, highest: (3, 9), time_end: 77, calls: 1 },
            target,
        },
        GameStage::AuctionInAction {
            state: AuctionState::Circle { starter: 1, current_player: 3, highest: (2, 9) },
            target,
        },
        GameStage::AuctionInAction {
            state: AuctionState::Marked { price: (1, 9), current: 3 },
            target,
        },
    ];
    for stage in stages {
        state.stage = stage.clone();
        assert_eq!(state.mask(0).stage, stage);
    }
}

#[test]
fn a_view_for_nobody_shows_no_hand_and_no_token() {
    let state = sample();
    let view = state.mask(17);
    for seat in 0..4 {
        assert!(view.deck[seat].is_empty());
        assert_eq!(view.players[seat].uuid, "");
    }
    assert_eq!(view.money, state.money);
}

#[test]
fn making_a_view_leaves_the_game_as_it_is() {
    let state = sample();
    let before = state.clone();
    let _ = state.mask(0);
    assert_eq!(state, before);
}
