use mart::card::{AuctionType, Card, CardColor};
use mart::clock::Clock;
use mart::game_state::{AuctionState, AuctionTarget, GameStage, GameState};
use mart::input::{ActionInput, BidOptionalInner, MarkedReactionInner, PlayCardOptionalInner};
use mart::rejection::Rejection;

fn card(id: usize, color: CardColor, ty: AuctionType) -> Card {
    Card { color, ty, id }
}

fn roster(count: usize) -> Vec<(String, String)> {
    (0..count).map(|i| (format!("token-{i}"), format!("Player{i}"))).collect()
}

/// Five players; each holds one card of every kind, in a colour of their own.
fn five_players() -> GameState {
    let colors = [
        CardColor::Purple,
        CardColor::Blue,
        CardColor::Red,
        CardColor::Green,
        CardColor::Yellow,
    ];
    let kinds = [
        AuctionType::Free,
        AuctionType::Circle,
        AuctionType::Fist,
        AuctionType::Marked,
        AuctionType::Double,
    ];
    let mut deck = Vec::new();
    for (p, color) in colors.iter().enumerate() {
        let mut hand = Vec::new();
        for (k, kind) in kinds.iter().enumerate() {
            hand.push(card(p * 10 + k + 1, *color, *kind));
        }
        deck.push(hand);
    }
    let state = GameState::with_deal(roster(5), deck, Vec::new());
    assert!(state.is_well_formed());
    state
}

const FREE: usize = 1;
const CIRCLE: usize = 2;
const FIST: usize = 3;
const MARKED: usize = 4;
const DOUBLE: usize = 5;

fn accept(state: &mut GameState, from: usize, input: ActionInput, now: u64) {
    assert_eq!(state.process_input_at(from, input, now), Ok(None));
    assert!(state.is_well_formed());
}

fn reject(state: &mut GameState, from: usize, input: ActionInput, now: u64, why: Rejection) {
    let before = state.clone();
    assert_eq!(state.process_input_at(from, input, now), Err(why));
    assert_eq!(*state, before);
}

#[test]
fn scenario_free_auction_closes_on_the_third_call() {
    let mut state = five_players();
    assert_eq!(state.money, vec![100, 100, 100, 100, 100]);
    let sold = state.deck[0][0];
    assert_eq!(sold.ty, AuctionType::Free);

    accept(&mut state, 0, ActionInput::PlayCard(FREE), 1000);
    assert_eq!(
        state.stage,
        GameStage::AuctionInAction {
            state: AuctionState::Free { host: 0, highest: (0, 0), time_end: 1003, calls: 0 },
            target: AuctionTarget::Single((0, sold)),
        }
    );
    assert_eq!(state.deck[0].len(), 4);

    accept(&mut state, 2, ActionInput::Bid(30), 1001);
    assert_eq!(
        state.stage,
        GameStage::AuctionInAction {
            state: AuctionState::Free { host: 0, highest: (2, 30), time_end: 1004, calls: 0 },
            target: AuctionTarget::Single((0, sold)),
        }
    );

    reject(&mut state, 0, ActionInput::Call, 1003, Rejection::CalledTooEarly);

    accept(&mut state, 0, ActionInput::Call, 1004);
    assert_eq!(
        state.stage,
        GameStage::AuctionInAction {
            state: AuctionState::Free { host: 0, highest: (2, 30), time_end: 1007, calls: 1 },
            target: AuctionTarget::Single((0, sold)),
        }
    );
    reject(&mut state, 0, ActionInput::Call, 1006, Rejection::CalledTooEarly);
    accept(&mut state, 0, ActionInput::Call, 1007);
    assert_eq!(
        state.stage,
        GameStage::AuctionInAction {
            state: AuctionState::Free { host: 0, highest: (2, 30), time_end: 1010, calls: 2 },
            target: AuctionTarget::Single((0, sold)),
        }
    );
    assert_eq!(state.money, vec![100, 100, 100, 100, 100]);
    accept(&mut state, 0, ActionInput::Call, 1010);

    assert_eq!(state.owned_cards[2], vec![sold]);
    assert_eq!(state.money, vec![130, 100, 70, 100, 100]);
    assert_eq!(state.stage, GameStage::WaitingForNextCard(1));
    for hand in &state.deck {
        assert!(!hand.contains(&sold));
    }
}

#[test]
fn scenario_marked_auction_is_accepted_by_a_player_who_can_pay() {
    let mut state = five_players();
    state.stage = GameStage::WaitingForNextCard(1);
    state.money = vec![100, 100, 100, 40, 100];
    assert!(state.is_well_formed());
    let sold = state.deck[1][3];
    assert_eq!(sold.ty, AuctionType::Marked);

    accept(&mut state, 1, ActionInput::PlayCard(10 + MARKED), 5);
    assert_eq!(
        state.stage,
        GameStage::WaitingForMarkedPrice { starter: 1, target: AuctionTarget::Single((1, sold)) }
    );
    accept(&mut state, 1, ActionInput::AssignMarkedPrice(50), 5);
    assert_eq!(
        state.stage,
        GameStage::AuctionInAction {
            state: AuctionState::Marked { price: (1, 50), current: 2 },
            target: AuctionTarget::Single((1, sold)),
        }
    );
    accept(&mut state, 2, ActionInput::MarkedReaction(MarkedReactionInner::Pass), 5);
    assert_eq!(
        state.stage,
        GameStage::AuctionInAction {
            state: AuctionState::Marked { price: (1, 50), current: 3 },
            target: AuctionTarget::Single((1, sold)),
        }
    );
    reject(
        &mut state,
        3,
        ActionInput::MarkedReaction(MarkedReactionInner::Accept),
        5,
        Rejection::InsufficientFunds,
    );

    state.money[3] = 60;
    assert!(state.is_well_formed());
    accept(&mut state, 3, ActionInput::MarkedReaction(MarkedReactionInner::Accept), 5);
    assert_eq!(state.money, vec![100, 150, 100, 10, 100]);
    assert_eq!(state.owned_cards[3], vec![sold]);
    assert_eq!(state.stage, GameStage::WaitingForNextCard(2));
}

#[test]
fn scenario_fist_auction_waits_for_every_bid() {
    let mut state = five_players();
    let sold = state.deck[0][2];
    assert_eq!(sold.ty, AuctionType::Fist);
    accept(&mut state, 0, ActionInput::PlayCard(FIST), 0);
    assert_eq!(
        state.stage,
        GameStage::AuctionInAction {
            state: AuctionState::Fist {
                host: 0,
                bids: vec![0, 0, 0, 0, 0],
                action_taken: vec![false, false, false, false, false],
            },
            target: AuctionTarget::Single((0, sold)),
        }
    );
    accept(&mut state, 0, ActionInput::Bid(20), 0);
    accept(&mut state, 2, ActionInput::Bid(35), 0);
    accept(&mut state, 3, ActionInput::Bid(10), 0);
    assert_eq!(
        state.stage,
        GameStage::AuctionInAction {
            state: AuctionState::Fist {
                host: 0,
                bids: vec![20, 0, 35, 10, 0],
                action_taken: vec![true, false, true, true, false],
            },
            target: AuctionTarget::Single((0, sold)),
        }
    );
    reject(&mut state, 0, ActionInput::Call, 0, Rejection::IncompleteField);

    accept(&mut state, 1, ActionInput::Bid(0), 0);
    reject(&mut state, 0, ActionInput::Call, 0, Rejection::IncompleteField);
    accept(&mut state, 4, ActionInput::Bid(0), 0);
    accept(&mut state, 0, ActionInput::Call, 0);

    assert_eq!(state.owned_cards[2], vec![sold]);
    assert_eq!(state.money, vec![135, 100, 65, 100, 100]);
    assert_eq!(state.stage, GameStage::WaitingForNextCard(1));
}

#[test]
fn fist_tie_goes_to_the_lowest_seat() {
    let mut state = five_players();
    state.stage = GameStage::WaitingForNextCard(4);
    accept(&mut state, 4, ActionInput::PlayCard(40 + FIST), 0);
    for (seat, bid) in [(0usize, 5u32), (1, 40), (2, 12), (3, 40), (4, 40)] {
        accept(&mut state, seat, ActionInput::Bid(bid), 0);
    }
    reject(&mut state, 1, ActionInput::Call, 0, Rejection::InvalidForStage);
    accept(&mut state, 4, ActionInput::Call, 0);
    assert_eq!(state.owned_cards[1].len(), 1);
    assert_eq!(state.money, vec![100, 60, 100, 100, 140]);
    assert_eq!(state.stage, GameStage::WaitingForNextCard(0));
}

#[test]
fn fist_bid_can_be_changed_until_the_call() {
    let mut state = five_players();
    accept(&mut state, 0, ActionInput::PlayCard(FIST), 0);
    accept(&mut state, 3, ActionInput::Bid(70), 0);
    accept(&mut state, 3, ActionInput::Bid(15), 0);
    reject(&mut state, 3, ActionInput::Bid(100), 0, Rejection::InsufficientFunds);
    match &state.stage {
        GameStage::AuctionInAction { state: AuctionState::Fist { bids, action_taken, .. }, .. } => {
            assert_eq!(bids, &vec![0, 0, 0, 15, 0]);
            assert_eq!(action_taken, &vec![false, false, false, true, false]);
        }
        other => panic!("unexpected stage {other:?}"),
    }
}

#[test]
fn fist_with_no_positive_bid_goes_to_the_first_seat_for_nothing() {
    let mut state = five_players();
    state.stage = GameStage::WaitingForNextCard(2);
    accept(&mut state, 2, ActionInput::PlayCard(20 + FIST), 0);
    for seat in 0..5 {
        accept(&mut state, seat, ActionInput::Bid(0), 0);
    }
    accept(&mut state, 2, ActionInput::Call, 0);
    assert_eq!(state.owned_cards[0].len(), 1);
    assert_eq!(state.money, vec![100, 100, 100, 100, 100]);
    assert_eq!(state.stage, GameStage::WaitingForNextCard(3));
}

#[test]
fn play_card_is_rejected_out_of_turn_and_without_the_card() {
    let mut state = five_players();
    reject(&mut state, 1, ActionInput::PlayCard(10 + FREE), 0, Rejection::TurnViolation);
    reject(&mut state, 7, ActionInput::PlayCard(FREE), 0, Rejection::TurnViolation);
    reject(&mut state, 0, ActionInput::PlayCard(10 + FREE), 0, Rejection::NoSuchCard);
    reject(&mut state, 0, ActionInput::PlayCard(0), 0, Rejection::NoSuchCard);
}

#[test]
fn actions_that_the_stage_has_no_use_for_are_rejected() {
    let mut state = five_players();
    let all = [
        ActionInput::PlayCardOptional(PlayCardOptionalInner::Pass),
        ActionInput::PlayCardOptional(PlayCardOptionalInner::Play(FREE)),
        ActionInput::Bid(1),
        ActionInput::BidOptional(BidOptionalInner::Pass),
        ActionInput::BidOptional(BidOptionalInner::Bid(1)),
        ActionInput::MarkedReaction(MarkedReactionInner::Accept),
        ActionInput::MarkedReaction(MarkedReactionInner::Pass),
        ActionInput::AssignMarkedPrice(1),
        ActionInput::Call,
    ];
    for input in all {
        reject(&mut state, 0, input, 0, Rejection::InvalidForStage);
    }

    accept(&mut state, 0, ActionInput::PlayCard(CIRCLE), 0);
    reject(&mut state, 1, ActionInput::PlayCard(10 + FREE), 0, Rejection::InvalidForStage);
    reject(&mut state, 1, ActionInput::Bid(1), 0, Rejection::InvalidForStage);
    reject(&mut state, 0, ActionInput::Call, 0, Rejection::InvalidForStage);
    reject(
        &mut state,
        1,
        ActionInput::MarkedReaction(MarkedReactionInner::Pass),
        0,
        Rejection::InvalidForStage,
    );
    reject(&mut state, 1, ActionInput::AssignMarkedPrice(1), 0, Rejection::InvalidForStage);

    let mut state = five_players();
    accept(&mut state, 0, ActionInput::PlayCard(FREE), 0);
    reject(
        &mut state,
        1,
        ActionInput::BidOptional(BidOptionalInner::Bid(5)),
        0,
        Rejection::InvalidForStage,
    );
    reject(
        &mut state,
        0,
        ActionInput::MarkedReaction(MarkedReactionInner::Accept),
        0,
        Rejection::InvalidForStage,
    );
}

#[test]
fn a_bid_needs_more_money_than_it_offers_before_anything_else() {
    let mut state = five_players();
    accept(&mut state, 0, ActionInput::PlayCard(CIRCLE), 0);
    reject(&mut state, 1, ActionInput::Bid(100), 0, Rejection::InsufficientFunds);
    reject(&mut state, 1, ActionInput::Bid(99), 0, Rejection::InvalidForStage);
    reject(&mut state, 5, ActionInput::Bid(1), 0, Rejection::UnknownPlayer);
}

#[test]
fn free_bid_must_beat_the_highest_and_be_covered() {
    let mut state = five_players();
    accept(&mut state, 0, ActionInput::PlayCard(FREE), 10);
    reject(&mut state, 1, ActionInput::Bid(0), 10, Rejection::BidTooLow);
    accept(&mut state, 1, ActionInput::Bid(1), 10);
    reject(&mut state, 2, ActionInput::Bid(1), 10, Rejection::BidTooLow);
    reject(&mut state, 2, ActionInput::Bid(100), 10, Rejection::InsufficientFunds);
    reject(&mut state, 2, ActionInput::Bid(4_000_000_000), 10, Rejection::InsufficientFunds);
    reject(&mut state, 9, ActionInput::Bid(50), 10, Rejection::UnknownPlayer);
    accept(&mut state, 2, ActionInput::Bid(99), 10);
    assert_eq!(
        state.stage,
        GameStage::AuctionInAction {
            state: AuctionState::Free { host: 0, highest: (2, 99), time_end: 13, calls: 0 },
            target: AuctionTarget::Single((0, Card {
                color: CardColor::Purple,
                ty: AuctionType::Free,
                id: FREE,
            })),
        }
    );
}

#[test]
fn a_bid_in_a_free_auction_starts_the_calls_anew() {
    let mut state = five_players();
    accept(&mut state, 0, ActionInput::PlayCard(FREE), 0);
    accept(&mut state, 0, ActionInput::Call, 3);
    accept(&mut state, 0, ActionInput::Call, 6);
    accept(&mut state, 4, ActionInput::Bid(10), 7);
    match &state.stage {
        GameStage::AuctionInAction { state: AuctionState::Free { calls, time_end, highest, .. }, .. } => {
            assert_eq!(*calls, 0);
            assert_eq!(*time_end, 10);
            assert_eq!(*highest, (4, 10));
        }
        other => panic!("unexpected stage {other:?}"),
    }
    reject(&mut state, 0, ActionInput::Call, 9, Rejection::CalledTooEarly);
    reject(&mut state, 4, ActionInput::Call, 20, Rejection::TurnViolation);
    accept(&mut state, 0, ActionInput::Call, 10);
    accept(&mut state, 0, ActionInput::Call, 13);
    accept(&mut state, 0, ActionInput::Call, 16);
    assert_eq!(state.money, vec![110, 100, 100, 100, 90]);
    assert_eq!(state.stage, GameStage::WaitingForNextCard(1));
}

#[test]
fn free_auction_without_a_bid_leaves_the_card_with_the_host() {
    let mut state = five_players();
    state.stage = GameStage::WaitingForNextCard(3);
    accept(&mut state, 3, ActionInput::PlayCard(30 + FREE), 100);
    accept(&mut state, 3, ActionInput::Call, 103);
    accept(&mut state, 3, ActionInput::Call, 106);
    accept(&mut state, 3, ActionInput::Call, 109);
    assert_eq!(state.money, vec![100, 100, 100, 100, 100]);
    assert_eq!(state.owned_cards[3].len(), 1);
    assert_eq!(state.stage, GameStage::WaitingForNextCard(4));
}

#[test]
fn circle_auction_goes_round_to_the_starter() {
    let mut state = five_players();
    state.stage = GameStage::WaitingForNextCard(3);
    let sold = state.deck[3][1];
    accept(&mut state, 3, ActionInput::PlayCard(30 + CIRCLE), 0);
    assert_eq!(
        state.stage,
        GameStage::AuctionInAction {
            state: AuctionState::Circle { starter: 3, current_player: 4, highest: (3, 0) },
            target: AuctionTarget::Single((3, sold)),
        }
    );
    reject(
        &mut state,
        0,
        ActionInput::BidOptional(BidOptionalInner::Bid(10)),
        0,
        Rejection::TurnViolation,
    );
    reject(
        &mut state,
        3,
        ActionInput::BidOptional(BidOptionalInner::Pass),
        0,
        Rejection::TurnViolation,
    );
    accept(&mut state, 4, ActionInput::BidOptional(BidOptionalInner::Bid(10)), 0);
    accept(&mut state, 0, ActionInput::BidOptional(BidOptionalInner::Pass), 0);
    reject(
        &mut state,
        1,
        ActionInput::BidOptional(BidOptionalInner::Bid(9)),
        0,
        Rejection::BidTooLow,
    );
    accept(&mut state, 1, ActionInput::BidOptional(BidOptionalInner::Bid(10)), 0);
    accept(&mut state, 2, ActionInput::BidOptional(BidOptionalInner::Bid(25)), 0);
    assert_eq!(
        state.stage,
        GameStage::AuctionInAction {
            state: AuctionState::Circle { starter: 3, current_player: 3, highest: (2, 25) },
            target: AuctionTarget::Single((3, sold)),
        }
    );
    accept(&mut state, 3, ActionInput::BidOptional(BidOptionalInner::Pass), 0);
    assert_eq!(state.money, vec![100, 100, 75, 125, 100]);
    assert_eq!(state.owned_cards[2], vec![sold]);
    assert_eq!(state.stage, GameStage::WaitingForNextCard(4));
}

#[test]
fn circle_starter_may_raise_and_send_the_turn_round_again() {
    let mut state = five_players();
    accept(&mut state, 0, ActionInput::PlayCard(CIRCLE), 0);
    for seat in 1..5 {
        accept(&mut state, seat, ActionInput::BidOptional(BidOptionalInner::Pass), 0);
    }
    accept(&mut state, 0, ActionInput::BidOptional(BidOptionalInner::Bid(7)), 0);
    match &state.stage {
        GameStage::AuctionInAction { state: AuctionState::Circle { current_player, highest, .. }, .. } => {
            assert_eq!(*current_player, 1);
            assert_eq!(*highest, (0, 7));
        }
        other => panic!("unexpected stage {other:?}"),
    }
    for seat in 1..5 {
        accept(&mut state, seat, ActionInput::BidOptional(BidOptionalInner::Pass), 0);
    }
    accept(&mut state, 0, ActionInput::BidOptional(BidOptionalInner::Pass), 0);
    assert_eq!(state.money, vec![100, 100, 100, 100, 100]);
    assert_eq!(state.owned_cards[0].len(), 1);
    assert_eq!(state.stage, GameStage::WaitingForNextCard(1));
}

#[test]
fn circle_sale_is_rejected_when_the_highest_bid_cannot_be_paid() {
    let mut state = five_players();
    accept(&mut state, 0, ActionInput::PlayCard(CIRCLE), 0);
    accept(&mut state, 1, ActionInput::BidOptional(BidOptionalInner::Bid(101)), 0);
    for seat in 2..5 {
        accept(&mut state, seat, ActionInput::BidOptional(BidOptionalInner::Pass), 0);
    }
    reject(
        &mut state,
        0,
        ActionInput::BidOptional(BidOptionalInner::Pass),
        0,
        Rejection::InsufficientFunds,
    );
    accept(&mut state, 0, ActionInput::BidOptional(BidOptionalInner::Bid(101)), 0);
    for seat in 1..5 {
        accept(&mut state, seat, ActionInput::BidOptional(BidOptionalInner::Pass), 0);
    }
    accept(&mut state, 0, ActionInput::BidOptional(BidOptionalInner::Pass), 0);
    assert_eq!(state.money, vec![100, 100, 100, 100, 100]);
    assert_eq!(state.owned_cards[0].len(), 1);
}

#[test]
fn circle_bid_of_the_whole_balance_is_paid() {
    let mut state = five_players();
    accept(&mut state, 0, ActionInput::PlayCard(CIRCLE), 0);
    accept(&mut state, 1, ActionInput::BidOptional(BidOptionalInner::Bid(100)), 0);
    for seat in 2..5 {
        accept(&mut state, seat, ActionInput::BidOptional(BidOptionalInner::Pass), 0);
    }
    accept(&mut state, 0, ActionInput::BidOptional(BidOptionalInner::Pass), 0);
    assert_eq!(state.money, vec![200, 0, 100, 100, 100]);
}

#[test]
fn marked_price_must_be_set_by_the_starter_and_be_covered() {
    let mut state = five_players();
    accept(&mut state, 0, ActionInput::PlayCard(MARKED), 0);
    reject(&mut state, 1, ActionInput::AssignMarkedPrice(10), 0, Rejection::TurnViolation);
    reject(&mut state, 0, ActionInput::AssignMarkedPrice(100), 0, Rejection::InsufficientFunds);
    accept(&mut state, 0, ActionInput::AssignMarkedPrice(99), 0);
    reject(
        &mut state,
        2,
        ActionInput::MarkedReaction(MarkedReactionInner::Accept),
        0,
        Rejection::TurnViolation,
    );
    accept(&mut state, 1, ActionInput::MarkedReaction(MarkedReactionInner::Accept), 0);
    assert_eq!(state.money, vec![199, 1, 100, 100, 100]);
}

#[test]
fn marked_card_that_nobody_accepts_stays_with_the_setter_for_nothing() {
    let mut state = five_players();
    state.stage = GameStage::WaitingForNextCard(2);
    let sold = state.deck[2][3];
    accept(&mut state, 2, ActionInput::PlayCard(20 + MARKED), 0);
    accept(&mut state, 2, ActionInput::AssignMarkedPrice(60), 0);
    for seat in [3usize, 4, 0, 1] {
        accept(&mut state, seat, ActionInput::MarkedReaction(MarkedReactionInner::Pass), 0);
    }
    assert_eq!(
        state.stage,
        GameStage::AuctionInAction {
            state: AuctionState::Marked { price: (2, 60), current: 2 },
            target: AuctionTarget::Single((2, sold)),
        }
    );
    accept(&mut state, 2, ActionInput::MarkedReaction(MarkedReactionInner::Pass), 0);
    assert_eq!(state.money, vec![100, 100, 100, 100, 100]);
    assert_eq!(state.owned_cards[2], vec![sold]);
    assert_eq!(state.stage, GameStage::WaitingForNextCard(3));
}

#[test]
fn double_card_waits_for_a_second_card_of_its_colour() {
    let mut state = five_players();
    // Player 1 holds a second purple card to go with player 0's double card.
    state.deck[1].push(card(60, CardColor::Purple, AuctionType::Fist));
    state.deck[1].push(card(61, CardColor::Purple, AuctionType::Double));
    let double = state.deck[0][4];
    accept(&mut state, 0, ActionInput::PlayCard(DOUBLE), 0);
    assert_eq!(
        state.stage,
        GameStage::WaitingForDoubleTarget { double_card: (0, double), current: 1 }
    );
    reject(
        &mut state,
        2,
        ActionInput::PlayCardOptional(PlayCardOptionalInner::Pass),
        0,
        Rejection::TurnViolation,
    );
    reject(
        &mut state,
        1,
        ActionInput::PlayCardOptional(PlayCardOptionalInner::Play(999)),
        0,
        Rejection::NoSuchCard,
    );
    reject(
        &mut state,
        1,
        ActionInput::PlayCardOptional(PlayCardOptionalInner::Play(10 + FREE)),
        0,
        Rejection::ColorMismatch,
    );
    reject(
        &mut state,
        1,
        ActionInput::PlayCardOptional(PlayCardOptionalInner::Play(61)),
        0,
        Rejection::NestedDoubleForbidden,
    );
    reject(
        &mut state,
        1,
        ActionInput::PlayCardOptional(PlayCardOptionalInner::Play(10 + DOUBLE)),
        0,
        Rejection::ColorMismatch,
    );
    accept(&mut state, 1, ActionInput::PlayCardOptional(PlayCardOptionalInner::Play(60)), 0);
    let target = AuctionTarget::Double {
        double_card: (0, double),
        target_card: (1, card(60, CardColor::Purple, AuctionType::Fist)),
    };
    assert_eq!(
        state.stage,
        GameStage::AuctionInAction {
            state: AuctionState::Fist {
                host: 1,
                bids: vec![0; 5],
                action_taken: vec![false; 5],
            },
            target,
        }
    );
    for (seat, bid) in [(0usize, 0u32), (1, 0), (2, 3), (3, 44), (4, 0)] {
        accept(&mut state, seat, ActionInput::Bid(bid), 0);
    }
    accept(&mut state, 1, ActionInput::Call, 0);
    assert_eq!(
        state.owned_cards[3],
        vec![double, card(60, CardColor::Purple, AuctionType::Fist)]
    );
    assert_eq!(state.money, vec![100, 144, 100, 56, 100]);
    assert_eq!(state.stage, GameStage::WaitingForNextCard(2));
}

#[test]
fn double_card_with_a_marked_second_card_waits_for_the_price() {
    let mut state = five_players();
    state.deck[2].push(card(62, CardColor::Purple, AuctionType::Marked));
    let double = state.deck[0][4];
    accept(&mut state, 0, ActionInput::PlayCard(DOUBLE), 0);
    accept(&mut state, 1, ActionInput::PlayCardOptional(PlayCardOptionalInner::Pass), 0);
    accept(&mut state, 2, ActionInput::PlayCardOptional(PlayCardOptionalInner::Play(62)), 0);
    let target = AuctionTarget::Double {
        double_card: (0, double),
        target_card: (2, card(62, CardColor::Purple, AuctionType::Marked)),
    };
    assert_eq!(state.stage, GameStage::WaitingForMarkedPrice { starter: 2, target });
    reject(&mut state, 0, ActionInput::AssignMarkedPrice(5), 0, Rejection::TurnViolation);
    accept(&mut state, 2, ActionInput::AssignMarkedPrice(5), 0);
    accept(&mut state, 3, ActionInput::MarkedReaction(MarkedReactionInner::Accept), 0);
    assert_eq!(state.money, vec![100, 100, 105, 95, 100]);
    assert_eq!(state.owned_cards[3].len(), 2);
    assert_eq!(state.stage, GameStage::WaitingForNextCard(3));
}

#[test]
fn double_card_that_nobody_adds_to_goes_to_its_player_for_nothing() {
    let mut state = five_players();
    state.stage = GameStage::WaitingForNextCard(3);
    let double = state.deck[3][4];
    accept(&mut state, 3, ActionInput::PlayCard(30 + DOUBLE), 0);
    for (seat, next) in [(4usize, 0usize), (0, 1), (1, 2)] {
        accept(&mut state, seat, ActionInput::PlayCardOptional(PlayCardOptionalInner::Pass), 0);
        assert_eq!(
            state.stage,
            GameStage::WaitingForDoubleTarget { double_card: (3, double), current: next }
        );
    }
    accept(&mut state, 2, ActionInput::PlayCardOptional(PlayCardOptionalInner::Pass), 0);
    assert_eq!(state.owned_cards[3], vec![double]);
    assert_eq!(state.money, vec![100, 100, 100, 100, 100]);
    assert_eq!(state.stage, GameStage::WaitingForNextCard(4));
}

#[test]
fn a_card_played_when_a_colour_is_complete_leaves_without_a_sale() {
    let mut state = five_players();
    for i in 0..5 {
        state.owned_cards[i % 2].push(card(100 + i, CardColor::Green, AuctionType::Free));
    }
    let before = state.clone();
    accept(&mut state, 0, ActionInput::PlayCard(FREE), 0);
    assert_eq!(state.stage, GameStage::WaitingForNextCard(0));
    assert_eq!(state.deck[0].len(), 4);
    assert!(state.deck[0].iter().all(|c| c.id != FREE));
    assert_eq!(state.owned_cards, before.owned_cards);
    assert_eq!(state.money, before.money);

    // Six of a colour is not five: the game goes on.
    state.owned_cards[4].push(card(105, CardColor::Green, AuctionType::Free));
    accept(&mut state, 0, ActionInput::PlayCard(CIRCLE), 0);
    assert!(matches!(state.stage, GameStage::AuctionInAction { .. }));
}

#[test]
fn an_accepted_action_never_changes_the_sum_of_the_balances() {
    let mut state = five_players();
    let moves: Vec<(usize, ActionInput, u64)> = vec![
        (0, ActionInput::PlayCard(FREE), 0),
        (1, ActionInput::Bid(10), 1),
        (2, ActionInput::Bid(55), 2),
        (0, ActionInput::Call, 5),
        (0, ActionInput::Call, 8),
        (0, ActionInput::Call, 11),
        (1, ActionInput::PlayCard(10 + MARKED), 12),
        (1, ActionInput::AssignMarkedPrice(80), 12),
        (2, ActionInput::MarkedReaction(MarkedReactionInner::Accept), 12),
        (2, ActionInput::MarkedReaction(MarkedReactionInner::Pass), 12),
        (3, ActionInput::MarkedReaction(MarkedReactionInner::Accept), 12),
        (2, ActionInput::PlayCard(20 + CIRCLE), 13),
        (3, ActionInput::BidOptional(BidOptionalInner::Bid(19)), 13),
        (4, ActionInput::BidOptional(BidOptionalInner::Pass), 13),
        (0, ActionInput::BidOptional(BidOptionalInner::Bid(150)), 13),
        (1, ActionInput::BidOptional(BidOptionalInner::Pass), 13),
        (2, ActionInput::BidOptional(BidOptionalInner::Pass), 13),
    ];
    for (from, input, now) in moves {
        let _ = state.process_input_at(from, input, now);
        assert!(state.is_well_formed());
        assert_eq!(state.money.iter().map(|m| *m as u64).sum::<u64>(), 500);
    }
    assert_eq!(state.money, vec![5, 180, 195, 20, 100]);
}

fn free_deadline(state: &GameState) -> u64 {
    match &state.stage {
        GameStage::AuctionInAction { state: AuctionState::Free { time_end, .. }, .. } => *time_end,
        other => panic!("unexpected stage {other:?}"),
    }
}

#[test]
fn a_clock_counts_the_seconds_since_it_was_started() {
    let mut clock = Clock::start();
    let first = clock.now();
    assert!(first < 5);
    let mut last = first;
    for _ in 0..1000 {
        let next = clock.now();
        assert!(next >= last);
        last = next;
    }
    while clock.now() < 1 {
        std::hint::spin_loop();
    }
    assert!(clock.now() >= 1);
    assert!(clock.now() < 10);
}

#[test]
fn process_input_reads_the_clock_of_the_room_for_a_free_auction() {
    let mut clock = Clock::start();
    let mut state = five_players();
    assert_eq!(state.process_input(0, ActionInput::PlayCard(FREE), &mut clock), Ok(None));
    let deadline = free_deadline(&state);
    assert!(deadline >= 3);
    assert!(deadline < 10);
    // The deadline is counted from a time that the clock has shown.
    assert!(deadline <= clock.now() + 3);
    let before = state.clone();
    assert_eq!(
        state.process_input(0, ActionInput::Call, &mut clock),
        Err(Rejection::CalledTooEarly)
    );
    assert_eq!(state, before);
    assert_eq!(state.process_input(3, ActionInput::Bid(12), &mut clock), Ok(None));
    assert!(free_deadline(&state) >= deadline);
    assert!(free_deadline(&state) < 10);

    // Once the clock has come to the deadline, the host may call.
    let deadline = free_deadline(&state);
    while clock.now() < deadline {
        std::hint::spin_loop();
    }
    assert_eq!(state.process_input(0, ActionInput::Call, &mut clock), Ok(None));
    match &state.stage {
        GameStage::AuctionInAction {
            state: AuctionState::Free { time_end, highest, calls, .. },
            ..
        } => {
            assert!(*time_end >= deadline + 3);
            assert_eq!(*highest, (3, 12));
            assert_eq!(*calls, 1);
        }
        other => panic!("unexpected stage {other:?}"),
    }
    assert_eq!(
        state.process_input(0, ActionInput::Call, &mut clock),
        Err(Rejection::CalledTooEarly)
    );
}

#[test]
fn process_input_needs_no_clock_where_the_rules_ask_for_no_time() {
    let mut clock = Clock::start();
    let mut state = five_players();
    assert!(state.consults_clock(&ActionInput::PlayCard(MARKED)));
    assert_eq!(state.process_input(0, ActionInput::PlayCard(MARKED), &mut clock), Ok(None));
    assert!(!state.consults_clock(&ActionInput::AssignMarkedPrice(10)));
    assert_eq!(
        state.process_input(0, ActionInput::AssignMarkedPrice(10), &mut clock),
        Ok(None)
    );
    assert!(!state.consults_clock(&ActionInput::Call));
    let accept = ActionInput::MarkedReaction(MarkedReactionInner::Accept);
    assert_eq!(state.process_input(1, accept, &mut clock), Ok(None));
    assert_eq!(state.money, vec![110, 90, 100, 100, 100]);
}
