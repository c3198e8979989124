use mart::card::{AuctionType, Card};
use mart::game_state::{AuctionState, AuctionTarget, GameStage, GameState};
use mart::input::{ActionInput, BidOptionalInner, MarkedReactionInner, PlayCardOptionalInner};

fn roster(count: usize) -> Vec<(String, String)> {
    (0..count).map(|i| (format!("token-{i}"), format!("Player{i}"))).collect()
}

fn stage_cards(stage: &GameStage) -> Vec<Card> {
    let of_target = |target: &AuctionTarget| match target {
        AuctionTarget::Single(card) => vec![card.1],
        AuctionTarget::Double { double_card, target_card } => vec![double_card.1, target_card.1],
    };
    match stage {
        GameStage::WaitingForNextCard(_) => vec![],
        GameStage::WaitingForDoubleTarget { double_card, .. } => vec![double_card.1],
        GameStage::WaitingForMarkedPrice { target, .. } => of_target(target),
        GameStage::AuctionInAction { target, .. } => of_target(target),
    }
}

fn all_cards(state: &GameState) -> Vec<Card> {
    let mut cards = state.pool.clone();
    for hand in &state.deck {
        cards.extend(hand.iter().copied());
    }
    for pile in &state.owned_cards {
        cards.extend(pile.iter().copied());
    }
    cards.extend(stage_cards(&state.stage));
    cards.sort_by_key(|c| c.id);
    cards
}

/// What the player whose turn it is does: the plainest thing that moves the
/// game on.
fn next_move(state: &GameState, now: u64) -> Option<(usize, ActionInput)> {
    match &state.stage {
        GameStage::WaitingForNextCard(player) => {
            let hand = &state.deck[*player];
            hand.first().map(|card| (*player, ActionInput::PlayCard(card.id)))
        }
        GameStage::WaitingForDoubleTarget { double_card, current } => {
            let fitting = state.deck[*current]
                .iter()
                .find(|c| c.color == double_card.1.color && c.ty != AuctionType::Double);
            Some(match fitting {
                Some(card) if card.id % 2 == 0 => (
                    *current,
                    ActionInput::PlayCardOptional(PlayCardOptionalInner::Play(card.id)),
                ),
                _ => (*current, ActionInput::PlayCardOptional(PlayCardOptionalInner::Pass)),
            })
        }
        GameStage::WaitingForMarkedPrice { starter, .. } => {
            Some((*starter, ActionInput::AssignMarkedPrice(state.money[*starter] / 3)))
        }
        GameStage::AuctionInAction { state: auction, .. } => Some(match auction {
            AuctionState::Free { host, highest, time_end, .. } => {
                let bidder = (*host + 2) % state.players.len();
                if highest.1 == 0 && state.money[bidder] > 7 {
                    (bidder, ActionInput::Bid(7))
                } else {
                    assert!(now >= *time_end);
                    (*host, ActionInput::Call)
                }
            }
            AuctionState::Circle { starter, current_player, highest } => {
                if current_player == starter {
                    (*current_player, ActionInput::BidOptional(BidOptionalInner::Pass))
                } else if state.money[*current_player] > highest.1 + 1 && current_player % 2 == 1 {
                    (
                        *current_player,
                        ActionInput::BidOptional(BidOptionalInner::Bid(highest.1 + 1)),
                    )
                } else {
                    (*current_player, ActionInput::BidOptional(BidOptionalInner::Pass))
                }
            }
            AuctionState::Fist { host, action_taken, .. } => {
                match action_taken.iter().position(|taken| !taken) {
                    Some(seat) => (seat, ActionInput::Bid(state.money[seat] / 4)),
                    None => (*host, ActionInput::Call),
                }
            }
            AuctionState::Marked { current, price } => {
                if price.0 != *current && state.money[*current] > price.1 && current % 2 == 0 {
                    (*current, ActionInput::MarkedReaction(MarkedReactionInner::Accept))
                } else {
                    (*current, ActionInput::MarkedReaction(MarkedReactionInner::Pass))
                }
            }
        }),
    }
}

#[test]
fn whole_games_keep_the_money_and_the_cards() {
    for count in 2..=6usize {
        for _ in 0..5 {
            let mut state = GameState::new(roster(count));
            let at_first = all_cards(&state);
            assert_eq!(at_first.len(), 70);
            let mut now = 1_000;
            let mut moves = 0;
            while let Some((from, input)) = next_move(&state, now) {
                let before = state.clone();
                assert_eq!(state.process_input_at(from, input, now), Ok(None), "{input:?}");
                now += 3;
                moves += 1;

                assert!(state.is_well_formed());
                assert_eq!(state.players, before.players);
                let sum: u64 = state.money.iter().map(|m| *m as u64).sum();
                assert_eq!(sum, 100 * count as u64);

                // Every card is one that was dealt, and none is in two places.
                let cards = all_cards(&state);
                assert!(cards.windows(2).all(|pair| pair[0].id < pair[1].id));
                assert!(cards.iter().all(|card| at_first[card.id - 1] == *card));
                assert!(cards.len() <= all_cards(&before).len());

                // A hand only loses cards, and cards that were won stay won.
                for seat in 0..count {
                    assert!(state.deck[seat].len() <= before.deck[seat].len());
                    assert!(state.deck[seat].iter().all(|c| before.deck[seat].contains(c)));
                    assert!(state.owned_cards[seat].starts_with(&before.owned_cards[seat]));
                    for won in &state.owned_cards[seat] {
                        assert!(state.deck.iter().all(|hand| !hand.contains(won)));
                    }
                }

                // A sale gives the buyer the cards that were for sale, and nothing else.
                if let GameStage::AuctionInAction { target, .. } = &before.stage {
                    if let GameStage::WaitingForNextCard(_) = &state.stage {
                        let sold = stage_cards(&before.stage);
                        let buyers: Vec<usize> = (0..count)
                            .filter(|s| state.owned_cards[*s] != before.owned_cards[*s])
                            .collect();
                        assert_eq!(buyers.len(), 1);
                        let buyer = buyers[0];
                        let mut expected = before.owned_cards[buyer].clone();
                        expected.extend(sold);
                        assert_eq!(state.owned_cards[buyer], expected);
                        let seller = match target {
                            AuctionTarget::Single(card) => card.0,
                            AuctionTarget::Double { target_card, .. } => target_card.0,
                        };
                        assert_eq!(state.stage, GameStage::WaitingForNextCard((seller + 1) % count));
                    }
                }
                assert!(moves < 5_000);
            }
            // The game stops when the player whose turn it is has no card left.
            assert!(moves > 0);
        }
    }
}
