//! Setting a game up: seating the players and dealing the cards.

use vstd::prelude::*;
use crate::card::Card;
use crate::deck::{
    card_list, catalog, deal_hands, deal_with, lemma_catalog_distinct, lemma_empty_to_multiset,
    pick, valid_draws, valid_picks, CATALOG_SIZE,
};
use crate::engine::filled;
use crate::game_state::{hands_view, GameStage, GameState, SpecStage, START_MONEY};
use crate::partition::{all_cards, lemma_all_cards_empty, lemma_all_cards_push};
use crate::player::{roster_view, Player, SpecPlayer};
use crate::purse::{total, Money};

verus! {

/// Each player is dealt this many cards less one for every player.
pub const HAND_BASE: usize = 13;

/// The players of a new game: in the order given, numbered from 0, and not
/// yet connected.
pub open spec fn seated(players: Seq<(String, String)>) -> Seq<SpecPlayer> {
    Seq::new(
        players.len(),
        |i: int|
            SpecPlayer { uuid: players[i].0@, id: i as usize, name: players[i].1@, connected: false },
    )
}

/// When every balance is the same, the balances together are so many times
/// that balance.
pub proof fn lemma_total_of_equal(money: Seq<Money>, each: Money)
    requires
        forall|i: int| 0 <= i < money.len() ==> #[trigger] money[i] == each,
    ensures
        total(money) == money.len() * each,
    decreases money.len(),
{
    if money.len() > 0 {
        lemma_total_of_equal(money.drop_last(), each);
        assert(money.len() * each == (money.len() - 1) * each + each) by (nonlinear_arith);
    }
}

/// Seats the players given by token and name.
fn seat_players(players: &Vec<(String, String)>) -> (roster: Vec<Player>)
    ensures
        roster_view(roster@) == seated(players@),
        roster.len() == players.len(),
{
    let mut roster: Vec<Player> = Vec::new();
    let mut i: usize = 0;
    while i < players.len()
        invariant
            i <= players.len(),
            roster.len() == i,
            forall|j: int| 0 <= j < i ==> (#[trigger] roster@[j])@ == seated(players@)[j],
        decreases players.len() - i,
    {
        roster.push(
            Player {
                uuid: players[i].0.clone(),
                id: i,
                name: players[i].1.clone(),
                connected: false,
            },
        );
        i = i + 1;
    }
    roster
}

/// As many empty piles as there are players.
fn empty_piles(count: usize) -> (piles: Vec<Vec<Card>>)
    ensures
        hands_view(piles@) == Seq::new(count as nat, |i: int| Seq::<Card>::empty()),
{
    let mut piles: Vec<Vec<Card>> = Vec::new();
    let mut i: usize = 0;
    while i < count
        invariant
            i <= count,
            piles.len() == i,
            forall|j: int| 0 <= j < i ==> (#[trigger] piles@[j])@ == Seq::<Card>::empty(),
        decreases count - i,
    {
        piles.push(Vec::new());
        i = i + 1;
    }
    piles
}

impl GameState {
    /// A game at its beginning for the players given by token and name, with
    /// the hands in `deck` and the cards in `pool` left over: every player
    /// holds the starting money and has won nothing, and the first player
    /// plays the first card.
    pub fn with_deal(
        players: Vec<(String, String)>,
        deck: Vec<Vec<Card>>,
        pool: Vec<Card>,
    ) -> (state: GameState)
        requires
            deck.len() == players.len(),
        ensures
            state@.players == seated(players@),
            state@.deck == hands_view(deck@),
            state@.pool == pool@,
            state@.money == Seq::new(players.len() as nat, |i: int| START_MONEY),
            state@.owned_cards == Seq::new(players.len() as nat, |i: int| Seq::<Card>::empty()),
            state@.stage == SpecStage::WaitingForNextCard(0),
            state@.current_round == 0,
            forall|i: int, j: int| 0 <= i < 5 && 0 <= j < 5 ==> state@.values@[i]@[j] == 0,
            total(state@.money) == players.len() * START_MONEY,
            0 < players.len() && players.len() * START_MONEY <= Money::MAX ==> state.wf(),
    {
        let player_count = players.len();
        let roster = seat_players(&players);
        let money = filled(START_MONEY, player_count);
        let owned_cards = empty_piles(player_count);
        proof {
            lemma_total_of_equal(money@, START_MONEY);
        }
        GameState {
            players: roster,
            deck,
            owned_cards,
            money,
            stage: GameStage::WaitingForNextCard(0),
            current_round: 0,
            values: [
                [0, 0, 0, 0, 0],
                [0, 0, 0, 0, 0],
                [0, 0, 0, 0, 0],
                [0, 0, 0, 0, 0],
                [0, 0, 0, 0, 0],
            ],
            pool,
        }
    }

    /// A new game for the players given by token and name: the cards of the
    /// catalogue are dealt at random, to each player `HAND_BASE` less the
    /// number of players, and the rest is the pool.
    pub fn new(players: Vec<(String, String)>) -> (state: GameState)
        requires
            players.len() <= HAND_BASE,
        ensures
            state@.players == seated(players@),
            exists|draws: Seq<Seq<int>>|
                {
                    &&& draws.len() == players.len()
                    &&& valid_draws(
                        CATALOG_SIZE as nat,
                        (HAND_BASE - players.len()) as nat,
                        draws,
                    )
                    &&& (state@.deck, state@.pool) == #[trigger] deal_hands(catalog(), draws)
                },
            state@.deck.len() == players.len(),
            forall|i: int|
                0 <= i < players.len() ==> (#[trigger] state@.deck[i]).len() == HAND_BASE
                    - players.len(),
            state@.pool.len() == CATALOG_SIZE - players.len() * (HAND_BASE - players.len()),
            all_cards(state@.deck).add(state@.pool.to_multiset()) == catalog().to_multiset(),
            state@.universe() == catalog().to_multiset(),
            state@.is_partition(),
            state@.money == Seq::new(players.len() as nat, |i: int| START_MONEY),
            total(state@.money) == players.len() * START_MONEY,
            state@.owned_cards == Seq::new(players.len() as nat, |i: int| Seq::<Card>::empty()),
            state@.stage == SpecStage::WaitingForNextCard(0),
            state@.current_round == 0,
            forall|i: int, j: int| 0 <= i < 5 && 0 <= j < 5 ==> state@.values@[i]@[j] == 0,
            players.len() > 0 ==> state.wf(),
    {
        let player_count = players.len();
        let hand_size = HAND_BASE - player_count;
        let mut pool = card_list();
        let mut deck: Vec<Vec<Card>> = Vec::new();
        let mut i: usize = 0;
        let ghost mut draws: Seq<Seq<int>> = Seq::empty();
        proof {
            lemma_empty_to_multiset();
            assert(hands_view(deck@) =~= Seq::<Seq<Card>>::empty());
            assert(all_cards(hands_view(deck@)).add(pool@.to_multiset()) =~= catalog().to_multiset());
        }
        while i < player_count
            invariant
                i <= player_count <= HAND_BASE,
                hand_size == HAND_BASE - player_count,
                deck.len() == i,
                draws.len() == i,
                valid_draws(CATALOG_SIZE as nat, hand_size as nat, draws),
                (hands_view(deck@), pool@) == deal_hands(catalog(), draws),
                pool.len() == CATALOG_SIZE - i * hand_size,
                forall|j: int| 0 <= j < i ==> (#[trigger] hands_view(deck@)[j]).len() == hand_size,
                all_cards(hands_view(deck@)).add(pool@.to_multiset()) == catalog().to_multiset(),
            decreases player_count - i,
        {
            assert((i + 1) * hand_size <= CATALOG_SIZE) by (nonlinear_arith)
                requires
                    i < player_count <= HAND_BASE,
                    hand_size == HAND_BASE - player_count,
                    HAND_BASE == 13,
                    CATALOG_SIZE == 70,
            ;
            assert((i + 1) * hand_size == i * hand_size + hand_size) by (nonlinear_arith);
            let ghost hands_before = hands_view(deck@);
            let ghost pool_before = pool@;
            let hand = pick(&mut pool, hand_size);
            proof {
                let picks = choose|picks: Seq<int>|
                    {
                        &&& picks.len() == hand_size
                        &&& valid_picks(pool_before.len(), picks)
                        &&& (pool@, hand@) == #[trigger] deal_with(
                            pool_before,
                            Seq::empty(),
                            picks,
                        )
                    };
                let longer = draws.push(picks);
                assert(longer.drop_last() =~= draws);
                assert forall|j: int| 0 <= j < longer.len() implies (#[trigger] longer[j]).len()
                    == hand_size && valid_picks(
                    (CATALOG_SIZE - j * hand_size) as nat,
                    longer[j],
                ) by {
                    if j < draws.len() {
                        assert(longer[j] == draws[j]);
                    }
                }
                draws = longer;
                lemma_all_cards_push(hands_before, hand@);
                assert(hands_view(deck@.push(hand)) =~= hands_before.push(hand@));
                assert(all_cards(hands_before.push(hand@)).add(pool@.to_multiset())
                    =~= all_cards(hands_before).add(pool_before.to_multiset()));
            }
            deck.push(hand);
            i = i + 1;
        }
        let state = GameState::with_deal(players, deck, pool);
        proof {
            lemma_all_cards_empty(state@.owned_cards);
            lemma_empty_to_multiset();
            lemma_catalog_distinct();
            assert(state@.universe() =~= catalog().to_multiset());
        }
        state
    }
}

} // verus!
