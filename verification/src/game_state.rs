//! The state of one game: hands, balances, cards won, and the stage that says
//! who has to act next and in what capacity.

use vstd::prelude::*;
use crate::card::{lemma_color_rank_round_trip, lemma_rank_of_rank, Card, CardColor, KINDS};
use crate::player::{copy_roster, roster_view, Player, PlayerID, SpecPlayer};
use crate::purse::{total, Money};

verus! {

/// A card together with the player who played it.
pub type CardPair = (PlayerID, Card);

/// An offer: who made it, and the amount.
pub type MoneyPair = (PlayerID, Money);

/// A point in time, in whole seconds on the clock of the room.
pub type Timestamp = u64;

/// How long the host of a free auction waits after a bid, or after a call,
/// before the next call.
pub const CALL_DELAY: Timestamp = 3;

/// The call that closes a free auction is the one after this many.
pub const CALLS_TO_CLOSE: u8 = 2;

/// What every player starts with.
pub const START_MONEY: Money = 100;

/// A round ends when the cards won in one colour come to this number.
pub const ROUND_LIMIT: u8 = 5;

/// What is for sale.
#[derive(Debug, Clone, Copy, PartialEq, Eq)]
pub enum AuctionTarget {
    Single(CardPair),
    Double { double_card: CardPair, target_card: CardPair },
}

/// The auction that is under way.
#[derive(Debug, PartialEq, Eq)]
pub enum AuctionState {
    /// Anyone bids at any time; the host closes with three calls.
    Free { host: PlayerID, highest: MoneyPair, time_end: Timestamp, calls: u8 },
    /// Players bid or pass in turn, the starter last.
    Circle { starter: PlayerID, current_player: PlayerID, highest: MoneyPair },
    /// Everyone bids in secret; the host calls once all have.
    Fist { host: PlayerID, bids: Vec<Money>, action_taken: Vec<bool> },
    /// The price is fixed; players accept or pass in turn.
    Marked { price: MoneyPair, current: PlayerID },
}

/// What the game waits for.
#[derive(Debug, PartialEq, Eq)]
pub enum GameStage {
    WaitingForNextCard(PlayerID),
    WaitingForDoubleTarget { double_card: CardPair, current: PlayerID },
    WaitingForMarkedPrice { starter: PlayerID, target: AuctionTarget },
    AuctionInAction { state: AuctionState, target: AuctionTarget },
}

/// A game.
#[derive(Debug, PartialEq, Eq)]
pub struct GameState {
    /// The hand of each player.
    pub deck: Vec<Vec<Card>>,
    pub money: Vec<Money>,
    pub players: Vec<Player>,
    /// The cards that each player has won.
    pub owned_cards: Vec<Vec<Card>>,
    pub stage: GameStage,
    pub current_round: usize,
    pub values: [[Money; 5]; 5],
    /// The cards that were not dealt.
    pub pool: Vec<Card>,
}

/// Whether the round is over, and by which colour.
#[derive(Clone, Copy, Debug, PartialEq, Eq)]
pub enum ShouldEnd {
    Yes(CardColor),
    No,
}

/// An auction as contracts speak of one.
pub enum SpecAuction {
    Free { host: PlayerID, highest: MoneyPair, time_end: Timestamp, calls: u8 },
    Circle { starter: PlayerID, current_player: PlayerID, highest: MoneyPair },
    Fist { host: PlayerID, bids: Seq<Money>, action_taken: Seq<bool> },
    Marked { price: MoneyPair, current: PlayerID },
}

/// A stage as contracts speak of one.
pub enum SpecStage {
    WaitingForNextCard(PlayerID),
    WaitingForDoubleTarget { double_card: CardPair, current: PlayerID },
    WaitingForMarkedPrice { starter: PlayerID, target: AuctionTarget },
    AuctionInAction { state: SpecAuction, target: AuctionTarget },
}

/// A game as contracts speak of one.
pub struct SpecGame {
    pub deck: Seq<Seq<Card>>,
    pub money: Seq<Money>,
    pub players: Seq<SpecPlayer>,
    pub owned_cards: Seq<Seq<Card>>,
    pub stage: SpecStage,
    pub current_round: usize,
    pub values: [[Money; 5]; 5],
    pub pool: Seq<Card>,
}

/// The hands of all players as sequences of cards.
pub open spec fn hands_view(hands: Seq<Vec<Card>>) -> Seq<Seq<Card>> {
    Seq::new(hands.len(), |i: int| hands[i]@)
}

impl View for AuctionState {
    type V = SpecAuction;

    open spec fn view(&self) -> SpecAuction {
        match *self {
            AuctionState::Free { host, highest, time_end, calls } => SpecAuction::Free {
                host,
                highest,
                time_end,
                calls,
            },
            AuctionState::Circle { starter, current_player, highest } => SpecAuction::Circle {
                starter,
                current_player,
                highest,
            },
            AuctionState::Fist { host, bids, action_taken } => SpecAuction::Fist {
                host,
                bids: bids@,
                action_taken: action_taken@,
            },
            AuctionState::Marked { price, current } => SpecAuction::Marked { price, current },
        }
    }
}

impl View for GameStage {
    type V = SpecStage;

    open spec fn view(&self) -> SpecStage {
        match *self {
            GameStage::WaitingForNextCard(player) => SpecStage::WaitingForNextCard(player),
            GameStage::WaitingForDoubleTarget { double_card, current } => {
                SpecStage::WaitingForDoubleTarget { double_card, current }
            },
            GameStage::WaitingForMarkedPrice { starter, target } => {
                SpecStage::WaitingForMarkedPrice { starter, target }
            },
            GameStage::AuctionInAction { state, target } => SpecStage::AuctionInAction {
                state: state@,
                target,
            },
        }
    }
}

impl View for GameState {
    type V = SpecGame;

    open spec fn view(&self) -> SpecGame {
        SpecGame {
            deck: hands_view(self.deck@),
            money: self.money@,
            players: roster_view(self.players@),
            owned_cards: hands_view(self.owned_cards@),
            stage: self.stage@,
            current_round: self.current_round,
            values: self.values,
            pool: self.pool@,
        }
    }
}

impl AuctionTarget {
    /// The player who put the target up for sale and is paid for it: with a
    /// pair, the one who played the second card.
    pub open spec fn seller(self) -> PlayerID {
        match self {
            AuctionTarget::Single(card) => card.0,
            AuctionTarget::Double { target_card, .. } => target_card.0,
        }
    }

    /// The cards that the buyer receives, in the order in which they were
    /// played.
    pub open spec fn cards(self) -> Seq<Card> {
        match self {
            AuctionTarget::Single(card) => seq![card.1],
            AuctionTarget::Double { double_card, target_card } => seq![double_card.1, target_card.1],
        }
    }

    /// Every player that the target names has a seat among `n` players.
    pub open spec fn seated(self, n: nat) -> bool {
        match self {
            AuctionTarget::Single(card) => card.0 < n,
            AuctionTarget::Double { double_card, target_card } => double_card.0 < n
                && target_card.0 < n,
        }
    }
}

/// How many of the cards have the colour.
pub open spec fn count_color(cards: Seq<Card>, color: CardColor) -> nat
    decreases cards.len(),
{
    if cards.len() == 0 {
        0
    } else {
        count_color(cards.drop_last(), color) + if cards.last().color == color {
            1nat
        } else {
            0nat
        }
    }
}

/// How many cards of the colour the players have won between them.
pub open spec fn color_total(owned: Seq<Seq<Card>>, color: CardColor) -> nat
    decreases owned.len(),
{
    if owned.len() == 0 {
        0
    } else {
        color_total(owned.drop_last(), color) + count_color(owned.last(), color)
    }
}

/// The colour that ends the round: the first, in the order of rarity, of
/// which exactly `ROUND_LIMIT` cards have been won.
pub open spec fn ending_color(owned: Seq<Seq<Card>>) -> Option<CardColor> {
    if color_total(owned, CardColor::Purple) == ROUND_LIMIT {
        Some(CardColor::Purple)
    } else if color_total(owned, CardColor::Blue) == ROUND_LIMIT {
        Some(CardColor::Blue)
    } else if color_total(owned, CardColor::Red) == ROUND_LIMIT {
        Some(CardColor::Red)
    } else if color_total(owned, CardColor::Green) == ROUND_LIMIT {
        Some(CardColor::Green)
    } else if color_total(owned, CardColor::Yellow) == ROUND_LIMIT {
        Some(CardColor::Yellow)
    } else {
        None
    }
}

impl SpecAuction {
    /// The player who runs the auction.
    pub open spec fn auctioneer(self) -> PlayerID {
        match self {
            SpecAuction::Free { host, .. } => host,
            SpecAuction::Circle { starter, .. } => starter,
            SpecAuction::Fist { host, .. } => host,
            SpecAuction::Marked { price, .. } => price.0,
        }
    }

    /// The auction fits a game of `money.len()` players: every player it
    /// names has a seat, a fist auction has a slot for each player, and no
    /// standing offer of a free, fist or marked auction exceeds what its
    /// maker holds.
    pub open spec fn wf(self, money: Seq<Money>) -> bool {
        let n = money.len();
        match self {
            SpecAuction::Free { host, highest, calls, .. } => {
                &&& host < n
                &&& highest.0 < n
                &&& highest.1 <= money[highest.0 as int]
                &&& calls <= CALLS_TO_CLOSE
            },
            SpecAuction::Circle { starter, current_player, highest } => {
                &&& starter < n
                &&& current_player < n
                &&& highest.0 < n
            },
            SpecAuction::Fist { host, bids, action_taken } => {
                &&& host < n
                &&& bids.len() == n
                &&& action_taken.len() == n
                &&& forall|i: int| 0 <= i < n ==> #[trigger] bids[i] <= money[i]
            },
            SpecAuction::Marked { price, current } => {
                &&& current < n
                &&& price.0 < n
                &&& price.1 <= money[price.0 as int]
            },
        }
    }
}

impl SpecStage {
    /// The stage fits a game of `money.len()` players, and whoever runs the
    /// sale is the seller of what is sold.
    pub open spec fn wf(self, money: Seq<Money>) -> bool {
        let n = money.len();
        match self {
            SpecStage::WaitingForNextCard(player) => player < n,
            SpecStage::WaitingForDoubleTarget { double_card, current } => {
                &&& double_card.0 < n
                &&& current < n
            },
            SpecStage::WaitingForMarkedPrice { starter, target } => {
                &&& starter < n
                &&& target.seated(n)
                &&& target.seller() == starter
            },
            SpecStage::AuctionInAction { state, target } => {
                &&& target.seated(n)
                &&& state.wf(money)
                &&& state.auctioneer() == target.seller()
            },
        }
    }
}

impl SpecStage {
    /// Whether the stage waits for an action of the player: of the one whose
    /// turn it is, and of everyone during a free or a fist auction.
    pub open spec fn awaits(self, player_id: PlayerID) -> bool {
        match self {
            SpecStage::WaitingForNextCard(next) => player_id == next,
            SpecStage::WaitingForDoubleTarget { current, .. } => player_id == current,
            SpecStage::WaitingForMarkedPrice { starter, .. } => player_id == starter,
            SpecStage::AuctionInAction { state, .. } => match state {
                SpecAuction::Free { .. } => true,
                SpecAuction::Circle { current_player, .. } => player_id == current_player,
                SpecAuction::Fist { .. } => true,
                SpecAuction::Marked { current, .. } => player_id == current,
            },
        }
    }
}

impl GameStage {
    /// Whether the stage waits for an action of the player.
    pub fn is_player_active(&self, player_id: PlayerID) -> (active: bool)
        ensures
            active == self@.awaits(player_id),
    {
        match self {
            GameStage::WaitingForNextCard(next) => player_id == *next,
            GameStage::WaitingForDoubleTarget { current, .. } => player_id == *current,
            GameStage::WaitingForMarkedPrice { starter, .. } => player_id == *starter,
            GameStage::AuctionInAction { state, .. } => match state {
                AuctionState::Free { .. } => true,
                AuctionState::Circle { current_player, .. } => player_id == *current_player,
                AuctionState::Fist { .. } => true,
                AuctionState::Marked { current, .. } => player_id == *current,
            },
        }
    }
}

impl SpecGame {
    /// The number of players.
    pub open spec fn seats(self) -> nat {
        self.players.len()
    }

    /// The game is well formed: the seats can be counted; every player has a
    /// seat that bears the player's number, a hand, a balance and a place for
    /// the cards won; the balances together fit a balance; and the stage fits
    /// the game.
    pub open spec fn wf(self) -> bool {
        &&& self.table_wf()
        &&& self.stage.wf(self.money)
    }

    /// The part of `wf` that does not speak of the stage.
    pub open spec fn table_wf(self) -> bool {
        &&& self.seats() <= usize::MAX
        &&& self.deck.len() == self.seats()
        &&& self.money.len() == self.seats()
        &&& self.owned_cards.len() == self.seats()
        &&& forall|i: int| 0 <= i < self.seats() ==> (#[trigger] self.players[i]).id == i
        &&& total(self.money) <= Money::MAX
    }
}

/// Copies a vector of plain values.
pub fn copy_of<T: Copy>(items: &Vec<T>) -> (copy: Vec<T>)
    ensures
        copy@ == items@,
{
    let mut copy: Vec<T> = Vec::new();
    let mut i: usize = 0;
    while i < items.len()
        invariant
            i <= items.len(),
            copy@ == items@.take(i as int),
        decreases items.len() - i,
    {
        copy.push(items[i]);
        i = i + 1;
    }
    copy
}

/// Copies the hands of all players.
pub fn copy_hands(hands: &Vec<Vec<Card>>) -> (copy: Vec<Vec<Card>>)
    ensures
        hands_view(copy@) == hands_view(hands@),
{
    let mut copy: Vec<Vec<Card>> = Vec::new();
    let mut i: usize = 0;
    while i < hands.len()
        invariant
            i <= hands.len(),
            copy.len() == i,
            forall|j: int| 0 <= j < i ==> (#[trigger] copy@[j])@ == hands@[j]@,
        decreases hands.len() - i,
    {
        copy.push(copy_of(&hands[i]));
        i = i + 1;
    }
    copy
}

impl Clone for AuctionState {
    fn clone(&self) -> (copy: AuctionState)
        ensures
            copy@ == self@,
    {
        match self {
            AuctionState::Free { host, highest, time_end, calls } => AuctionState::Free {
                host: *host,
                highest: *highest,
                time_end: *time_end,
                calls: *calls,
            },
            AuctionState::Circle { starter, current_player, highest } => AuctionState::Circle {
                starter: *starter,
                current_player: *current_player,
                highest: *highest,
            },
            AuctionState::Fist { host, bids, action_taken } => AuctionState::Fist {
                host: *host,
                bids: copy_of(bids),
                action_taken: copy_of(action_taken),
            },
            AuctionState::Marked { price, current } => AuctionState::Marked {
                price: *price,
                current: *current,
            },
        }
    }
}

impl Clone for GameStage {
    fn clone(&self) -> (copy: GameStage)
        ensures
            copy@ == self@,
    {
        match self {
            GameStage::WaitingForNextCard(player) => GameStage::WaitingForNextCard(*player),
            GameStage::WaitingForDoubleTarget { double_card, current } => {
                GameStage::WaitingForDoubleTarget { double_card: *double_card, current: *current }
            },
            GameStage::WaitingForMarkedPrice { starter, target } => {
                GameStage::WaitingForMarkedPrice { starter: *starter, target: *target }
            },
            GameStage::AuctionInAction { state, target } => GameStage::AuctionInAction {
                state: state.clone(),
                target: *target,
            },
        }
    }
}

impl Clone for GameState {
    fn clone(&self) -> (copy: GameState)
        ensures
            copy@ == self@,
    {
        GameState {
            deck: copy_hands(&self.deck),
            money: copy_of(&self.money),
            players: copy_roster(&self.players),
            owned_cards: copy_hands(&self.owned_cards),
            stage: self.stage.clone(),
            current_round: self.current_round,
            values: self.values,
            pool: copy_of(&self.pool),
        }
    }
}

/// A tally that stops counting one past the limit of a round.
pub open spec fn capped(tally: nat) -> u8 {
    if tally > ROUND_LIMIT {
        (ROUND_LIMIT + 1) as u8
    } else {
        tally as u8
    }
}

/// Counting one more card adds one to the tally of its colour and nothing to
/// the others.
pub proof fn lemma_count_color_step(cards: Seq<Card>, k: int, color: CardColor)
    requires
        0 <= k < cards.len(),
    ensures
        count_color(cards.take(k + 1), color) == count_color(cards.take(k), color) + if cards[k].color
            == color {
            1nat
        } else {
            0nat
        },
{
    assert(cards.take(k + 1).drop_last() =~= cards.take(k));
}

/// The cards won by one more player add to the tally of each colour.
pub proof fn lemma_color_total_step(owned: Seq<Seq<Card>>, i: int, color: CardColor)
    requires
        0 <= i < owned.len(),
    ensures
        color_total(owned.take(i + 1), color) == color_total(owned.take(i), color) + count_color(
            owned[i],
            color,
        ),
{
    assert(owned.take(i + 1).drop_last() =~= owned.take(i));
}

/// The colour that ends the round is the first, by position, whose tally is
/// at the limit; there is none when no position below `KINDS` has such a
/// colour.
pub proof fn lemma_first_ending_color(owned: Seq<Seq<Card>>, rank: int)
    requires
        0 <= rank <= KINDS,
        forall|r: int|
            0 <= r < rank ==> color_total(owned, #[trigger] CardColor::of_rank(r)) != ROUND_LIMIT,
        rank < KINDS ==> color_total(owned, CardColor::of_rank(rank)) == ROUND_LIMIT,
    ensures
        ending_color(owned) == if rank < KINDS {
            Some(CardColor::of_rank(rank))
        } else {
            None
        },
{
    assert(CardColor::of_rank(0) == CardColor::Purple);
    assert(CardColor::of_rank(1) == CardColor::Blue);
    assert(CardColor::of_rank(2) == CardColor::Red);
    assert(CardColor::of_rank(3) == CardColor::Green);
    assert(CardColor::of_rank(4) == CardColor::Yellow);
}

impl GameState {
    /// The game is well formed, as `SpecGame::wf` says.
    pub open spec fn wf(&self) -> bool {
        self@.wf()
    }

    /// Whether the cards won so far end the round: whether of some colour
    /// exactly `ROUND_LIMIT` have been won. Of several such colours the
    /// rarest is named.
    pub fn round_should_end(&self) -> (end: ShouldEnd)
        ensures
            end == match ending_color(self@.owned_cards) {
                Some(color) => ShouldEnd::Yes(color),
                None => ShouldEnd::No,
            },
    {
        let ghost owned = self@.owned_cards;
        let mut counters: [u8; 5] = [0, 0, 0, 0, 0];
        let mut i: usize = 0;
        while i < self.owned_cards.len()
            invariant
                i <= self.owned_cards.len(),
                owned == hands_view(self.owned_cards@),
                forall|r: int|
                    0 <= r < KINDS ==> counters@[r] == capped(
                        color_total(owned.take(i as int), CardColor::of_rank(r)),
                    ),
            decreases self.owned_cards.len() - i,
        {
            let cards = &self.owned_cards[i];
            let mut k: usize = 0;
            while k < cards.len()
                invariant
                    k <= cards.len(),
                    i < self.owned_cards.len(),
                    owned == hands_view(self.owned_cards@),
                    cards@ == owned[i as int],
                    forall|r: int|
                        0 <= r < KINDS ==> counters@[r] == capped(
                            color_total(owned.take(i as int), CardColor::of_rank(r)) + count_color(
                                cards@.take(k as int),
                                CardColor::of_rank(r),
                            ),
                        ),
                decreases cards.len() - k,
            {
                let rank = cards[k].color.index();
                proof {
                    assert forall|r: int| 0 <= r < KINDS implies count_color(
                        cards@.take(k + 1),
                        CardColor::of_rank(r),
                    ) == count_color(cards@.take(k as int), CardColor::of_rank(r)) + if r == rank {
                        1nat
                    } else {
                        0nat
                    } by {
                        lemma_count_color_step(cards@, k as int, CardColor::of_rank(r));
                        lemma_color_rank_round_trip(cards@[k as int].color);
                        lemma_rank_of_rank(r);
                    }
                }
                if counters[rank] <= ROUND_LIMIT {
                    counters[rank] += 1;
                }
                k = k + 1;
            }
            proof {
                assert(cards@.take(cards@.len() as int) =~= cards@);
                assert forall|r: int| 0 <= r < KINDS implies counters@[r] == capped(
                    color_total(owned.take(i + 1), CardColor::of_rank(r)),
                ) by {
                    lemma_color_total_step(owned, i as int, CardColor::of_rank(r));
                }
            }
            i = i + 1;
        }
        assert(owned.take(owned.len() as int) =~= owned);
        let mut rank: usize = 0;
        while rank < KINDS
            invariant
                rank <= KINDS,
                owned == self@.owned_cards,
                forall|r: int|
                    0 <= r < KINDS ==> counters@[r] == capped(
                        color_total(owned, CardColor::of_rank(r)),
                    ),
                forall|r: int|
                    0 <= r < rank ==> color_total(owned, #[trigger] CardColor::of_rank(r))
                        != ROUND_LIMIT,
            decreases KINDS - rank,
        {
            if counters[rank] == ROUND_LIMIT {
                let color = CardColor::from_index(rank);
                proof {
                    lemma_first_ending_color(owned, rank as int);
                }
                return ShouldEnd::Yes(color);
            }
            rank = rank + 1;
        }
        proof {
            lemma_first_ending_color(owned, KINDS as int);
        }
        ShouldEnd::No
    }
}

} // verus!
