//! Values that stand in where none is known yet.

use vstd::prelude::*;
use crate::card::{AuctionType, Card, CardColor};
use crate::game_state::{AuctionTarget, CardPair, MoneyPair};
use crate::player::PlayerID;
use crate::purse::Money;

verus! {

/// A type that has a value to stand in where none is known yet.
pub trait PlaceHolder: Sized {
    /// The value that stands in.
    spec fn stand_in() -> Self;

    fn placeholder() -> (value: Self)
        ensures
            value == Self::stand_in(),
    ;
}

impl PlaceHolder for Card {
    /// A red card for a free auction, with a number that no card of a game
    /// bears.
    open spec fn stand_in() -> Card {
        Card { id: 0, color: CardColor::Red, ty: AuctionType::Free }
    }

    fn placeholder() -> (value: Card) {
        Card { id: 0, color: CardColor::Red, ty: AuctionType::Free }
    }
}

impl PlaceHolder for PlayerID {
    open spec fn stand_in() -> PlayerID {
        0
    }

    fn placeholder() -> (value: PlayerID) {
        0
    }
}

impl PlaceHolder for Money {
    open spec fn stand_in() -> Money {
        0
    }

    fn placeholder() -> (value: Money) {
        0
    }
}

impl PlaceHolder for CardPair {
    open spec fn stand_in() -> CardPair {
        (PlayerID::stand_in(), Card::stand_in())
    }

    fn placeholder() -> (value: CardPair) {
        (PlayerID::placeholder(), Card::placeholder())
    }
}

impl PlaceHolder for MoneyPair {
    open spec fn stand_in() -> MoneyPair {
        (PlayerID::stand_in(), Money::stand_in())
    }

    fn placeholder() -> (value: MoneyPair) {
        (PlayerID::placeholder(), Money::placeholder())
    }
}

impl PlaceHolder for AuctionTarget {
    open spec fn stand_in() -> AuctionTarget {
        AuctionTarget::Single(CardPair::stand_in())
    }

    fn placeholder() -> (value: AuctionTarget) {
        AuctionTarget::Single(CardPair::placeholder())
    }
}

} // verus!
