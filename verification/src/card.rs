//! Cards, their colours and the kind of auction each one opens.

use vstd::prelude::*;

verus! {

/// The number of colours, and of auction kinds.
pub const KINDS: usize = 5;

/// The kind of auction that a card opens when it is played.
#[derive(Clone, Copy, Debug, PartialEq, Eq, Structural)]
pub enum AuctionType {
    Free,
    Circle,
    Fist,
    Marked,
    Double,
}

/// The colour of a card.
#[derive(Clone, Copy, Debug, PartialEq, Eq, Hash, Structural)]
pub enum CardColor {
    Red,
    Green,
    Blue,
    Purple,
    Yellow,
}

/// A card of the game. Its `id` is unique within a game and starts at 1.
#[derive(Clone, Copy, Debug, PartialEq, Eq, Structural)]
pub struct Card {
    pub color: CardColor,
    pub ty: AuctionType,
    pub id: usize,
}

impl AuctionType {
    /// The name of the kind, as it is shown.
    pub open spec fn name(self) -> Seq<char> {
        match self {
            AuctionType::Free => "Free"@,
            AuctionType::Circle => "Circle"@,
            AuctionType::Fist => "Fist"@,
            AuctionType::Marked => "Marked"@,
            AuctionType::Double => "Double"@,
        }
    }

    /// The name of the kind, as it is shown.
    pub fn text(&self) -> (name: &'static str)
        ensures
            name@ == self.name(),
    {
        match self {
            AuctionType::Free => "Free",
            AuctionType::Circle => "Circle",
            AuctionType::Fist => "Fist",
            AuctionType::Marked => "Marked",
            AuctionType::Double => "Double",
        }
    }
}

impl CardColor {
    /// A colour is dark if white is read well on it: red, blue and purple are.
    pub open spec fn is_dark(self) -> bool {
        self is Red || self is Blue || self is Purple
    }

    /// The style class of what is written on the colour: white on a dark
    /// colour, black on a light one.
    pub fn comp_fg(&self) -> (class: &'static str)
        ensures
            class@ == if self.is_dark() {
                "c-white"@
            } else {
                "c-black"@
            },
    {
        match self {
            CardColor::Red | CardColor::Blue | CardColor::Purple => "c-white",
            CardColor::Green | CardColor::Yellow => "c-black",
        }
    }

    /// The style class of a ground that sets the colour off: white for a
    /// dark colour, black for a light one.
    pub fn comp_bg(&self) -> (class: &'static str)
        ensures
            class@ == if self.is_dark() {
                "bg-white"@
            } else {
                "bg-black"@
            },
    {
        match self {
            CardColor::Red | CardColor::Blue | CardColor::Purple => "bg-white",
            CardColor::Green | CardColor::Yellow => "bg-black",
        }
    }

    /// The style class of writing in the colour.
    pub fn main_fg(&self) -> (class: &'static str)
        ensures
            class@ == match *self {
                CardColor::Red => "c-red-700"@,
                CardColor::Green => "c-green"@,
                CardColor::Blue => "c-blue"@,
                CardColor::Purple => "c-purple"@,
                CardColor::Yellow => "c-yellow"@,
            },
    {
        match self {
            CardColor::Red => "c-red-700",
            CardColor::Green => "c-green",
            CardColor::Blue => "c-blue",
            CardColor::Purple => "c-purple",
            CardColor::Yellow => "c-yellow",
        }
    }

    /// The style class of a ground in the colour.
    pub fn main_bg(&self) -> (class: &'static str)
        ensures
            class@ == match *self {
                CardColor::Red => "bg-red-600"@,
                CardColor::Green => "bg-green"@,
                CardColor::Blue => "bg-blue"@,
                CardColor::Purple => "bg-purple"@,
                CardColor::Yellow => "bg-yellow"@,
            },
    {
        match self {
            CardColor::Red => "bg-red-600",
            CardColor::Green => "bg-green",
            CardColor::Blue => "bg-blue",
            CardColor::Purple => "bg-purple",
            CardColor::Yellow => "bg-yellow",
        }
    }

    /// The style class of a border in the colour.
    pub fn main_bd(&self) -> (class: &'static str)
        ensures
            class@ == match *self {
                CardColor::Red => "border-red-600"@,
                CardColor::Green => "border-green"@,
                CardColor::Blue => "border-blue"@,
                CardColor::Purple => "border-purple"@,
                CardColor::Yellow => "border-yellow"@,
            },
    {
        match self {
            CardColor::Red => "border-red-600",
            CardColor::Green => "border-green",
            CardColor::Blue => "border-blue",
            CardColor::Purple => "border-purple",
            CardColor::Yellow => "border-yellow",
        }
    }

    /// The position of a colour in the order of rarity: purple, blue, red,
    /// green, yellow.
    pub open spec fn rank(self) -> nat {
        match self {
            CardColor::Purple => 0,
            CardColor::Blue => 1,
            CardColor::Red => 2,
            CardColor::Green => 3,
            CardColor::Yellow => 4,
        }
    }

    /// The colour at a position of that order; yellow beyond it.
    pub open spec fn of_rank(index: int) -> CardColor {
        if index == 0 {
            CardColor::Purple
        } else if index == 1 {
            CardColor::Blue
        } else if index == 2 {
            CardColor::Red
        } else if index == 3 {
            CardColor::Green
        } else {
            CardColor::Yellow
        }
    }

    /// The position of the colour in the order of rarity.
    pub fn index(&self) -> (i: usize)
        ensures
            i == self.rank(),
            i < KINDS,
    {
        match self {
            CardColor::Red => 2,
            CardColor::Green => 3,
            CardColor::Blue => 1,
            CardColor::Purple => 0,
            CardColor::Yellow => 4,
        }
    }

    /// The colour at a position of the order of rarity.
    pub fn from_index(index: usize) -> (color: CardColor)
        requires
            index < KINDS,
        ensures
            color == CardColor::of_rank(index as int),
            color.rank() == index,
    {
        if index == 0 {
            CardColor::Purple
        } else if index == 1 {
            CardColor::Blue
        } else if index == 2 {
            CardColor::Red
        } else if index == 3 {
            CardColor::Green
        } else {
            CardColor::Yellow
        }
    }
}

/// Every colour has a position below five, and is the colour at its position.
pub proof fn lemma_color_rank_round_trip(color: CardColor)
    ensures
        color.rank() < KINDS,
        CardColor::of_rank(color.rank() as int) == color,
{
}

/// Every position below five is the position of the colour that stands there.
pub proof fn lemma_rank_of_rank(index: int)
    requires
        0 <= index < KINDS,
    ensures
        CardColor::of_rank(index).rank() == index,
{
}

} // verus!
