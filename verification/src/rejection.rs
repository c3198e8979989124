//! Why an action was turned down.

use vstd::prelude::*;

verus! {

/// The reason for which an action was rejected. A rejected action leaves the
/// game as it was.
#[derive(Debug, Clone, Copy, PartialEq, Eq, Structural)]
pub enum Rejection {
    /// It is another player's turn.
    TurnViolation,
    /// The stage of the game has no use for this kind of action.
    InvalidForStage,
    /// The player does not hold more than the amount.
    InsufficientFunds,
    /// The player's hand has no card of that number.
    NoSuchCard,
    /// The second card of a pair must have the colour of the first.
    ColorMismatch,
    /// The second card of a pair cannot itself ask for a second card.
    NestedDoubleForbidden,
    /// The host of a free auction called before the waiting time was over.
    CalledTooEarly,
    /// The host of a fist auction called before every player had bid.
    IncompleteField,
    /// The offer does not beat the standing one.
    BidTooLow,
    /// The game has no player of that number.
    UnknownPlayer,
    /// The action needs the time, and the clock shows one so late that no
    /// deadline can be counted from it.
    ClockFailure,
}

impl Rejection {
    /// The words in which the player is told.
    pub open spec fn text(self) -> Seq<char> {
        match self {
            Rejection::TurnViolation => "Not your turn yet."@,
            Rejection::InvalidForStage => "Invalid action."@,
            Rejection::InsufficientFunds => "Not enough money."@,
            Rejection::NoSuchCard => "No such card."@,
            Rejection::ColorMismatch => "Wrong card color."@,
            Rejection::NestedDoubleForbidden => "Cannot set another double card as the target to a previous double card."@,
            Rejection::CalledTooEarly => "Please wait for at least 3 seconds before calling."@,
            Rejection::IncompleteField => "Somebody has not made their decision yet!"@,
            Rejection::BidTooLow => "The current price is higher than your offer."@,
            Rejection::UnknownPlayer => "No such player."@,
            Rejection::ClockFailure => "The clock of the room has run out."@,
        }
    }

    /// The words in which the player is told.
    pub fn message(&self) -> (words: String)
        ensures
            words@ == self.text(),
    {
        let words: &str = match self {
            Rejection::TurnViolation => "Not your turn yet.",
            Rejection::InvalidForStage => "Invalid action.",
            Rejection::InsufficientFunds => "Not enough money.",
            Rejection::NoSuchCard => "No such card.",
            Rejection::ColorMismatch => "Wrong card color.",
            Rejection::NestedDoubleForbidden => "Cannot set another double card as the target to a previous double card.",
            Rejection::CalledTooEarly => "Please wait for at least 3 seconds before calling.",
            Rejection::IncompleteField => "Somebody has not made their decision yet!",
            Rejection::BidTooLow => "The current price is higher than your offer.",
            Rejection::UnknownPlayer => "No such player.",
            Rejection::ClockFailure => "The clock of the room has run out.",
        };
        words.to_owned()
    }
}

} // verus!
