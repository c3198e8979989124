use mart::rejection::Rejection;

#[test]
fn every_rejection_has_its_words() {
    assert_eq!(Rejection::TurnViolation.message(), "Not your turn yet.");
    assert_eq!(Rejection::InvalidForStage.message(), "Invalid action.");
    assert_eq!(Rejection::InsufficientFunds.message(), "Not enough money.");
    assert_eq!(Rejection::NoSuchCard.message(), "No such card.");
    assert_eq!(Rejection::ColorMismatch.message(), "Wrong card color.");
    assert_eq!(
        Rejection::NestedDoubleForbidden.message(),
        "Cannot set another double card as the target to a previous double card."
    );
    assert_eq!(
        Rejection::CalledTooEarly.message(),
        "Please wait for at least 3 seconds before calling."
    );
    assert_eq!(Rejection::IncompleteField.message(), "Somebody has not made their decision yet!");
    assert_eq!(Rejection::BidTooLow.message(), "The current price is higher than your offer.");
    assert_eq!(Rejection::UnknownPlayer.message(), "No such player.");
    assert_eq!(Rejection::ClockFailure.message(), "The clock of the room has run out.");
}
