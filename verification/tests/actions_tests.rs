use blackjack_strategy::actions::{action_color, ActionColor, PlayerAction};

const ALL_ACTIONS: [PlayerAction; 8] = [
    PlayerAction::Hit,
    PlayerAction::Stand,
    PlayerAction::DoubleOrHit,
    PlayerAction::DoubleOrStand,
    PlayerAction::Split,
    PlayerAction::SurrenderOrHit,
    PlayerAction::SurrenderOrStand,
    PlayerAction::SplitOrHit,
];

#[test]
fn every_action_round_trips_through_its_code() {
    for action in ALL_ACTIONS {
        let code = action.to_code();
        assert_eq!(PlayerAction::from_code(code), Some(action));
    }
}

#[test]
fn codes_are_the_documented_vocabulary() {
    assert_eq!(PlayerAction::Hit.to_code(), "H");
    assert_eq!(PlayerAction::Stand.to_code(), "S");
    assert_eq!(PlayerAction::DoubleOrHit.to_code(), "D");
    assert_eq!(PlayerAction::DoubleOrStand.to_code(), "Ds");
    assert_eq!(PlayerAction::Split.to_code(), "P");
    assert_eq!(PlayerAction::SurrenderOrHit.to_code(), "Su");
    assert_eq!(PlayerAction::SurrenderOrStand.to_code(), "Rs");
    assert_eq!(PlayerAction::SplitOrHit.to_code(), "Ph");
}

#[test]
fn unrecognized_codes_fail_to_decode() {
    assert_eq!(PlayerAction::from_code(""), None);
    assert_eq!(PlayerAction::from_code("X"), None);
    assert_eq!(PlayerAction::from_code("hit"), None);
    assert_eq!(PlayerAction::from_code("h"), None);
    assert_eq!(PlayerAction::from_code("DS"), None);
}

#[test]
fn action_codes_are_colored() {
    assert_eq!(action_color("H"), ActionColor::Red);
    assert_eq!(action_color("D"), ActionColor::Blue);
    assert_eq!(action_color("Dh"), ActionColor::Blue);
    assert_eq!(action_color("Ds"), ActionColor::LightBlue);
    assert_eq!(action_color("S"), ActionColor::Yellow);
    assert_eq!(action_color("P"), ActionColor::LightCyan);
    assert_eq!(action_color("Su"), ActionColor::LightMagenta);
    assert_eq!(action_color("Rs"), ActionColor::LightMagenta);
    assert_eq!(action_color("Rp"), ActionColor::LightMagenta);
    assert_eq!(action_color("Rh"), ActionColor::Magenta);
    assert_eq!(action_color("?"), ActionColor::Red);
}
