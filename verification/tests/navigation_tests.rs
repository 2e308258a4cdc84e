use blackjack_strategy::about::AboutUsScreen;
use blackjack_strategy::ids::StrategyId;
use blackjack_strategy::menu::{MenuOption, MenuScreen};
use blackjack_strategy::navigation::{drive, DriverStep, KeyInput, MenuNavigation, ModelResponse, ScreenKind};
use blackjack_strategy::strategy::SurrenderRule;
use blackjack_strategy::text::{hex_val, str_eq, u8_to_string};
use blackjack_strategy::App;

#[test]
fn app_state_can_be_created() {
    let _app = App::new();
}

#[test]
fn menu_starts_on_the_first_entry() {
    let screen = MenuScreen::new();
    assert_eq!(screen.get_menu_index(), 0);
    assert_eq!(screen.get_menu_length(), 2);
}

#[test]
fn menu_cursor_clamps_at_both_ends() {
    let mut screen = MenuScreen::new();
    screen.increment_menu_index(-1);
    assert_eq!(screen.get_menu_index(), 0);
    screen.increment_menu_index(1);
    assert_eq!(screen.get_menu_index(), 1);
    screen.increment_menu_index(1);
    assert_eq!(screen.get_menu_index(), 1);
}

#[test]
fn menu_navigates_to_the_selected_entry() {
    let mut screen = MenuScreen::new();
    assert_eq!(screen.return_navigation_target(), ModelResponse::NavToStrategyCalculator);
    screen.increment_menu_index(1);
    assert_eq!(screen.return_navigation_target(), ModelResponse::NavToAboutUs);
}

#[test]
fn menu_keys_drive_the_screen() {
    let mut screen = MenuScreen::new();
    assert_eq!(screen.process_key(KeyInput::Quit), ModelResponse::Exit);
    assert_eq!(screen.process_key(KeyInput::Down), ModelResponse::Refresh);
    assert_eq!(screen.process_key(KeyInput::Select), ModelResponse::NavToAboutUs);
    assert_eq!(screen.process_key(KeyInput::Up), ModelResponse::Refresh);
    assert_eq!(screen.process_key(KeyInput::Select), ModelResponse::NavToStrategyCalculator);
}

#[test]
fn menu_ignores_releases_and_unrecognized_keys_without_redraw() {
    let mut screen = MenuScreen::new();
    assert_eq!(screen.process_key(KeyInput::Release), ModelResponse::NoOp);
    assert_eq!(screen.process_key(KeyInput::Other), ModelResponse::NoOp);
    assert_eq!(screen.get_menu_index(), 0);
}

#[test]
fn menu_labels_match_the_entries() {
    assert_eq!(MenuOption::StrategyCalculator.to_string(), "Strategy Calculator");
    assert_eq!(MenuOption::AboutUs.to_string(), "About Us");
}

#[test]
fn about_screen_scrolls_two_then_one() {
    let mut screen = AboutUsScreen::new();
    screen.scroll_necessary = true;
    assert_eq!(screen.process_key(KeyInput::Down), ModelResponse::Refresh);
    assert_eq!(screen.scroll_offset, 2);
    assert_eq!(screen.process_key(KeyInput::Down), ModelResponse::Refresh);
    assert_eq!(screen.scroll_offset, 3);
    assert_eq!(screen.process_key(KeyInput::Up), ModelResponse::Refresh);
    assert_eq!(screen.scroll_offset, 2);
    assert_eq!(screen.process_key(KeyInput::Up), ModelResponse::Refresh);
    assert_eq!(screen.scroll_offset, 0);
    assert_eq!(screen.process_key(KeyInput::Up), ModelResponse::Refresh);
    assert_eq!(screen.scroll_offset, 0);
}

#[test]
fn about_screen_ignores_scrolling_when_unnecessary() {
    let mut screen = AboutUsScreen::new();
    assert_eq!(screen.process_key(KeyInput::Down), ModelResponse::Refresh);
    assert_eq!(screen.scroll_offset, 0);
    assert_eq!(screen.process_key(KeyInput::Quit), ModelResponse::Exit);
    assert_eq!(screen.process_key(KeyInput::Menu), ModelResponse::NavToMainMenu);
}

#[test]
fn about_screen_ignores_releases_and_unrecognized_keys_without_redraw() {
    let mut screen = AboutUsScreen::new();
    assert_eq!(screen.process_key(KeyInput::Release), ModelResponse::NoOp);
    assert_eq!(screen.process_key(KeyInput::Other), ModelResponse::NoOp);
    assert_eq!(screen.process_key(KeyInput::Select), ModelResponse::NoOp);
    assert_eq!(screen.scroll_offset, 0);
}

#[test]
fn about_screen_clamps_the_scroll_to_the_text() {
    let mut screen = AboutUsScreen::new();
    screen.scroll_necessary = true;
    for _ in 0..30 {
        screen.process_key(KeyInput::Down);
    }
    // Twenty lines shown in a viewport of twelve leaves ten scroll stops.
    let (needs_top, needs_bottom) = screen.adjust_for_view(20, 12);
    assert!(needs_top);
    assert!(!needs_bottom);
    assert_eq!(screen.scroll_offset, 10);
    let (start, end) = screen.visible_range(20, 10);
    assert_eq!((start, end), (10, 20));
}

#[test]
fn surrender_rules_round_trip_through_their_text() {
    for rule in [
        SurrenderRule::NotAllowed,
        SurrenderRule::AnyUpcard,
        SurrenderRule::Dealer2Through10,
    ] {
        assert_eq!(SurrenderRule::from_string(rule.to_string()), Ok(rule));
    }
}

#[test]
fn unknown_surrender_text_is_rejected_with_a_message() {
    let err = SurrenderRule::from_string("Never").unwrap_err();
    assert_eq!(err, "Unknown Surrender Rule: Never");
}

#[test]
fn decimal_rendering_is_exact() {
    assert_eq!(u8_to_string(0), "0");
    assert_eq!(u8_to_string(7), "7");
    assert_eq!(u8_to_string(42), "42");
    assert_eq!(u8_to_string(100), "100");
    assert_eq!(u8_to_string(255), "255");
}

#[test]
fn string_comparison_is_by_contents() {
    assert!(str_eq("abc", "abc"));
    assert!(!str_eq("abc", "abd"));
    assert!(!str_eq("abc", "abcd"));
    assert!(str_eq("", ""));
    assert!(str_eq("émile", "émile"));
}

#[test]
fn hex_digits_read_their_value() {
    assert_eq!(hex_val('0'), Some(0));
    assert_eq!(hex_val('9'), Some(9));
    assert_eq!(hex_val('a'), Some(10));
    assert_eq!(hex_val('F'), Some(15));
    assert_eq!(hex_val('g'), None);
}

#[test]
fn identifiers_parse_from_their_text_form() {
    let id = StrategyId::parse("827396a6-eaa0-4dc3-986b-926fa0fcf798").unwrap();
    assert!(!id.is_nil());
    let nil = StrategyId::parse("00000000-0000-0000-0000-000000000000").unwrap();
    assert!(nil.is_nil());
    assert!(StrategyId::parse("827396a6-eaa0-4dc3-986b-926fa0fcf79z").is_none());
    assert!(StrategyId::parse("827396a6-eaa0.4dc3-986b-926fa0fcf798").is_none());
    assert!(StrategyId::parse("").is_none());
}

#[test]
fn identifiers_parse_from_every_recognized_form() {
    let plain = StrategyId::parse("827396a6eaa04dc3986b926fa0fcf798").unwrap();
    assert!(!plain.is_nil());
    let plain_nil = StrategyId::parse("00000000000000000000000000000000").unwrap();
    assert!(plain_nil.is_nil());
    let braced = StrategyId::parse("{827396a6-eaa0-4dc3-986b-926fa0fcf798}").unwrap();
    assert!(!braced.is_nil());
    let urn = StrategyId::parse("urn:uuid:827396a6-eaa0-4dc3-986b-926fa0fcf798").unwrap();
    assert!(!urn.is_nil());
    let urn_upper = StrategyId::parse("URN:UUID:827396a6-eaa0-4dc3-986b-926fa0fcf798").unwrap();
    assert!(!urn_upper.is_nil());
    assert!(StrategyId::parse("(827396a6-eaa0-4dc3-986b-926fa0fcf798)").is_none());
    assert!(StrategyId::parse("urn:oid:827396a6-eaa0-4dc3-986b-926fa0fcf798").is_none());
    assert!(StrategyId::parse("827396a6eaa04dc3986b926fa0fcf79").is_none());
}

#[test]
fn fresh_identifiers_are_never_nil() {
    for _ in 0..8 {
        assert!(!StrategyId::fresh().is_nil());
    }
}

#[test]
fn driver_reads_every_response() {
    assert_eq!(drive(ModelResponse::NoOp), DriverStep::Poll);
    assert_eq!(drive(ModelResponse::Refresh), DriverStep::Redraw);
    assert_eq!(drive(ModelResponse::Exit), DriverStep::Terminate);
    assert_eq!(drive(ModelResponse::NavToMainMenu), DriverStep::SwitchTo(ScreenKind::Menu));
    assert_eq!(drive(ModelResponse::NavToAboutUs), DriverStep::SwitchTo(ScreenKind::AboutUs));
    assert_eq!(
        drive(ModelResponse::NavToStrategyCalculator),
        DriverStep::SwitchTo(ScreenKind::StrategyCalculator)
    );
}
