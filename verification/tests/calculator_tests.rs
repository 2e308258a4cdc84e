use blackjack_strategy::calculator::{soft_hand_label, AdjustableOption, StrategyCalculatorScreen};
use blackjack_strategy::navigation::{KeyInput, MenuNavigation, ModelResponse};
use blackjack_strategy::repository::StrategyRepository;
use blackjack_strategy::strategy::SurrenderRule;

fn source(name: &str, decks: u8, s17: bool, das: bool, peak: bool, surrender: &str) -> (
    String,
    String,
) {
    let text = format!(
        r#"{{
        "name": "{name}",
        "description": "fixture",
        "rules": {{
            "decks": {decks},
            "dealer_stands_on_soft_17": {s17},
            "double_after_split": {das},
            "dealer_peak": {peak},
            "surrender_allowed": "{surrender}"
        }},
        "tables": {{ "hard_hands": [], "soft_hands": [], "pair_hands": [] }},
        "action_legend": {{}}
    }}"#
    );
    (String::from(name), text)
}

fn empty_screen() -> StrategyCalculatorScreen {
    StrategyCalculatorScreen::new(StrategyRepository::new())
}

#[test]
fn new_screen_starts_with_the_default_settings() {
    let screen = empty_screen();
    assert_eq!(screen.active_menu_index, 0);
    assert_eq!(screen.number_of_decks, 3);
    assert!(screen.dealer_stands_on_soft_17);
    assert!(screen.allow_double_after_split);
    assert_eq!(screen.surrender_rule, SurrenderRule::AnyUpcard);
    assert!(screen.dealer_peak);
    assert_eq!(screen.active_strategy_name, "Default");
    assert_eq!(screen.strategy.name, "Default Strategy");
}

#[test]
fn new_screen_adopts_a_matching_strategy() {
    let sources = vec![source("match-me", 3, true, true, true, "Any Dealer Upcard")];
    let (repo, _) = StrategyRepository::build(&sources);
    let screen = StrategyCalculatorScreen::new(repo);
    assert_eq!(screen.active_strategy_name, "match-me");
    assert_eq!(screen.strategy.name, "match-me");
}

#[test]
fn cursor_clamps_at_the_first_option() {
    let mut screen = empty_screen();
    assert_eq!(screen.get_menu_index(), 0);
    screen.increment_menu_index(-1);
    assert_eq!(screen.get_menu_index(), 0);
}

#[test]
fn cursor_clamps_at_the_last_option() {
    let mut screen = empty_screen();
    screen.set_menu_index(4);
    screen.increment_menu_index(1);
    assert_eq!(screen.get_menu_index(), 4);
}

#[test]
fn cursor_moves_between_the_options() {
    let mut screen = empty_screen();
    screen.increment_menu_index(1);
    assert_eq!(screen.get_menu_index(), 1);
    screen.increment_menu_index(1);
    assert_eq!(screen.get_menu_index(), 2);
    screen.increment_menu_index(-1);
    assert_eq!(screen.get_menu_index(), 1);
}

#[test]
fn deck_count_clamps_without_wrapping() {
    let mut screen = empty_screen();
    // Cursor starts on the deck count.
    screen.increment_current_menu_item(1);
    assert_eq!(screen.number_of_decks, 3);
    screen.increment_current_menu_item(-1);
    assert_eq!(screen.number_of_decks, 2);
    screen.increment_current_menu_item(-1);
    screen.increment_current_menu_item(-1);
    assert_eq!(screen.number_of_decks, 1);
}

#[test]
fn booleans_flip_on_any_adjustment() {
    let mut screen = empty_screen();
    screen.set_menu_index(1);
    screen.increment_current_menu_item(1);
    assert!(!screen.dealer_stands_on_soft_17);
    screen.increment_current_menu_item(-1);
    assert!(screen.dealer_stands_on_soft_17);
    screen.set_menu_index(2);
    screen.increment_current_menu_item(-1);
    assert!(!screen.allow_double_after_split);
    screen.set_menu_index(4);
    screen.increment_current_menu_item(1);
    assert!(!screen.dealer_peak);
}

#[test]
fn surrender_cycles_and_wraps_at_both_ends() {
    let mut screen = empty_screen();
    screen.set_menu_index(3);
    screen.surrender_rule = SurrenderRule::Dealer2Through10;
    screen.increment_current_menu_item(1);
    assert_eq!(screen.surrender_rule, SurrenderRule::NotAllowed);
    screen.increment_current_menu_item(-1);
    assert_eq!(screen.surrender_rule, SurrenderRule::Dealer2Through10);
}

#[test]
fn surrender_cycle_visits_all_three_policies() {
    let mut screen = empty_screen();
    screen.set_menu_index(3);
    screen.surrender_rule = SurrenderRule::NotAllowed;
    screen.increment_current_menu_item(1);
    assert_eq!(screen.surrender_rule, SurrenderRule::AnyUpcard);
    screen.increment_current_menu_item(1);
    assert_eq!(screen.surrender_rule, SurrenderRule::Dealer2Through10);
    screen.increment_current_menu_item(1);
    assert_eq!(screen.surrender_rule, SurrenderRule::NotAllowed);
}

#[test]
fn adjusting_re_resolves_the_active_strategy() {
    let sources = vec![
        source("default-strategy", 1, true, true, true, "Not Allowed"),
        source("two-deck", 2, true, true, true, "Any Dealer Upcard"),
    ];
    let (repo, _) = StrategyRepository::build(&sources);
    let mut screen = StrategyCalculatorScreen::new(repo);
    // No strategy matches the defaults, so the cursor starts on a fallback.
    screen.number_of_decks = 3;
    let response = screen.process_key(KeyInput::Left);
    assert_eq!(response, ModelResponse::Refresh);
    assert_eq!(screen.number_of_decks, 2);
    assert_eq!(screen.active_strategy_name, "two-deck");
    let response = screen.process_key(KeyInput::Left);
    assert_eq!(response, ModelResponse::Refresh);
    assert_eq!(screen.number_of_decks, 1);
    // No exact match for one deck: the well-known fallback substitutes.
    assert_eq!(screen.active_strategy_name, "default-strategy");
}

#[test]
fn update_without_match_or_fallback_keeps_the_strategy() {
    let mut screen = empty_screen();
    let before = screen.active_strategy_name.clone();
    screen.update_strategy_based_on_settings();
    assert_eq!(screen.active_strategy_name, before);
}

#[test]
fn switch_strategy_reports_unknown_names() {
    let sources = vec![source("known", 2, true, true, true, "Not Allowed")];
    let (repo, _) = StrategyRepository::build(&sources);
    let mut screen = StrategyCalculatorScreen::new(repo);
    assert!(!screen.switch_strategy("unknown"));
    assert!(screen.switch_strategy("known"));
    assert_eq!(screen.active_strategy_name, "known");
    assert_eq!(screen.strategy.name, "known");
}

#[test]
fn get_strategy_names_lists_the_cache() {
    let sources = vec![
        source("a", 2, true, true, true, "Not Allowed"),
        source("b", 6, false, true, true, "Not Allowed"),
    ];
    let (repo, _) = StrategyRepository::build(&sources);
    let screen = StrategyCalculatorScreen::new(repo);
    assert_eq!(screen.get_strategy_names(), vec![String::from("a"), String::from("b")]);
}

#[test]
fn strategy_keys_render_every_toggle() {
    let key = StrategyCalculatorScreen::create_strategy_key(
        6,
        true,
        false,
        true,
        SurrenderRule::NotAllowed,
    );
    assert_eq!(key, "decks6_s17y_dasn_peaky_surrNot Allowed");
    let key = StrategyCalculatorScreen::create_strategy_key(
        2,
        false,
        true,
        false,
        SurrenderRule::Dealer2Through10,
    );
    assert_eq!(key, "decks2_s17n_dasy_peakn_surrDealer 2 through 10");
}

#[test]
fn quit_and_menu_keys_navigate_away() {
    let mut screen = empty_screen();
    assert_eq!(screen.process_key(KeyInput::Quit), ModelResponse::Exit);
    assert_eq!(screen.process_key(KeyInput::Menu), ModelResponse::NavToMainMenu);
}

#[test]
fn releases_and_unrecognized_keys_poll_without_redraw() {
    let mut screen = empty_screen();
    assert_eq!(screen.process_key(KeyInput::Other), ModelResponse::NoOp);
    assert_eq!(screen.process_key(KeyInput::Release), ModelResponse::NoOp);
    assert_eq!(screen.process_key(KeyInput::Select), ModelResponse::NoOp);
    assert_eq!(screen.active_menu_index, 0);
    assert_eq!(screen.number_of_decks, 3);
}

#[test]
fn cursor_keys_move_the_settings_cursor() {
    let mut screen = empty_screen();
    assert_eq!(screen.process_key(KeyInput::Down), ModelResponse::Refresh);
    assert_eq!(screen.active_menu_index, 1);
    assert_eq!(screen.process_key(KeyInput::Up), ModelResponse::Refresh);
    assert_eq!(screen.active_menu_index, 0);
}

#[test]
fn option_labels_match_the_menu() {
    assert_eq!(AdjustableOption::NumberOfDecks.to_string(), "Number of Decks");
    assert_eq!(AdjustableOption::Soft17DealerAction.to_string(), "Soft 17 Dealer Action");
    assert_eq!(AdjustableOption::AllowDoubleAfterSplit.to_string(), "Allow Double After Split");
    assert_eq!(AdjustableOption::AllowSurrender.to_string(), "Allow Surrender");
    assert_eq!(AdjustableOption::DealerPeak.to_string(), "Dealer Peak");
}

#[test]
fn setting_values_render_as_displayed() {
    let mut screen = empty_screen();
    assert_eq!(screen.setting_value_text(0), "4+");
    screen.number_of_decks = 1;
    assert_eq!(screen.setting_value_text(0), "1");
    screen.number_of_decks = 2;
    assert_eq!(screen.setting_value_text(0), "2");
    assert_eq!(screen.setting_value_text(1), "Dealer Stands");
    assert_eq!(screen.setting_value_text(2), "Allowed");
    assert_eq!(screen.setting_value_text(3), "Any Dealer Upcard");
    assert_eq!(screen.setting_value_text(4), "Yes");
    screen.dealer_stands_on_soft_17 = false;
    screen.allow_double_after_split = false;
    screen.dealer_peak = false;
    assert_eq!(screen.setting_value_text(1), "Dealer Hits");
    assert_eq!(screen.setting_value_text(2), "Not Allowed");
    assert_eq!(screen.setting_value_text(4), "No");
}

#[test]
fn soft_hands_are_labeled_with_the_other_card() {
    assert_eq!(soft_hand_label(13), "A2");
    assert_eq!(soft_hand_label(18), "A7");
    assert_eq!(soft_hand_label(21), "A10");
}
