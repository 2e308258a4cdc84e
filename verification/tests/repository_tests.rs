use blackjack_strategy::document::ParseError;
use blackjack_strategy::repository::StrategyRepository;
use blackjack_strategy::strategy::{StrategyVariables, SurrenderRule};

fn source(name: &str, decks: u8, s17: bool, surrender: &str) -> (String, String) {
    let text = format!(
        r#"{{
        "name": "{name}",
        "description": "fixture",
        "rules": {{
            "decks": {decks},
            "dealer_stands_on_soft_17": {s17},
            "double_after_split": true,
            "dealer_peak": true,
            "surrender_allowed": "{surrender}"
        }},
        "tables": {{ "hard_hands": [], "soft_hands": [], "pair_hands": [] }},
        "action_legend": {{}}
    }}"#
    );
    (String::from(name), text)
}

fn rules(decks: u8, s17: bool, surrender: SurrenderRule) -> StrategyVariables {
    StrategyVariables {
        decks,
        dealer_stands_on_soft_17: s17,
        double_after_split: true,
        dealer_peak: true,
        surrender_allowed: surrender,
    }
}

#[test]
fn build_skips_the_invalid_source_and_keeps_the_valid_one() {
    let sources = vec![
        source("six-deck", 6, true, "Not Allowed"),
        (String::from("broken"), String::from("{ this is not json")),
    ];
    let (repo, failures) = StrategyRepository::build(&sources);
    assert_eq!(repo.len(), 1);
    assert_eq!(failures.len(), 1);
    assert_eq!(failures[0].0, "broken");
    assert_eq!(failures[0].1, ParseError::Syntax);
    assert!(repo.get("six-deck").is_some());
    assert!(repo.get("broken").is_none());
}

#[test]
fn find_exact_returns_none_without_a_structural_match() {
    let sources = vec![source("a", 2, true, "Not Allowed"), source("b", 6, false, "Not Allowed")];
    let (repo, failures) = StrategyRepository::build(&sources);
    assert!(failures.is_empty());
    assert!(repo.find_exact(rules(4, true, SurrenderRule::NotAllowed)).is_none());
    assert!(repo.find_exact(rules(2, false, SurrenderRule::NotAllowed)).is_none());
    assert!(repo.find_exact(rules(2, true, SurrenderRule::AnyUpcard)).is_none());
}

#[test]
fn find_exact_returns_the_matching_document() {
    let sources = vec![source("a", 2, true, "Not Allowed"), source("b", 6, false, "Any Dealer Upcard")];
    let (repo, _) = StrategyRepository::build(&sources);
    let (key, doc) = repo.find_exact(rules(6, false, SurrenderRule::AnyUpcard)).unwrap();
    assert_eq!(key, "b");
    assert_eq!(doc.rules.decks, 6);
    assert_eq!(doc.name, "b");
}

#[test]
fn duplicate_keys_resolve_last_wins() {
    let sources = vec![source("same", 2, true, "Not Allowed"), source("same", 6, false, "Not Allowed")];
    let (repo, _) = StrategyRepository::build(&sources);
    assert_eq!(repo.len(), 1);
    let doc = repo.get("same").unwrap();
    assert_eq!(doc.rules.decks, 6);
}

#[test]
fn resolve_with_fallback_prefers_the_exact_match() {
    let sources = vec![
        source("default-strategy", 1, true, "Not Allowed"),
        source("six-deck", 6, false, "Not Allowed"),
    ];
    let (repo, _) = StrategyRepository::build(&sources);
    let doc = repo
        .resolve_with_fallback(rules(6, false, SurrenderRule::NotAllowed), "default-strategy")
        .unwrap();
    assert_eq!(doc.name, "six-deck");
}

#[test]
fn resolve_with_fallback_substitutes_the_default() {
    let sources = vec![
        source("default-strategy", 1, true, "Not Allowed"),
        source("six-deck", 6, false, "Not Allowed"),
    ];
    let (repo, _) = StrategyRepository::build(&sources);
    let doc = repo
        .resolve_with_fallback(rules(3, true, SurrenderRule::AnyUpcard), "default-strategy")
        .unwrap();
    assert_eq!(doc.name, "default-strategy");
}

#[test]
fn resolve_with_fallback_yields_none_without_a_fallback() {
    let sources = vec![source("six-deck", 6, false, "Not Allowed")];
    let (repo, _) = StrategyRepository::build(&sources);
    let doc = repo.resolve_with_fallback(rules(3, true, SurrenderRule::AnyUpcard), "default-strategy");
    assert!(doc.is_none());
}

#[test]
fn keys_lists_the_cached_names() {
    let sources = vec![source("a", 2, true, "Not Allowed"), source("b", 6, false, "Not Allowed")];
    let (repo, _) = StrategyRepository::build(&sources);
    assert_eq!(repo.keys(), vec![String::from("a"), String::from("b")]);
}
