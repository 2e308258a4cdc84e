use blackjack_strategy::document::{ParseError, SchemaField};
use blackjack_strategy::strategy::{sorted_action_legend, BlackjackStrategy, SurrenderRule};

#[test]
fn test_from_json_minimal() {
    let json_str = r#"{
        "id": "827396a6-eaa0-4dc3-986b-926fa0fcf798",
        "name": "Test Strategy",
        "description": "For Testing",
        "rules": {
            "decks": 1,
            "dealer_stands_on_soft_17": true,
            "double_after_split": true,
            "dealer_peak": true,
            "surrender_allowed": "Not Allowed"
        },
        "tables": {
            "hard_hands": [],
            "soft_hands": [],
            "pair_hands": []
        },
        "action_legend": {}
    }"#;

    let result = BlackjackStrategy::from_json(json_str);
    assert!(result.is_ok());

    let strategy = result.unwrap();
    assert_eq!(strategy.name, "Test Strategy");
    assert_eq!(strategy.description, "For Testing");
    assert_eq!(strategy.rules.decks, 1);
    assert_eq!(strategy.rules.dealer_stands_on_soft_17, true);
    assert_eq!(strategy.tables.hard_hands.len(), 0);
    assert!(!strategy.id.is_nil()); // Should have generated a UUID
    println!("{:#?}", strategy)
}

#[test]
fn test_from_json_with_tables() {
    let json_str = r#"{
        "id": "00000000-0000-0000-0000-000000000000",
        "name": "Test Strategy",
        "description": "For Testing",
        "rules": {
            "decks": 2,
            "dealer_stands_on_soft_17": false,
            "double_after_split": true,
            "dealer_peak": true,
            "surrender_allowed": "Not Allowed"
        },
        "tables": {
            "hard_hands": [
                { "total": 10, "actions": ["H", "D", "D", "D", "D", "D", "D", "D", "H", "H"] }
            ],
            "soft_hands": [
                { "total": 18, "actions": ["S", "D", "D", "D", "D", "S", "S", "H", "H", "S"] }
            ],
            "pair_hands": [
                { "pair": 7, "actions": ["P", "P", "P", "P", "P", "P", "P", "H", "S", "H"] }
            ]
        },
        "action_legend": {
            "H": "Hit",
            "S": "Stand",
            "D": "Double",
            "P": "Split"
        }
    }"#;

    let result = BlackjackStrategy::from_json(json_str);
    assert!(result.is_ok());

    let strategy = result.unwrap();
    assert_eq!(strategy.name, "Test Strategy");
    assert_eq!(strategy.rules.decks, 2);
    assert_eq!(strategy.rules.dealer_stands_on_soft_17, false);

    // Verify tables were parsed correctly
    assert_eq!(strategy.tables.hard_hands.len(), 1);
    assert_eq!(strategy.tables.hard_hands[0].total, 10);
    assert_eq!(strategy.tables.hard_hands[0].actions.len(), 10);
    assert_eq!(strategy.tables.hard_hands[0].actions[0], "H");

    assert_eq!(strategy.tables.soft_hands.len(), 1);
    assert_eq!(strategy.tables.soft_hands[0].total, 18);

    assert_eq!(strategy.tables.pair_hands.len(), 1);
    assert_eq!(strategy.tables.pair_hands[0].pair, 7);

    // Verify action legend was parsed
    assert_eq!(strategy.action_legend.len(), 4);
    let hit = strategy
        .action_legend
        .iter()
        .find(|entry| entry.0 == "H")
        .map(|entry| entry.1.as_str());
    assert_eq!(hit.unwrap(), "Hit");
}

fn minimal_doc_with_rules(surrender: &str, decks: &str) -> String {
    format!(
        r#"{{
        "name": "N",
        "description": "D",
        "rules": {{
            "decks": {decks},
            "dealer_stands_on_soft_17": true,
            "double_after_split": false,
            "dealer_peak": true,
            "surrender_allowed": "{surrender}"
        }},
        "tables": {{ "hard_hands": [], "soft_hands": [], "pair_hands": [] }},
        "action_legend": {{}}
    }}"#
    )
}

#[test]
fn from_json_accepts_all_three_surrender_literals() {
    for (text, rule) in [
        ("Not Allowed", SurrenderRule::NotAllowed),
        ("Any Dealer Upcard", SurrenderRule::AnyUpcard),
        ("Dealer 2 through 10", SurrenderRule::Dealer2Through10),
    ] {
        let doc = BlackjackStrategy::from_json(&minimal_doc_with_rules(text, "2")).unwrap();
        assert_eq!(doc.rules.surrender_allowed, rule);
    }
}

#[test]
fn from_json_rejects_unknown_surrender_literal() {
    let result = BlackjackStrategy::from_json(&minimal_doc_with_rules("Sometimes", "2"));
    assert_eq!(result.unwrap_err(), ParseError::UnknownSurrenderRule);
}

#[test]
fn from_json_rejects_malformed_text() {
    let result = BlackjackStrategy::from_json("{ not json at all");
    assert_eq!(result.unwrap_err(), ParseError::Syntax);
}

#[test]
fn from_json_rejects_non_object_top_level() {
    let result = BlackjackStrategy::from_json("[1, 2, 3]");
    assert_eq!(result.unwrap_err(), ParseError::NotAnObject);
}

#[test]
fn from_json_rejects_missing_name() {
    let json = r#"{
        "description": "D",
        "rules": { "decks": 1, "dealer_stands_on_soft_17": true,
                   "double_after_split": true, "dealer_peak": true,
                   "surrender_allowed": "Not Allowed" },
        "tables": { "hard_hands": [], "soft_hands": [], "pair_hands": [] },
        "action_legend": {}
    }"#;
    let result = BlackjackStrategy::from_json(json);
    assert_eq!(result.unwrap_err(), ParseError::BadField(SchemaField::Name));
}

#[test]
fn from_json_rejects_out_of_range_decks() {
    let result = BlackjackStrategy::from_json(&minimal_doc_with_rules("Not Allowed", "256"));
    assert_eq!(result.unwrap_err(), ParseError::BadField(SchemaField::Decks));
}

#[test]
fn from_json_rejects_row_without_ten_actions() {
    let json = r#"{
        "name": "N",
        "description": "D",
        "rules": { "decks": 1, "dealer_stands_on_soft_17": true,
                   "double_after_split": true, "dealer_peak": true,
                   "surrender_allowed": "Not Allowed" },
        "tables": {
            "hard_hands": [ { "total": 9, "actions": ["H", "H", "H"] } ],
            "soft_hands": [],
            "pair_hands": []
        },
        "action_legend": {}
    }"#;
    let result = BlackjackStrategy::from_json(json);
    assert_eq!(result.unwrap_err(), ParseError::BadField(SchemaField::HardHands));
}

#[test]
fn from_json_rejects_malformed_id() {
    let json = r#"{
        "id": "not-a-uuid",
        "name": "N",
        "description": "D",
        "rules": { "decks": 1, "dealer_stands_on_soft_17": true,
                   "double_after_split": true, "dealer_peak": true,
                   "surrender_allowed": "Not Allowed" },
        "tables": { "hard_hands": [], "soft_hands": [], "pair_hands": [] },
        "action_legend": {}
    }"#;
    let result = BlackjackStrategy::from_json(json);
    assert_eq!(result.unwrap_err(), ParseError::BadField(SchemaField::Id));
}

#[test]
fn from_json_accepts_a_plain_form_id() {
    let json = r#"{
        "id": "827396a6eaa04dc3986b926fa0fcf798",
        "name": "N",
        "description": "D",
        "rules": { "decks": 1, "dealer_stands_on_soft_17": true,
                   "double_after_split": true, "dealer_peak": true,
                   "surrender_allowed": "Not Allowed" },
        "tables": { "hard_hands": [], "soft_hands": [], "pair_hands": [] },
        "action_legend": {}
    }"#;
    let doc = BlackjackStrategy::from_json(json).unwrap();
    assert!(!doc.id.is_nil());
}

#[test]
fn from_json_generates_id_for_a_plain_form_nil() {
    let json = r#"{
        "id": "00000000000000000000000000000000",
        "name": "N",
        "description": "D",
        "rules": { "decks": 1, "dealer_stands_on_soft_17": true,
                   "double_after_split": true, "dealer_peak": true,
                   "surrender_allowed": "Not Allowed" },
        "tables": { "hard_hands": [], "soft_hands": [], "pair_hands": [] },
        "action_legend": {}
    }"#;
    let doc = BlackjackStrategy::from_json(json).unwrap();
    assert!(!doc.id.is_nil());
}

#[test]
fn from_json_generates_id_when_absent() {
    let doc = BlackjackStrategy::from_json(&minimal_doc_with_rules("Not Allowed", "1")).unwrap();
    assert!(!doc.id.is_nil());
}

#[test]
fn from_json_decodes_escapes_in_strings() {
    let json = r#"{
        "name": "Say \"hi\"\nA",
        "description": "😀",
        "rules": { "decks": 1, "dealer_stands_on_soft_17": true,
                   "double_after_split": true, "dealer_peak": true,
                   "surrender_allowed": "Not Allowed" },
        "tables": { "hard_hands": [], "soft_hands": [], "pair_hands": [] },
        "action_legend": {}
    }"#;
    let doc = BlackjackStrategy::from_json(json).unwrap();
    assert_eq!(doc.name, "Say \"hi\"\nA");
    assert_eq!(doc.description, "\u{1F600}");
}

#[test]
fn from_json_skips_unknown_fields() {
    let json = r#"{
        "name": "N",
        "extra": [ { "nested": [1, -2, 3.5, null, true] }, "text" ],
        "description": "D",
        "rules": { "decks": 1, "dealer_stands_on_soft_17": true,
                   "double_after_split": true, "dealer_peak": true,
                   "surrender_allowed": "Not Allowed", "house_edge_note": "ignored" },
        "tables": { "hard_hands": [], "soft_hands": [], "pair_hands": [] },
        "action_legend": {}
    }"#;
    let doc = BlackjackStrategy::from_json(json).unwrap();
    assert_eq!(doc.name, "N");
    assert_eq!(doc.rules.decks, 1);
}

#[test]
fn legend_sorts_alphabetically_by_code() {
    let legend = vec![
        (String::from("S"), String::from("Stand")),
        (String::from("D"), String::from("Double")),
        (String::from("H"), String::from("Hit")),
        (String::from("Ds"), String::from("Double or stand")),
    ];
    let sorted = sorted_action_legend(&legend);
    let codes: Vec<&str> = sorted.iter().map(|entry| entry.0.as_str()).collect();
    assert_eq!(codes, vec!["D", "Ds", "H", "S"]);
    assert_eq!(sorted.len(), legend.len());
}

#[test]
fn from_json_decodes_unicode_escapes() {
    let json = r#"{
        "name": "\u0041\u00e9",
        "description": "\uD83D\uDE00",
        "rules": { "decks": 1, "dealer_stands_on_soft_17": true,
                   "double_after_split": true, "dealer_peak": true,
                   "surrender_allowed": "Not Allowed" },
        "tables": { "hard_hands": [], "soft_hands": [], "pair_hands": [] },
        "action_legend": {}
    }"#;
    let doc = BlackjackStrategy::from_json(json).unwrap();
    assert_eq!(doc.name, "A\u{e9}");
    assert_eq!(doc.description, "\u{1F600}");
}

#[test]
fn from_json_rejects_a_lone_surrogate_escape() {
    let json = r#"{ "name": "\uD83D" }"#;
    let result = BlackjackStrategy::from_json(json);
    assert_eq!(result.unwrap_err(), ParseError::Syntax);
}
