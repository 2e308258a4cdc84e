use blackjack_strategy::actions::PlayerAction;
use blackjack_strategy::strategy::HardHandRow;
use blackjack_strategy::resolver::{resolve, HandCategory, LookupError};
use blackjack_strategy::strategy::BlackjackStrategy;

fn doc_with_tables() -> BlackjackStrategy {
    let json = r#"{
        "name": "Fixture",
        "description": "For lookups",
        "rules": {
            "decks": 2,
            "dealer_stands_on_soft_17": false,
            "double_after_split": true,
            "dealer_peak": true,
            "surrender_allowed": "Not Allowed"
        },
        "tables": {
            "hard_hands": [
                { "total": 16, "actions": ["S", "S", "S", "S", "S", "H", "H", "H", "H", "H"] },
                { "total": 10, "actions": ["H", "D", "D", "D", "D", "D", "D", "D", "H", "H"] }
            ],
            "soft_hands": [
                { "total": 18, "actions": ["S", "D", "D", "D", "D", "S", "S", "H", "H", "S"] }
            ],
            "pair_hands": [
                { "pair": 8, "actions": ["P", "P", "P", "P", "P", "P", "P", "P", "P", "P"] },
                { "pair": 7, "actions": ["P", "P", "P", "P", "P", "P", "P", "H", "S", "Ph"] }
            ]
        },
        "action_legend": { "H": "Hit", "S": "Stand" }
    }"#;
    BlackjackStrategy::from_json(json).unwrap()
}

#[test]
fn hard_sixteen_against_ten_is_hit() {
    let doc = doc_with_tables();
    // Upcard ten sits at index eight of the row.
    assert_eq!(resolve(&doc, HandCategory::Hard, 16, 10), Ok(PlayerAction::Hit));
}

#[test]
fn hard_sixteen_against_six_is_stand() {
    let doc = doc_with_tables();
    // Upcard six sits at index four of the row.
    assert_eq!(resolve(&doc, HandCategory::Hard, 16, 6), Ok(PlayerAction::Stand));
}

#[test]
fn ace_upcard_reads_last_column() {
    let doc = doc_with_tables();
    assert_eq!(resolve(&doc, HandCategory::Pair, 7, 11), Ok(PlayerAction::SplitOrHit));
    assert_eq!(resolve(&doc, HandCategory::Soft, 18, 11), Ok(PlayerAction::Stand));
}

#[test]
fn every_upcard_column_of_a_hard_row() {
    let doc = doc_with_tables();
    let expected = [
        PlayerAction::Hit,
        PlayerAction::DoubleOrHit,
        PlayerAction::DoubleOrHit,
        PlayerAction::DoubleOrHit,
        PlayerAction::DoubleOrHit,
        PlayerAction::DoubleOrHit,
        PlayerAction::DoubleOrHit,
        PlayerAction::DoubleOrHit,
        PlayerAction::Hit,
        PlayerAction::Hit,
    ];
    for upcard in 2..=11u8 {
        let idx = if upcard == 11 { 9 } else { (upcard - 2) as usize };
        assert_eq!(resolve(&doc, HandCategory::Hard, 10, upcard), Ok(expected[idx]));
    }
}

#[test]
fn soft_lookup_resolves() {
    let doc = doc_with_tables();
    assert_eq!(resolve(&doc, HandCategory::Soft, 18, 3), Ok(PlayerAction::DoubleOrHit));
}

#[test]
fn pair_lookup_resolves() {
    let doc = doc_with_tables();
    assert_eq!(resolve(&doc, HandCategory::Pair, 8, 9), Ok(PlayerAction::Split));
}

#[test]
fn invalid_totals_are_rejected_per_category() {
    let doc = doc_with_tables();
    assert_eq!(resolve(&doc, HandCategory::Hard, 4, 5), Err(LookupError::InvalidTotal));
    assert_eq!(resolve(&doc, HandCategory::Hard, 22, 5), Err(LookupError::InvalidTotal));
    assert_eq!(resolve(&doc, HandCategory::Soft, 12, 5), Err(LookupError::InvalidTotal));
    assert_eq!(resolve(&doc, HandCategory::Soft, 22, 5), Err(LookupError::InvalidTotal));
    assert_eq!(resolve(&doc, HandCategory::Pair, 1, 5), Err(LookupError::InvalidTotal));
    assert_eq!(resolve(&doc, HandCategory::Pair, 12, 5), Err(LookupError::InvalidTotal));
}

#[test]
fn invalid_upcard_is_rejected() {
    let doc = doc_with_tables();
    assert_eq!(resolve(&doc, HandCategory::Hard, 16, 1), Err(LookupError::InvalidUpcard));
    assert_eq!(resolve(&doc, HandCategory::Hard, 16, 12), Err(LookupError::InvalidUpcard));
}

#[test]
fn missing_row_is_reported() {
    let doc = doc_with_tables();
    assert_eq!(resolve(&doc, HandCategory::Hard, 12, 5), Err(LookupError::NoRowForTotal));
}

#[test]
fn short_row_is_reported_as_missing_action() {
    let mut doc = doc_with_tables();
    doc.tables.hard_hands = vec![HardHandRow {
        total: 9,
        actions: vec![String::from("H"), String::from("H")],
    }];
    assert_eq!(resolve(&doc, HandCategory::Hard, 9, 8), Err(LookupError::MissingOrInvalidAction));
}

#[test]
fn unknown_code_is_reported() {
    let mut doc = doc_with_tables();
    let actions: Vec<String> = (0..10).map(|_| String::from("X")).collect();
    doc.tables.hard_hands = vec![HardHandRow { total: 9, actions }];
    assert_eq!(resolve(&doc, HandCategory::Hard, 9, 8), Err(LookupError::UnknownActionCode));
}

#[test]
fn first_matching_row_wins() {
    let mut doc = doc_with_tables();
    let stand_row: Vec<String> = (0..10).map(|_| String::from("S")).collect();
    let hit_row: Vec<String> = (0..10).map(|_| String::from("H")).collect();
    doc.tables.hard_hands = vec![
        HardHandRow { total: 9, actions: stand_row },
        HardHandRow { total: 9, actions: hit_row },
    ];
    assert_eq!(resolve(&doc, HandCategory::Hard, 9, 2), Ok(PlayerAction::Stand));
}
