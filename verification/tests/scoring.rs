use mt2_draft_assistant::scoring::{
    calculate_context_bonus, should_apply_modifier, CardData, ContextModifier, ScoreCalculator,
};

fn create_test_card_with_tags(id: &str, tags: Vec<&str>) -> CardData {
    CardData {
        id: id.to_string(),
        name: id.to_string(),
        clan: "Test".to_string(),
        card_type: "Unit".to_string(),
        rarity: "Common".to_string(),
        cost: Some(1),
        base_value: 70,
        tempo_score: 6,
        value_score: 7,
        keywords: tags.iter().map(|s| s.to_string()).collect(),
        description: "Test".to_string(),
        expansion: "base".to_string(),
    }
}

fn create_test_card(id: &str, base_value: i32, tempo: i32, value: i32, keywords: Vec<&str>) -> CardData {
    CardData {
        id: id.to_string(),
        name: id.to_string(),
        clan: "Test".to_string(),
        card_type: "Unit".to_string(),
        rarity: "Common".to_string(),
        cost: Some(1),
        base_value,
        tempo_score: tempo,
        value_score: value,
        keywords: keywords.iter().map(|s| s.to_string()).collect(),
        description: "Test card".to_string(),
        expansion: "base".to_string(),
    }
}

fn modifier(condition: &str, tag: &str, bonus: i32) -> ContextModifier {
    ContextModifier {
        condition: condition.to_string(),
        card_tag: tag.to_string(),
        modifier: bonus,
        priority: "High".to_string(),
        description: "Test".to_string(),
    }
}

#[test]
fn test_missing_frontline_detection() {
    let tank_card = create_test_card_with_tags("tank", vec!["frontline", "tank"]);
    let empty_deck: Vec<CardData> = vec![];

    let modifier = ContextModifier {
        condition: "missing_frontline".to_string(),
        card_tag: "frontline".to_string(),
        modifier: 15,
        priority: "High".to_string(),
        description: "No tank".to_string(),
    };

    assert!(should_apply_modifier(&tank_card, &empty_deck, &modifier));
}

#[test]
fn test_has_frontline_no_bonus() {
    let tank_card = create_test_card_with_tags("tank", vec!["frontline", "tank"]);
    let existing_tank = create_test_card_with_tags("existing", vec!["frontline"]);

    let modifier = ContextModifier {
        condition: "missing_frontline".to_string(),
        card_tag: "frontline".to_string(),
        modifier: 15,
        priority: "High".to_string(),
        description: "No tank".to_string(),
    };

    assert!(!should_apply_modifier(&tank_card, &[existing_tank], &modifier));
}

#[test]
fn test_missing_backline_clear() {
    let sweep_card = create_test_card_with_tags("sweep", vec!["sweep"]);
    let empty_deck: Vec<CardData> = vec![];

    let modifier = ContextModifier {
        condition: "missing_backline_clear".to_string(),
        card_tag: "sweep".to_string(),
        modifier: 20,
        priority: "Critical".to_string(),
        description: "No clear".to_string(),
    };

    assert!(should_apply_modifier(&sweep_card, &empty_deck, &modifier));
}

#[test]
fn test_base_value_calculation() {
    let card = create_test_card("test_card", 75, 6, 7, vec!["frontline"]);
    let calculator = ScoreCalculator::new_test();

    let score = calculator.calculate_base(&card);
    assert_eq!(score, 75);
}

#[test]
fn test_context_modifier_missing_frontline() {
    let card = create_test_card("tank_card", 70, 6, 8, vec!["frontline", "tank"]);
    let empty_deck: Vec<CardData> = vec![];

    let context_mods = vec![ContextModifier {
        condition: "missing_frontline".to_string(),
        card_tag: "frontline".to_string(),
        modifier: 15,
        priority: "High".to_string(),
        description: "No tank units".to_string(),
    }];

    let context_bonus = calculate_context_bonus(&card, &empty_deck, &context_mods);

    assert_eq!(context_bonus, 15);
}

#[test]
fn test_context_modifier_no_bonus_when_present() {
    let tank_card = create_test_card("tank_card", 70, 6, 8, vec!["frontline", "tank"]);
    let existing_tank = create_test_card("existing_tank", 70, 6, 8, vec!["frontline"]);

    let context_mods = vec![ContextModifier {
        condition: "missing_frontline".to_string(),
        card_tag: "frontline".to_string(),
        modifier: 15,
        priority: "High".to_string(),
        description: "No tank units".to_string(),
    }];

    let context_bonus = calculate_context_bonus(&tank_card, &[existing_tank], &context_mods);

    assert_eq!(context_bonus, 0);
}

#[test]
fn modifier_needs_its_tag_on_the_card() {
    let card = create_test_card_with_tags("plain", vec!["sweep"]);
    assert!(!should_apply_modifier(&card, &[], &modifier("missing_frontline", "frontline", 15)));
    assert!(!should_apply_modifier(&card, &[], &modifier("missing_frontline", "Sweep", 15)));
    assert!(should_apply_modifier(&card, &[], &modifier("missing_frontline", "sweep", 15)));
}

#[test]
fn conditions_on_the_deck() {
    let card = create_test_card_with_tags("card", vec!["x"]);
    let with = |tags: Vec<&str>| vec![create_test_card_with_tags("other", tags)];
    let applies = |condition: &str, deck: &[CardData]| {
        should_apply_modifier(&card, deck, &modifier(condition, "x", 1))
    };
    assert!(!applies("missing_frontline", &with(vec!["tank"])));
    assert!(applies("missing_frontline", &with(vec!["sweep"])));
    for clear in ["sweep", "explosive", "advance"] {
        assert!(!applies("missing_backline_clear", &with(vec!["a", clear])));
    }
    assert!(applies("missing_backline_clear", &with(vec!["tank"])));
    for (condition, keyword) in [
        ("has_reform_synergy", "reform"),
        ("has_consume_synergy", "consume"),
        ("has_forge_synergy", "forge"),
        ("has_smelt_synergy", "smelt"),
    ] {
        assert!(applies(condition, &with(vec![keyword])));
        assert!(!applies(condition, &with(vec!["tank"])));
        assert!(!applies(condition, &[]));
    }
    for never in ["covenant_high", "ring_early", "ring_late", "", "something else"] {
        assert!(!applies(never, &with(vec!["tank"])));
        assert!(!applies(never, &[]));
    }
}

#[test]
fn condition_on_the_size_of_the_deck() {
    let card = create_test_card_with_tags("card", vec!["x"]);
    let deck = |n: usize| -> Vec<CardData> {
        (0..n).map(|_| create_test_card_with_tags("other", vec![])).collect()
    };
    let over = modifier("deck_size_over_20", "x", 1);
    assert!(!should_apply_modifier(&card, &deck(20), &over));
    assert!(should_apply_modifier(&card, &deck(21), &over));
}

#[test]
fn condition_on_copies_in_the_deck() {
    let card = create_test_card_with_tags("card", vec!["x"]);
    let mut rare = create_test_card_with_tags("card", vec![]);
    rare.rarity = "Rare".to_string();
    let copy = || create_test_card_with_tags("card", vec![]);
    let other = create_test_card_with_tags("other", vec![]);
    let twice = modifier("duplicate_common", "x", 1);
    assert!(!should_apply_modifier(&card, &[copy(), other.clone(), rare.clone()], &twice));
    assert!(should_apply_modifier(&card, &[copy(), other, rare, copy()], &twice));
}

#[test]
fn bonuses_of_all_modifiers_that_apply_add_up() {
    let card = create_test_card_with_tags("card", vec!["frontline", "sweep"]);
    let deck = vec![create_test_card_with_tags("other", vec!["reform"])];
    let modifiers = vec![
        modifier("missing_frontline", "frontline", 15),
        modifier("missing_backline_clear", "sweep", 20),
        modifier("has_reform_synergy", "sweep", -7),
        modifier("has_consume_synergy", "sweep", 100),
        modifier("missing_frontline", "tank", 1000),
    ];
    assert_eq!(calculate_context_bonus(&card, &deck, &modifiers), 28);
    assert_eq!(calculate_context_bonus(&card, &deck, &[]), 0);
    let large = vec![
        modifier("missing_frontline", "frontline", i32::MAX),
        modifier("missing_frontline", "frontline", i32::MAX),
    ];
    assert_eq!(calculate_context_bonus(&card, &deck, &large), 2 * (i32::MAX as i128));
    assert_eq!(ScoreCalculator::new().calculate_base(&card), 70);
}
