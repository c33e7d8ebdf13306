//! The value of a card in a draft: its base value, and the bonus that the
//! state of the deck adds to it.

use vstd::prelude::*;
use vstd::string::*;

verus! {

/// A card as the card database holds it.
#[derive(Debug, Clone)]
pub struct CardData {
    pub id: String,
    pub name: String,
    pub clan: String,
    pub card_type: String,
    pub rarity: String,
    pub cost: Option<i32>,
    pub base_value: i32,
    pub tempo_score: i32,
    pub value_score: i32,
    pub keywords: Vec<String>,
    pub description: String,
    pub expansion: String,
}

/// What a card holds.
pub struct CardDataView {
    pub id: Seq<char>,
    pub name: Seq<char>,
    pub clan: Seq<char>,
    pub card_type: Seq<char>,
    pub rarity: Seq<char>,
    pub cost: Option<i32>,
    pub base_value: int,
    pub tempo_score: int,
    pub value_score: int,
    pub keywords: Seq<Seq<char>>,
    pub description: Seq<char>,
    pub expansion: Seq<char>,
}

impl View for CardData {
    type V = CardDataView;

    open spec fn view(&self) -> CardDataView {
        CardDataView {
            id: self.id@,
            name: self.name@,
            clan: self.clan@,
            card_type: self.card_type@,
            rarity: self.rarity@,
            cost: self.cost,
            base_value: self.base_value as int,
            tempo_score: self.tempo_score as int,
            value_score: self.value_score as int,
            keywords: Seq::new(self.keywords@.len(), |i: int| self.keywords@[i]@),
            description: self.description@,
            expansion: self.expansion@,
        }
    }
}

/// A bonus for cards with a tag, under a condition on the deck.
#[derive(Debug, Clone)]
pub struct ContextModifier {
    /// The condition on the deck, by its name.
    pub condition: String,
    /// The keyword that a card needs for the bonus.
    pub card_tag: String,
    /// The bonus.
    pub modifier: i32,
    pub priority: String,
    pub description: String,
}

/// What a modifier holds.
pub struct ContextModifierView {
    pub condition: Seq<char>,
    pub card_tag: Seq<char>,
    pub modifier: int,
    pub priority: Seq<char>,
    pub description: Seq<char>,
}

impl View for ContextModifier {
    type V = ContextModifierView;

    open spec fn view(&self) -> ContextModifierView {
        ContextModifierView {
            condition: self.condition@,
            card_tag: self.card_tag@,
            modifier: self.modifier as int,
            priority: self.priority@,
            description: self.description@,
        }
    }
}

/// What the cards of a deck hold.
pub open spec fn deck_views(deck: Seq<CardData>) -> Seq<CardDataView> {
    Seq::new(deck.len(), |i: int| deck[i]@)
}

/// What the modifiers of a list hold.
pub open spec fn modifier_views(modifiers: Seq<ContextModifier>) -> Seq<ContextModifierView> {
    Seq::new(modifiers.len(), |i: int| modifiers[i]@)
}

/// Computes the value of a card.
pub struct ScoreCalculator;

impl ScoreCalculator {
    pub fn new() -> (r: Self) {
        ScoreCalculator
    }

    pub fn new_test() -> (r: Self) {
        ScoreCalculator
    }

    /// The value of the card by itself.
    pub fn calculate_base(&self, card: &CardData) -> (r: i32)
        ensures
            r == card@.base_value,
    {
        card.base_value
    }
}

/// Whether the card has the keyword.
pub open spec fn has_keyword(card: CardDataView, keyword: Seq<char>) -> bool {
    exists|i: int| 0 <= i < card.keywords.len() && card.keywords[i] == keyword
}

/// Whether a card of the deck has the keyword.
pub open spec fn deck_has(deck: Seq<CardDataView>, keyword: Seq<char>) -> bool {
    exists|i: int| 0 <= i < deck.len() && has_keyword(#[trigger] deck[i], keyword)
}

/// How many of the first `n` cards of the deck are common cards with the
/// identifier `id`.
pub open spec fn common_copies(deck: Seq<CardDataView>, id: Seq<char>, n: nat) -> nat
    decreases n,
{
    if n == 0 {
        0
    } else {
        common_copies(deck, id, (n - 1) as nat) + if deck[n - 1].rarity == "Common"@ && deck[n
            - 1].id == id {
            1nat
        } else {
            0nat
        }
    }
}

/// Whether the condition of that name holds of the deck, for the card. A
/// name that is not known holds of no deck, and neither do the conditions on
/// the covenant and on the ring, of which a deck tells nothing.
pub open spec fn condition_holds(
    condition: Seq<char>,
    card: CardDataView,
    deck: Seq<CardDataView>,
) -> bool {
    if condition == "missing_frontline"@ {
        !deck_has(deck, "frontline"@) && !deck_has(deck, "tank"@)
    } else if condition == "missing_backline_clear"@ {
        !deck_has(deck, "sweep"@) && !deck_has(deck, "explosive"@) && !deck_has(deck, "advance"@)
    } else if condition == "has_reform_synergy"@ {
        deck_has(deck, "reform"@)
    } else if condition == "has_consume_synergy"@ {
        deck_has(deck, "consume"@)
    } else if condition == "deck_size_over_20"@ {
        deck.len() > 20
    } else if condition == "duplicate_common"@ {
        common_copies(deck, card.id, deck.len()) >= 2
    } else if condition == "has_forge_synergy"@ {
        deck_has(deck, "forge"@)
    } else if condition == "has_smelt_synergy"@ {
        deck_has(deck, "smelt"@)
    } else {
        false
    }
}

/// Whether the modifier applies to the card: the card has the modifier's tag,
/// and the modifier's condition holds of the deck.
pub open spec fn modifier_applies(
    card: CardDataView,
    deck: Seq<CardDataView>,
    modifier: ContextModifierView,
) -> bool {
    has_keyword(card, modifier.card_tag) && condition_holds(modifier.condition, card, deck)
}

/// The sum of the bonuses of those of the first `n` modifiers that apply.
pub open spec fn bonus_upto(
    card: CardDataView,
    deck: Seq<CardDataView>,
    modifiers: Seq<ContextModifierView>,
    n: nat,
) -> int
    decreases n,
{
    if n == 0 {
        0
    } else {
        bonus_upto(card, deck, modifiers, (n - 1) as nat) + if modifier_applies(
            card,
            deck,
            modifiers[n - 1],
        ) {
            modifiers[n - 1].modifier
        } else {
            0
        }
    }
}

/// The sum of the bonuses of the modifiers that apply.
pub open spec fn bonus_sum(
    card: CardDataView,
    deck: Seq<CardDataView>,
    modifiers: Seq<ContextModifierView>,
) -> int {
    bonus_upto(card, deck, modifiers, modifiers.len())
}

/// Whether two texts are the same.
fn same_text(a: &String, b: &str) -> (r: bool)
    ensures
        r == (a@ == b@),
{
    let other = String::from_str(b);
    *a == other
}

/// Whether the card has the keyword.
fn card_has_keyword(card: &CardData, keyword: &str) -> (r: bool)
    ensures
        r == has_keyword(card@, keyword@),
{
    let mut i: usize = 0;
    while i < card.keywords.len()
        invariant
            i <= card.keywords@.len(),
            forall|j: int| 0 <= j < i ==> card@.keywords[j] != keyword@,
        decreases card.keywords.len() - i,
    {
        if same_text(&card.keywords[i], keyword) {
            assert(card@.keywords[i as int] == keyword@);
            return true;
        }
        i += 1;
    }
    false
}

/// Whether a card of the deck has the keyword.
fn deck_has_keyword(deck: &[CardData], keyword: &str) -> (r: bool)
    ensures
        r == deck_has(deck_views(deck@), keyword@),
{
    let mut i: usize = 0;
    while i < deck.len()
        invariant
            i <= deck@.len(),
            forall|j: int| 0 <= j < i ==> !has_keyword(#[trigger] deck_views(deck@)[j], keyword@),
        decreases deck.len() - i,
    {
        if card_has_keyword(&deck[i], keyword) {
            assert(has_keyword(deck_views(deck@)[i as int], keyword@));
            return true;
        }
        i += 1;
    }
    false
}

/// How many cards of the deck are common cards with the identifier.
fn count_common_copies(deck: &[CardData], id: &String) -> (r: usize)
    ensures
        r == common_copies(deck_views(deck@), id@, deck@.len() as nat),
{
    let mut count: usize = 0;
    let mut i: usize = 0;
    while i < deck.len()
        invariant
            i <= deck@.len(),
            count == common_copies(deck_views(deck@), id@, i as nat),
            count <= i,
        decreases deck.len() - i,
    {
        if same_text(&deck[i].rarity, "Common") && deck[i].id == *id {
            count += 1;
        }
        i += 1;
    }
    count
}

/// Whether the modifier applies to the card, given the deck.
pub fn should_apply_modifier(
    card: &CardData,
    current_deck: &[CardData],
    modifier: &ContextModifier,
) -> (r: bool)
    ensures
        r == modifier_applies(card@, deck_views(current_deck@), modifier@),
{
    if !card_has_keyword(card, modifier.card_tag.as_str()) {
        return false;
    }
    let condition = &modifier.condition;
    if same_text(condition, "missing_frontline") {
        !deck_has_keyword(current_deck, "frontline") && !deck_has_keyword(current_deck, "tank")
    } else if same_text(condition, "missing_backline_clear") {
        !deck_has_keyword(current_deck, "sweep") && !deck_has_keyword(current_deck, "explosive")
            && !deck_has_keyword(current_deck, "advance")
    } else if same_text(condition, "has_reform_synergy") {
        deck_has_keyword(current_deck, "reform")
    } else if same_text(condition, "has_consume_synergy") {
        deck_has_keyword(current_deck, "consume")
    } else if same_text(condition, "deck_size_over_20") {
        current_deck.len() > 20
    } else if same_text(condition, "duplicate_common") {
        count_common_copies(current_deck, &card.id) >= 2
    } else if same_text(condition, "has_forge_synergy") {
        deck_has_keyword(current_deck, "forge")
    } else if same_text(condition, "has_smelt_synergy") {
        deck_has_keyword(current_deck, "smelt")
    } else {
        false
    }
}

/// The bonus that the state of the deck adds to the card: the sum of the
/// bonuses of the modifiers that apply.
pub fn calculate_context_bonus(
    card: &CardData,
    current_deck: &[CardData],
    modifiers: &[ContextModifier],
) -> (r: i128)
    ensures
        r == bonus_sum(card@, deck_views(current_deck@), modifier_views(modifiers@)),
{
    let mut total_bonus: i128 = 0;
    let mut i: usize = 0;
    while i < modifiers.len()
        invariant
            i <= modifiers@.len(),
            total_bonus == bonus_upto(
                card@,
                deck_views(current_deck@),
                modifier_views(modifiers@),
                i as nat,
            ),
            -0x8000_0000 * i <= total_bonus <= 0x8000_0000 * i,
        decreases modifiers.len() - i,
    {
        if should_apply_modifier(card, current_deck, &modifiers[i]) {
            total_bonus = total_bonus + modifiers[i].modifier as i128;
        }
        i += 1;
    }
    total_bonus
}

} // verus!
