//! Card names as they come from the card database.

use vstd::hash_map::StringHashMap;
use vstd::prelude::*;
use vstd::string::*;
use crate::matching::name_pairs;
use crate::text::{
    alphanumeric, is_alphanumeric, is_whitespace, lowercase, push_char, split_whitespace, texts,
    to_lowercase, white_space, words,
};

verus! {

/// Whether a character of a name is kept: letters, digits and white space.
pub open spec fn is_name_char(c: char) -> bool {
    alphanumeric(c) || white_space(c)
}

/// The characters of a text that are kept in a name, in their order.
pub open spec fn name_chars(s: Seq<char>) -> Seq<char>
    decreases s.len(),
{
    if s.len() == 0 {
        Seq::empty()
    } else if is_name_char(s.last()) {
        name_chars(s.drop_last()).push(s.last())
    } else {
        name_chars(s.drop_last())
    }
}

/// The words with one space between each two.
pub open spec fn joined(parts: Seq<Seq<char>>) -> Seq<char>
    decreases parts.len(),
{
    if parts.len() == 0 {
        Seq::empty()
    } else if parts.len() == 1 {
        parts[0]
    } else {
        joined(parts.drop_last()) + seq![' '] + parts.last()
    }
}

/// A name as it is compared: its letters, digits and spaces only, its words
/// one space apart, in lower case.
pub open spec fn normalized_name(name: Seq<char>) -> Seq<char> {
    lowercase(joined(words(name_chars(name))))
}

/// Brings a card name into the form in which names are compared.
pub fn normalize_card_name(name: &str) -> (r: String)
    ensures
        r@ == normalized_name(name@),
{
    let mut kept = String::new();
    let count = name.unicode_len();
    let mut i: usize = 0;
    while i < count
        invariant
            i <= count,
            count == name@.len(),
            kept@ == name_chars(name@.take(i as int)),
        decreases count - i,
    {
        let c = name.get_char(i);
        proof {
            assert(name@.take(i + 1).drop_last() =~= name@.take(i as int));
        }
        if is_alphanumeric(c) || is_whitespace(c) {
            push_char(&mut kept, c);
        }
        i += 1;
    }
    proof {
        assert(name@.take(count as int) =~= name@);
    }
    let parts = split_whitespace(kept.as_str());
    let mut line = String::new();
    let mut j: usize = 0;
    while j < parts.len()
        invariant
            j <= parts.len(),
            line@ == joined(texts(parts@).take(j as int)),
        decreases parts.len() - j,
    {
        proof {
            assert(texts(parts@).take(j + 1).drop_last() =~= texts(parts@).take(j as int));
            assert(texts(parts@).take(j + 1).last() == parts@[j as int]@);
        }
        if j > 0 {
            proof {
                reveal_strlit(" ");
                assert(" "@ =~= seq![' ']);
            }
            line.append(" ");
        } else {
            assert(texts(parts@).take(1)[0] == parts@[0]@);
        }
        line.append(parts[j].as_str());
        assert(line@ =~= joined(texts(parts@).take(j + 1)));
        j += 1;
    }
    proof {
        assert(texts(parts@).take(parts@.len() as int) =~= texts(parts@));
    }
    to_lowercase(line.as_str())
}

/// The names of the cards by their identifiers, as texts: of two cards with
/// one identifier the later one stays.
pub open spec fn card_map_upto(cards: Seq<(Seq<char>, Seq<char>)>, n: nat) -> Map<
    Seq<char>,
    Seq<char>,
>
    decreases n,
{
    if n == 0 {
        Map::empty()
    } else {
        card_map_upto(cards, (n - 1) as nat).insert(cards[n - 1].0, cards[n - 1].1)
    }
}

/// The texts of the values of a map.
pub open spec fn value_texts(m: Map<Seq<char>, String>) -> Map<Seq<char>, Seq<char>> {
    m.map_values(|v: String| v@)
}

/// The names of the cards by their identifiers.
pub fn build_card_map(cards: Vec<(String, String)>) -> (r: StringHashMap<String>)
    ensures
        value_texts(r@) == card_map_upto(name_pairs(cards@), cards@.len()),
{
    let mut map: StringHashMap<String> = StringHashMap::new();
    assert(value_texts(map@) =~= Map::<Seq<char>, Seq<char>>::empty());
    let mut i: usize = 0;
    while i < cards.len()
        invariant
            i <= cards@.len(),
            value_texts(map@) == card_map_upto(name_pairs(cards@), i as nat),
        decreases cards.len() - i,
    {
        let ghost before = map@;
        let id = cards[i].0.clone();
        let name = cards[i].1.clone();
        map.insert(id, name);
        assert(value_texts(map@) =~= value_texts(before).insert(
            cards@[i as int].0@,
            cards@[i as int].1@,
        ));
        i += 1;
    }
    map
}

} // verus!
