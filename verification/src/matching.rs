//! Matching recognised text against the names of the known cards.

use fuzzy_matcher::skim::SkimMatcherV2;
use fuzzy_matcher::FuzzyMatcher;
use vstd::prelude::*;
use vstd::string::*;
use crate::order::{descending_order, int_keys, is_descending_order};
use crate::recognize::{
    default_recognize_config, normalized, OcrEngine, OcrResult, OcrResultView, RecognizeConfig,
    RecognizeConfigView, RecognizeError,
};
use crate::text::{lowercase, split_whitespace, texts, to_lowercase, trim, words};

verus! {

/// What a match holds.
pub struct CardMatchView {
    pub card_name: Seq<char>,
    pub card_id: Seq<char>,
    pub ocr_text: Seq<char>,
    pub match_score: int,
    pub ocr_confidence: int,
    pub overall_confidence: int,
}

/// A card that recognised text was matched to.
#[derive(Debug, PartialEq)]
pub struct CardMatch {
    /// The name of the card.
    pub card_name: String,
    /// The identifier of the card.
    pub card_id: String,
    /// The text that was matched.
    pub ocr_text: String,
    /// How well the text fits the name, of 100.
    pub match_score: i32,
    /// The engine's confidence in the text, of 100.
    pub ocr_confidence: i32,
    /// The confidence in the match as a whole, in thousandths.
    pub overall_confidence: i64,
}

impl View for CardMatch {
    type V = CardMatchView;

    open spec fn view(&self) -> CardMatchView {
        CardMatchView {
            card_name: self.card_name@,
            card_id: self.card_id@,
            ocr_text: self.ocr_text@,
            match_score: self.match_score as int,
            ocr_confidence: self.ocr_confidence as int,
            overall_confidence: self.overall_confidence as int,
        }
    }
}

impl Clone for CardMatch {
    fn clone(&self) -> (r: Self)
        ensures
            r@ == self@,
    {
        CardMatch {
            card_name: self.card_name.clone(),
            card_id: self.card_id.clone(),
            ocr_text: self.ocr_text.clone(),
            match_score: self.match_score,
            ocr_confidence: self.ocr_confidence,
            overall_confidence: self.overall_confidence,
        }
    }
}

/// The confidence in a match as a whole, in thousandths: four tenths of the
/// engine's confidence and six tenths of the match score, both of 100.
pub open spec fn fused_confidence(ocr_confidence: int, match_score: int) -> int {
    4 * ocr_confidence + 6 * match_score
}

impl CardMatch {
    pub fn calculate_overall_confidence(ocr_confidence: i32, match_score: i32) -> (r: i64)
        ensures
            r == fused_confidence(ocr_confidence as int, match_score as int),
    {
        4 * (ocr_confidence as i64) + 6 * (match_score as i64)
    }

    /// The match with the engine's confidence filled in.
    pub open spec fn fused(m: CardMatchView, ocr_confidence: int) -> CardMatchView {
        CardMatchView {
            ocr_confidence,
            overall_confidence: fused_confidence(ocr_confidence, m.match_score),
            ..m
        }
    }

    /// Fills in the engine's confidence and the confidence in the match as a
    /// whole.
    pub fn with_ocr_confidence(self, ocr_confidence: i32) -> (r: Self)
        ensures
            r@ == Self::fused(self@, ocr_confidence as int),
    {
        let overall = Self::calculate_overall_confidence(ocr_confidence, self.match_score);
        CardMatch {
            card_name: self.card_name,
            card_id: self.card_id,
            ocr_text: self.ocr_text,
            match_score: self.match_score,
            ocr_confidence,
            overall_confidence: overall,
        }
    }
}

/// The score of `SkimMatcherV2::fuzzy_match` for a choice and a pattern, on a
/// matcher that is new.
pub uninterp spec fn skim_score(choice: Seq<char>, pattern: Seq<char>) -> Option<i64>;

/// The longest text, in characters, that is scored: 2 to the power of 24.
/// The scorer adds in 32 bits. A character of the pattern adds at most 32 to
/// a score, and a character of the choice takes at most 4 from one, starting
/// at -32768 at the lowest; so with texts of this length no sum leaves the
/// range from -2 to the power of 27 to 2 to the power of 29. Its matrix, two
/// rows with a cell of at most 24 bytes for each character of the choice, can
/// be addressed with 32 bits.
pub const MAX_TEXT_CHARS: usize = 16777216;

/// `SkimMatcherV2::fuzzy_match` of the crate fuzzy-matcher, on a matcher with
/// the default settings that is made for this one call: the score of the best
/// alignment of the pattern's characters within the choice, or none where
/// they do not occur in it in order. A matcher that is kept reuses its score
/// matrix, so that a score could depend on the calls before; a new one scores
/// from the two texts alone. The score is computed in 32 bits, which texts of
/// the accepted length cannot exceed.
#[verifier::external_body]
fn fuzzy_match(choice: &str, pattern: &str) -> (r: Option<i64>)
    requires
        choice@.len() <= MAX_TEXT_CHARS,
        pattern@.len() <= MAX_TEXT_CHARS,
    ensures
        r == skim_score(choice@, pattern@),
        r is Some ==> i32::MIN <= r->0 <= i32::MAX,
{
    SkimMatcherV2::default().fuzzy_match(choice, pattern)
}

/// The score of a pattern within a choice: texts longer than
/// `MAX_TEXT_CHARS` are not scored.
pub open spec fn text_score(choice: Seq<char>, pattern: Seq<char>) -> Option<i64> {
    if choice.len() <= MAX_TEXT_CHARS && pattern.len() <= MAX_TEXT_CHARS {
        skim_score(choice, pattern)
    } else {
        None
    }
}

/// Scores a pattern within a choice.
pub fn score_text(choice: &str, pattern: &str) -> (r: Option<i64>)
    ensures
        r == text_score(choice@, pattern@),
        r is Some ==> i32::MIN <= r->0 <= i32::MAX,
{
    if choice.unicode_len() <= MAX_TEXT_CHARS && pattern.unicode_len() <= MAX_TEXT_CHARS {
        fuzzy_match(choice, pattern)
    } else {
        None
    }
}

/// The better of two scores; the first one stays unless the second is higher.
pub open spec fn better(a: Option<i64>, b: Option<i64>) -> Option<i64> {
    match (a, b) {
        (Some(x), Some(y)) => if y > x {
            b
        } else {
            a
        },
        (None, _) => b,
        (_, None) => a,
    }
}

/// How well a candidate text and a recognised text fit each other: the score
/// of the recognised text within the candidate or, if it is higher, that of
/// the candidate within the recognised text. The scorer asks for every
/// character of its pattern, in order; so a text that was read with a
/// character too many, or with one missing, fits in one of the two ways.
pub open spec fn similarity(candidate: Seq<char>, text: Seq<char>) -> Option<i64> {
    better(text_score(candidate, text), text_score(text, candidate))
}

/// The best of a list of scores.
pub open spec fn best_score(scores: Seq<Option<i64>>) -> Option<i64>
    decreases scores.len(),
{
    if scores.len() == 0 {
        None
    } else {
        better(best_score(scores.drop_last()), scores.last())
    }
}

/// The texts that stand for a card name: the name in lower case and, for a
/// short pattern, each of its words.
pub open spec fn candidate_texts(name: Seq<char>, short: bool) -> Seq<Seq<char>> {
    if short {
        seq![lowercase(name)] + words(lowercase(name))
    } else {
        seq![lowercase(name)]
    }
}

/// The score of a card name for a recognised text: the best among the texts
/// that stand for the name of how well each fits the recognised text.
pub open spec fn name_score(name: Seq<char>, pattern: Seq<char>, short: bool) -> Option<i64> {
    best_score(candidate_texts(name, short).map_values(|t: Seq<char>| similarity(t, pattern)))
}

/// A pattern below this length, in characters, is also matched against the
/// single words of a name.
pub const SHORT_TEXT_CHARS: usize = 10;

/// Whether position `k` holds the best score: the score exceeds `min_score`,
/// no score is higher, and no earlier one is as high.
pub open spec fn is_best(scores: Seq<Option<i64>>, min_score: int, k: int) -> bool {
    &&& 0 <= k < scores.len()
    &&& scores[k] is Some
    &&& scores[k]->0 > min_score
    &&& forall|j: int| 0 <= j < scores.len() && scores[j] is Some ==> scores[j]->0 <= scores[k]->0
    &&& forall|j: int| 0 <= j < k && scores[j] is Some ==> scores[j]->0 < scores[k]->0
}

/// At most one position holds the best score.
pub proof fn lemma_best_is_unique(scores: Seq<Option<i64>>, min_score: int, a: int, b: int)
    requires
        is_best(scores, min_score, a),
        is_best(scores, min_score, b),
    ensures
        a == b,
{
}

/// The position of the best score, if any score exceeds `min_score`.
pub open spec fn best_position(scores: Seq<Option<i64>>, min_score: int) -> Option<int> {
    if exists|k: int| is_best(scores, min_score, k) {
        Some(choose|k: int| is_best(scores, min_score, k))
    } else {
        None
    }
}

/// Where the best score stands among the scores: the first of the highest,
/// if it exceeds `min_score`.
pub fn select_best(scores: &Vec<Option<i64>>, min_score: i64) -> (r: Option<usize>)
    ensures
        r is Some ==> is_best(scores@, min_score as int, r->0 as int),
        r is None ==> forall|j: int|
            0 <= j < scores@.len() && scores@[j] is Some ==> scores@[j]->0 <= min_score,
        (match r {
            Some(k) => Some(k as int),
            None => None,
        }) == best_position(scores@, min_score as int),
{
    let mut best: Option<usize> = None;
    let mut limit: i64 = min_score;
    let mut i: usize = 0;
    while i < scores.len()
        invariant
            i <= scores.len(),
            limit >= min_score,
            best is None ==> limit == min_score,
            best is Some ==> best->0 < i && scores@[best->0 as int] == Some(limit) && limit
                > min_score,
            forall|j: int| 0 <= j < i && scores@[j] is Some ==> scores@[j]->0 <= limit,
            best is Some ==> forall|j: int|
                0 <= j < best->0 && scores@[j] is Some ==> scores@[j]->0 < limit,
        decreases scores.len() - i,
    {
        match scores[i] {
            Some(s) => {
                if s > limit {
                    limit = s;
                    best = Some(i);
                }
            },
            None => {},
        }
        i += 1;
    }
    proof {
        match best {
            Some(k) => {
                assert(is_best(scores@, min_score as int, k as int));
                let c = choose|c: int| is_best(scores@, min_score as int, c);
                lemma_best_is_unique(scores@, min_score as int, k as int, c);
            },
            None => {
                assert forall|c: int| !is_best(scores@, min_score as int, c) by {}
            },
        }
    }
    best
}


/// The better of two scores, as `better` says.
fn pick_better(a: Option<i64>, b: Option<i64>) -> (r: Option<i64>)
    ensures
        r == better(a, b),
{
    match (a, b) {
        (Some(x), Some(y)) => if y > x {
            b
        } else {
            a
        },
        (None, _) => b,
        (_, None) => a,
    }
}

/// Scores how well a candidate text and a recognised text fit each other.
pub fn score_similarity(candidate: &str, text: &str) -> (r: Option<i64>)
    ensures
        r == similarity(candidate@, text@),
        r is Some ==> i32::MIN <= r->0 <= i32::MAX,
{
    let within_candidate = score_text(candidate, text);
    let within_text = score_text(text, candidate);
    pick_better(within_candidate, within_text)
}

/// The best of the first `n + 1` scores is the better of the best of the first
/// `n` and the next one.
proof fn lemma_best_score_step(scores: Seq<Option<i64>>, n: int)
    requires
        0 <= n < scores.len(),
    ensures
        best_score(scores.take(n + 1)) == better(best_score(scores.take(n)), scores[n]),
{
    assert(scores.take(n + 1).drop_last() =~= scores.take(n));
}

/// Scores a card name for a pattern.
pub fn score_name(name: &str, pattern: &str, short: bool) -> (r: Option<i64>)
    ensures
        r == name_score(name@, pattern@, short),
        r is Some ==> i32::MIN <= r->0 <= i32::MAX,
{
    let lower = to_lowercase(name);
    let mut best = score_similarity(lower.as_str(), pattern);
    let ghost scores = candidate_texts(name@, short).map_values(
        |t: Seq<char>| similarity(t, pattern@),
    );
    proof {
        lemma_best_score_step(scores, 0);
        assert(scores.take(0) =~= Seq::<Option<i64>>::empty());
    }
    if short {
        let parts = split_whitespace(lower.as_str());
        let mut j: usize = 0;
        while j < parts.len()
            invariant
                j <= parts.len(),
                short,
                lower@ == lowercase(name@),
                texts(parts@) == words(lower@),
                scores == candidate_texts(name@, short).map_values(
                    |t: Seq<char>| similarity(t, pattern@),
                ),
                best == best_score(scores.take(1 + j)),
                best is Some ==> i32::MIN <= best->0 <= i32::MAX,
            decreases parts.len() - j,
        {
            let score = score_similarity(parts[j].as_str(), pattern);
            proof {
                assert(texts(parts@).len() == parts@.len());
                assert(texts(parts@)[j as int] == parts@[j as int]@);
                assert(candidate_texts(name@, short)[1 + j] == parts@[j as int]@);
                lemma_best_score_step(scores, 1 + j);
            }
            best = pick_better(best, score);
            j += 1;
        }
        proof {
            assert(texts(parts@).len() == parts@.len());
            assert(scores.take(1 + j) =~= scores);
        }
    } else {
        proof {
            assert(scores.take(1) =~= scores);
        }
    }
    best
}

/// A score as it is reported: at most 100.
pub open spec fn capped(score: int) -> int {
    if score > 100 {
        100
    } else {
        score
    }
}

/// The identifiers and names of a list of cards, as texts.
pub open spec fn name_pairs(v: Seq<(String, String)>) -> Seq<(Seq<char>, Seq<char>)> {
    Seq::new(v.len(), |i: int| (v[i].0@, v[i].1@))
}

/// What the matches of a list hold.
pub open spec fn match_views(v: Seq<CardMatch>) -> Seq<CardMatchView> {
    Seq::new(v.len(), |i: int| v[i]@)
}

/// What the readings of a list hold.
pub open spec fn reading_views(v: Seq<OcrResult>) -> Seq<OcrResultView> {
    Seq::new(v.len(), |i: int| v[i]@)
}

/// What an optional match holds.
pub open spec fn opt_match_view(m: Option<CardMatch>) -> Option<CardMatchView> {
    match m {
        Some(m) => Some(m@),
        None => None,
    }
}

/// Whether `listing` holds the `items`, the one with the highest key first;
/// items with equal keys stay in their order.
pub open spec fn is_listing_by(
    listing: Seq<CardMatchView>,
    items: Seq<CardMatchView>,
    keys: Seq<int>,
) -> bool {
    exists|order: Seq<usize>| #[trigger]
        is_descending_order(order, keys, items.len() as int) && listing == Seq::new(
            items.len(),
            |i: int| items[order[i] as int],
        )
}

/// The confidences in the matches as a whole.
pub open spec fn overall_confidences(items: Seq<CardMatchView>) -> Seq<int> {
    Seq::new(items.len(), |i: int| items[i].overall_confidence)
}

/// The match scores of the matches.
pub open spec fn match_scores(items: Seq<CardMatchView>) -> Seq<int> {
    Seq::new(items.len(), |i: int| items[i].match_score)
}

/// The matcher's cards and the score that a match has to exceed.
pub struct CardMatcherView {
    /// Identifier and name of each card, in the order in which they are tried.
    pub names: Seq<(Seq<char>, Seq<char>)>,
    pub min_score: int,
}

impl CardMatcherView {
    /// The score of each card for a text.
    pub open spec fn scores(self, text: Seq<char>) -> Seq<Option<i64>> {
        Seq::new(
            self.names.len(),
            |i: int|
                name_score(
                    self.names[i].1,
                    normalized(text),
                    normalized(text).len() < SHORT_TEXT_CHARS,
                ),
        )
    }

    /// The match of a text to card `k` with a score.
    pub open spec fn match_at(self, k: int, text: Seq<char>, score: int) -> CardMatchView {
        CardMatchView {
            card_name: self.names[k].1,
            card_id: self.names[k].0,
            ocr_text: text,
            match_score: capped(score),
            ocr_confidence: 0,
            overall_confidence: 0,
        }
    }

    /// The best match of a text: the first card with the highest score, if
    /// that score exceeds `min_score` and the text, in lower case and without
    /// white space at its ends, is not empty.
    pub open spec fn best_match(self, text: Seq<char>) -> Option<CardMatchView> {
        if normalized(text).len() == 0 {
            None
        } else {
            match best_position(self.scores(text), self.min_score) {
                Some(k) => Some(self.match_at(k, text, self.scores(text)[k]->0 as int)),
                None => None,
            }
        }
    }

    /// The matches of the first `n` readings, each with the reading's
    /// confidence filled in, in the order of the readings.
    pub open spec fn matches_upto(self, readings: Seq<OcrResultView>, n: nat) -> Seq<CardMatchView>
        decreases n,
    {
        if n == 0 {
            Seq::empty()
        } else {
            let before = self.matches_upto(readings, (n - 1) as nat);
            match self.best_match(readings[n - 1].text) {
                Some(m) => before.push(CardMatch::fused(m, readings[n - 1].confidence)),
                None => before,
            }
        }
    }

    /// The matches of the readings, in the order of the readings.
    pub open spec fn matches_of(self, readings: Seq<OcrResultView>) -> Seq<CardMatchView> {
        self.matches_upto(readings, readings.len())
    }

    /// The score of the whole name of card `i` for a text.
    pub open spec fn whole_name_score(self, i: int, text: Seq<char>) -> Option<i64> {
        similarity(lowercase(self.names[i].1), normalized(text))
    }

    /// Card `i` as a candidate for a text.
    pub open spec fn candidate_at(self, i: int, text: Seq<char>) -> CardMatchView {
        CardMatchView {
            card_name: self.names[i].1,
            card_id: self.names[i].0,
            ocr_text: text,
            match_score: capped(self.whole_name_score(i, text)->0 as int),
            ocr_confidence: 0,
            overall_confidence: 10 * self.whole_name_score(i, text)->0,
        }
    }

    /// Those of the first `n` cards whose whole name scores at least
    /// `threshold` for the text, in their order.
    pub open spec fn candidates_upto(self, text: Seq<char>, threshold: int, n: nat) -> Seq<
        CardMatchView,
    >
        decreases n,
    {
        if n == 0 {
            Seq::empty()
        } else {
            let before = self.candidates_upto(text, threshold, (n - 1) as nat);
            let score = self.whole_name_score(n - 1, text);
            if score is Some && score->0 >= threshold {
                before.push(self.candidate_at(n - 1, text))
            } else {
                before
            }
        }
    }

    /// The cards whose whole name scores at least `threshold` for the text,
    /// in their order; none for a text that is empty once it is in lower case
    /// and without white space at its ends.
    pub open spec fn candidates(self, text: Seq<char>, threshold: int) -> Seq<CardMatchView> {
        if normalized(text).len() == 0 {
            Seq::empty()
        } else {
            self.candidates_upto(text, threshold, self.names.len())
        }
    }
}

/// A text has no match where it is empty once it is in lower case and
/// without white space at its ends, and where no card scores above the
/// least score. A match that is found has a score above the least score,
/// or the highest score there is.
pub proof fn lemma_match_exceeds_minimum(matcher: CardMatcherView, text: Seq<char>)
    ensures
        normalized(text).len() == 0 ==> matcher.best_match(text) is None,
        (forall|i: int|
            0 <= i < matcher.names.len() && matcher.scores(text)[i] is Some ==> matcher.scores(
                text,
            )[i]->0 <= matcher.min_score) ==> matcher.best_match(text) is None,
        matcher.best_match(text) is Some ==> matcher.best_match(text)->0.match_score
            > matcher.min_score || matcher.best_match(text)->0.match_score == 100,
{
    let scores = matcher.scores(text);
    if forall|i: int|
        0 <= i < matcher.names.len() && matcher.scores(text)[i] is Some ==> matcher.scores(
            text,
        )[i]->0 <= matcher.min_score {
        assert forall|k: int| !is_best(scores, matcher.min_score, k) by {}
    }
    if matcher.best_match(text) is Some {
        let k = choose|k: int| is_best(scores, matcher.min_score, k);
        assert(is_best(scores, matcher.min_score, k));
    }
}

/// The confidence in a match as a whole lies between nothing and certainty
/// where the engine's confidence and the match score lie between 0 and 100,
/// and grows with either.
pub proof fn lemma_fused_confidence_range(ocr_confidence: int, match_score: int)
    requires
        0 <= ocr_confidence <= 100,
        0 <= match_score <= 100,
    ensures
        0 <= fused_confidence(ocr_confidence, match_score) <= 1000,
        fused_confidence(100, 100) == 1000,
        fused_confidence(ocr_confidence, match_score) <= fused_confidence(
            ocr_confidence + 1,
            match_score,
        ),
        fused_confidence(ocr_confidence, match_score) <= fused_confidence(
            ocr_confidence,
            match_score + 1,
        ),
{
}

/// Matches recognised text against the names of the known cards.
pub struct CardMatcher {
    card_names: Vec<(String, String)>,
    min_score: i32,
}

impl View for CardMatcher {
    type V = CardMatcherView;

    closed spec fn view(&self) -> CardMatcherView {
        CardMatcherView { names: name_pairs(self.card_names@), min_score: self.min_score as int }
    }
}

/// The matches in the order of their keys, the highest first.
fn arrange(items: Vec<CardMatch>, keys: &Vec<i64>) -> (r: Vec<CardMatch>)
    requires
        keys@.len() == items@.len(),
    ensures
        is_listing_by(match_views(r@), match_views(items@), int_keys(keys@)),
{
    let order = descending_order(keys);
    let mut out: Vec<CardMatch> = Vec::new();
    let mut i: usize = 0;
    while i < order.len()
        invariant
            i <= order.len(),
            order@.len() == items@.len(),
            is_descending_order(order@, int_keys(keys@), items@.len() as int),
            out@.len() == i,
            forall|j: int| 0 <= j < i ==> out@[j]@ == items@[order@[j] as int]@,
        decreases order.len() - i,
    {
        out.push(items[order[i]].clone());
        i += 1;
    }
    proof {
        assert(match_views(out@) =~= Seq::new(
            match_views(items@).len(),
            |i: int| match_views(items@)[order@[i] as int],
        ));
    }
    out
}

impl CardMatcher {
    #[verifier::type_invariant]
    spec fn inv(self) -> bool {
        self.card_names@.len() > 0
    }

    /// A matcher for the cards, if there are any.
    pub fn new(card_names: Vec<(String, String)>, min_score: i32) -> (r: Result<
        Self,
        RecognizeError,
    >)
        ensures
            card_names@.len() == 0 ==> r == Err::<Self, RecognizeError>(
                RecognizeError::NoCardNamesAvailable,
            ),
            card_names@.len() > 0 ==> r is Ok && r->Ok_0@ == (CardMatcherView {
                names: name_pairs(card_names@),
                min_score: min_score as int,
            }),
    {
        if card_names.len() == 0 {
            return Err(RecognizeError::NoCardNamesAvailable);
        }
        Ok(CardMatcher { card_names, min_score })
    }

    /// Identifier and name of each card.
    pub fn card_names(&self) -> (names: &Vec<(String, String)>)
        ensures
            name_pairs(names@) == self@.names,
            names@.len() > 0,
    {
        proof {
            use_type_invariant(self);
        }
        &self.card_names
    }

    /// The score that a match has to exceed.
    pub fn min_score(&self) -> (m: i32)
        ensures
            m == self@.min_score,
    {
        self.min_score
    }

    /// The card that the text fits best.
    pub fn find_best_match(&self, ocr_text: &str) -> (r: Option<CardMatch>)
        ensures
            opt_match_view(r) == self@.best_match(ocr_text@),
    {
        let lower = to_lowercase(ocr_text);
        let pattern = trim(lower.as_str());
        let length = pattern.unicode_len();
        if length == 0 {
            return None;
        }
        let short = length < SHORT_TEXT_CHARS;
        let mut scores: Vec<Option<i64>> = Vec::new();
        let mut i: usize = 0;
        while i < self.card_names.len()
            invariant
                i <= self.card_names@.len(),
                pattern@ == normalized(ocr_text@),
                short == (pattern@.len() < SHORT_TEXT_CHARS),
                scores@.len() == i,
                forall|j: int| 0 <= j < i ==> scores@[j] == self@.scores(ocr_text@)[j],
                forall|j: int|
                    0 <= j < i && scores@[j] is Some ==> i32::MIN <= (#[trigger] scores@[j])->0
                        <= i32::MAX,
            decreases self.card_names.len() - i,
        {
            let score = score_name(self.card_names[i].1.as_str(), pattern, short);
            scores.push(score);
            i += 1;
        }
        assert(scores@ =~= self@.scores(ocr_text@));
        match select_best(&scores, self.min_score as i64) {
            Some(k) => {
                let score: i64 = scores[k].unwrap();
                let match_score: i32 = if score > 100 {
                    100
                } else {
                    score as i32
                };
                Some(
                    CardMatch {
                        card_name: self.card_names[k].1.clone(),
                        card_id: self.card_names[k].0.clone(),
                        ocr_text: String::from_str(ocr_text),
                        match_score,
                        ocr_confidence: 0,
                        overall_confidence: 0,
                    },
                )
            },
            None => None,
        }
    }

    /// The matches of the readings, each with the reading's confidence filled
    /// in, the most confident match first.
    pub fn match_results(&self, ocr_results: Vec<OcrResult>) -> (r: Vec<CardMatch>)
        ensures
            is_listing_by(
                match_views(r@),
                self@.matches_of(reading_views(ocr_results@)),
                overall_confidences(self@.matches_of(reading_views(ocr_results@))),
            ),
    {
        let mut matches: Vec<CardMatch> = Vec::new();
        let mut keys: Vec<i64> = Vec::new();
        let ghost readings = reading_views(ocr_results@);
        let mut i: usize = 0;
        while i < ocr_results.len()
            invariant
                i <= ocr_results@.len(),
                readings == reading_views(ocr_results@),
                match_views(matches@) == self@.matches_upto(readings, i as nat),
                keys@.len() == matches@.len(),
                forall|j: int| 0 <= j < keys@.len() ==> keys@[j] == matches@[j].overall_confidence,
            decreases ocr_results.len() - i,
        {
            let ghost before = match_views(matches@);
            match self.find_best_match(ocr_results[i].text.as_str()) {
                Some(found) => {
                    let fused = found.with_ocr_confidence(ocr_results[i].confidence);
                    keys.push(fused.overall_confidence);
                    matches.push(fused);
                    assert(match_views(matches@) =~= before.push(matches@.last()@));
                },
                None => {},
            }
            i += 1;
        }
        proof {
            assert(int_keys(keys@) =~= overall_confidences(match_views(matches@)));
        }
        arrange(matches, &keys)
    }

    /// Every card whose whole name scores at least `threshold` for the text,
    /// the best match first.
    pub fn find_all_matches(&self, ocr_text: &str, threshold: i32) -> (r: Vec<CardMatch>)
        ensures
            is_listing_by(
                match_views(r@),
                self@.candidates(ocr_text@, threshold as int),
                match_scores(self@.candidates(ocr_text@, threshold as int)),
            ),
    {
        let lower = to_lowercase(ocr_text);
        let pattern = trim(lower.as_str());
        let mut matches: Vec<CardMatch> = Vec::new();
        let mut keys: Vec<i64> = Vec::new();
        if pattern.unicode_len() > 0 {
            let mut i: usize = 0;
            while i < self.card_names.len()
                invariant
                    i <= self.card_names@.len(),
                    pattern@ == normalized(ocr_text@),
                    match_views(matches@) == self@.candidates_upto(
                        ocr_text@,
                        threshold as int,
                        i as nat,
                    ),
                    keys@.len() == matches@.len(),
                    forall|j: int| 0 <= j < keys@.len() ==> keys@[j] == matches@[j].match_score,
                decreases self.card_names.len() - i,
            {
                let ghost before = match_views(matches@);
                let name_lower = to_lowercase(self.card_names[i].1.as_str());
                match score_similarity(name_lower.as_str(), pattern) {
                    Some(score) => {
                        if score >= threshold as i64 {
                            let match_score: i32 = if score > 100 {
                                100
                            } else {
                                score as i32
                            };
                            keys.push(match_score as i64);
                            matches.push(
                                CardMatch {
                                    card_name: self.card_names[i].1.clone(),
                                    card_id: self.card_names[i].0.clone(),
                                    ocr_text: String::from_str(ocr_text),
                                    match_score,
                                    ocr_confidence: 0,
                                    overall_confidence: 10 * score,
                                },
                            );
                            assert(match_views(matches@) =~= before.push(matches@.last()@));
                        }
                    },
                    None => {},
                }
                i += 1;
            }
        }
        proof {
            assert(match_views(matches@) =~= self@.candidates(ocr_text@, threshold as int));
            assert(int_keys(keys@) =~= match_scores(match_views(matches@)));
        }
        arrange(matches, &keys)
    }
}


/// What a recognition pipeline holds: the engine's settings and the matcher.
pub struct RecognitionPipelineView {
    pub engine: RecognizeConfigView,
    pub matcher: CardMatcherView,
}

impl RecognitionPipelineView {
    /// The match that a reading leads to: none for a reading that is not
    /// confident; else the best match of its text, with the reading's
    /// confidence filled in.
    pub open spec fn match_of(self, reading: OcrResultView) -> Option<CardMatchView> {
        if !reading.is_confident {
            None
        } else {
            match self.matcher.best_match(reading.text) {
                Some(m) => Some(CardMatch::fused(m, reading.confidence)),
                None => None,
            }
        }
    }
}

/// Those of the first `n` readings that succeeded and are confident, in their
/// order.
pub open spec fn confident_upto(readings: Seq<Result<OcrResult, RecognizeError>>, n: nat) -> Seq<
    OcrResultView,
>
    decreases n,
{
    if n == 0 {
        Seq::empty()
    } else {
        let before = confident_upto(readings, (n - 1) as nat);
        match readings[n - 1] {
            Ok(reading) => if reading.is_confident {
                before.push(reading@)
            } else {
                before
            },
            Err(_) => before,
        }
    }
}

/// The readings that succeeded and are confident, in their order.
pub open spec fn confident_readings(readings: Seq<Result<OcrResult, RecognizeError>>) -> Seq<
    OcrResultView,
> {
    confident_upto(readings, readings.len())
}

/// Recognition and matching together.
pub struct RecognitionPipeline {
    ocr_engine: OcrEngine,
    card_matcher: CardMatcher,
}

impl View for RecognitionPipeline {
    type V = RecognitionPipelineView;

    closed spec fn view(&self) -> RecognitionPipelineView {
        RecognitionPipelineView { engine: self.ocr_engine@, matcher: self.card_matcher@ }
    }
}

impl RecognitionPipeline {
    /// A pipeline with the default settings, if there are any cards.
    pub fn new(card_names: Vec<(String, String)>) -> (r: Result<Self, RecognizeError>)
        ensures
            card_names@.len() == 0 ==> r == Err::<Self, RecognizeError>(
                RecognizeError::NoCardNamesAvailable,
            ),
            card_names@.len() > 0 ==> r is Ok && r->Ok_0@ == (RecognitionPipelineView {
                engine: default_recognize_config(),
                matcher: CardMatcherView {
                    names: name_pairs(card_names@),
                    min_score: default_recognize_config().min_match_score,
                },
            }),
    {
        Self::with_config(card_names, RecognizeConfig::default())
    }

    /// A pipeline with the given settings, if there are any cards.
    pub fn with_config(card_names: Vec<(String, String)>, config: RecognizeConfig) -> (r: Result<
        Self,
        RecognizeError,
    >)
        ensures
            card_names@.len() == 0 ==> r == Err::<Self, RecognizeError>(
                RecognizeError::NoCardNamesAvailable,
            ),
            card_names@.len() > 0 ==> r is Ok && r->Ok_0@ == (RecognitionPipelineView {
                engine: config@,
                matcher: CardMatcherView {
                    names: name_pairs(card_names@),
                    min_score: config@.min_match_score,
                },
            }),
    {
        let min_match_score = config.min_match_score;
        let ocr_engine = match OcrEngine::with_config(config) {
            Ok(engine) => engine,
            Err(e) => {
                return Err(e);
            },
        };
        match CardMatcher::new(card_names, min_match_score) {
            Ok(card_matcher) => Ok(RecognitionPipeline { ocr_engine, card_matcher }),
            Err(e) => Err(e),
        }
    }

    /// The engine's part of the pipeline.
    pub fn engine(&self) -> (e: &OcrEngine)
        ensures
            e@ == self@.engine,
    {
        &self.ocr_engine
    }

    /// The matcher of the pipeline.
    pub fn matcher(&self) -> (m: &CardMatcher)
        ensures
            m@ == self@.matcher,
    {
        &self.card_matcher
    }

    /// The match that a reading leads to.
    pub fn match_reading(&self, reading: &OcrResult) -> (r: Option<CardMatch>)
        ensures
            opt_match_view(r) == self@.match_of(reading@),
    {
        if !reading.is_confident {
            return None;
        }
        match self.card_matcher.find_best_match(reading.text.as_str()) {
            Some(found) => Some(found.with_ocr_confidence(reading.confidence)),
            None => None,
        }
    }

    /// The match that the recognition of one image leads to; a recognition
    /// that failed stays the failure that it is.
    pub fn process(&self, recognized: Result<OcrResult, RecognizeError>) -> (r: Result<
        Option<CardMatch>,
        RecognizeError,
    >)
        ensures
            match recognized {
                Ok(reading) => r is Ok && opt_match_view(r->Ok_0) == self@.match_of(reading@),
                Err(e) => r == Err::<Option<CardMatch>, RecognizeError>(e),
            },
    {
        match recognized {
            Ok(reading) => Ok(self.match_reading(&reading)),
            Err(e) => Err(e),
        }
    }

    /// The matches of the recognitions that succeeded and are confident, the
    /// most confident match first.
    pub fn process_multiple(&self, recognized: Vec<Result<OcrResult, RecognizeError>>) -> (r: Vec<
        CardMatch,
    >)
        ensures
            is_listing_by(
                match_views(r@),
                self@.matcher.matches_of(confident_readings(recognized@)),
                overall_confidences(self@.matcher.matches_of(confident_readings(recognized@))),
            ),
    {
        let mut readings: Vec<OcrResult> = Vec::new();
        let mut i: usize = 0;
        while i < recognized.len()
            invariant
                i <= recognized@.len(),
                reading_views(readings@) == confident_upto(recognized@, i as nat),
            decreases recognized.len() - i,
        {
            let ghost before = reading_views(readings@);
            match &recognized[i] {
                Ok(reading) => {
                    if reading.is_confident {
                        readings.push(reading.clone());
                        assert(reading_views(readings@) =~= before.push(reading@));
                    }
                },
                Err(_) => {},
            }
            i += 1;
        }
        self.card_matcher.match_results(readings)
    }
}

} // verus!
