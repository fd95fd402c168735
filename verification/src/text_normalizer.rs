//! Text normalisation before speech synthesis: abbreviations, contractions,
//! numbers and symbols are spelled out as words.

use vstd::prelude::*;
use vstd::string::*;
use vstd::hash_map::StringHashMap;
use vstd::utf8::*;
use crate::spans::{regex_matches, rewrite, span_words, find_matches, split_at_spans, join_parts,
    lemma_rewrite_with_words_is_identity};
use crate::strings::{push_char, owned, ascii_lowercase, ascii_upper, to_ascii_lowercase, upper_char};
use crate::number_words::{number_words, number_fill, words_for_number, read_number};

verus! {

/// The words that abbreviations are looked up for: runs of ASCII letters,
/// dots and apostrophes that start at a word boundary and end with a letter
/// or apostrophe at a word boundary, with the dot that follows, if any
/// ("Dr.", "e.g.", "asap").
pub const WORD_PATTERN: &'static str = "\\b[a-zA-Z.']*[a-zA-Z']\\b\\.?";

/// The numbers that are spelled out: runs of decimal digits between word
/// boundaries.
pub const NUMBER_PATTERN: &'static str = "\\b(\\d+)\\b";

/// The typographic apostrophe (U+2019), read as a plain `'`.
pub open spec fn straight_apostrophe(c: char) -> char {
    if c == '\u{2019}' {
        '\''
    } else {
        c
    }
}

/// The text with every typographic apostrophe replaced by a plain one.
pub open spec fn straight_apostrophes(text: Seq<char>) -> Seq<char> {
    text.map_values(|c: char| straight_apostrophe(c))
}

/// The expansion of a word: the lookup table, whose keys are the
/// abbreviations lower-cased, is consulted with the lower-cased word, so case
/// is ignored on both sides; a word without an entry stays as it is.
pub open spec fn abbreviation_fill(map: Map<Seq<char>, Seq<char>>, word: Seq<char>) -> Seq<char> {
    if map.contains_key(ascii_lowercase(word)) {
        map[ascii_lowercase(word)]
    } else {
        word
    }
}

/// The text in which every word found by `WORD_PATTERN` is replaced by its
/// expansion.
pub open spec fn abbreviations_expanded(map: Map<Seq<char>, Seq<char>>, text: Seq<char>) -> Seq<
    char,
> {
    match regex_matches(WORD_PATTERN@, text) {
        Some(spans) => rewrite(
            text,
            spans,
            span_words(text, spans).map_values(|w: Seq<char>| abbreviation_fill(map, w)),
        ),
        None => text,
    }
}

/// Whether no word that `WORD_PATTERN` finds in `text` is, lower-cased, a
/// known abbreviation.
pub open spec fn no_abbreviation_found(map: Map<Seq<char>, Seq<char>>, text: Seq<char>) -> bool {
    match regex_matches(WORD_PATTERN@, text) {
        Some(spans) => no_known_word(map, span_words(text, spans)),
        None => true,
    }
}

/// Whether none of `words`, lower-cased, is a key of `map`.
pub open spec fn no_known_word(map: Map<Seq<char>, Seq<char>>, words: Seq<Seq<char>>) -> bool {
    forall|i: int| 0 <= i < words.len() ==> !map.contains_key(ascii_lowercase(#[trigger] words[i]))
}

/// The characters that have a meaning in a regular expression and are
/// escaped by `regex::escape`.
pub open spec fn is_regex_meta(c: char) -> bool {
    c == '\\' || c == '.' || c == '+' || c == '*' || c == '?' || c == '(' || c == ')' || c == '|'
        || c == '[' || c == ']' || c == '{' || c == '}' || c == '^' || c == '$' || c == '#' || c
        == '&' || c == '-' || c == '~'
}

/// `s` with a backslash put before every meta character.
pub open spec fn regex_escaped(s: Seq<char>) -> Seq<char>
    decreases s.len(),
{
    if s.len() == 0 {
        seq![]
    } else if is_regex_meta(s.last()) {
        regex_escaped(s.drop_last()) + seq!['\\', s.last()]
    } else {
        regex_escaped(s.drop_last()) + seq![s.last()]
    }
}

/// `regex::escape`: every character of `s`, each meta character preceded by a
/// backslash (the meta characters are those of `regex_syntax::is_meta_character`).
#[verifier::external_body]
fn escape_regex(s: &str) -> (r: String)
    ensures
        r@ == regex_escaped(s@),
{
    regex::escape(s)
}

/// Whether `c` has the Unicode `Uppercase` property (`char::is_uppercase`).
pub uninterp spec fn char_is_uppercase(c: char) -> bool;

/// `char::is_uppercase` of std; its answer is the Unicode table lookup named
/// `char_is_uppercase`.
#[verifier::external_body]
fn is_uppercase(c: char) -> (r: bool)
    ensures
        r == char_is_uppercase(c),
{
    c.is_uppercase()
}

/// The pattern that finds a contraction as a whole word.
pub open spec fn contraction_pattern(contraction: Seq<char>) -> Seq<char> {
    "(?i)\\b"@ + regex_escaped(contraction) + "\\b"@
}

/// The expansion with its first letter in upper case.
pub open spec fn capitalized(expansion: Seq<char>) -> Seq<char> {
    if expansion.len() == 0 {
        expansion
    } else {
        seq![ascii_upper(expansion[0])] + expansion.drop_first()
    }
}

/// What a found contraction becomes: its expansion, capitalised when the
/// found text starts with an upper-case letter.
pub open spec fn contraction_fill(found: Seq<char>, expansion: Seq<char>) -> Seq<char> {
    if found.len() > 0 && char_is_uppercase(found[0]) {
        capitalized(expansion)
    } else {
        expansion
    }
}

/// The text with every whole-word occurrence of one contraction expanded.
pub open spec fn contraction_expanded(text: Seq<char>, contraction: Seq<char>, expansion: Seq<char>) -> Seq<char> {
    match regex_matches(contraction_pattern(contraction), text) {
        Some(spans) => rewrite(
            text,
            spans,
            span_words(text, spans).map_values(|w: Seq<char>| contraction_fill(w, expansion)),
        ),
        None => text,
    }
}

/// The contractions of `table` expanded one after the other, in table order.
pub open spec fn contractions_applied(text: Seq<char>, table: Seq<(Seq<char>, Seq<char>)>) -> Seq<
    char,
>
    decreases table.len(),
{
    if table.len() == 0 {
        text
    } else {
        contraction_expanded(
            contractions_applied(text, table.drop_last()),
            table.last().0,
            table.last().1,
        )
    }
}

/// The English contractions and their expansions.
pub open spec fn contraction_table() -> Seq<(Seq<char>, Seq<char>)> {
    seq![
        ("don't"@, "do not"@),
        ("doesn't"@, "does not"@),
        ("didn't"@, "did not"@),
        ("won't"@, "will not"@),
        ("wouldn't"@, "would not"@),
        ("can't"@, "cannot"@),
        ("cannot"@, "can not"@),
        ("couldn't"@, "could not"@),
        ("shouldn't"@, "should not"@),
        ("shan't"@, "shall not"@),
        ("mustn't"@, "must not"@),
        ("mightn't"@, "might not"@),
        ("mayn't"@, "may not"@),
        ("needn't"@, "need not"@),
        ("oughtn't"@, "ought not"@),
        ("ain't"@, "am not"@),
        ("isn't"@, "is not"@),
        ("aren't"@, "are not"@),
        ("wasn't"@, "was not"@),
        ("weren't"@, "were not"@),
        ("haven't"@, "have not"@),
        ("hasn't"@, "has not"@),
        ("hadn't"@, "had not"@),
        ("I've"@, "I have"@),
        ("you've"@, "you have"@),
        ("we've"@, "we have"@),
        ("they've"@, "they have"@),
        ("could've"@, "could have"@),
        ("should've"@, "should have"@),
        ("would've"@, "would have"@),
        ("must've"@, "must have"@),
        ("might've"@, "might have"@),
        ("may've"@, "may have"@),
        ("I'm"@, "I am"@),
        ("you're"@, "you are"@),
        ("he's"@, "he is"@),
        ("she's"@, "she is"@),
        ("it's"@, "it is"@),
        ("we're"@, "we are"@),
        ("they're"@, "they are"@),
        ("that's"@, "that is"@),
        ("who's"@, "who is"@),
        ("what's"@, "what is"@),
        ("where's"@, "where is"@),
        ("when's"@, "when is"@),
        ("why's"@, "why is"@),
        ("how's"@, "how is"@),
        ("there's"@, "there is"@),
        ("here's"@, "here is"@),
        ("I'll"@, "I will"@),
        ("you'll"@, "you will"@),
        ("he'll"@, "he will"@),
        ("she'll"@, "she will"@),
        ("it'll"@, "it will"@),
        ("we'll"@, "we will"@),
        ("they'll"@, "they will"@),
        ("that'll"@, "that will"@),
        ("I'd"@, "I would"@),
        ("you'd"@, "you would"@),
        ("he'd"@, "he would"@),
        ("she'd"@, "she would"@),
        ("it'd"@, "it would"@),
        ("we'd"@, "we would"@),
        ("they'd"@, "they would"@),
        ("that'd"@, "that would"@),
        ("let's"@, "let us"@),
    ]
}

/// The text with all contractions of `contraction_table` expanded.
pub open spec fn contractions_expanded(text: Seq<char>) -> Seq<char> {
    contractions_applied(text, contraction_table())
}

/// The text in which every number found by `NUMBER_PATTERN` is read as
/// described by `number_fill`.
pub open spec fn numbers_normalized(text: Seq<char>) -> Seq<char> {
    match regex_matches(NUMBER_PATTERN@, text) {
        Some(spans) => rewrite(
            text,
            spans,
            span_words(text, spans).map_values(|w: Seq<char>| number_fill(w)),
        ),
        None => text,
    }
}

/// The words a symbol is read as; any other character stands for itself.
pub open spec fn symbol_fill(c: char) -> Seq<char> {
    if c == '&' {
        " and "@
    } else if c == '%' {
        " percent "@
    } else if c == '$' {
        " dollars "@
    } else if c == '@' {
        " at "@
    } else if c == '#' {
        " number "@
    } else {
        seq![c]
    }
}

/// The text with `&`, `%`, `$`, `@` and `#` read as words.
pub open spec fn symbols_expanded(text: Seq<char>) -> Seq<char>
    decreases text.len(),
{
    if text.len() == 0 {
        seq![]
    } else {
        symbols_expanded(text.drop_last()) + symbol_fill(text.last())
    }
}

/// The whole normalisation: apostrophes, then abbreviations, contractions,
/// numbers and symbols.
pub open spec fn normalized(map: Map<Seq<char>, Seq<char>>, text: Seq<char>) -> Seq<char> {
    symbols_expanded(
        numbers_normalized(contractions_expanded(abbreviations_expanded(map, straight_apostrophes(text)))),
    )
}

/// The abbreviations a new normaliser knows, keys as written.
pub open spec fn default_abbreviations() -> Map<Seq<char>, Seq<char>> {
    Map::empty()
        .insert("Mr."@, "Mister"@)
        .insert("Mrs."@, "Misses"@)
        .insert("Ms."@, "Miss"@)
        .insert("Dr."@, "Doctor"@)
        .insert("Prof."@, "Professor"@)
        .insert("Rev."@, "Reverend"@)
        .insert("sec."@, "second"@)
        .insert("min."@, "minute"@)
        .insert("hr."@, "hour"@)
        .insert("hrs."@, "hours"@)
        .insert("Mon."@, "Monday"@)
        .insert("Tue."@, "Tuesday"@)
        .insert("Wed."@, "Wednesday"@)
        .insert("Thu."@, "Thursday"@)
        .insert("Fri."@, "Friday"@)
        .insert("Sat."@, "Saturday"@)
        .insert("Sun."@, "Sunday"@)
        .insert("Jan."@, "January"@)
        .insert("Feb."@, "February"@)
        .insert("Mar."@, "March"@)
        .insert("Apr."@, "April"@)
        .insert("Jun."@, "June"@)
        .insert("Jul."@, "July"@)
        .insert("Aug."@, "August"@)
        .insert("Sep."@, "September"@)
        .insert("Sept."@, "September"@)
        .insert("Oct."@, "October"@)
        .insert("Nov."@, "November"@)
        .insert("Dec."@, "December"@)
        .insert("e.g."@, "for example"@)
        .insert("i.e."@, "that is"@)
        .insert("etc."@, "etcetera"@)
        .insert("vs."@, "versus"@)
        .insert("St."@, "Street"@)
        .insert("Ave."@, "Avenue"@)
        .insert("Blvd."@, "Boulevard"@)
        .insert("Rd."@, "Road"@)
        .insert("approx."@, "approximately"@)
        .insert("appt."@, "appointment"@)
        .insert("apt."@, "apartment"@)
        .insert("asap"@, "as soon as possible"@)
        .insert("ASAP"@, "as soon as possible"@)
        .insert("btw"@, "by the way"@)
        .insert("BTW"@, "by the way"@)
        .insert("lol"@, "laughing out loud"@)
        .insert("LOL"@, "laughing out loud"@)
        .insert("afaik"@, "as far as I know"@)
        .insert("AFAIK"@, "as far as I know"@)
        .insert("idk"@, "I don't know"@)
        .insert("IDK"@, "I don't know"@)
        .insert("fyi"@, "for your information"@)
        .insert("FYI"@, "for your information"@)
        .insert("fig."@, "figure"@)
        .insert("Ch."@, "Chapter"@)
        .insert("pg."@, "page"@)
        .insert("pp."@, "pages"@)
        .insert("vol."@, "volume"@)
        .insert("ed."@, "edition"@)
        .insert("km"@, "kilometers"@)
        .insert("cm"@, "centimeters"@)
        .insert("mm"@, "millimeters"@)
        .insert("mg"@, "milligrams"@)
        .insert("kg"@, "kilograms"@)
        .insert("ft"@, "feet"@)
        .insert("in"@, "inches"@)
        .insert("lbs"@, "pounds"@)
}

/// The lookup table of a new normaliser: each known abbreviation,
/// lower-cased, with its expansion.
pub open spec fn default_lookup() -> Map<Seq<char>, Seq<char>> {
    Map::empty()
        .insert(ascii_lowercase("Mr."@), "Mister"@)
        .insert(ascii_lowercase("Mrs."@), "Misses"@)
        .insert(ascii_lowercase("Ms."@), "Miss"@)
        .insert(ascii_lowercase("Dr."@), "Doctor"@)
        .insert(ascii_lowercase("Prof."@), "Professor"@)
        .insert(ascii_lowercase("Rev."@), "Reverend"@)
        .insert(ascii_lowercase("sec."@), "second"@)
        .insert(ascii_lowercase("min."@), "minute"@)
        .insert(ascii_lowercase("hr."@), "hour"@)
        .insert(ascii_lowercase("hrs."@), "hours"@)
        .insert(ascii_lowercase("Mon."@), "Monday"@)
        .insert(ascii_lowercase("Tue."@), "Tuesday"@)
        .insert(ascii_lowercase("Wed."@), "Wednesday"@)
        .insert(ascii_lowercase("Thu."@), "Thursday"@)
        .insert(ascii_lowercase("Fri."@), "Friday"@)
        .insert(ascii_lowercase("Sat."@), "Saturday"@)
        .insert(ascii_lowercase("Sun."@), "Sunday"@)
        .insert(ascii_lowercase("Jan."@), "January"@)
        .insert(ascii_lowercase("Feb."@), "February"@)
        .insert(ascii_lowercase("Mar."@), "March"@)
        .insert(ascii_lowercase("Apr."@), "April"@)
        .insert(ascii_lowercase("Jun."@), "June"@)
        .insert(ascii_lowercase("Jul."@), "July"@)
        .insert(ascii_lowercase("Aug."@), "August"@)
        .insert(ascii_lowercase("Sep."@), "September"@)
        .insert(ascii_lowercase("Sept."@), "September"@)
        .insert(ascii_lowercase("Oct."@), "October"@)
        .insert(ascii_lowercase("Nov."@), "November"@)
        .insert(ascii_lowercase("Dec."@), "December"@)
        .insert(ascii_lowercase("e.g."@), "for example"@)
        .insert(ascii_lowercase("i.e."@), "that is"@)
        .insert(ascii_lowercase("etc."@), "etcetera"@)
        .insert(ascii_lowercase("vs."@), "versus"@)
        .insert(ascii_lowercase("St."@), "Street"@)
        .insert(ascii_lowercase("Ave."@), "Avenue"@)
        .insert(ascii_lowercase("Blvd."@), "Boulevard"@)
        .insert(ascii_lowercase("Rd."@), "Road"@)
        .insert(ascii_lowercase("approx."@), "approximately"@)
        .insert(ascii_lowercase("appt."@), "appointment"@)
        .insert(ascii_lowercase("apt."@), "apartment"@)
        .insert(ascii_lowercase("asap"@), "as soon as possible"@)
        .insert(ascii_lowercase("ASAP"@), "as soon as possible"@)
        .insert(ascii_lowercase("btw"@), "by the way"@)
        .insert(ascii_lowercase("BTW"@), "by the way"@)
        .insert(ascii_lowercase("lol"@), "laughing out loud"@)
        .insert(ascii_lowercase("LOL"@), "laughing out loud"@)
        .insert(ascii_lowercase("afaik"@), "as far as I know"@)
        .insert(ascii_lowercase("AFAIK"@), "as far as I know"@)
        .insert(ascii_lowercase("idk"@), "I don't know"@)
        .insert(ascii_lowercase("IDK"@), "I don't know"@)
        .insert(ascii_lowercase("fyi"@), "for your information"@)
        .insert(ascii_lowercase("FYI"@), "for your information"@)
        .insert(ascii_lowercase("fig."@), "figure"@)
        .insert(ascii_lowercase("Ch."@), "Chapter"@)
        .insert(ascii_lowercase("pg."@), "page"@)
        .insert(ascii_lowercase("pp."@), "pages"@)
        .insert(ascii_lowercase("vol."@), "volume"@)
        .insert(ascii_lowercase("ed."@), "edition"@)
        .insert(ascii_lowercase("km"@), "kilometers"@)
        .insert(ascii_lowercase("cm"@), "centimeters"@)
        .insert(ascii_lowercase("mm"@), "millimeters"@)
        .insert(ascii_lowercase("mg"@), "milligrams"@)
        .insert(ascii_lowercase("kg"@), "kilograms"@)
        .insert(ascii_lowercase("ft"@), "feet"@)
        .insert(ascii_lowercase("in"@), "inches"@)
        .insert(ascii_lowercase("lbs"@), "pounds"@)
}

/// The contents of an abbreviation map, keys and values as characters.
pub open spec fn value_views(m: Map<Seq<char>, String>) -> Map<Seq<char>, Seq<char>> {
    m.map_values(|v: String| v@)
}

/// Normalises text by expanding abbreviations and applying other text
/// normalisation rules to improve speech synthesis.
pub struct TextNormalizer {
    /// The abbreviations and their expansions, keys as written.
    abbreviation_map: StringHashMap<String>,
    /// The same entries keyed by the lower-cased abbreviation, where a later
    /// entry replaces an earlier one that lower-cases alike.
    lookup: StringHashMap<String>,
}

impl View for TextNormalizer {
    type V = Map<Seq<char>, Seq<char>>;

    /// The lookup table: each known abbreviation, lower-cased, with its
    /// expansion.
    closed spec fn view(&self) -> Map<Seq<char>, Seq<char>> {
        value_views(self.lookup@)
    }
}

impl TextNormalizer {
    /// The known abbreviations and their expansions, keys as written.
    pub closed spec fn abbreviations(&self) -> Map<Seq<char>, Seq<char>> {
        value_views(self.abbreviation_map@)
    }
}

/// Enters an abbreviation in the map as written and in the lookup table
/// lower-cased.
fn insert_entry(
    map: &mut StringHashMap<String>,
    lookup: &mut StringHashMap<String>,
    key: &str,
    value: &str,
)
    ensures
        value_views(final(map)@) == value_views(old(map)@).insert(key@, value@),
        value_views(final(lookup)@) == value_views(old(lookup)@).insert(ascii_lowercase(key@), value@),
{
    map.insert(owned(key), owned(value));
    assert(value_views(map@) =~= value_views(old(map)@).insert(key@, value@));
    lookup.insert(to_ascii_lowercase(key), owned(value));
    assert(value_views(lookup@) =~= value_views(old(lookup)@).insert(ascii_lowercase(key@), value@));
}

impl TextNormalizer {
    /// A normaliser that knows the common English abbreviations.
    pub fn new() -> (r: Self)
        ensures
            r.abbreviations() == default_abbreviations(),
            r@ == default_lookup(),
    {
        let (abbreviation_map, lookup) = Self::initialize_maps();
        TextNormalizer { abbreviation_map, lookup }
    }

    /// Normalises the input text: typographic apostrophes become plain ones,
    /// then abbreviations, contractions, numbers and symbols are spelled out.
    pub fn normalize(&self, text: &str) -> (r: String)
        ensures
            r@ == normalized(self@, text@),
    {
        let text = self.straighten_apostrophes(text);
        let text = self.expand_abbreviations(text.as_str());
        let text = self.expand_contractions(text.as_str());
        let text = self.normalize_numbers(text.as_str());
        self.normalize_symbols(text.as_str())
    }

    /// Replaces every typographic apostrophe (U+2019) by `'`.
    pub fn straighten_apostrophes(&self, text: &str) -> (r: String)
        ensures
            r@ == straight_apostrophes(text@),
    {
        let mut out = String::new();
        for c in it: text.chars()
            invariant
                it.seq() == text@,
                out@ == straight_apostrophes(it.seq().take(it.index() as int)),
        {
            proof {
                assert(it.seq().take(it.index() + 1) =~= it.seq().take(it.index() as int).push(c));
                assert(straight_apostrophes(it.seq().take(it.index() + 1)) =~= straight_apostrophes(
                    it.seq().take(it.index() as int),
                ).push(straight_apostrophe(c)));
            }
            if c == '\u{2019}' {
                push_char(&mut out, '\'');
            } else {
                push_char(&mut out, c);
            }
        }
        proof {
            assert(text@.take(text@.len() as int) =~= text@);
        }
        out
    }

    /// Expands the abbreviations in the text: each word found by
    /// `WORD_PATTERN` whose lower-cased form is a known abbreviation is
    /// replaced by its expansion.
    pub fn expand_abbreviations(&self, text: &str) -> (r: String)
        ensures
            r@ == abbreviations_expanded(self@, text@),
            no_abbreviation_found(self@, text@) ==> r@ == text@,
    {
        match find_matches(WORD_PATTERN, text) {
            None => owned(text),
            Some(spans) => {
                let (gaps, words) = split_at_spans(text, &spans);
                let ghost expected = span_words(text@, spans@).map_values(
                    |w: Seq<char>| abbreviation_fill(self@, w),
                );
                let mut fills: Vec<String> = Vec::new();
                let n = words.len();
                for i in 0..n
                    invariant
                        n == words@.len(),
                        words.deep_view() =~= span_words(text@, spans@),
                        expected == span_words(text@, spans@).map_values(
                            |w: Seq<char>| abbreviation_fill(self@, w),
                        ),
                        fills@.len() == i,
                        forall|k: int| 0 <= k < i ==> (#[trigger] fills@[k])@ == expected[k],
                {
                    let word = words[i].as_str();
                    assert(word@ == words.deep_view()[i as int]);
                    let key = to_ascii_lowercase(word);
                    match self.lookup.get(key.as_str()) {
                        Some(expansion) => fills.push(owned(expansion.as_str())),
                        None => fills.push(owned(word)),
                    }
                }
                assert(fills.deep_view() =~= expected);
                proof {
                    if no_abbreviation_found(self@, text@) {
                        assert(regex_matches(WORD_PATTERN@, text@) == Some(spans@));
                        let ws = span_words(text@, spans@);
                        assert(no_known_word(self@, ws));
                        assert forall|k: int| 0 <= k < ws.len() implies expected[k] == ws[k] by {
                            assert(!self@.contains_key(ascii_lowercase(ws[k])));
                        }
                        assert(expected =~= ws);
                        lemma_rewrite_with_words_is_identity(text@, spans@);
                    }
                }
                join_parts(&gaps, &fills)
            },
        }
    }

    /// Expands every English contraction of `contraction_table`, one after
    /// the other, as a whole word; an upper-case first letter is kept.
    pub fn expand_contractions(&self, text: &str) -> (r: String)
        ensures
            r@ == contractions_expanded(text@),
    {
        let table = contractions();
        let mut result = owned(text);
        let n = table.len();
        for i in 0..n
            invariant
                n == table@.len(),
                forall|k: int|
                    0 <= k < n ==> (#[trigger] table@[k]).0@ == contraction_table()[k].0
                        && table@[k].1@ == contraction_table()[k].1,
                n == contraction_table().len(),
                result@ == contractions_applied(text@, contraction_table().take(i as int)),
        {
            let (contraction, expansion) = table[i];
            proof {
                let t = contraction_table().take(i + 1);
                assert(t.drop_last() =~= contraction_table().take(i as int));
                assert(t.last() == contraction_table()[i as int]);
            }
            result = expand_contraction(result.as_str(), contraction, expansion);
        }
        proof {
            assert(contraction_table().take(n as int) =~= contraction_table());
        }
        result
    }

    /// Spells out the numbers in the text: every run of digits found by
    /// `NUMBER_PATTERN` that is worth at most 999 becomes its words.
    pub fn normalize_numbers(&self, text: &str) -> (r: String)
        ensures
            r@ == numbers_normalized(text@),
    {
        match find_matches(NUMBER_PATTERN, text) {
            None => owned(text),
            Some(spans) => {
                let (gaps, words) = split_at_spans(text, &spans);
                let ghost expected = span_words(text@, spans@).map_values(
                    |w: Seq<char>| number_fill(w),
                );
                let mut fills: Vec<String> = Vec::new();
                let n = words.len();
                for i in 0..n
                    invariant
                        n == words@.len(),
                        words.deep_view() =~= span_words(text@, spans@),
                        expected == span_words(text@, spans@).map_values(
                            |w: Seq<char>| number_fill(w),
                        ),
                        fills@.len() == i,
                        forall|k: int| 0 <= k < i ==> (#[trigger] fills@[k])@ == expected[k],
                {
                    let word = words[i].as_str();
                    assert(word@ == words.deep_view()[i as int]);
                    fills.push(read_number(word));
                }
                assert(fills.deep_view() =~= expected);
                join_parts(&gaps, &fills)
            },
        }
    }

    /// Converts a number to its English words.
    pub fn number_to_words(&self, number: u64) -> (r: String)
        requires
            number < 2000,
        ensures
            r@ == number_words(number as nat),
    {
        words_for_number(number)
    }

    /// Reads the symbols `&`, `%`, `$`, `@` and `#` as words.
    pub fn normalize_symbols(&self, text: &str) -> (r: String)
        ensures
            r@ == symbols_expanded(text@),
    {
        let mut out = String::new();
        for c in it: text.chars()
            invariant
                it.seq() == text@,
                out@ == symbols_expanded(it.seq().take(it.index() as int)),
        {
            proof {
                let next = it.seq().take(it.index() + 1);
                assert(next.drop_last() =~= it.seq().take(it.index() as int));
                assert(next.last() == c);
            }
            if c == '&' {
                out.append(" and ");
            } else if c == '%' {
                out.append(" percent ");
            } else if c == '$' {
                out.append(" dollars ");
            } else if c == '@' {
                out.append(" at ");
            } else if c == '#' {
                out.append(" number ");
            } else {
                push_char(&mut out, c);
                assert(out@ =~= symbols_expanded(it.seq().take(it.index() as int)) + seq![c]);
            }
        }
        proof {
            assert(text@.take(text@.len() as int) =~= text@);
        }
        out
    }

    /// The map of common English abbreviations to their expansions, keys as
    /// written.
    pub fn initialize_abbreviation_map() -> (r: StringHashMap<String>)
        ensures
            value_views(r@) == default_abbreviations(),
    {
        Self::initialize_maps().0
    }

    /// The map of common English abbreviations, keys as written, and its
    /// lookup table.
    fn initialize_maps() -> (r: (StringHashMap<String>, StringHashMap<String>))
        ensures
            value_views(r.0@) == default_abbreviations(),
            value_views(r.1@) == default_lookup(),
    {
        let mut map: StringHashMap<String> = StringHashMap::new();
        let mut lookup: StringHashMap<String> = StringHashMap::new();
        assert(value_views(map@) =~= Map::empty());
        assert(value_views(lookup@) =~= Map::empty());
        insert_entry(&mut map, &mut lookup, "Mr.", "Mister");
        insert_entry(&mut map, &mut lookup, "Mrs.", "Misses");
        insert_entry(&mut map, &mut lookup, "Ms.", "Miss");
        insert_entry(&mut map, &mut lookup, "Dr.", "Doctor");
        insert_entry(&mut map, &mut lookup, "Prof.", "Professor");
        insert_entry(&mut map, &mut lookup, "Rev.", "Reverend");
        insert_entry(&mut map, &mut lookup, "sec.", "second");
        insert_entry(&mut map, &mut lookup, "min.", "minute");
        insert_entry(&mut map, &mut lookup, "hr.", "hour");
        insert_entry(&mut map, &mut lookup, "hrs.", "hours");
        insert_entry(&mut map, &mut lookup, "Mon.", "Monday");
        insert_entry(&mut map, &mut lookup, "Tue.", "Tuesday");
        insert_entry(&mut map, &mut lookup, "Wed.", "Wednesday");
        insert_entry(&mut map, &mut lookup, "Thu.", "Thursday");
        insert_entry(&mut map, &mut lookup, "Fri.", "Friday");
        insert_entry(&mut map, &mut lookup, "Sat.", "Saturday");
        insert_entry(&mut map, &mut lookup, "Sun.", "Sunday");
        insert_entry(&mut map, &mut lookup, "Jan.", "January");
        insert_entry(&mut map, &mut lookup, "Feb.", "February");
        insert_entry(&mut map, &mut lookup, "Mar.", "March");
        insert_entry(&mut map, &mut lookup, "Apr.", "April");
        insert_entry(&mut map, &mut lookup, "Jun.", "June");
        insert_entry(&mut map, &mut lookup, "Jul.", "July");
        insert_entry(&mut map, &mut lookup, "Aug.", "August");
        insert_entry(&mut map, &mut lookup, "Sep.", "September");
        insert_entry(&mut map, &mut lookup, "Sept.", "September");
        insert_entry(&mut map, &mut lookup, "Oct.", "October");
        insert_entry(&mut map, &mut lookup, "Nov.", "November");
        insert_entry(&mut map, &mut lookup, "Dec.", "December");
        insert_entry(&mut map, &mut lookup, "e.g.", "for example");
        insert_entry(&mut map, &mut lookup, "i.e.", "that is");
        insert_entry(&mut map, &mut lookup, "etc.", "etcetera");
        insert_entry(&mut map, &mut lookup, "vs.", "versus");
        insert_entry(&mut map, &mut lookup, "St.", "Street");
        insert_entry(&mut map, &mut lookup, "Ave.", "Avenue");
        insert_entry(&mut map, &mut lookup, "Blvd.", "Boulevard");
        insert_entry(&mut map, &mut lookup, "Rd.", "Road");
        insert_entry(&mut map, &mut lookup, "approx.", "approximately");
        insert_entry(&mut map, &mut lookup, "appt.", "appointment");
        insert_entry(&mut map, &mut lookup, "apt.", "apartment");
        insert_entry(&mut map, &mut lookup, "asap", "as soon as possible");
        insert_entry(&mut map, &mut lookup, "ASAP", "as soon as possible");
        insert_entry(&mut map, &mut lookup, "btw", "by the way");
        insert_entry(&mut map, &mut lookup, "BTW", "by the way");
        insert_entry(&mut map, &mut lookup, "lol", "laughing out loud");
        insert_entry(&mut map, &mut lookup, "LOL", "laughing out loud");
        insert_entry(&mut map, &mut lookup, "afaik", "as far as I know");
        insert_entry(&mut map, &mut lookup, "AFAIK", "as far as I know");
        insert_entry(&mut map, &mut lookup, "idk", "I don't know");
        insert_entry(&mut map, &mut lookup, "IDK", "I don't know");
        insert_entry(&mut map, &mut lookup, "fyi", "for your information");
        insert_entry(&mut map, &mut lookup, "FYI", "for your information");
        insert_entry(&mut map, &mut lookup, "fig.", "figure");
        insert_entry(&mut map, &mut lookup, "Ch.", "Chapter");
        insert_entry(&mut map, &mut lookup, "pg.", "page");
        insert_entry(&mut map, &mut lookup, "pp.", "pages");
        insert_entry(&mut map, &mut lookup, "vol.", "volume");
        insert_entry(&mut map, &mut lookup, "ed.", "edition");
        insert_entry(&mut map, &mut lookup, "km", "kilometers");
        insert_entry(&mut map, &mut lookup, "cm", "centimeters");
        insert_entry(&mut map, &mut lookup, "mm", "millimeters");
        insert_entry(&mut map, &mut lookup, "mg", "milligrams");
        insert_entry(&mut map, &mut lookup, "kg", "kilograms");
        insert_entry(&mut map, &mut lookup, "ft", "feet");
        insert_entry(&mut map, &mut lookup, "in", "inches");
        insert_entry(&mut map, &mut lookup, "lbs", "pounds");
        (map, lookup)
    }

    /// Adds a custom abbreviation, or replaces the expansion of a known one.
    /// It is kept as written, and found in any case: it replaces in the
    /// lookup table whatever lower-cases like it.
    pub fn add_abbreviation(&mut self, abbreviation: &str, expansion: &str)
        ensures
            final(self).abbreviations() == old(self).abbreviations().insert(abbreviation@, expansion@),
            final(self)@ == old(self)@.insert(ascii_lowercase(abbreviation@), expansion@),
    {
        insert_entry(&mut self.abbreviation_map, &mut self.lookup, abbreviation, expansion);
    }
}

/// The contraction table as string slices, in table order.
fn contractions() -> (r: Vec<(&'static str, &'static str)>)
    ensures
        r@.len() == contraction_table().len(),
        forall|k: int|
            0 <= k < r@.len() ==> (#[trigger] r@[k]).0@ == contraction_table()[k].0 && r@[k].1@
                == contraction_table()[k].1,
{
    let v = vec![
        ("don't", "do not"),
        ("doesn't", "does not"),
        ("didn't", "did not"),
        ("won't", "will not"),
        ("wouldn't", "would not"),
        ("can't", "cannot"),
        ("cannot", "can not"),
        ("couldn't", "could not"),
        ("shouldn't", "should not"),
        ("shan't", "shall not"),
        ("mustn't", "must not"),
        ("mightn't", "might not"),
        ("mayn't", "may not"),
        ("needn't", "need not"),
        ("oughtn't", "ought not"),
        ("ain't", "am not"),
        ("isn't", "is not"),
        ("aren't", "are not"),
        ("wasn't", "was not"),
        ("weren't", "were not"),
        ("haven't", "have not"),
        ("hasn't", "has not"),
        ("hadn't", "had not"),
        ("I've", "I have"),
        ("you've", "you have"),
        ("we've", "we have"),
        ("they've", "they have"),
        ("could've", "could have"),
        ("should've", "should have"),
        ("would've", "would have"),
        ("must've", "must have"),
        ("might've", "might have"),
        ("may've", "may have"),
        ("I'm", "I am"),
        ("you're", "you are"),
        ("he's", "he is"),
        ("she's", "she is"),
        ("it's", "it is"),
        ("we're", "we are"),
        ("they're", "they are"),
        ("that's", "that is"),
        ("who's", "who is"),
        ("what's", "what is"),
        ("where's", "where is"),
        ("when's", "when is"),
        ("why's", "why is"),
        ("how's", "how is"),
        ("there's", "there is"),
        ("here's", "here is"),
        ("I'll", "I will"),
        ("you'll", "you will"),
        ("he'll", "he will"),
        ("she'll", "she will"),
        ("it'll", "it will"),
        ("we'll", "we will"),
        ("they'll", "they will"),
        ("that'll", "that will"),
        ("I'd", "I would"),
        ("you'd", "you would"),
        ("he'd", "he would"),
        ("she'd", "she would"),
        ("it'd", "it would"),
        ("we'd", "we would"),
        ("they'd", "they would"),
        ("that'd", "that would"),
        ("let's", "let us"),
    ];
    v
}

/// The pattern that finds `contraction` as a whole word: the contraction
/// with its meta characters escaped, between word boundaries.
pub fn whole_word_pattern(contraction: &str) -> (r: String)
    ensures
        r@ == contraction_pattern(contraction@),
{
    let escaped = escape_regex(contraction);
    let mut pattern = owned("(?i)\\b");
    pattern.append(escaped.as_str());
    pattern.append("\\b");
    pattern
}

/// Expands one contraction wherever it stands as a whole word.
fn expand_contraction(text: &str, contraction: &str, expansion: &str) -> (r: String)
    ensures
        r@ == contraction_expanded(text@, contraction@, expansion@),
{
    let pattern = whole_word_pattern(contraction);
    match find_matches(pattern.as_str(), text) {
        None => owned(text),
        Some(spans) => {
            let (gaps, words) = split_at_spans(text, &spans);
            let ghost expected = span_words(text@, spans@).map_values(
                |w: Seq<char>| contraction_fill(w, expansion@),
            );
            let capital = capitalize_first(expansion);
            let mut fills: Vec<String> = Vec::new();
            let n = words.len();
            for i in 0..n
                invariant
                    n == words@.len(),
                    words.deep_view() =~= span_words(text@, spans@),
                    expected == span_words(text@, spans@).map_values(
                        |w: Seq<char>| contraction_fill(w, expansion@),
                    ),
                    capital@ == capitalized(expansion@),
                    fills@.len() == i,
                    forall|k: int| 0 <= k < i ==> (#[trigger] fills@[k])@ == expected[k],
            {
                let word = words[i].as_str();
                assert(word@ == words.deep_view()[i as int]);
                let upper = match first_char(word) {
                    Some(c) => is_uppercase(c),
                    None => false,
                };
                if upper {
                    fills.push(owned(capital.as_str()));
                } else {
                    fills.push(owned(expansion));
                }
            }
            assert(fills.deep_view() =~= expected);
            join_parts(&gaps, &fills)
        },
    }
}

/// The first character of a string slice, if any.
fn first_char(s: &str) -> (r: Option<char>)
    ensures
        r == (if s@.len() > 0 { Some(s@[0]) } else { None::<char> }),
{
    let mut it = s.chars();
    proof {
        broadcast use vstd::string::axiom_spec_iter;
    }
    it.next()
}

/// The text with its first character upper-cased (ASCII letters only).
fn capitalize_first(s: &str) -> (r: String)
    ensures
        r@ == capitalized(s@),
{
    let mut out = String::new();
    let mut first = true;
    for c in it: s.chars()
        invariant
            it.seq() == s@,
            first == (it.index() == 0),
            out@ == capitalized(it.seq().take(it.index() as int)),
    {
        proof {
            let next = it.seq().take(it.index() + 1);
            assert(next.drop_last() =~= it.seq().take(it.index() as int));
        }
        if first {
            push_char(&mut out, upper_char(c));
            first = false;
        } else {
            push_char(&mut out, c);
        }
        proof {
            let next = it.seq().take(it.index() + 1);
            assert(out@ =~= capitalized(next));
        }
    }
    proof {
        assert(s@.take(s@.len() as int) =~= s@);
    }
    out
}

} // verus!

verus! {

/// The symbols that are read as words.
pub open spec fn is_spoken_symbol(c: char) -> bool {
    c == '&' || c == '%' || c == '$' || c == '@' || c == '#'
}

/// After the symbols are read as words, none of them is left.
pub proof fn lemma_no_symbols_left(text: Seq<char>)
    ensures
        forall|i: int|
            0 <= i < symbols_expanded(text).len() ==> !is_spoken_symbol(
                #[trigger] symbols_expanded(text)[i],
            ),
    decreases text.len(),
{
    reveal_strlit(" and ");
    reveal_strlit(" percent ");
    reveal_strlit(" dollars ");
    reveal_strlit(" at ");
    reveal_strlit(" number ");
    if text.len() > 0 {
        lemma_no_symbols_left(text.drop_last());
        let before = symbols_expanded(text.drop_last());
        let fill = symbol_fill(text.last());
        assert forall|i: int| 0 <= i < fill.len() implies !is_spoken_symbol(#[trigger] fill[i]) by {}
        assert forall|i: int|
            0 <= i < symbols_expanded(text).len() implies !is_spoken_symbol(
                #[trigger] symbols_expanded(text)[i],
            ) by {
            if i < before.len() {
                assert(symbols_expanded(text)[i] == before[i]);
            } else {
                assert(symbols_expanded(text)[i] == fill[i - before.len()]);
            }
        }
    }
}

/// A normalised text holds none of the symbols `&`, `%`, `$`, `@` and `#`.
pub proof fn lemma_normalized_has_no_symbols(map: Map<Seq<char>, Seq<char>>, text: Seq<char>)
    ensures
        forall|i: int|
            0 <= i < normalized(map, text).len() ==> !is_spoken_symbol(
                #[trigger] normalized(map, text)[i],
            ),
{
    lemma_no_symbols_left(
        numbers_normalized(contractions_expanded(abbreviations_expanded(map, straight_apostrophes(text)))),
    );
}

/// After straightening, no typographic apostrophe is left, and every other
/// character stays in its place.
pub proof fn lemma_no_typographic_apostrophes(text: Seq<char>)
    ensures
        straight_apostrophes(text).len() == text.len(),
        forall|i: int| 0 <= i < text.len() ==> #[trigger] straight_apostrophes(text)[i] != '\u{2019}',
        forall|i: int|
            0 <= i < text.len() && text[i] != '\u{2019}' ==> #[trigger] straight_apostrophes(text)[i]
                == text[i],
{
}

} // verus!

verus! {

/// Once an abbreviation is added, a found word that lower-cases to it is
/// read as its expansion, whatever the map held before.
pub proof fn lemma_added_abbreviation_applies(
    map: Map<Seq<char>, Seq<char>>,
    abbreviation: Seq<char>,
    expansion: Seq<char>,
    word: Seq<char>,
)
    requires
        ascii_lowercase(word) == ascii_lowercase(abbreviation),
    ensures
        abbreviation_fill(map.insert(ascii_lowercase(abbreviation), expansion), word) == expansion,
{
}

} // verus!

verus! {

/// Whether none of the words `WORD_PATTERN` finds in `text` is, lower-cased,
/// the lower-cased `abbreviation`.
pub open spec fn abbreviation_absent(text: Seq<char>, abbreviation: Seq<char>) -> bool {
    match regex_matches(WORD_PATTERN@, text) {
        Some(spans) => forall|i: int|
            0 <= i < spans.len() ==> ascii_lowercase(#[trigger] span_words(text, spans)[i])
                != ascii_lowercase(abbreviation),
        None => true,
    }
}

/// Adding an abbreviation changes nothing for a text in which no found word
/// is that abbreviation, in any case: the whole normalisation gives the same
/// text before and after.
pub proof fn lemma_added_abbreviation_keeps_other_texts(
    map: Map<Seq<char>, Seq<char>>,
    abbreviation: Seq<char>,
    expansion: Seq<char>,
    text: Seq<char>,
)
    requires
        abbreviation_absent(straight_apostrophes(text), abbreviation),
    ensures
        normalized(map.insert(ascii_lowercase(abbreviation), expansion), text) == normalized(
            map,
            text,
        ),
{
    let t = straight_apostrophes(text);
    let bigger = map.insert(ascii_lowercase(abbreviation), expansion);
    match regex_matches(WORD_PATTERN@, t) {
        Some(spans) => {
            let words = span_words(t, spans);
            assert(words.map_values(|w: Seq<char>| abbreviation_fill(bigger, w)) =~= words.map_values(
                |w: Seq<char>| abbreviation_fill(map, w),
            )) by {
                assert forall|i: int| 0 <= i < words.len() implies abbreviation_fill(bigger, words[i])
                    == abbreviation_fill(map, words[i]) by {
                    assert(ascii_lowercase(span_words(t, spans)[i]) != ascii_lowercase(abbreviation));
                }
            }
            assert(abbreviations_expanded(bigger, t) == abbreviations_expanded(map, t));
        },
        None => {},
    }
}

/// A text that `WORD_PATTERN` finds whole, as one word, is read as the
/// expansion of an abbreviation just added for it, in any case.
pub proof fn lemma_added_abbreviation_reads_whole_word(
    map: Map<Seq<char>, Seq<char>>,
    abbreviation: Seq<char>,
    expansion: Seq<char>,
    text: Seq<char>,
)
    requires
        ascii_lowercase(text) == ascii_lowercase(abbreviation),
        regex_matches(WORD_PATTERN@, text) == Some(seq![(0usize, encode_utf8(text).len() as usize)]),
        encode_utf8(text).len() <= usize::MAX,
    ensures
        abbreviations_expanded(map.insert(ascii_lowercase(abbreviation), expansion), text)
            == expansion,
{
    broadcast use {encode_utf8_valid_utf8, encode_utf8_decode_utf8};

    let bytes = encode_utf8(text);
    let len = bytes.len() as int;
    let spans = seq![(0usize, len as usize)];
    assert(bytes.subrange(0, len) =~= bytes);
    assert(bytes.subrange(0, 0) =~= encode_utf8(Seq::<char>::empty()));
    assert(bytes.subrange(len, len) =~= encode_utf8(Seq::<char>::empty()));
    let gaps = crate::spans::span_gaps(text, spans);
    let words = span_words(text, spans);
    assert(words[0] == text);
    assert(gaps[0] =~= Seq::<char>::empty());
    assert(gaps[1] =~= Seq::<char>::empty());
    let fills = words.map_values(
        |w: Seq<char>| abbreviation_fill(map.insert(ascii_lowercase(abbreviation), expansion), w),
    );
    assert(fills[0] == expansion);
    assert(fills.drop_last().len() == 0);
    assert(gaps.drop_last()[0] == gaps[0]);
    assert(fills.len() == 1);
    assert(crate::spans::interleave(gaps.drop_last(), fills.drop_last()) == gaps[0]);
    assert(fills.last() == expansion);
    assert(gaps.last() == gaps[1]);
    assert(crate::spans::interleave(gaps, fills) =~= expansion);
}

} // verus!

verus! {

/// Whether `s` ends with the negation `n't`.
pub open spec fn ends_in_nt(s: Seq<char>) -> bool {
    s.len() >= 3 && s[s.len() - 3] == 'n' && s[s.len() - 2] == '\'' && s[s.len() - 1] == 't'
}

/// Whether `s` ends with `not`.
pub open spec fn ends_in_not(s: Seq<char>) -> bool {
    s.len() >= 3 && s[s.len() - 3] == 'n' && s[s.len() - 2] == 'o' && s[s.len() - 1] == 't'
}

/// Expanding a contraction keeps its negation: every contraction that ends in
/// `n't` is written out as words that end in `not` ("isn't" is "is not",
/// "can't" is "cannot"), and so is what replaces a found one, whatever the
/// case of its first letter.
pub proof fn lemma_negations_keep_not()
    ensures
        forall|i: int|
            0 <= i < contraction_table().len() && ends_in_nt(#[trigger] contraction_table()[i].0)
                ==> ends_in_not(contraction_table()[i].1) && contraction_table()[i].1.len() >= 4,
        forall|i: int, found: Seq<char>|
            0 <= i < contraction_table().len() && ends_in_nt(#[trigger] contraction_table()[i].0)
                ==> ends_in_not(#[trigger] contraction_fill(found, contraction_table()[i].1)),
{
    let t = contraction_table();
    assert forall|i: int|
        0 <= i < t.len() && ends_in_nt(#[trigger] t[i].0) implies ends_in_not(t[i].1) && t[i].1.len()
            >= 4 by {
        if i == 0 {
            reveal_strlit("don't");
            reveal_strlit("do not");
        } else if i == 1 {
            reveal_strlit("doesn't");
            reveal_strlit("does not");
        } else if i == 2 {
            reveal_strlit("didn't");
            reveal_strlit("did not");
        } else if i == 3 {
            reveal_strlit("won't");
            reveal_strlit("will not");
        } else if i == 4 {
            reveal_strlit("wouldn't");
            reveal_strlit("would not");
        } else if i == 5 {
            reveal_strlit("can't");
            reveal_strlit("cannot");
        } else if i == 6 {
            reveal_strlit("cannot");
            reveal_strlit("can not");
        } else if i == 7 {
            reveal_strlit("couldn't");
            reveal_strlit("could not");
        } else if i == 8 {
            reveal_strlit("shouldn't");
            reveal_strlit("should not");
        } else if i == 9 {
            reveal_strlit("shan't");
            reveal_strlit("shall not");
        } else if i == 10 {
            reveal_strlit("mustn't");
            reveal_strlit("must not");
        } else if i == 11 {
            reveal_strlit("mightn't");
            reveal_strlit("might not");
        } else if i == 12 {
            reveal_strlit("mayn't");
            reveal_strlit("may not");
        } else if i == 13 {
            reveal_strlit("needn't");
            reveal_strlit("need not");
        } else if i == 14 {
            reveal_strlit("oughtn't");
            reveal_strlit("ought not");
        } else if i == 15 {
            reveal_strlit("ain't");
            reveal_strlit("am not");
        } else if i == 16 {
            reveal_strlit("isn't");
            reveal_strlit("is not");
        } else if i == 17 {
            reveal_strlit("aren't");
            reveal_strlit("are not");
        } else if i == 18 {
            reveal_strlit("wasn't");
            reveal_strlit("was not");
        } else if i == 19 {
            reveal_strlit("weren't");
            reveal_strlit("were not");
        } else if i == 20 {
            reveal_strlit("haven't");
            reveal_strlit("have not");
        } else if i == 21 {
            reveal_strlit("hasn't");
            reveal_strlit("has not");
        } else if i == 22 {
            reveal_strlit("hadn't");
            reveal_strlit("had not");
        } else if i == 23 {
            reveal_strlit("I've");
            reveal_strlit("I have");
        } else if i == 24 {
            reveal_strlit("you've");
            reveal_strlit("you have");
        } else if i == 25 {
            reveal_strlit("we've");
            reveal_strlit("we have");
        } else if i == 26 {
            reveal_strlit("they've");
            reveal_strlit("they have");
        } else if i == 27 {
            reveal_strlit("could've");
            reveal_strlit("could have");
        } else if i == 28 {
            reveal_strlit("should've");
            reveal_strlit("should have");
        } else if i == 29 {
            reveal_strlit("would've");
            reveal_strlit("would have");
        } else if i == 30 {
            reveal_strlit("must've");
            reveal_strlit("must have");
        } else if i == 31 {
            reveal_strlit("might've");
            reveal_strlit("might have");
        } else if i == 32 {
            reveal_strlit("may've");
            reveal_strlit("may have");
        } else if i == 33 {
            reveal_strlit("I'm");
            reveal_strlit("I am");
        } else if i == 34 {
            reveal_strlit("you're");
            reveal_strlit("you are");
        } else if i == 35 {
            reveal_strlit("he's");
            reveal_strlit("he is");
        } else if i == 36 {
            reveal_strlit("she's");
            reveal_strlit("she is");
        } else if i == 37 {
            reveal_strlit("it's");
            reveal_strlit("it is");
        } else if i == 38 {
            reveal_strlit("we're");
            reveal_strlit("we are");
        } else if i == 39 {
            reveal_strlit("they're");
            reveal_strlit("they are");
        } else if i == 40 {
            reveal_strlit("that's");
            reveal_strlit("that is");
        } else if i == 41 {
            reveal_strlit("who's");
            reveal_strlit("who is");
        } else if i == 42 {
            reveal_strlit("what's");
            reveal_strlit("what is");
        } else if i == 43 {
            reveal_strlit("where's");
            reveal_strlit("where is");
        } else if i == 44 {
            reveal_strlit("when's");
            reveal_strlit("when is");
        } else if i == 45 {
            reveal_strlit("why's");
            reveal_strlit("why is");
        } else if i == 46 {
            reveal_strlit("how's");
            reveal_strlit("how is");
        } else if i == 47 {
            reveal_strlit("there's");
            reveal_strlit("there is");
        } else if i == 48 {
            reveal_strlit("here's");
            reveal_strlit("here is");
        } else if i == 49 {
            reveal_strlit("I'll");
            reveal_strlit("I will");
        } else if i == 50 {
            reveal_strlit("you'll");
            reveal_strlit("you will");
        } else if i == 51 {
            reveal_strlit("he'll");
            reveal_strlit("he will");
        } else if i == 52 {
            reveal_strlit("she'll");
            reveal_strlit("she will");
        } else if i == 53 {
            reveal_strlit("it'll");
            reveal_strlit("it will");
        } else if i == 54 {
            reveal_strlit("we'll");
            reveal_strlit("we will");
        } else if i == 55 {
            reveal_strlit("they'll");
            reveal_strlit("they will");
        } else if i == 56 {
            reveal_strlit("that'll");
            reveal_strlit("that will");
        } else if i == 57 {
            reveal_strlit("I'd");
            reveal_strlit("I would");
        } else if i == 58 {
            reveal_strlit("you'd");
            reveal_strlit("you would");
        } else if i == 59 {
            reveal_strlit("he'd");
            reveal_strlit("he would");
        } else if i == 60 {
            reveal_strlit("she'd");
            reveal_strlit("she would");
        } else if i == 61 {
            reveal_strlit("it'd");
            reveal_strlit("it would");
        } else if i == 62 {
            reveal_strlit("we'd");
            reveal_strlit("we would");
        } else if i == 63 {
            reveal_strlit("they'd");
            reveal_strlit("they would");
        } else if i == 64 {
            reveal_strlit("that'd");
            reveal_strlit("that would");
        } else if i == 65 {
            reveal_strlit("let's");
            reveal_strlit("let us");
        }
    }
    assert forall|i: int, found: Seq<char>|
        0 <= i < t.len() && ends_in_nt(#[trigger] t[i].0) implies ends_in_not(
            #[trigger] contraction_fill(found, t[i].1),
        ) by {
        let e = t[i].1;
        let f = contraction_fill(found, e);
        assert(ends_in_not(e) && e.len() >= 4);
        if f != e {
            assert(f == capitalized(e));
            assert(f.len() == e.len());
            assert(f[f.len() - 1] == e[e.len() - 1]);
            assert(f[f.len() - 2] == e[e.len() - 2]);
            assert(f[f.len() - 3] == e[e.len() - 3]);
        }
    }
}

} // verus!
