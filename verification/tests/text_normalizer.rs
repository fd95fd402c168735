use venya::text_normalizer::TextNormalizer;

#[test]
fn number_words_exact_values() {
    let n = TextNormalizer::new();
    assert_eq!(n.number_to_words(0), "zero");
    assert_eq!(n.number_to_words(7), "seven");
    assert_eq!(n.number_to_words(13), "thirteen");
    assert_eq!(n.number_to_words(20), "twenty");
    assert_eq!(n.number_to_words(42), "forty-two");
    assert_eq!(n.number_to_words(100), "one hundred");
    assert_eq!(n.number_to_words(123), "one hundred twenty-three");
    assert_eq!(n.number_to_words(999), "nine hundred ninety-nine");
    assert_eq!(n.number_to_words(1500), "fifteen hundred");
}

#[test]
fn symbols_are_read_as_words() {
    let n = TextNormalizer::new();
    assert_eq!(n.normalize_symbols("A&B"), "A and B");
    assert_eq!(n.normalize_symbols("50%"), "50 percent ");
    assert_eq!(n.normalize_symbols("$5 @home #1"), " dollars 5  at home  number 1");
    assert_eq!(n.normalize_symbols("plain"), "plain");
}

#[test]
fn numbers_up_to_999_are_spelled_out() {
    let n = TextNormalizer::new();
    assert_eq!(n.normalize_numbers("I have 3 cats and 1000 dogs"), "I have three cats and 1000 dogs");
    assert_eq!(n.normalize_numbers("007 agents"), "seven agents");
    assert_eq!(n.normalize_numbers("room 12b"), "room 12b");
    assert_eq!(n.normalize_numbers("999"), "nine hundred ninety-nine");
}

#[test]
fn contractions_are_expanded() {
    let n = TextNormalizer::new();
    assert_eq!(n.expand_contractions("I don't know"), "I do not know");
    assert_eq!(n.expand_contractions("I'm here and you're there"), "I am here and you are there");
    assert_eq!(n.expand_contractions("let's go"), "let us go");
    assert_eq!(n.expand_contractions("Don't"), "Do not");
    assert_eq!(n.expand_contractions("Don't stop"), "Do not stop");
    assert_eq!(n.expand_contractions("WON'T"), "Will not");
    assert_eq!(n.expand_contractions("I'VE"), "I have");
    assert_eq!(n.expand_contractions("cannot"), "can not");
    assert_eq!(n.expand_contractions("can't"), "can not");
}

#[test]
fn abbreviations_are_expanded_case_insensitively() {
    let n = TextNormalizer::new();
    assert_eq!(n.expand_abbreviations("btw lol"), "by the way laughing out loud");
    assert_eq!(n.expand_abbreviations("BTW"), "by the way");
    assert_eq!(n.expand_abbreviations("5 kg"), "5 kilograms");
    assert_eq!(n.expand_abbreviations("Dr. Smith"), "Doctor Smith");
    assert_eq!(n.expand_abbreviations("see e.g. this"), "see for example this");
    assert_eq!(n.expand_abbreviations("MON. and dr."), "Monday and Doctor");
    assert_eq!(n.expand_abbreviations("km2 end."), "km2 end.");
    assert_eq!(n.expand_abbreviations("hello world"), "hello world");
}

#[test]
fn added_abbreviation_is_used() {
    let mut n = TextNormalizer::new();
    n.add_abbreviation("tts", "text to speech");
    assert_eq!(n.expand_abbreviations("TTS rocks"), "text to speech rocks");
    n.add_abbreviation("tts", "speech");
    assert_eq!(n.expand_abbreviations("tts"), "speech");
}

#[test]
fn apostrophes_are_straightened() {
    let n = TextNormalizer::new();
    assert_eq!(n.straighten_apostrophes("it\u{2019}s"), "it's");
}

#[test]
fn full_normalization() {
    let n = TextNormalizer::new();
    assert_eq!(n.normalize("I\u{2019}m 5 & fyi"), "I am five  and  for your information");
    assert_eq!(n.normalize("we've got 2%"), "we have got two percent ");
}

#[test]
fn no_symbol_survives_normalization() {
    let n = TextNormalizer::new();
    let out = n.normalize("a&b%c$d@e#f && 100%");
    assert_eq!(out, "a and b percent c dollars d at e number f  and  and  one hundred percent ");
    assert!(!out.contains(|c: char| "&%$@#".contains(c)));
}

#[test]
fn text_without_abbreviations_is_kept() {
    let n = TextNormalizer::new();
    assert_eq!(n.expand_abbreviations("Plain words, nothing else."), "Plain words, nothing else.");
    assert_eq!(n.straighten_apostrophes("no quotes"), "no quotes");
}

#[test]
fn whole_word_patterns_escape_meta_characters() {
    assert_eq!(venya::text_normalizer::whole_word_pattern("don't"), "(?i)\\bdon't\\b");
    assert_eq!(venya::text_normalizer::whole_word_pattern("a.b+c"), "(?i)\\ba\\.b\\+c\\b");
}

#[test]
fn scenario_normalize_doctor() {
    let n = TextNormalizer::new();
    assert_eq!(n.normalize("Dr. Smith"), "Doctor Smith");
}

#[test]
fn scenario_added_capital_abbreviation() {
    let mut n = TextNormalizer::new();
    n.add_abbreviation("NASA", "the space agency");
    assert_eq!(n.normalize("NASA"), "the space agency");
    assert_eq!(n.normalize("nasa launches"), "the space agency launches");
    n.add_abbreviation("in", "inside");
    assert_eq!(n.normalize("in"), "inside");
}

#[test]
fn number_words_are_distinct_and_well_spaced() {
    let n = TextNormalizer::new();
    let mut seen = std::collections::HashSet::new();
    for a in 0..=999u64 {
        let w = n.number_to_words(a);
        assert!(seen.insert(w.clone()));
        assert_eq!(w.contains("zero"), a == 0);
        assert!(!w.is_empty());
        assert!(w.chars().all(|c| c.is_ascii_lowercase() || c == ' ' || c == '-'));
        assert!(!w.starts_with(' ') && !w.ends_with(' ') && !w.contains("  "));
    }
}

#[test]
fn adding_an_abbreviation_keeps_other_texts() {
    let before = TextNormalizer::new();
    let mut after = TextNormalizer::new();
    after.add_abbreviation("tts", "text to speech");
    for t in ["hello 5 world", "Dr. Who & co", "it's 42%"] {
        assert_eq!(after.normalize(t), before.normalize(t));
    }
    assert_eq!(after.expand_abbreviations("TtS"), "text to speech");
}

#[test]
fn abbreviation_map_keeps_keys_as_written() {
    let m = TextNormalizer::initialize_abbreviation_map();
    assert_eq!(m.len(), 66);
    assert_eq!(m.get("Dr.").map(|s| s.as_str()), Some("Doctor"));
    assert_eq!(m.get("Sept.").map(|s| s.as_str()), Some("September"));
    assert_eq!(m.get("IDK").map(|s| s.as_str()), Some("I don't know"));
    assert_eq!(m.get("in").map(|s| s.as_str()), Some("inches"));
    assert!(m.get("dr.").is_none());
    assert!(m.get("May.").is_none());
}

#[test]
fn latest_case_variant_wins() {
    let mut n = TextNormalizer::new();
    n.add_abbreviation("NASA", "the agency");
    n.add_abbreviation("Nasa", "a space agency");
    assert_eq!(n.normalize("nAsA"), "a space agency");
}
