use telegram_korean_search::tokenizer::{
    terms_from_morphemes, terms_from_words, tokenize_analysis, tokenize_query, Morpheme,
};

fn m(surface: &str, tag: &str) -> Morpheme {
    Morpheme { surface: surface.to_string(), tag: Some(tag.to_string()) }
}

#[test]
fn test_tokenize_query_korean() {
    let analysis = Some(vec![m("삼성", "NNP"), m("전자", "NNG"), m("주가", "NNG")]);
    let tokens = tokenize_query("삼성전자 주가", &analysis);
    assert!(!tokens.is_empty());
}

#[test]
fn test_tokenize_query_english() {
    let analysis = Some(vec![m("hello", "SL"), m("world", "SL")]);
    let tokens = tokenize_query("hello world", &analysis);
    assert!(tokens.contains(&"hello".to_string()));
    assert!(tokens.contains(&"world".to_string()));
}

#[test]
fn test_tokenize_query_empty() {
    let tokens = tokenize_query("", &Some(vec![]));
    assert!(tokens.is_empty());
}

#[test]
fn particles_and_endings_are_dropped() {
    let analysis = vec![m("텔레그램", "NNP"), m("에서", "JKB"), m("검색", "NNG"), m("이", "JKS"), m("됐", "VV+EP"), m("다", "EF")];
    assert_eq!(terms_from_morphemes(&analysis), vec!["텔레그램", "검색"]);
}

#[test]
fn unknown_morphemes_are_cleaned() {
    let analysis = vec![
        Morpheme { surface: "Hello!".to_string(), tag: Some("UNK".to_string()) },
        Morpheme { surface: "...".to_string(), tag: None },
        m("2024", "SN"),
        m("Test", "SL"),
    ];
    assert_eq!(terms_from_morphemes(&analysis), vec!["hello", "2024", "test"]);
}

#[test]
fn analyzer_failure_falls_back_to_words() {
    assert_eq!(terms_from_words("Hello, World! ..."), vec!["hello", "world"]);
    assert_eq!(tokenize_analysis("Hi there", &None), vec!["hi", "there"]);
    assert!(tokenize_analysis("   \t\n  ", &None).is_empty());
}

#[test]
fn query_without_terms_falls_back_to_bigrams() {
    // The analyzer kept nothing (only punctuation): bigrams of the stripped query.
    let analysis = Some(vec![m("?!", "SF")]);
    assert_eq!(tokenize_query("? !", &analysis), vec!["?!"]);
    assert!(tokenize_query("   ", &Some(vec![])).is_empty());
}
