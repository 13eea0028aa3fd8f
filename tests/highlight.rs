use telegram_korean_search::highlight::{find_highlights, find_highlights_lowered, HighlightRange};

#[test]
fn test_simple_highlight() {
    let ranges = find_highlights("Hello World", &["hello".to_string()]);
    assert_eq!(ranges, vec![HighlightRange { start: 0, end: 5 }]);
}

#[test]
fn test_multiple_tokens() {
    let ranges = find_highlights("Hello World", &["hello".to_string(), "world".to_string()]);
    assert_eq!(
        ranges,
        vec![
            HighlightRange { start: 0, end: 5 },
            HighlightRange { start: 6, end: 11 },
        ]
    );
}

#[test]
fn test_overlapping_ranges_merged() {
    let ranges = find_highlights("abcabc", &["abc".to_string(), "bca".to_string()]);
    assert_eq!(ranges, vec![HighlightRange { start: 0, end: 6 }]);
}

#[test]
fn test_korean_highlight() {
    let text = "삼성전자 주가가 상승했다";
    let ranges = find_highlights(text, &["삼성".to_string()]);
    assert_eq!(ranges.len(), 1);
    assert_eq!(ranges[0].start, 0);
    assert_eq!(ranges[0].end, 6);
}

#[test]
fn test_no_match() {
    let ranges = find_highlights("Hello World", &["xyz".to_string()]);
    assert!(ranges.is_empty());
}

#[test]
fn test_empty_text() {
    let ranges = find_highlights("", &["hello".to_string()]);
    assert!(ranges.is_empty());
}

#[test]
fn test_empty_tokens() {
    let ranges = find_highlights("Hello World", &[]);
    assert!(ranges.is_empty());
}

#[test]
fn test_multiple_occurrences() {
    let ranges = find_highlights("hello hello hello", &["hello".to_string()]);
    assert_eq!(ranges.len(), 3);
}

#[test]
fn test_case_insensitive() {
    let ranges = find_highlights("HELLO hello Hello", &["hello".to_string()]);
    assert_eq!(ranges.len(), 3);
}

#[test]
fn touching_ranges_merge() {
    let ranges = find_highlights("abcdef", &["abc".to_string(), "def".to_string()]);
    assert_eq!(ranges, vec![HighlightRange { start: 0, end: 6 }]);
}

#[test]
fn occurrences_of_one_term_do_not_overlap() {
    let ranges = find_highlights("aaaa", &["aa".to_string()]);
    assert_eq!(ranges, vec![HighlightRange { start: 0, end: 4 }]);
    let ranges = find_highlights("aaa", &["aa".to_string()]);
    assert_eq!(ranges, vec![HighlightRange { start: 0, end: 2 }]);
}

#[test]
fn separated_ranges_stay_apart_and_sorted() {
    let ranges = find_highlights("x ab y ab", &["y".to_string(), "ab".to_string()]);
    assert_eq!(
        ranges,
        vec![
            HighlightRange { start: 2, end: 4 },
            HighlightRange { start: 5, end: 6 },
            HighlightRange { start: 7, end: 9 },
        ]
    );
}

#[test]
fn lowered_input_is_matched_as_given() {
    let ranges = find_highlights_lowered("Hello hello", &["hello".to_string()]);
    assert_eq!(ranges, vec![HighlightRange { start: 6, end: 11 }]);
}
