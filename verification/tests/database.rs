use zigistry::database::{
    extract_keywords_from_text_and_return_as_string, merge_search_keywords, parse_lazy_flag,
    truncate_option_to_char_limit, truncate_to_char_limit,
};

#[test]
fn truncate_counts_characters_not_bytes() {
    assert_eq!(truncate_to_char_limit("héllo wörld", 5), "héllo");
    assert_eq!(truncate_to_char_limit("abc", 3), "abc");
    assert_eq!(truncate_to_char_limit("abc", 10), "abc");
    assert_eq!(truncate_to_char_limit("abc", 0), "");
    assert_eq!(truncate_to_char_limit("", 4), "");
}

#[test]
fn truncate_twice_keeps_the_smaller_limit() {
    let s = "zigistry package index";
    assert_eq!(
        truncate_to_char_limit(&truncate_to_char_limit(s, 10), 4),
        truncate_to_char_limit(s, 4)
    );
    assert_eq!(
        truncate_to_char_limit(&truncate_to_char_limit(s, 7), 7),
        truncate_to_char_limit(s, 7)
    );
}

#[test]
fn truncate_option() {
    assert_eq!(truncate_option_to_char_limit(None, 3), None);
    assert_eq!(truncate_option_to_char_limit(Some("abcdef"), 3), Some("abc".to_string()));
}

#[test]
fn lazy_flag() {
    assert!(parse_lazy_flag("true"));
    assert!(parse_lazy_flag("  TRUE\n"));
    assert!(parse_lazy_flag("\tTrUe"));
    assert!(!parse_lazy_flag("false"));
    assert!(!parse_lazy_flag(""));
    assert!(!parse_lazy_flag("truee"));
    assert!(!parse_lazy_flag("t rue"));
}

#[test]
fn keywords_of_blank_text_are_empty() {
    assert_eq!(extract_keywords_from_text_and_return_as_string("   \n ", 10), "");
    assert_eq!(extract_keywords_from_text_and_return_as_string("", 10), "");
}

#[test]
fn keywords_of_a_description() {
    let text = "A fast HTTP server library written for embedded devices";
    let keywords = extract_keywords_from_text_and_return_as_string(text, 3);
    assert!(!keywords.is_empty());
    assert_ne!(keywords, text);
    let words: Vec<&str> = keywords.split(' ').collect();
    assert!(words.len() <= 3);
    for w in &words {
        assert!(text.to_lowercase().contains(&w.to_lowercase()), "{w}");
        assert_ne!(*w, "for");
    }
}

#[test]
fn merge_keywords() {
    assert_eq!(merge_search_keywords("  ", None), "");
    assert_eq!(merge_search_keywords(" zig parser ", None), "zig parser");
    assert_eq!(merge_search_keywords("", Some("   ")), "");
    let description = "An embedded database engine";
    let from_description = extract_keywords_from_text_and_return_as_string(description, 50);
    assert_eq!(merge_search_keywords("", Some(description)), from_description.trim());
    assert_eq!(
        merge_search_keywords(" readme ", Some(description)),
        format!("readme {}", from_description.trim())
    );
}

#[test]
fn merged_keywords_are_trimmed_and_start_with_readme_keywords() {
    let merged = merge_search_keywords("  zig http  ", Some("A fast HTTP server library for web"));
    assert_eq!(merged.trim(), merged);
    assert!(merged.starts_with("zig http"));
    assert_eq!(merge_search_keywords("\tzig ", None), "zig");
    assert_eq!(merge_search_keywords("   ", None), "");
}

#[test]
fn keywords_ignore_surrounding_whitespace_and_zero_limit() {
    let text = "Fast HTTP server written for embedded web services";
    assert_eq!(
        extract_keywords_from_text_and_return_as_string(&format!("  {text}\n"), 5),
        extract_keywords_from_text_and_return_as_string(text, 5)
    );
    assert_eq!(extract_keywords_from_text_and_return_as_string(text, 0), "");
}
