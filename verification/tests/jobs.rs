use zigistry::json::JsonValue;
use zigistry::jobs::{
    answered_rows, batch_alias_text, build_batch_query, escape_graphql_string, is_package_type, make_repo_query,
    parse_github_repo_id, parse_repo_id, platform_of, readme_branch, split_all, NeedsUpdateRow,
    Platform,
};

fn row(id: &str, kind: &str) -> NeedsUpdateRow {
    NeedsUpdateRow { id: id.to_string(), type_of_repo: kind.to_string() }
}

#[test]
fn split_all_keeps_empty_pieces() {
    assert_eq!(split_all("gh/a/b", '/'), vec!["gh", "a", "b"]);
    assert_eq!(split_all("/x//", '/'), vec!["", "x", "", ""]);
    assert_eq!(split_all("", '/'), vec![""]);
}

#[test]
fn github_repo_ids() {
    assert_eq!(
        parse_github_repo_id("gh/zigzap/zap"),
        Some(("zigzap".to_string(), "zap".to_string()))
    );
    assert_eq!(parse_github_repo_id("cb/zigzap/zap"), None);
    assert_eq!(parse_github_repo_id("gh/zigzap"), None);
    assert_eq!(parse_github_repo_id("gh/zigzap/zap/extra"), None);
    assert_eq!(parse_github_repo_id("gh//zap"), None);
    assert_eq!(parse_github_repo_id("gh/zigzap/"), None);
}

#[test]
fn repo_ids_split_into_three() {
    assert_eq!(
        parse_repo_id("cb/owner/name"),
        Ok(("cb".to_string(), "owner".to_string(), "name".to_string()))
    );
    assert_eq!(
        parse_repo_id("gh/a/b/c"),
        Ok(("gh".to_string(), "a".to_string(), "b".to_string()))
    );
}

#[test]
fn platforms_and_types() {
    assert_eq!(platform_of("gh"), Some(Platform::GitHub));
    assert_eq!(platform_of("cb"), Some(Platform::Codeberg));
    assert_eq!(platform_of("gl"), None);
    assert!(is_package_type("Package"));
    assert!(is_package_type("package"));
    assert!(!is_package_type("program"));
}

#[test]
fn readme_branch_defaults_to_head() {
    assert_eq!(readme_branch("main".to_string()), "main");
    assert_eq!(readme_branch("  ".to_string()), "HEAD");
    assert_eq!(readme_branch(String::new()), "HEAD");
}

#[test]
fn graphql_strings_are_escaped() {
    assert_eq!(escape_graphql_string("plain"), "plain");
    assert_eq!(escape_graphql_string("a\"b"), "a\\\"b");
    assert_eq!(escape_graphql_string("a\\b"), "a\\\\b");
}

#[test]
fn single_repo_query() {
    assert_eq!(
        make_repo_query("zigzap", "zap", "FRAG"),
        "query {\n  repository(owner: \"zigzap\", name: \"zap\") { ...RepoFields }\n}\nFRAG"
    );
}

#[test]
fn batch_query_skips_foreign_ids() {
    assert_eq!(batch_alias_text(12), "repo_12");
    let rows = vec![row("gh/a/b", "package"), row("cb/c/d", "package"), row("gh/e/f\"", "program")];
    assert_eq!(
        build_batch_query(&rows, "FRAG"),
        "query {\n  repo_0: repository(owner: \"a\", name: \"b\") { ...RepoFields }\n  repo_2: repository(owner: \"e\", name: \"f\\\"\") { ...RepoFields }\n}\nFRAG"
    );
    assert_eq!(build_batch_query(&Vec::new(), ""), "query {\n}\n");
}

#[test]
fn answered_rows_of_a_batch() {
    let rows = vec![row("gh/a/b", "package"), row("cb/c/d", "package"), row("gh/e/f", "program"), row("gh/g/h", "package")];
    let data = JsonValue::Object(vec![
        ("repo_0".to_string(), JsonValue::Object(Vec::new())),
        ("repo_1".to_string(), JsonValue::Object(Vec::new())),
        ("repo_2".to_string(), JsonValue::Null),
        ("repo_3".to_string(), JsonValue::Bool(true)),
    ]);
    let response = JsonValue::Object(vec![("data".to_string(), data)]);
    assert_eq!(answered_rows(&rows, &response), vec![0, 3]);
    let no_data = JsonValue::Object(vec![("errors".to_string(), JsonValue::Array(Vec::new()))]);
    assert!(answered_rows(&rows, &no_data).is_empty());
}
