use zigistry::sections::{
    repository_payload, section_entries, section_owner_and_name_of, section_repo_id,
};

#[test]
fn section_entry_names() {
    assert_eq!(section_repo_id("ZigZap/Zap"), "zigzap/zap");
    assert_eq!(
        section_owner_and_name_of("zigzap/zap"),
        ("zigzap".to_string(), "zap".to_string())
    );
    assert_eq!(
        section_owner_and_name_of("gh/karlseguin/http.zig"),
        ("karlseguin".to_string(), "http.zig".to_string())
    );
    assert_eq!(section_owner_and_name_of("/x"), (String::new(), "x".to_string()));
}

#[test]
fn reply_envelope_is_cut_off() {
    assert_eq!(
        repository_payload("{\"data\":{\"repository\":{\"name\":\"zap\"}}}"),
        "{\"name\":\"zap\"}"
    );
    assert_eq!(repository_payload("{\"data\":{\"repository\":null}}"), "null");
}

#[test]
fn section_entries_of_a_toml_text() {
    let text = "web = [\"ZigZap/Zap\", \"karlseguin/http.zig\"]\ngames = [\"Raylib/Raylib-Zig\"]\nempty = []\n";
    let mut entries = section_entries(text).unwrap();
    entries.sort();
    assert_eq!(
        entries,
        vec![
            ("games".to_string(), "raylib/raylib-zig".to_string()),
            ("web".to_string(), "karlseguin/http.zig".to_string()),
            ("web".to_string(), "zigzap/zap".to_string()),
        ]
    );
    assert_eq!(section_entries(""), Some(Vec::new()));
    assert_eq!(section_entries("web = 3"), None);
    assert_eq!(section_entries("not toml ["), None);
}
