use zigistry::bzz_stuff::{parse, tokenize, zon_version_and_dependencies, TokenType};

#[test]
fn important() {
    let test = r#"
        // test comment
        // another one
        .{
            .name = "bzz parser",
            .version = "0.0.0",
            .minimum_zig_version = "0.15.1",
            .fingerprint = 0x0123456789abcdef
            .dependencies = .{
                .something = .{
                    .url = "some url",
                    .hash = "some hash",
                    .path = "some path",
                    .lazy = true,
                },
                .something2 = .{
                    .url = "some url",
                    .hash = "some hash",
                    .path = "some path",
                    .lazy = true
                }
            }
        }
        "#;
    let res = tokenize(test).unwrap();

    let res2 = parse(res);
    println!("{:#?}", res2);

    let data = res2.unwrap();
    assert_eq!(data.name, "bzz parser");
    assert_eq!(data.version, "0.0.0");
    assert_eq!(data.minimum_zig_version, "0.15.1");
    assert_eq!(data.fingerprint, "0x0123456789abcdef");
    assert_eq!(data.dependencies.len(), 2);
    assert_eq!(data.dependencies[0].name, "something");
    assert_eq!(data.dependencies[0].url, "some url");
    assert_eq!(data.dependencies[0].hash, "some hash");
    assert_eq!(data.dependencies[0].path, "some path");
    assert_eq!(data.dependencies[0].lazy, "true");
    assert_eq!(data.dependencies[1].name, "something2");
    assert!(data.paths.is_empty());
}

#[test]
fn tokenize_punctuation_strings_and_numbers() {
    let tokens = tokenize(".{ .a = \"x\\\"y\", .b = 0b1_0, .c = 0o17, .d = 0xfF, .e = 12_3 }").unwrap();
    assert_eq!(
        tokens,
        vec![
            TokenType::Dot,
            TokenType::LBrace,
            TokenType::Dot,
            TokenType::Identifier("a".to_string()),
            TokenType::Equals,
            TokenType::Str("x\\\"y".to_string()),
            TokenType::Comma,
            TokenType::Dot,
            TokenType::Identifier("b".to_string()),
            TokenType::Equals,
            TokenType::Binary("0b1_0".to_string()),
            TokenType::Comma,
            TokenType::Dot,
            TokenType::Identifier("c".to_string()),
            TokenType::Equals,
            TokenType::Octal("0o17".to_string()),
            TokenType::Comma,
            TokenType::Dot,
            TokenType::Identifier("d".to_string()),
            TokenType::Equals,
            TokenType::Hexadecimal("0xfF".to_string()),
            TokenType::Comma,
            TokenType::Dot,
            TokenType::Identifier("e".to_string()),
            TokenType::Equals,
            TokenType::Integer("12_3".to_string()),
            TokenType::RBrace,
        ]
    );
}

#[test]
fn tokenize_skips_comments_and_whitespace() {
    assert_eq!(tokenize("  // only a comment\n\t// another\n").unwrap(), vec![]);
    assert_eq!(tokenize("// no newline at the end").unwrap(), vec![]);
    assert_eq!(tokenize("").unwrap(), vec![]);
}

#[test]
fn tokenize_unterminated_string_keeps_body() {
    assert_eq!(tokenize("\"abc").unwrap(), vec![TokenType::Str("abc".to_string())]);
}

#[test]
fn tokenize_skips_unknown_chars() {
    assert_eq!(
        tokenize("@ ; name").unwrap(),
        vec![TokenType::Identifier("name".to_string())]
    );
}

#[test]
fn tokenize_errors() {
    assert_eq!(
        tokenize("a / b").unwrap_err(),
        "Found a '/' i.e division symbol not supported in build.zig.zon."
    );
    assert_eq!(
        tokenize("0z").unwrap_err(),
        "Got unknown integer type that starts with 0."
    );
    assert_eq!(tokenize("0").unwrap_err(), "File unexpectedly ended after 0.");
}

#[test]
fn parse_enum_literal_name() {
    let data = parse(tokenize(".{ .name = .my_pkg, .version = \"1.2.3\" }").unwrap()).unwrap();
    assert_eq!(data.name, "my_pkg");
    assert_eq!(data.version, "1.2.3");
}

#[test]
fn parse_later_declaration_wins() {
    let data = parse(tokenize(".{ .version = \"1\", .version = \"2\" }").unwrap()).unwrap();
    assert_eq!(data.version, "2");
}

#[test]
fn parse_without_declarations_is_empty() {
    let data = parse(tokenize(".{ .paths = .{ \"\" } }").unwrap()).unwrap();
    assert_eq!(data.name, "");
    assert_eq!(data.version, "");
    assert_eq!(data.minimum_zig_version, "");
    assert_eq!(data.fingerprint, "");
    assert!(data.dependencies.is_empty());
}

#[test]
fn parse_errors() {
    let cases = [
        ("minimum_zig_version", "Expected = after minimum zig version declaration."),
        ("minimum_zig_version = 1", "Expected string after minimum_zig_version ="),
        ("name", "Expected = after name declaration."),
        ("name = 1", "Expected string or identifier after name ="),
        ("version", "Expected = after version declaration."),
        ("version = x", "Expected string after version ="),
        ("fingerprint", "Expected = after fingerprint declaration."),
        ("fingerprint = \"x\"", "Expected hexadecimal after fingerprint ="),
        ("dependencies", "Expected = after dependencies declaration."),
        ("dependencies = {", "Expected . after dependencies ="),
        ("dependencies = .x", "Expected { after dependencies = ."),
        ("dependencies = .{ x", "Expected . before dependency name"),
        ("dependencies = .{ . =", "Expected dependency name"),
        ("dependencies = .{ .a .", "Expected = after dependency name"),
        ("dependencies = .{ .a = {", "Expected . after dependency name ="),
        ("dependencies = .{ .a = .x", "Expected { for dependency object"),
        ("dependencies = .{ .a = .{ x", "Expected . before field name"),
        ("dependencies = .{ .a = .{ . =", "Expected field name"),
        ("dependencies = .{ .a = .{ .url .", "Expected = after field name"),
        ("dependencies = .{ .a = .{ .url = 1", "Expected value after field ="),
    ];
    for (text, message) in cases {
        assert_eq!(parse(tokenize(text).unwrap()).unwrap_err(), message, "{text}");
    }
}

#[test]
fn parse_unknown_dependency_fields_are_ignored() {
    let data = parse(
        tokenize(".dependencies = .{ .a = .{ .other = \"x\", .url = \"u\" }, }").unwrap(),
    )
    .unwrap();
    assert_eq!(data.dependencies.len(), 1);
    assert_eq!(data.dependencies[0].name, "a");
    assert_eq!(data.dependencies[0].url, "u");
    assert_eq!(data.dependencies[0].hash, "");
}

#[test]
fn version_and_dependencies_of_text() {
    let (version, deps) = zon_version_and_dependencies(
        ".{ .minimum_zig_version = \"0.14.0\", .dependencies = .{ .x = .{ .url = \"u\" } } }",
    )
    .unwrap();
    assert_eq!(version, "0.14.0");
    assert_eq!(deps.len(), 1);
    assert_eq!(
        zon_version_and_dependencies("/").unwrap_err(),
        "Found a '/' i.e division symbol not supported in build.zig.zon."
    );
    assert_eq!(
        zon_version_and_dependencies("name").unwrap_err(),
        "Expected = after name declaration."
    );
}

#[test]
fn never_more_tokens_than_chars() {
    for text in [".{}", ".{ .name = .x }", "0x1f", "\"a\" \"b\"", "   "] {
        let tokens = tokenize(text).unwrap();
        assert!(tokens.len() <= text.chars().count());
    }
}

#[test]
fn last_declarations_win() {
    let text = r#".{
        .name = "first", .version = "1.0.0",
        .dependencies = .{ .a = .{ .url = "u1" } },
        .name = .second,
        .dependencies = .{ .b = .{ .url = "u2" }, .b = .{ .url = "u3" } },
        .fingerprint = 0x01, .fingerprint = 0x02,
    }"#;
    let data = parse(tokenize(text).unwrap()).unwrap();
    assert_eq!(data.name, "second");
    assert_eq!(data.version, "1.0.0");
    assert_eq!(data.fingerprint, "0x02");
    assert_eq!(data.minimum_zig_version, "");
    let names: Vec<&str> = data.dependencies.iter().map(|d| d.name.as_str()).collect();
    assert_eq!(names, vec!["b", "b"]);
    assert_eq!(data.dependencies[1].url, "u3");
}
