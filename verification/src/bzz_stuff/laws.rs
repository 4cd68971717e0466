//! Properties of the `build.zig.zon` tokenizer and parser that hold of
//! every input.
use vstd::prelude::*;
use crate::bzz_stuff::{
    CharClass, in_class, run_end, comment_end, string_body, lex, spec_tokenize, lemma_run_end,
    lemma_comment_end, lemma_string_body, SpecToken, SpecZon, ParseError, token_is,
    name_or_string, string_token, hex_token, skip_comma, dependency_fields, dependency_list,
    zon_from, spec_parse, empty_zon, empty_dependency, set_dependency_field, with_version,
    with_name, with_fingerprint, with_minimum_zig_version, with_dependencies,
    lemma_dependency_fields_advances, lemma_dependency_list_advances,
};
use crate::custom_types::SpecDependency;
use crate::text::{unicode_whitespace, unicode_alphabetic};

verus! {

// ---------------------------------------------------------------------------
// The tokenizer only looks ahead
// ---------------------------------------------------------------------------

proof fn lemma_run_end_shift(s: Seq<char>, i: int, k: int, class: CharClass)
    requires
        0 <= i <= k <= s.len(),
    ensures
        run_end(s, k, class) == i + run_end(s.skip(i), k - i, class),
    decreases s.len() - k,
{
    if k < s.len() && in_class(s[k], class) {
        lemma_run_end_shift(s, i, k + 1, class);
    }
}

proof fn lemma_comment_end_shift(s: Seq<char>, i: int, k: int)
    requires
        0 <= i <= k <= s.len(),
    ensures
        comment_end(s, k) == i + comment_end(s.skip(i), k - i),
    decreases s.len() - k,
{
    if k < s.len() && s[k] != '\n' {
        lemma_comment_end_shift(s, i, k + 1);
    }
}

proof fn lemma_string_body_shift(s: Seq<char>, i: int, k: int)
    requires
        0 <= i <= k <= s.len(),
    ensures
        string_body(s, k).0 == string_body(s.skip(i), k - i).0,
        string_body(s, k).1 == i + string_body(s.skip(i), k - i).1,
    decreases s.len() - k,
{
    if k < s.len() {
        if s[k] == '\\' {
            if k + 1 < s.len() {
                lemma_string_body_shift(s, i, k + 2);
            }
        } else if s[k] != '"' {
            lemma_string_body_shift(s, i, k + 1);
        }
    }
}

/// The tokens from position `k` on depend only on the text from `k` on:
/// dropping the first `i` chars (`i <= k`) does not change them.
pub proof fn lemma_lex_shift(s: Seq<char>, i: int, k: int)
    requires
        0 <= i <= k <= s.len(),
    ensures
        lex(s, k) == lex(s.skip(i), k - i),
    decreases s.len() - k,
{
    let t = s.skip(i);
    if k < s.len() {
        let c = s[k];
        assert(t[k - i] == c);
        if unicode_whitespace(c) {
            lemma_lex_shift(s, i, k + 1);
        } else if c == '/' {
            if k + 1 < s.len() && s[k + 1] == '/' {
                assert(t[k - i + 1] == '/');
                lemma_comment_end(s, k + 2);
                lemma_comment_end_shift(s, i, k + 2);
                lemma_lex_shift(s, i, comment_end(s, k + 2));
            }
        } else if c == '.' || c == '{' || c == '}' || c == '=' || c == ',' {
            lemma_lex_shift(s, i, k + 1);
        } else if c == '"' {
            lemma_string_body(s, k + 1);
            lemma_string_body_shift(s, i, k + 1);
            lemma_lex_shift(s, i, string_body(s, k + 1).1);
        } else if unicode_alphabetic(c) || c == '_' {
            lemma_run_end(s, k + 1, CharClass::IdentTail);
            lemma_run_end_shift(s, i, k + 1, CharClass::IdentTail);
            let e = run_end(s, k + 1, CharClass::IdentTail);
            assert(s.subrange(k, e) == t.subrange(k - i, e - i));
            lemma_lex_shift(s, i, e);
        } else if c == '0' {
            if k + 1 < s.len() {
                assert(t[k - i + 1] == s[k + 1]);
                let class = if s[k + 1] == 'b' {
                    CharClass::Binary
                } else if s[k + 1] == 'o' {
                    CharClass::Octal
                } else {
                    CharClass::Hex
                };
                if s[k + 1] == 'b' || s[k + 1] == 'o' || s[k + 1] == 'x' {
                    lemma_run_end(s, k + 2, class);
                    lemma_run_end_shift(s, i, k + 2, class);
                    let e = run_end(s, k + 2, class);
                    assert(s.subrange(k, e) == t.subrange(k - i, e - i));
                    lemma_lex_shift(s, i, e);
                }
            }
        } else if '1' <= c && c <= '9' {
            lemma_run_end(s, k + 1, CharClass::Decimal);
            lemma_run_end_shift(s, i, k + 1, CharClass::Decimal);
            let e = run_end(s, k + 1, CharClass::Decimal);
            assert(s.subrange(k, e) == t.subrange(k - i, e - i));
            lemma_lex_shift(s, i, e);
        } else {
            lemma_lex_shift(s, i, k + 1);
        }
    }
}

/// Whitespace in front of a text does not change its tokens.
pub proof fn law_leading_whitespace_ignored(w: Seq<char>, s: Seq<char>)
    requires
        forall|j: int| 0 <= j < w.len() ==> unicode_whitespace(#[trigger] w[j]),
    ensures
        spec_tokenize(w + s) == spec_tokenize(s),
{
    let t = w + s;
    lemma_leading_whitespace_steps(w, s, w.len() as int);
    lemma_lex_shift(t, w.len() as int, w.len() as int);
    assert(t.skip(w.len() as int) == s);
}

proof fn lemma_leading_whitespace_steps(w: Seq<char>, s: Seq<char>, k: int)
    requires
        forall|j: int| 0 <= j < w.len() ==> unicode_whitespace(#[trigger] w[j]),
        0 <= k <= w.len(),
    ensures
        lex(w + s, w.len() - k) == lex(w + s, w.len() as int),
    decreases k,
{
    if k > 0 {
        lemma_leading_whitespace_steps(w, s, k - 1);
        let t = w + s;
        assert(t[w.len() - k] == w[w.len() - k]);
    }
}

/// A `//` comment line in front of a text does not change its tokens.
pub proof fn law_comment_line_ignored(body: Seq<char>, s: Seq<char>)
    requires
        forall|j: int| 0 <= j < body.len() ==> #[trigger] body[j] != '\n',
    ensures
        spec_tokenize(seq!['/', '/'] + body + seq!['\n'] + s) == spec_tokenize(s),
{
    let prefix = seq!['/', '/'] + body + seq!['\n'];
    let t = prefix + s;
    assert(t[0] == '/' && t[1] == '/');
    lemma_comment_steps(body, s, 2);
    lemma_lex_shift(t, prefix.len() as int, prefix.len() as int);
    assert(t.skip(prefix.len() as int) == s);
}

proof fn lemma_comment_steps(body: Seq<char>, s: Seq<char>, k: int)
    requires
        forall|j: int| 0 <= j < body.len() ==> #[trigger] body[j] != '\n',
        2 <= k <= body.len() + 2,
    ensures
        comment_end(seq!['/', '/'] + body + seq!['\n'] + s, k) == body.len() + 3,
    decreases body.len() + 2 - k,
{
    let t = seq!['/', '/'] + body + seq!['\n'] + s;
    if k < body.len() + 2 {
        assert(t[k] == body[k - 2]);
        lemma_comment_steps(body, s, k + 1);
    } else {
        assert(t[k] == '\n');
    }
}

// ---------------------------------------------------------------------------
// The parser reads its tokens in order
// ---------------------------------------------------------------------------

/// Looking at a position of `t + u` that lies inside `t` is looking at `t`.
proof fn lemma_prefix_positions(t: Seq<SpecToken>, u: Seq<SpecToken>, k: int)
    requires
        0 <= k < t.len(),
    ensures
        (t + u)[k] == t[k],
        forall|w: SpecToken| token_is(t + u, k, w) == token_is(t, k, w),
        name_or_string(t + u, k) == name_or_string(t, k),
        string_token(t + u, k) == string_token(t, k),
        hex_token(t + u, k) == hex_token(t, k),
{
}

/// Looking at position `k` of `s` is looking at position `k - i` of
/// `s.skip(i)`.
proof fn lemma_shift_positions(s: Seq<SpecToken>, i: int, k: int)
    requires
        0 <= i <= k,
        i <= s.len(),
    ensures
        forall|w: SpecToken| token_is(s, k, w) == token_is(s.skip(i), k - i, w),
        name_or_string(s, k) == name_or_string(s.skip(i), k - i),
        string_token(s, k) == string_token(s.skip(i), k - i),
        hex_token(s, k) == hex_token(s.skip(i), k - i),
{
    if k < s.len() {
        assert(s.skip(i)[k - i] == s[k]);
    }
}

proof fn lemma_fields_prefix(t: Seq<SpecToken>, u: Seq<SpecToken>, i: int, d: SpecDependency)
    requires
        0 <= i,
        dependency_fields(t, i, d) is Ok,
    ensures
        dependency_fields(t + u, i, d) == dependency_fields(t, i, d),
    decreases t.len() - i,
{
    let s = t + u;
    lemma_prefix_positions(t, u, i);
    let j = skip_comma(t, i);
    assert(skip_comma(s, i) == j);
    lemma_prefix_positions(t, u, j);
    if !token_is(t, j, SpecToken::RBrace) {
        lemma_prefix_positions(t, u, j + 1);
        lemma_prefix_positions(t, u, j + 2);
        lemma_prefix_positions(t, u, j + 3);
        let key = name_or_string(t, j + 1)->Some_0;
        let value = name_or_string(t, j + 3)->Some_0;
        lemma_fields_prefix(t, u, j + 4, set_dependency_field(d, key, value));
    }
}

proof fn lemma_list_prefix(t: Seq<SpecToken>, u: Seq<SpecToken>, i: int, deps: Seq<SpecDependency>)
    requires
        0 <= i,
        dependency_list(t, i, deps) is Ok,
    ensures
        dependency_list(t + u, i, deps) == dependency_list(t, i, deps),
    decreases t.len() - i,
{
    let s = t + u;
    lemma_prefix_positions(t, u, i);
    let j = skip_comma(t, i);
    assert(skip_comma(s, i) == j);
    lemma_prefix_positions(t, u, j);
    if !token_is(t, j, SpecToken::RBrace) {
        lemma_prefix_positions(t, u, j + 1);
        lemma_prefix_positions(t, u, j + 2);
        lemma_prefix_positions(t, u, j + 3);
        lemma_prefix_positions(t, u, j + 4);
        let name = name_or_string(t, j + 1)->Some_0;
        lemma_fields_prefix(t, u, j + 5, empty_dependency(name));
        lemma_dependency_fields_advances(t, j + 5, empty_dependency(name));
        let r = dependency_fields(t, j + 5, empty_dependency(name))->Ok_0;
        lemma_list_prefix(t, u, r.0, deps.push(r.1));
    }
}

proof fn lemma_zon_prefix(t: Seq<SpecToken>, u: Seq<SpecToken>, i: int, acc: SpecZon)
    requires
        0 <= i <= t.len(),
        zon_from(t, i, acc) is Ok,
    ensures
        zon_from(t + u, i, acc) == zon_from(t + u, t.len() as int, zon_from(t, i, acc)->Ok_0),
    decreases t.len() - i,
{
    if i < t.len() {
        lemma_prefix_positions(t, u, i);
        match t[i] {
            SpecToken::Identifier(v) => {
                if v == "minimum_zig_version"@ {
                    lemma_prefix_positions(t, u, i + 1);
                    lemma_prefix_positions(t, u, i + 2);
                    lemma_zon_prefix(t, u, i + 3, zon_next_acc(t, i, acc));
                } else if v == "name"@ {
                    lemma_prefix_positions(t, u, i + 1);
                    let j = if token_is(t, i + 2, SpecToken::Dot) {
                        i + 3
                    } else {
                        i + 2
                    };
                    if i + 2 < t.len() {
                        lemma_prefix_positions(t, u, i + 2);
                    }
                    lemma_prefix_positions(t, u, j);
                    lemma_zon_prefix(t, u, j + 1, zon_next_acc(t, i, acc));
                } else if v == "version"@ {
                    lemma_prefix_positions(t, u, i + 1);
                    lemma_prefix_positions(t, u, i + 2);
                    lemma_zon_prefix(t, u, i + 3, zon_next_acc(t, i, acc));
                } else if v == "fingerprint"@ {
                    lemma_prefix_positions(t, u, i + 1);
                    lemma_prefix_positions(t, u, i + 2);
                    lemma_zon_prefix(t, u, i + 3, zon_next_acc(t, i, acc));
                } else if v == "dependencies"@ {
                    lemma_prefix_positions(t, u, i + 1);
                    lemma_prefix_positions(t, u, i + 2);
                    lemma_prefix_positions(t, u, i + 3);
                    lemma_list_prefix(t, u, i + 4, Seq::empty());
                    lemma_dependency_list_advances(t, i + 4, Seq::empty());
                    let r = dependency_list(t, i + 4, Seq::empty())->Ok_0;
                    lemma_zon_prefix(t, u, r.0, zon_next_acc(t, i, acc));
                } else {
                    lemma_zon_prefix(t, u, i + 1, acc);
                }
            },
            _ => {
                lemma_zon_prefix(t, u, i + 1, acc);
            },
        }
    }
}

/// The manifest after the declaration at `i` (used by the proofs only).
spec fn zon_next_acc(t: Seq<SpecToken>, i: int, acc: SpecZon) -> SpecZon {
    match t[i] {
        SpecToken::Identifier(v) => if v == "minimum_zig_version"@ {
            crate::bzz_stuff::with_minimum_zig_version(acc, string_token(t, i + 2)->Some_0)
        } else if v == "name"@ {
            let j = if token_is(t, i + 2, SpecToken::Dot) {
                i + 3
            } else {
                i + 2
            };
            crate::bzz_stuff::with_name(acc, name_or_string(t, j)->Some_0)
        } else if v == "version"@ {
            with_version(acc, string_token(t, i + 2)->Some_0)
        } else if v == "fingerprint"@ {
            crate::bzz_stuff::with_fingerprint(acc, hex_token(t, i + 2)->Some_0)
        } else {
            crate::bzz_stuff::with_dependencies(
                acc,
                dependency_list(t, i + 4, Seq::empty())->Ok_0.1,
            )
        },
        _ => acc,
    }
}

proof fn lemma_fields_shift(s: Seq<SpecToken>, i: int, k: int, d: SpecDependency)
    requires
        0 <= i <= k,
        i <= s.len(),
    ensures
        dependency_fields(s, k, d) == match dependency_fields(s.skip(i), k - i, d) {
            Ok(r) => Ok((r.0 + i, r.1)),
            Err(e) => Err(e),
        },
    decreases s.len() - k,
{
    let t = s.skip(i);
    lemma_shift_positions(s, i, k);
    let j = skip_comma(s, k);
    assert(skip_comma(t, k - i) == j - i);
    lemma_shift_positions(s, i, j);
    lemma_shift_positions(s, i, j + 1);
    lemma_shift_positions(s, i, j + 2);
    lemma_shift_positions(s, i, j + 3);
    if !token_is(s, j, SpecToken::RBrace) && token_is(s, j, SpecToken::Dot) {
        if let Some(key) = name_or_string(s, j + 1) {
            if let Some(value) = name_or_string(s, j + 3) {
                if token_is(s, j + 2, SpecToken::Equals) {
                    lemma_fields_shift(s, i, j + 4, set_dependency_field(d, key, value));
                }
            }
        }
    }
}

proof fn lemma_list_shift(s: Seq<SpecToken>, i: int, k: int, deps: Seq<SpecDependency>)
    requires
        0 <= i <= k,
        i <= s.len(),
    ensures
        dependency_list(s, k, deps) == match dependency_list(s.skip(i), k - i, deps) {
            Ok(r) => Ok((r.0 + i, r.1)),
            Err(e) => Err(e),
        },
    decreases s.len() - k,
{
    let t = s.skip(i);
    lemma_shift_positions(s, i, k);
    let j = skip_comma(s, k);
    assert(skip_comma(t, k - i) == j - i);
    lemma_shift_positions(s, i, j);
    lemma_shift_positions(s, i, j + 1);
    lemma_shift_positions(s, i, j + 2);
    lemma_shift_positions(s, i, j + 3);
    lemma_shift_positions(s, i, j + 4);
    if !token_is(s, j, SpecToken::RBrace) && token_is(s, j, SpecToken::Dot) {
        if let Some(name) = name_or_string(s, j + 1) {
            if token_is(s, j + 2, SpecToken::Equals) && token_is(s, j + 3, SpecToken::Dot)
                && token_is(s, j + 4, SpecToken::LBrace) {
                lemma_fields_shift(s, i, j + 5, empty_dependency(name));
                lemma_dependency_fields_advances(s, j + 5, empty_dependency(name));
                if let Ok(r) = dependency_fields(s, j + 5, empty_dependency(name)) {
                    lemma_list_shift(s, i, r.0, deps.push(r.1));
                }
            }
        }
    }
}

proof fn lemma_zon_shift(s: Seq<SpecToken>, i: int, k: int, acc: SpecZon)
    requires
        0 <= i <= k,
        i <= s.len(),
    ensures
        zon_from(s, k, acc) == zon_from(s.skip(i), k - i, acc),
    decreases s.len() - k,
{
    let t = s.skip(i);
    if k < s.len() {
        assert(t[k - i] == s[k]);
        lemma_shift_positions(s, i, k + 1);
        lemma_shift_positions(s, i, k + 2);
        lemma_shift_positions(s, i, k + 3);
        match s[k] {
            SpecToken::Identifier(v) => {
                if v == "minimum_zig_version"@ {
                    if token_is(s, k + 1, SpecToken::Equals) && string_token(s, k + 2) is Some {
                        lemma_zon_shift(s, i, k + 3, zon_next_acc(s, k, acc));
                    }
                } else if v == "name"@ {
                    let j = if token_is(s, k + 2, SpecToken::Dot) {
                        k + 3
                    } else {
                        k + 2
                    };
                    lemma_shift_positions(s, i, j);
                    if token_is(s, k + 1, SpecToken::Equals) && name_or_string(s, j) is Some {
                        lemma_zon_shift(s, i, j + 1, zon_next_acc(s, k, acc));
                    }
                } else if v == "version"@ {
                    if token_is(s, k + 1, SpecToken::Equals) && string_token(s, k + 2) is Some {
                        lemma_zon_shift(s, i, k + 3, zon_next_acc(s, k, acc));
                    }
                } else if v == "fingerprint"@ {
                    if token_is(s, k + 1, SpecToken::Equals) && hex_token(s, k + 2) is Some {
                        lemma_zon_shift(s, i, k + 3, zon_next_acc(s, k, acc));
                    }
                } else if v == "dependencies"@ {
                    lemma_list_shift(s, i, k + 4, Seq::empty());
                    lemma_dependency_list_advances(s, k + 4, Seq::empty());
                    if let Ok(r) = dependency_list(s, k + 4, Seq::empty()) {
                        lemma_zon_shift(s, i, r.0, zon_next_acc(s, k, acc));
                    }
                } else {
                    lemma_zon_shift(s, i, k + 1, acc);
                }
            },
            _ => {
                lemma_zon_shift(s, i, k + 1, acc);
            },
        }
    }
}

/// Parsing reads the tokens in one pass: when the tokens `t` parse into the
/// manifest `z`, the tokens `t + u` parse as `u` does when started from `z`
/// instead of from the empty manifest.
pub proof fn law_parse_continues(t: Seq<SpecToken>, u: Seq<SpecToken>)
    requires
        spec_parse(t) is Ok,
    ensures
        spec_parse(t + u) == zon_from(u, 0, spec_parse(t)->Ok_0),
{
    lemma_zon_prefix(t, u, 0, empty_zon());
    lemma_zon_shift(t + u, t.len() as int, t.len() as int, spec_parse(t)->Ok_0);
    assert((t + u).skip(t.len() as int) == u);
}

/// A later `version` declaration replaces an earlier one: appending
/// `version = "<v>"` to tokens that parse changes only the version.
pub proof fn law_later_version_wins(t: Seq<SpecToken>, v: Seq<char>)
    requires
        spec_parse(t) is Ok,
    ensures
        spec_parse(
            t + seq![SpecToken::Identifier("version"@), SpecToken::Equals, SpecToken::Str(v)],
        ) == Ok::<SpecZon, ParseError>(with_version(spec_parse(t)->Ok_0, v)),
{
    let u = seq![SpecToken::Identifier("version"@), SpecToken::Equals, SpecToken::Str(v)];
    law_parse_continues(t, u);
    reveal_strlit("version");
    reveal_strlit("minimum_zig_version");
    reveal_strlit("name");
    assert("version"@.len() != "minimum_zig_version"@.len());
    assert("version"@.len() != "name"@.len());
    assert(zon_from(u, 3, with_version(spec_parse(t)->Ok_0, v)) == Ok::<SpecZon, ParseError>(
        with_version(spec_parse(t)->Ok_0, v),
    ));
}

/// Tokens without any identifier describe the empty manifest.
pub proof fn law_no_identifier_no_declaration(t: Seq<SpecToken>)
    requires
        forall|k: int| 0 <= k < t.len() ==> !(#[trigger] t[k] is Identifier),
    ensures
        spec_parse(t) == Ok::<SpecZon, ParseError>(empty_zon()),
{
    lemma_no_identifier_steps(t, 0);
}

proof fn lemma_no_identifier_steps(t: Seq<SpecToken>, i: int)
    requires
        forall|k: int| 0 <= k < t.len() ==> !(#[trigger] t[k] is Identifier),
        0 <= i,
    ensures
        zon_from(t, i, empty_zon()) == Ok::<SpecZon, ParseError>(empty_zon()),
    decreases t.len() - i,
{
    if i < t.len() {
        assert(!(t[i] is Identifier));
        lemma_no_identifier_steps(t, i + 1);
    }
}

// ---------------------------------------------------------------------------
// Every token takes at least one char
// ---------------------------------------------------------------------------

proof fn lemma_lex_count(s: Seq<char>, i: int)
    requires
        0 <= i <= s.len(),
    ensures
        lex(s, i) matches Ok(ts) ==> ts.len() <= s.len() - i,
    decreases s.len() - i,
{
    if i < s.len() {
        let c = s[i];
        if unicode_whitespace(c) {
            lemma_lex_count(s, i + 1);
        } else if c == '/' {
            if i + 1 < s.len() && s[i + 1] == '/' {
                lemma_comment_end(s, i + 2);
                lemma_lex_count(s, comment_end(s, i + 2));
            }
        } else if c == '"' {
            lemma_string_body(s, i + 1);
            lemma_lex_count(s, string_body(s, i + 1).1);
        } else if c == '.' || c == '{' || c == '}' || c == '=' || c == ',' {
            lemma_lex_count(s, i + 1);
        } else if unicode_alphabetic(c) || c == '_' {
            lemma_run_end(s, i + 1, CharClass::IdentTail);
            lemma_lex_count(s, run_end(s, i + 1, CharClass::IdentTail));
        } else if c == '0' {
            if i + 1 < s.len() {
                if s[i + 1] == 'b' {
                    lemma_run_end(s, i + 2, CharClass::Binary);
                    lemma_lex_count(s, run_end(s, i + 2, CharClass::Binary));
                } else if s[i + 1] == 'o' {
                    lemma_run_end(s, i + 2, CharClass::Octal);
                    lemma_lex_count(s, run_end(s, i + 2, CharClass::Octal));
                } else if s[i + 1] == 'x' {
                    lemma_run_end(s, i + 2, CharClass::Hex);
                    lemma_lex_count(s, run_end(s, i + 2, CharClass::Hex));
                }
            }
        } else if '1' <= c && c <= '9' {
            lemma_run_end(s, i + 1, CharClass::Decimal);
            lemma_lex_count(s, run_end(s, i + 1, CharClass::Decimal));
        } else {
            lemma_lex_count(s, i + 1);
        }
    }
}

/// A text never has more tokens than chars: every token is made of at
/// least one char of the text.
pub proof fn law_token_count_bounded(s: Seq<char>)
    ensures
        spec_tokenize(s) matches Ok(ts) ==> ts.len() <= s.len(),
{
    lemma_lex_count(s, 0);
}

// ---------------------------------------------------------------------------
// Later declarations win
// ---------------------------------------------------------------------------

/// A value at the end of a read either came through unchanged from where
/// each read started, or is the same whichever start the read had.
pub open spec fn kept_or_set<A>(start_a: A, start_b: A, end_a: A, end_b: A) -> bool {
    (end_a == start_a && end_b == start_b) || end_a == end_b
}

/// `kept_or_set` for every field of the manifest.
pub open spec fn fields_kept_or_set(a: SpecZon, b: SpecZon, ra: SpecZon, rb: SpecZon) -> bool {
    &&& kept_or_set(a.name, b.name, ra.name, rb.name)
    &&& kept_or_set(a.fingerprint, b.fingerprint, ra.fingerprint, rb.fingerprint)
    &&& kept_or_set(a.version, b.version, ra.version, rb.version)
    &&& kept_or_set(
        a.minimum_zig_version,
        b.minimum_zig_version,
        ra.minimum_zig_version,
        rb.minimum_zig_version,
    )
    &&& kept_or_set(a.dependencies, b.dependencies, ra.dependencies, rb.dependencies)
    &&& kept_or_set(a.paths, b.paths, ra.paths, rb.paths)
}

proof fn lemma_zon_frame(t: Seq<SpecToken>, i: int, a: SpecZon, b: SpecZon)
    requires
        0 <= i,
    ensures
        zon_from(t, i, a) is Ok <==> zon_from(t, i, b) is Ok,
        zon_from(t, i, a) is Err ==> zon_from(t, i, a) == zon_from(t, i, b),
        zon_from(t, i, a) is Ok ==> fields_kept_or_set(
            a,
            b,
            zon_from(t, i, a)->Ok_0,
            zon_from(t, i, b)->Ok_0,
        ),
    decreases t.len() - i,
{
    if i < t.len() {
        match t[i] {
            SpecToken::Identifier(v) => {
                if v == "minimum_zig_version"@ {
                    if token_is(t, i + 1, SpecToken::Equals) {
                        if let Some(x) = string_token(t, i + 2) {
                            lemma_zon_frame(
                                t,
                                i + 3,
                                with_minimum_zig_version(a, x),
                                with_minimum_zig_version(b, x),
                            );
                        }
                    }
                } else if v == "name"@ {
                    if token_is(t, i + 1, SpecToken::Equals) {
                        let j = if token_is(t, i + 2, SpecToken::Dot) {
                            i + 3
                        } else {
                            i + 2
                        };
                        if let Some(x) = name_or_string(t, j) {
                            lemma_zon_frame(t, j + 1, with_name(a, x), with_name(b, x));
                        }
                    }
                } else if v == "version"@ {
                    if token_is(t, i + 1, SpecToken::Equals) {
                        if let Some(x) = string_token(t, i + 2) {
                            lemma_zon_frame(t, i + 3, with_version(a, x), with_version(b, x));
                        }
                    }
                } else if v == "fingerprint"@ {
                    if token_is(t, i + 1, SpecToken::Equals) {
                        if let Some(x) = hex_token(t, i + 2) {
                            lemma_zon_frame(t, i + 3, with_fingerprint(a, x), with_fingerprint(b, x));
                        }
                    }
                } else if v == "dependencies"@ {
                    if token_is(t, i + 1, SpecToken::Equals) && token_is(t, i + 2, SpecToken::Dot)
                        && token_is(t, i + 3, SpecToken::LBrace) {
                        lemma_dependency_list_advances(t, i + 4, Seq::empty());
                        if let Ok(r) = dependency_list(t, i + 4, Seq::empty()) {
                            lemma_zon_frame(
                                t,
                                r.0,
                                with_dependencies(a, r.1),
                                with_dependencies(b, r.1),
                            );
                        }
                    }
                } else {
                    lemma_zon_frame(t, i + 1, a, b);
                }
            },
            _ => {
                lemma_zon_frame(t, i + 1, a, b);
            },
        }
    }
}

/// Reading tokens does not depend on the manifest it starts from, except
/// through the fields it leaves alone: from any two starting manifests it
/// succeeds or fails alike (with the same error), and every field of the
/// result either comes through unchanged from the start or is the same
/// whatever the start was.
pub proof fn law_fields_kept_or_set(u: Seq<SpecToken>, a: SpecZon, b: SpecZon)
    ensures
        zon_from(u, 0, a) is Ok <==> zon_from(u, 0, b) is Ok,
        zon_from(u, 0, a) is Err ==> zon_from(u, 0, a) == zon_from(u, 0, b),
        zon_from(u, 0, a) is Ok ==> fields_kept_or_set(
            a,
            b,
            zon_from(u, 0, a)->Ok_0,
            zon_from(u, 0, b)->Ok_0,
        ),
{
    lemma_zon_frame(u, 0, a, b);
}

/// The last declaration of each field wins: when `t` and `u` both parse,
/// `t + u` parses, and each field of its manifest is that of `u` (when `u`
/// declares it, whatever `t` declared) or, when `u` leaves the field at
/// its empty value, possibly that of `t`. The dependencies are those of the
/// last `dependencies` block, in order, duplicates kept.
pub proof fn law_last_declaration_wins(t: Seq<SpecToken>, u: Seq<SpecToken>)
    requires
        spec_parse(t) is Ok,
        spec_parse(u) is Ok,
    ensures
        spec_parse(t + u) is Ok,
        fields_kept_or_set(
            spec_parse(t)->Ok_0,
            empty_zon(),
            spec_parse(t + u)->Ok_0,
            spec_parse(u)->Ok_0,
        ),
{
    law_parse_continues(t, u);
    lemma_zon_frame(u, 0, spec_parse(t)->Ok_0, empty_zon());
}

/// Appending `minimum_zig_version = "<v>"` changes only that field.
pub proof fn law_later_minimum_zig_version_wins(t: Seq<SpecToken>, v: Seq<char>)
    requires
        spec_parse(t) is Ok,
    ensures
        spec_parse(
            t + seq![
                SpecToken::Identifier("minimum_zig_version"@),
                SpecToken::Equals,
                SpecToken::Str(v),
            ],
        ) == Ok::<SpecZon, ParseError>(with_minimum_zig_version(spec_parse(t)->Ok_0, v)),
{
    let u = seq![SpecToken::Identifier("minimum_zig_version"@), SpecToken::Equals, SpecToken::Str(v)];
    law_parse_continues(t, u);
    assert(zon_from(u, 3, with_minimum_zig_version(spec_parse(t)->Ok_0, v)) == Ok::<
        SpecZon,
        ParseError,
    >(with_minimum_zig_version(spec_parse(t)->Ok_0, v)));
}

/// Appending `fingerprint = <hex>` changes only that field.
pub proof fn law_later_fingerprint_wins(t: Seq<SpecToken>, v: Seq<char>)
    requires
        spec_parse(t) is Ok,
    ensures
        spec_parse(
            t + seq![
                SpecToken::Identifier("fingerprint"@),
                SpecToken::Equals,
                SpecToken::Hexadecimal(v),
            ],
        ) == Ok::<SpecZon, ParseError>(with_fingerprint(spec_parse(t)->Ok_0, v)),
{
    let u = seq![SpecToken::Identifier("fingerprint"@), SpecToken::Equals, SpecToken::Hexadecimal(v)];
    law_parse_continues(t, u);
    reveal_strlit("fingerprint");
    reveal_strlit("minimum_zig_version");
    reveal_strlit("name");
    reveal_strlit("version");
    assert("fingerprint"@.len() != "minimum_zig_version"@.len());
    assert("fingerprint"@.len() != "name"@.len());
    assert("fingerprint"@.len() != "version"@.len());
    assert(zon_from(u, 3, with_fingerprint(spec_parse(t)->Ok_0, v)) == Ok::<SpecZon, ParseError>(
        with_fingerprint(spec_parse(t)->Ok_0, v),
    ));
}

/// Appending `name = "<v>"` (or `name = .<v>`) changes only that field.
pub proof fn law_later_name_wins(t: Seq<SpecToken>, v: Seq<char>)
    requires
        spec_parse(t) is Ok,
    ensures
        spec_parse(t + seq![SpecToken::Identifier("name"@), SpecToken::Equals, SpecToken::Str(v)])
            == Ok::<SpecZon, ParseError>(with_name(spec_parse(t)->Ok_0, v)),
        spec_parse(
            t + seq![
                SpecToken::Identifier("name"@),
                SpecToken::Equals,
                SpecToken::Dot,
                SpecToken::Identifier(v),
            ],
        ) == Ok::<SpecZon, ParseError>(with_name(spec_parse(t)->Ok_0, v)),
{
    let u = seq![SpecToken::Identifier("name"@), SpecToken::Equals, SpecToken::Str(v)];
    let w = seq![SpecToken::Identifier("name"@), SpecToken::Equals, SpecToken::Dot, SpecToken::Identifier(v)];
    law_parse_continues(t, u);
    law_parse_continues(t, w);
    reveal_strlit("name");
    reveal_strlit("minimum_zig_version");
    assert("name"@.len() != "minimum_zig_version"@.len());
    assert(zon_from(u, 3, with_name(spec_parse(t)->Ok_0, v)) == Ok::<SpecZon, ParseError>(
        with_name(spec_parse(t)->Ok_0, v),
    ));
    assert(zon_from(w, 4, with_name(spec_parse(t)->Ok_0, v)) == Ok::<SpecZon, ParseError>(
        with_name(spec_parse(t)->Ok_0, v),
    ));
}

/// Appending a `dependencies = .{ ... }` block whose entries read as
/// `deps` replaces the dependencies by `deps`, in order, duplicates kept.
pub proof fn law_later_dependencies_win(t: Seq<SpecToken>, block: Seq<SpecToken>)
    requires
        spec_parse(t) is Ok,
        block.len() >= 4,
        block[0] == SpecToken::Identifier("dependencies"@),
        block[1] == SpecToken::Equals,
        block[2] == SpecToken::Dot,
        block[3] == SpecToken::LBrace,
        dependency_list(block, 4, Seq::empty()) matches Ok((k, _)) && k == block.len(),
    ensures
        spec_parse(t + block) == Ok::<SpecZon, ParseError>(
            with_dependencies(
                spec_parse(t)->Ok_0,
                dependency_list(block, 4, Seq::empty())->Ok_0.1,
            ),
        ),
{
    law_parse_continues(t, block);
    reveal_strlit("dependencies");
    reveal_strlit("minimum_zig_version");
    reveal_strlit("name");
    reveal_strlit("version");
    reveal_strlit("fingerprint");
    assert("dependencies"@.len() != "minimum_zig_version"@.len());
    assert("dependencies"@.len() != "name"@.len());
    assert("dependencies"@.len() != "version"@.len());
    assert("dependencies"@.len() != "fingerprint"@.len());
    let z = spec_parse(t)->Ok_0;
    let r = dependency_list(block, 4, Seq::empty())->Ok_0;
    assert(token_is(block, 1, SpecToken::Equals));
    assert(token_is(block, 2, SpecToken::Dot));
    assert(token_is(block, 3, SpecToken::LBrace));
    assert(zon_from(block, r.0, with_dependencies(z, r.1)) == Ok::<SpecZon, ParseError>(
        with_dependencies(z, r.1),
    ));
    assert(zon_from(block, 0, z) == zon_from(block, r.0, with_dependencies(z, r.1)));
}

// ---------------------------------------------------------------------------
// The manifest of a whole token list
// ---------------------------------------------------------------------------

/// One declaration of a manifest, as the parser reads it.
pub enum Declaration {
    Name(Seq<char>),
    Fingerprint(Seq<char>),
    Version(Seq<char>),
    MinimumZigVersion(Seq<char>),
    Dependencies(Seq<SpecDependency>),
}

/// The text fields of a manifest.
pub enum ManifestField {
    Name,
    Fingerprint,
    Version,
    MinimumZigVersion,
}

/// The declarations read from position `i` of `t` on, in token order: a
/// `name`, `fingerprint`, `version` or `minimum_zig_version` assignment with
/// its value, or a `dependencies` block with its entries. Tokens outside
/// declarations are skipped and a dependency block is read as a whole, as
/// the parser does (after an error the list stops).
pub open spec fn declarations(t: Seq<SpecToken>, i: int) -> Seq<Declaration>
    decreases t.len() - i,
{
    if i < 0 || i >= t.len() {
        Seq::empty()
    } else {
        match t[i] {
            SpecToken::Identifier(v) => if v == "minimum_zig_version"@ {
                match (token_is(t, i + 1, SpecToken::Equals), string_token(t, i + 2)) {
                    (true, Some(x)) => seq![Declaration::MinimumZigVersion(x)] + declarations(t, i + 3),
                    _ => Seq::empty(),
                }
            } else if v == "name"@ {
                let j = if token_is(t, i + 2, SpecToken::Dot) {
                    i + 3
                } else {
                    i + 2
                };
                match (token_is(t, i + 1, SpecToken::Equals), name_or_string(t, j)) {
                    (true, Some(x)) => seq![Declaration::Name(x)] + declarations(t, j + 1),
                    _ => Seq::empty(),
                }
            } else if v == "version"@ {
                match (token_is(t, i + 1, SpecToken::Equals), string_token(t, i + 2)) {
                    (true, Some(x)) => seq![Declaration::Version(x)] + declarations(t, i + 3),
                    _ => Seq::empty(),
                }
            } else if v == "fingerprint"@ {
                match (token_is(t, i + 1, SpecToken::Equals), hex_token(t, i + 2)) {
                    (true, Some(x)) => seq![Declaration::Fingerprint(x)] + declarations(t, i + 3),
                    _ => Seq::empty(),
                }
            } else if v == "dependencies"@ {
                if token_is(t, i + 1, SpecToken::Equals) && token_is(t, i + 2, SpecToken::Dot)
                    && token_is(t, i + 3, SpecToken::LBrace) {
                    proof {
                        lemma_dependency_list_advances(t, i + 4, Seq::empty());
                    }
                    match dependency_list(t, i + 4, Seq::empty()) {
                        Ok(r) => seq![Declaration::Dependencies(r.1)] + declarations(t, r.0),
                        Err(_) => Seq::empty(),
                    }
                } else {
                    Seq::empty()
                }
            } else {
                declarations(t, i + 1)
            },
            _ => declarations(t, i + 1),
        }
    }
}

/// The value that declaration `d` gives to the text field `f`, if any.
pub open spec fn declared_text(d: Declaration, f: ManifestField) -> Option<Seq<char>> {
    match (d, f) {
        (Declaration::Name(v), ManifestField::Name) => Some(v),
        (Declaration::Fingerprint(v), ManifestField::Fingerprint) => Some(v),
        (Declaration::Version(v), ManifestField::Version) => Some(v),
        (Declaration::MinimumZigVersion(v), ManifestField::MinimumZigVersion) => Some(v),
        _ => None,
    }
}

/// The value of the last declaration of field `f` in `ds`, or `before`
/// when `ds` declares none.
pub open spec fn last_text(ds: Seq<Declaration>, f: ManifestField, before: Seq<char>) -> Seq<char>
    decreases ds.len(),
{
    if ds.len() == 0 {
        before
    } else {
        last_text(
            ds.drop_first(),
            f,
            match declared_text(ds[0], f) {
                Some(v) => v,
                None => before,
            },
        )
    }
}

/// The entries of the last `dependencies` block in `ds`, or `before` when
/// `ds` has none.
pub open spec fn last_dependencies(ds: Seq<Declaration>, before: Seq<SpecDependency>) -> Seq<
    SpecDependency,
>
    decreases ds.len(),
{
    if ds.len() == 0 {
        before
    } else {
        last_dependencies(
            ds.drop_first(),
            match ds[0] {
                Declaration::Dependencies(v) => v,
                _ => before,
            },
        )
    }
}

/// The text field `f` of a manifest.
pub open spec fn field_text(z: SpecZon, f: ManifestField) -> Seq<char> {
    match f {
        ManifestField::Name => z.name,
        ManifestField::Fingerprint => z.fingerprint,
        ManifestField::Version => z.version,
        ManifestField::MinimumZigVersion => z.minimum_zig_version,
    }
}

proof fn lemma_declarations_front(d: Declaration, rest: Seq<Declaration>, f: ManifestField, before: Seq<char>, deps: Seq<SpecDependency>)
    ensures
        last_text(seq![d] + rest, f, before) == last_text(
            rest,
            f,
            match declared_text(d, f) {
                Some(v) => v,
                None => before,
            },
        ),
        last_dependencies(seq![d] + rest, deps) == last_dependencies(
            rest,
            match d {
                Declaration::Dependencies(v) => v,
                _ => deps,
            },
        ),
{
    assert((seq![d] + rest).drop_first() == rest);
    assert((seq![d] + rest)[0] == d);
}

proof fn lemma_zon_declarations(t: Seq<SpecToken>, i: int, acc: SpecZon, f: ManifestField)
    requires
        0 <= i,
    ensures
        zon_from(t, i, acc) matches Ok(z) ==> {
            &&& field_text(z, f) == last_text(declarations(t, i), f, field_text(acc, f))
            &&& z.dependencies == last_dependencies(declarations(t, i), acc.dependencies)
            &&& z.paths == acc.paths
        },
    decreases t.len() - i,
{
    if i < t.len() {
        match t[i] {
            SpecToken::Identifier(v) => {
                if v == "minimum_zig_version"@ {
                    if let Some(x) = string_token(t, i + 2) {
                        let d = Declaration::MinimumZigVersion(x);
                        lemma_zon_declarations(t, i + 3, with_minimum_zig_version(acc, x), f);
                        lemma_declarations_front(d, declarations(t, i + 3), f, field_text(acc, f), acc.dependencies);
                    }
                } else if v == "name"@ {
                    let j = if token_is(t, i + 2, SpecToken::Dot) {
                        i + 3
                    } else {
                        i + 2
                    };
                    if let Some(x) = name_or_string(t, j) {
                        let d = Declaration::Name(x);
                        lemma_zon_declarations(t, j + 1, with_name(acc, x), f);
                        lemma_declarations_front(d, declarations(t, j + 1), f, field_text(acc, f), acc.dependencies);
                    }
                } else if v == "version"@ {
                    if let Some(x) = string_token(t, i + 2) {
                        let d = Declaration::Version(x);
                        lemma_zon_declarations(t, i + 3, with_version(acc, x), f);
                        lemma_declarations_front(d, declarations(t, i + 3), f, field_text(acc, f), acc.dependencies);
                    }
                } else if v == "fingerprint"@ {
                    if let Some(x) = hex_token(t, i + 2) {
                        let d = Declaration::Fingerprint(x);
                        lemma_zon_declarations(t, i + 3, with_fingerprint(acc, x), f);
                        lemma_declarations_front(d, declarations(t, i + 3), f, field_text(acc, f), acc.dependencies);
                    }
                } else if v == "dependencies"@ {
                    if token_is(t, i + 1, SpecToken::Equals) && token_is(t, i + 2, SpecToken::Dot)
                        && token_is(t, i + 3, SpecToken::LBrace) {
                        lemma_dependency_list_advances(t, i + 4, Seq::empty());
                        if let Ok(r) = dependency_list(t, i + 4, Seq::empty()) {
                            let d = Declaration::Dependencies(r.1);
                            lemma_zon_declarations(t, r.0, with_dependencies(acc, r.1), f);
                            lemma_declarations_front(d, declarations(t, r.0), f, field_text(acc, f), acc.dependencies);
                        }
                    }
                } else {
                    lemma_zon_declarations(t, i + 1, acc, f);
                }
            },
            _ => {
                lemma_zon_declarations(t, i + 1, acc, f);
            },
        }
    }
}

/// The manifest of a whole token list: when `t` parses, each text field is
/// the value of its last declaration (empty when it has none), the
/// dependencies are the entries of the last `dependencies` block in token
/// order, duplicates kept (none when there is no block), and there are no
/// paths.
pub proof fn law_parse_takes_last_declarations(t: Seq<SpecToken>)
    ensures
        spec_parse(t) matches Ok(z) ==> {
            &&& z.name == last_text(declarations(t, 0), ManifestField::Name, Seq::empty())
            &&& z.fingerprint == last_text(
                declarations(t, 0),
                ManifestField::Fingerprint,
                Seq::empty(),
            )
            &&& z.version == last_text(declarations(t, 0), ManifestField::Version, Seq::empty())
            &&& z.minimum_zig_version == last_text(
                declarations(t, 0),
                ManifestField::MinimumZigVersion,
                Seq::empty(),
            )
            &&& z.dependencies == last_dependencies(declarations(t, 0), Seq::empty())
            &&& z.paths == Seq::<Seq<char>>::empty()
        },
{
    lemma_zon_declarations(t, 0, empty_zon(), ManifestField::Name);
    lemma_zon_declarations(t, 0, empty_zon(), ManifestField::Fingerprint);
    lemma_zon_declarations(t, 0, empty_zon(), ManifestField::Version);
    lemma_zon_declarations(t, 0, empty_zon(), ManifestField::MinimumZigVersion);
}

// ---------------------------------------------------------------------------
// A dependency may be named by a string or an identifier
// ---------------------------------------------------------------------------

proof fn lemma_dependency_fields_frame(t: Seq<SpecToken>, p: int, x: SpecToken, i: int, d: SpecDependency)
    requires
        0 <= p < i,
        p < t.len(),
    ensures
        dependency_fields(t, i, d) == dependency_fields(t.update(p, x), i, d),
    decreases t.len() - i,
{
    let u = t.update(p, x);
    let j = skip_comma(t, i);
    assert(skip_comma(u, i) == j);
    assert(token_is(u, j, SpecToken::RBrace) == token_is(t, j, SpecToken::RBrace));
    assert(token_is(u, j, SpecToken::Dot) == token_is(t, j, SpecToken::Dot));
    assert(name_or_string(u, j + 1) == name_or_string(t, j + 1));
    assert(token_is(u, j + 2, SpecToken::Equals) == token_is(t, j + 2, SpecToken::Equals));
    assert(name_or_string(u, j + 3) == name_or_string(t, j + 3));
    if !token_is(t, j, SpecToken::RBrace) && token_is(t, j, SpecToken::Dot) {
        if let Some(key) = name_or_string(t, j + 1) {
            if token_is(t, j + 2, SpecToken::Equals) {
                if let Some(value) = name_or_string(t, j + 3) {
                    lemma_dependency_fields_frame(t, p, x, j + 4, set_dependency_field(d, key, value));
                }
            }
        }
    }
}

proof fn lemma_dependency_list_frame(t: Seq<SpecToken>, p: int, x: SpecToken, i: int, deps: Seq<SpecDependency>)
    requires
        0 <= p < i,
        p < t.len(),
    ensures
        dependency_list(t, i, deps) == dependency_list(t.update(p, x), i, deps),
    decreases t.len() - i,
{
    let u = t.update(p, x);
    let j = skip_comma(t, i);
    assert(skip_comma(u, i) == j);
    assert(token_is(u, j, SpecToken::RBrace) == token_is(t, j, SpecToken::RBrace));
    assert(token_is(u, j, SpecToken::Dot) == token_is(t, j, SpecToken::Dot));
    assert(name_or_string(u, j + 1) == name_or_string(t, j + 1));
    assert(token_is(u, j + 2, SpecToken::Equals) == token_is(t, j + 2, SpecToken::Equals));
    assert(token_is(u, j + 3, SpecToken::Dot) == token_is(t, j + 3, SpecToken::Dot));
    assert(token_is(u, j + 4, SpecToken::LBrace) == token_is(t, j + 4, SpecToken::LBrace));
    if !token_is(t, j, SpecToken::RBrace) && token_is(t, j, SpecToken::Dot) {
        if let Some(name) = name_or_string(t, j + 1) {
            if token_is(t, j + 2, SpecToken::Equals) && token_is(t, j + 3, SpecToken::Dot)
                && token_is(t, j + 4, SpecToken::LBrace) {
                lemma_dependency_fields_frame(t, p, x, j + 5, empty_dependency(name));
                lemma_dependency_fields_advances(t, j + 5, empty_dependency(name));
                if let Ok(r) = dependency_fields(t, j + 5, empty_dependency(name)) {
                    lemma_dependency_list_frame(t, p, x, r.0, deps.push(r.1));
                }
            }
        }
    }
}

/// A dependency entry named by a string literal (`.@"zig-clap" = .{...}`,
/// whose `@` the tokenizer skips) reads exactly as one named by the
/// identifier with the same text: replacing the name token `Str(n)` by
/// `Identifier(n)` does not change what the dependency block gives.
pub proof fn law_quoted_dependency_name(t: Seq<SpecToken>, i: int, n: Seq<char>, deps: Seq<SpecDependency>)
    requires
        0 <= i,
        token_is(t, skip_comma(t, i), SpecToken::Dot),
        skip_comma(t, i) + 1 < t.len(),
        t[skip_comma(t, i) + 1] == SpecToken::Str(n),
    ensures
        dependency_list(t, i, deps) == dependency_list(
            t.update(skip_comma(t, i) + 1, SpecToken::Identifier(n)),
            i,
            deps,
        ),
{
    let j = skip_comma(t, i);
    let u = t.update(j + 1, SpecToken::Identifier(n));
    assert(skip_comma(u, i) == j);
    assert(token_is(u, j, SpecToken::RBrace) == token_is(t, j, SpecToken::RBrace));
    assert(token_is(u, j, SpecToken::Dot));
    assert(name_or_string(u, j + 1) == Some(n));
    assert(name_or_string(t, j + 1) == Some(n));
    assert(u.update(j + 1, SpecToken::Str(n)) == t);
    assert(token_is(u, j + 2, SpecToken::Equals) == token_is(t, j + 2, SpecToken::Equals));
    assert(token_is(u, j + 3, SpecToken::Dot) == token_is(t, j + 3, SpecToken::Dot));
    assert(token_is(u, j + 4, SpecToken::LBrace) == token_is(t, j + 4, SpecToken::LBrace));
    if token_is(t, j + 2, SpecToken::Equals) && token_is(t, j + 3, SpecToken::Dot) && token_is(
        t,
        j + 4,
        SpecToken::LBrace,
    ) {
        lemma_dependency_fields_frame(t, j + 1, SpecToken::Identifier(n), j + 5, empty_dependency(n));
        lemma_dependency_fields_advances(t, j + 5, empty_dependency(n));
        if let Ok(r) = dependency_fields(t, j + 5, empty_dependency(n)) {
            lemma_dependency_list_frame(t, j + 1, SpecToken::Identifier(n), r.0, deps.push(r.1));
        }
    }
}

/// A `dependencies` block with one empty entry, named by a string literal
/// or by an identifier, parses into exactly that dependency, whatever the
/// name.
pub proof fn law_single_named_dependency(n: Seq<char>)
    ensures
        spec_parse(
            seq![
                SpecToken::Identifier("dependencies"@),
                SpecToken::Equals,
                SpecToken::Dot,
                SpecToken::LBrace,
                SpecToken::Dot,
                SpecToken::Str(n),
                SpecToken::Equals,
                SpecToken::Dot,
                SpecToken::LBrace,
                SpecToken::RBrace,
                SpecToken::RBrace,
            ],
        ) == Ok::<SpecZon, ParseError>(with_dependencies(empty_zon(), seq![empty_dependency(n)])),
        spec_parse(
            seq![
                SpecToken::Identifier("dependencies"@),
                SpecToken::Equals,
                SpecToken::Dot,
                SpecToken::LBrace,
                SpecToken::Dot,
                SpecToken::Identifier(n),
                SpecToken::Equals,
                SpecToken::Dot,
                SpecToken::LBrace,
                SpecToken::RBrace,
                SpecToken::RBrace,
            ],
        ) == Ok::<SpecZon, ParseError>(with_dependencies(empty_zon(), seq![empty_dependency(n)])),
{
    let s = seq![
        SpecToken::Identifier("dependencies"@),
        SpecToken::Equals,
        SpecToken::Dot,
        SpecToken::LBrace,
        SpecToken::Dot,
        SpecToken::Str(n),
        SpecToken::Equals,
        SpecToken::Dot,
        SpecToken::LBrace,
        SpecToken::RBrace,
        SpecToken::RBrace,
    ];
    let w = s.update(5, SpecToken::Identifier(n));
    reveal_strlit("dependencies");
    reveal_strlit("minimum_zig_version");
    reveal_strlit("name");
    reveal_strlit("version");
    reveal_strlit("fingerprint");
    assert("dependencies"@.len() != "minimum_zig_version"@.len());
    assert("dependencies"@.len() != "name"@.len());
    assert("dependencies"@.len() != "version"@.len());
    assert("dependencies"@.len() != "fingerprint"@.len());
    assert(skip_comma(s, 4) == 4);
    assert(skip_comma(s, 9) == 9);
    assert(dependency_fields(s, 9, empty_dependency(n)) == Ok::<(int, SpecDependency), ParseError>(
        (10, empty_dependency(n)),
    ));
    assert(skip_comma(s, 10) == 10);
    assert(dependency_list(s, 10, seq![empty_dependency(n)]) == Ok::<
        (int, Seq<SpecDependency>),
        ParseError,
    >((11, seq![empty_dependency(n)])));
    assert(Seq::<SpecDependency>::empty().push(empty_dependency(n)) == seq![empty_dependency(n)]);
    assert(dependency_list(s, 4, Seq::empty()) == Ok::<(int, Seq<SpecDependency>), ParseError>(
        (11, seq![empty_dependency(n)]),
    ));
    assert(zon_from(s, 11, with_dependencies(empty_zon(), seq![empty_dependency(n)])) == Ok::<
        SpecZon,
        ParseError,
    >(with_dependencies(empty_zon(), seq![empty_dependency(n)])));
    assert(token_is(s, 1, SpecToken::Equals) && token_is(s, 2, SpecToken::Dot) && token_is(
        s,
        3,
        SpecToken::LBrace,
    ));
    law_quoted_dependency_name(s, 4, n, Seq::empty());
    assert(w[0] == SpecToken::Identifier("dependencies"@));
    assert(token_is(w, 1, SpecToken::Equals) && token_is(w, 2, SpecToken::Dot) && token_is(
        w,
        3,
        SpecToken::LBrace,
    ));
    assert(w =~= seq![
        SpecToken::Identifier("dependencies"@),
        SpecToken::Equals,
        SpecToken::Dot,
        SpecToken::LBrace,
        SpecToken::Dot,
        SpecToken::Identifier(n),
        SpecToken::Equals,
        SpecToken::Dot,
        SpecToken::LBrace,
        SpecToken::RBrace,
        SpecToken::RBrace,
    ]);
    assert(zon_from(w, 11, with_dependencies(empty_zon(), seq![empty_dependency(n)])) == Ok::<
        SpecZon,
        ParseError,
    >(with_dependencies(empty_zon(), seq![empty_dependency(n)])));
}

} // verus!
