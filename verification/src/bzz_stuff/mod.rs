//! A tokenizer and a parser for `build.zig.zon` manifests.
//!
//! `tokenize` turns the text of a manifest into tokens; `parse` reads the
//! package name, fingerprint, version, minimum Zig version and the
//! dependency table out of those tokens. Both are specified by recursive spec
//! functions (`lex`, `zon_from`) that describe the grammar one position at a
//! time.
use vstd::prelude::*;
use crate::custom_types::{Dependency, SpecDependency, dependencies_view};
use crate::text::{
    unicode_whitespace, unicode_alphabetic, unicode_alphanumeric, is_whitespace, is_alphabetic,
    is_alphanumeric, push_char, chars_of, string_from_range, text_equals,
};

pub mod laws;

verus! {

broadcast use vstd::string::group_string_axioms;

/// A token of a `build.zig.zon` file. Number tokens keep their spelling,
/// prefix and underscores included.
#[derive(Debug, PartialEq)]
pub enum TokenType {
    Dot,
    LBrace,
    RBrace,
    Equals,
    Comma,
    Str(String),
    Identifier(String),
    Binary(String),
    Octal(String),
    Hexadecimal(String),
    Integer(String),
}

/// What a [`TokenType`] holds, with its text as a character sequence.
pub enum SpecToken {
    Dot,
    LBrace,
    RBrace,
    Equals,
    Comma,
    Str(Seq<char>),
    Identifier(Seq<char>),
    Binary(Seq<char>),
    Octal(Seq<char>),
    Hexadecimal(Seq<char>),
    Integer(Seq<char>),
}

impl View for TokenType {
    type V = SpecToken;

    open spec fn view(&self) -> SpecToken {
        match self {
            TokenType::Dot => SpecToken::Dot,
            TokenType::LBrace => SpecToken::LBrace,
            TokenType::RBrace => SpecToken::RBrace,
            TokenType::Equals => SpecToken::Equals,
            TokenType::Comma => SpecToken::Comma,
            TokenType::Str(s) => SpecToken::Str(s@),
            TokenType::Identifier(s) => SpecToken::Identifier(s@),
            TokenType::Binary(s) => SpecToken::Binary(s@),
            TokenType::Octal(s) => SpecToken::Octal(s@),
            TokenType::Hexadecimal(s) => SpecToken::Hexadecimal(s@),
            TokenType::Integer(s) => SpecToken::Integer(s@),
        }
    }
}

/// The views of a sequence of tokens.
pub open spec fn tokens_view(ts: Seq<TokenType>) -> Seq<SpecToken> {
    ts.map_values(|t: TokenType| t@)
}

/// What the manifest says: the fields that `parse` fills.
#[derive(Debug, PartialEq)]
pub struct BuildZigZonData {
    pub name: String,
    pub fingerprint: String,
    pub version: String,
    pub minimum_zig_version: String,
    pub dependencies: Vec<Dependency>,
    pub paths: Vec<String>,
}

/// What a [`BuildZigZonData`] holds, as character sequences.
pub struct SpecZon {
    pub name: Seq<char>,
    pub fingerprint: Seq<char>,
    pub version: Seq<char>,
    pub minimum_zig_version: Seq<char>,
    pub dependencies: Seq<SpecDependency>,
    pub paths: Seq<Seq<char>>,
}

impl View for BuildZigZonData {
    type V = SpecZon;

    open spec fn view(&self) -> SpecZon {
        SpecZon {
            name: self.name@,
            fingerprint: self.fingerprint@,
            version: self.version@,
            minimum_zig_version: self.minimum_zig_version@,
            dependencies: dependencies_view(self.dependencies@),
            paths: self.paths@.map_values(|p: String| p@),
        }
    }
}

// ---------------------------------------------------------------------------
// Tokenizer specification
// ---------------------------------------------------------------------------

/// Why `tokenize` rejects a text.
pub enum TokenizeError {
    /// A single `/` that does not start a `//` comment.
    DivisionSymbol,
    /// A `0` followed by a char other than `b`, `o` or `x`.
    UnknownIntegerPrefix,
    /// The text ends right after a `0`.
    EndAfterZero,
}

/// The message that `tokenize` returns for each error.
pub open spec fn tokenize_error_message(e: TokenizeError) -> Seq<char> {
    match e {
        TokenizeError::DivisionSymbol =>
            "Found a '/' i.e division symbol not supported in build.zig.zon."@,
        TokenizeError::UnknownIntegerPrefix => "Got unknown integer type that starts with 0."@,
        TokenizeError::EndAfterZero => "File unexpectedly ended after 0."@,
    }
}

/// The classes of characters that continue a multi-character token.
pub enum CharClass {
    /// Letters, digits (Unicode `Alphanumeric`) and `_`: the rest of an identifier.
    IdentTail,
    /// `0`, `1`, `_`.
    Binary,
    /// `0` to `7`, `_`.
    Octal,
    /// `0` to `9`, `a` to `f`, `A` to `F`, `_`.
    Hex,
    /// `0` to `9`, `_`.
    Decimal,
}

pub open spec fn in_class(c: char, class: CharClass) -> bool {
    match class {
        CharClass::IdentTail => unicode_alphanumeric(c) || c == '_',
        CharClass::Binary => c == '0' || c == '1' || c == '_',
        CharClass::Octal => ('0' <= c && c <= '7') || c == '_',
        CharClass::Hex => ('0' <= c && c <= '9') || ('a' <= c && c <= 'f') || ('A' <= c
            && c <= 'F') || c == '_',
        CharClass::Decimal => ('0' <= c && c <= '9') || c == '_',
    }
}

/// The first position at or after `k` whose char is not in `class`
/// (or the end of `s`).
pub open spec fn run_end(s: Seq<char>, k: int, class: CharClass) -> int
    decreases s.len() - k,
{
    if k >= s.len() {
        s.len() as int
    } else if in_class(s[k], class) {
        run_end(s, k + 1, class)
    } else {
        k
    }
}

/// The position just after the first `\n` at or after `k`, or the end of `s`:
/// where a `//` comment whose body starts at `k` ends.
pub open spec fn comment_end(s: Seq<char>, k: int) -> int
    decreases s.len() - k,
{
    if k >= s.len() {
        s.len() as int
    } else if s[k] == '\n' {
        k + 1
    } else {
        comment_end(s, k + 1)
    }
}

/// The body of a string literal that starts at `k` (just after its opening
/// quote), and the position after its closing quote (or the end of `s` when
/// the literal is not closed). A backslash and the char after it are kept as
/// they are.
pub open spec fn string_body(s: Seq<char>, k: int) -> (Seq<char>, int)
    decreases s.len() - k,
{
    if k >= s.len() {
        (Seq::empty(), s.len() as int)
    } else if s[k] == '\\' {
        if k + 1 < s.len() {
            let rest = string_body(s, k + 2);
            (seq![s[k], s[k + 1]] + rest.0, rest.1)
        } else {
            (seq![s[k]], s.len() as int)
        }
    } else if s[k] == '"' {
        (Seq::empty(), k + 1)
    } else {
        let rest = string_body(s, k + 1);
        (seq![s[k]] + rest.0, rest.1)
    }
}

pub proof fn lemma_run_end(s: Seq<char>, k: int, class: CharClass)
    requires
        0 <= k <= s.len(),
    ensures
        k <= run_end(s, k, class) <= s.len(),
    decreases s.len() - k,
{
    if k < s.len() && in_class(s[k], class) {
        lemma_run_end(s, k + 1, class);
    }
}

pub proof fn lemma_comment_end(s: Seq<char>, k: int)
    requires
        0 <= k <= s.len(),
    ensures
        k <= comment_end(s, k) <= s.len(),
    decreases s.len() - k,
{
    if k < s.len() && s[k] != '\n' {
        lemma_comment_end(s, k + 1);
    }
}

pub proof fn lemma_string_body(s: Seq<char>, k: int)
    requires
        0 <= k <= s.len(),
    ensures
        k <= string_body(s, k).1 <= s.len(),
    decreases s.len() - k,
{
    if k < s.len() {
        if s[k] == '\\' {
            if k + 1 < s.len() {
                lemma_string_body(s, k + 2);
            }
        } else if s[k] != '"' {
            lemma_string_body(s, k + 1);
        }
    }
}

/// `t` in front of the tokens of `r`, or the error of `r`.
pub open spec fn cons_token(t: SpecToken, r: Result<Seq<SpecToken>, TokenizeError>) -> Result<
    Seq<SpecToken>,
    TokenizeError,
> {
    match r {
        Ok(ts) => Ok(seq![t] + ts),
        Err(e) => Err(e),
    }
}

/// `acc` in front of the tokens of `r`, or the error of `r`.
pub open spec fn prepend_tokens(acc: Seq<SpecToken>, r: Result<Seq<SpecToken>, TokenizeError>) -> Result<
    Seq<SpecToken>,
    TokenizeError,
> {
    match r {
        Ok(ts) => Ok(acc + ts),
        Err(e) => Err(e),
    }
}

/// The tokens of `s` from position `i` on, or the first error there.
///
/// Whitespace is skipped, `//` starts a comment that runs to the end of the
/// line, a lone `/` is an error, the five punctuation chars are tokens of
/// their own, `"` starts a string literal, a letter or `_` starts an
/// identifier, `0b`, `0o` and `0x` start binary, octal and hexadecimal
/// numbers, `1` to `9` start decimal numbers, and every other char is
/// skipped.
pub open spec fn lex(s: Seq<char>, i: int) -> Result<Seq<SpecToken>, TokenizeError>
    decreases s.len() - i,
{
    if i < 0 || i >= s.len() {
        Ok(Seq::empty())
    } else {
        let c = s[i];
        if unicode_whitespace(c) {
            lex(s, i + 1)
        } else if c == '/' {
            if i + 1 < s.len() && s[i + 1] == '/' {
                proof {
                    lemma_comment_end(s, i + 2);
                }
                lex(s, comment_end(s, i + 2))
            } else {
                Err(TokenizeError::DivisionSymbol)
            }
        } else if c == '.' {
            cons_token(SpecToken::Dot, lex(s, i + 1))
        } else if c == '{' {
            cons_token(SpecToken::LBrace, lex(s, i + 1))
        } else if c == '}' {
            cons_token(SpecToken::RBrace, lex(s, i + 1))
        } else if c == '=' {
            cons_token(SpecToken::Equals, lex(s, i + 1))
        } else if c == ',' {
            cons_token(SpecToken::Comma, lex(s, i + 1))
        } else if c == '"' {
            proof {
                lemma_string_body(s, i + 1);
            }
            let body = string_body(s, i + 1);
            cons_token(SpecToken::Str(body.0), lex(s, body.1))
        } else if unicode_alphabetic(c) || c == '_' {
            proof {
                lemma_run_end(s, i + 1, CharClass::IdentTail);
            }
            let e = run_end(s, i + 1, CharClass::IdentTail);
            cons_token(SpecToken::Identifier(s.subrange(i, e)), lex(s, e))
        } else if c == '0' {
            if i + 1 >= s.len() {
                Err(TokenizeError::EndAfterZero)
            } else if s[i + 1] == 'b' {
                proof {
                    lemma_run_end(s, i + 2, CharClass::Binary);
                }
                let e = run_end(s, i + 2, CharClass::Binary);
                cons_token(SpecToken::Binary(s.subrange(i, e)), lex(s, e))
            } else if s[i + 1] == 'o' {
                proof {
                    lemma_run_end(s, i + 2, CharClass::Octal);
                }
                let e = run_end(s, i + 2, CharClass::Octal);
                cons_token(SpecToken::Octal(s.subrange(i, e)), lex(s, e))
            } else if s[i + 1] == 'x' {
                proof {
                    lemma_run_end(s, i + 2, CharClass::Hex);
                }
                let e = run_end(s, i + 2, CharClass::Hex);
                cons_token(SpecToken::Hexadecimal(s.subrange(i, e)), lex(s, e))
            } else {
                Err(TokenizeError::UnknownIntegerPrefix)
            }
        } else if '1' <= c && c <= '9' {
            proof {
                lemma_run_end(s, i + 1, CharClass::Decimal);
            }
            let e = run_end(s, i + 1, CharClass::Decimal);
            cons_token(SpecToken::Integer(s.subrange(i, e)), lex(s, e))
        } else {
            lex(s, i + 1)
        }
    }
}

/// The tokens of the whole text `s`.
pub open spec fn spec_tokenize(s: Seq<char>) -> Result<Seq<SpecToken>, TokenizeError> {
    lex(s, 0)
}

proof fn lemma_prepend_cons(acc: Seq<SpecToken>, t: SpecToken, r: Result<Seq<SpecToken>, TokenizeError>)
    ensures
        prepend_tokens(acc, cons_token(t, r)) == prepend_tokens(acc.push(t), r),
{
    if let Ok(ts) = r {
        assert(acc + (seq![t] + ts) == acc.push(t) + ts);
    }
}

/// Appends `t` to `tokens`, keeping the invariant of `tokenize`'s loop.
fn push_token(tokens: &mut Vec<TokenType>, t: TokenType, Ghost(s): Ghost<Seq<char>>, Ghost(j): Ghost<int>)
    requires
        spec_tokenize(s) == prepend_tokens(tokens_view(old(tokens)@), cons_token(t@, lex(s, j))),
    ensures
        spec_tokenize(s) == prepend_tokens(tokens_view(final(tokens)@), lex(s, j)),
{
    proof {
        lemma_prepend_cons(tokens_view(tokens@), t@, lex(s, j));
    }
    let ghost before = tokens@;
    tokens.push(t);
    assert(tokens_view(tokens@) == tokens_view(before).push(t@));
}

/// The end of the run of chars of `class` that starts at `k`.
fn scan_run(cs: &Vec<char>, k: usize, class: CharClass) -> (e: usize)
    requires
        k <= cs@.len(),
    ensures
        e == run_end(cs@, k as int, class),
        k <= e <= cs@.len(),
{
    proof {
        lemma_run_end(cs@, k as int, class);
    }
    let mut j = k;
    while j < cs.len()
        invariant
            k <= j <= cs@.len(),
            run_end(cs@, j as int, class) == run_end(cs@, k as int, class),
        decreases cs@.len() - j,
    {
        let c = cs[j];
        let more = match class {
            CharClass::IdentTail => is_alphanumeric(c) || c == '_',
            CharClass::Binary => c == '0' || c == '1' || c == '_',
            CharClass::Octal => ('0' <= c && c <= '7') || c == '_',
            CharClass::Hex => ('0' <= c && c <= '9') || ('a' <= c && c <= 'f') || ('A' <= c && c
                <= 'F') || c == '_',
            CharClass::Decimal => ('0' <= c && c <= '9') || c == '_',
        };
        if !more {
            return j;
        }
        j = j + 1;
    }
    j
}

/// Splits the text of a `build.zig.zon` file into tokens.
///
/// The result is `spec_tokenize` of the text: the tokens in order, or the
/// message of the first error.
pub fn tokenize(build_zig_zon_raw_data: &str) -> (res: Result<Vec<TokenType>, String>)
    ensures
        res is Ok <==> spec_tokenize(build_zig_zon_raw_data@) is Ok,
        res matches Ok(ts) ==> tokens_view(ts@) == spec_tokenize(build_zig_zon_raw_data@)->Ok_0,
        res matches Err(m) ==> m@ == tokenize_error_message(
            spec_tokenize(build_zig_zon_raw_data@)->Err_0,
        ),
        res matches Ok(ts) ==> ts@.len() <= build_zig_zon_raw_data@.len(),
{
    proof {
        laws::law_token_count_bounded(build_zig_zon_raw_data@);
    }
    let cs = chars_of(build_zig_zon_raw_data);
    let n = cs.len();
    let ghost s = cs@;
    let mut tokens: Vec<TokenType> = Vec::new();
    let mut i: usize = 0;
    assert(tokens_view(tokens@) == Seq::<SpecToken>::empty());
    assert(prepend_tokens(Seq::<SpecToken>::empty(), lex(s, 0)) == lex(s, 0)) by {
        if let Ok(ts) = lex(s, 0) {
            assert(Seq::<SpecToken>::empty() + ts == ts);
        }
    }
    while i < n
        invariant
            n == cs@.len(),
            s == cs@,
            s == build_zig_zon_raw_data@,
            i <= n,
            spec_tokenize(s) == prepend_tokens(tokens_view(tokens@), lex(s, i as int)),
        decreases n - i,
    {
        let c = cs[i];
        if is_whitespace(c) {
            i = i + 1;
        } else if c == '/' {
            if i + 1 < n && cs[i + 1] == '/' {
                proof {
                    lemma_comment_end(s, i + 2);
                }
                let mut k = i + 2;
                while k < n && cs[k] != '\n'
                    invariant
                        n == cs@.len(),
                        s == cs@,
                        i + 2 <= k <= n,
                        comment_end(s, k as int) == comment_end(s, i + 2),
                    decreases n - k,
                {
                    k = k + 1;
                }
                if k < n {
                    k = k + 1;
                }
                i = k;
            } else {
                return Err("Found a '/' i.e division symbol not supported in build.zig.zon.".to_string());
            }
        } else if c == '.' {
            push_token(&mut tokens, TokenType::Dot, Ghost(s), Ghost(i + 1));
            i = i + 1;
        } else if c == '{' {
            push_token(&mut tokens, TokenType::LBrace, Ghost(s), Ghost(i + 1));
            i = i + 1;
        } else if c == '}' {
            push_token(&mut tokens, TokenType::RBrace, Ghost(s), Ghost(i + 1));
            i = i + 1;
        } else if c == '=' {
            push_token(&mut tokens, TokenType::Equals, Ghost(s), Ghost(i + 1));
            i = i + 1;
        } else if c == ',' {
            push_token(&mut tokens, TokenType::Comma, Ghost(s), Ghost(i + 1));
            i = i + 1;
        } else if c == '"' {
            proof {
                lemma_string_body(s, i + 1);
            }
            let mut any_string = String::new();
            let mut k = i + 1;
            while k < n && cs[k] != '"'
                invariant
                    n == cs@.len(),
                    s == cs@,
                    i + 1 <= k <= n,
                    string_body(s, i + 1) == (any_string@ + string_body(s, k as int).0, string_body(
                        s,
                        k as int,
                    ).1),
                decreases n - k,
            {
                let d = cs[k];
                let ghost before = any_string@;
                push_char(&mut any_string, d);
                if d == '\\' && k + 1 < n {
                    push_char(&mut any_string, cs[k + 1]);
                    assert(before + (seq![s[k as int], s[k + 1]] + string_body(s, k + 2).0)
                        == any_string@ + string_body(s, k + 2).0);
                    k = k + 2;
                } else if d == '\\' {
                    assert(before + seq![s[k as int]] == any_string@ + Seq::<char>::empty());
                    k = n;
                } else {
                    assert(before + (seq![s[k as int]] + string_body(s, k + 1).0) == any_string@
                        + string_body(s, k + 1).0);
                    k = k + 1;
                }
            }
            assert(any_string@ + Seq::<char>::empty() == any_string@);
            if k < n {
                k = k + 1;
            }
            push_token(&mut tokens, TokenType::Str(any_string), Ghost(s), Ghost(k as int));
            i = k;
        } else if is_alphabetic(c) || c == '_' {
            let e = scan_run(&cs, i + 1, CharClass::IdentTail);
            let identifier = string_from_range(&cs, i, e);
            push_token(&mut tokens, TokenType::Identifier(identifier), Ghost(s), Ghost(e as int));
            i = e;
        } else if c == '0' {
            if i + 1 >= n {
                return Err("File unexpectedly ended after 0.".to_string());
            }
            let p = cs[i + 1];
            if p == 'b' {
                let e = scan_run(&cs, i + 2, CharClass::Binary);
                let digits = string_from_range(&cs, i, e);
                push_token(&mut tokens, TokenType::Binary(digits), Ghost(s), Ghost(e as int));
                i = e;
            } else if p == 'o' {
                let e = scan_run(&cs, i + 2, CharClass::Octal);
                let digits = string_from_range(&cs, i, e);
                push_token(&mut tokens, TokenType::Octal(digits), Ghost(s), Ghost(e as int));
                i = e;
            } else if p == 'x' {
                let e = scan_run(&cs, i + 2, CharClass::Hex);
                let digits = string_from_range(&cs, i, e);
                push_token(&mut tokens, TokenType::Hexadecimal(digits), Ghost(s), Ghost(e as int));
                i = e;
            } else {
                return Err("Got unknown integer type that starts with 0.".to_string());
            }
        } else if '1' <= c && c <= '9' {
            let e = scan_run(&cs, i + 1, CharClass::Decimal);
            let digits = string_from_range(&cs, i, e);
            push_token(&mut tokens, TokenType::Integer(digits), Ghost(s), Ghost(e as int));
            i = e;
        } else {
            i = i + 1;
        }
    }
    proof {
        assert(tokens_view(tokens@) + Seq::<SpecToken>::empty() == tokens_view(tokens@));
    }
    Ok(tokens)
}

// ---------------------------------------------------------------------------
// Parser specification
// ---------------------------------------------------------------------------

/// Why `parse` rejects a token sequence.
pub enum ParseError {
    EqualsAfterMinimumZigVersion,
    StringAfterMinimumZigVersion,
    EqualsAfterName,
    ValueAfterName,
    EqualsAfterVersion,
    StringAfterVersion,
    EqualsAfterFingerprint,
    HexAfterFingerprint,
    EqualsAfterDependencies,
    DotAfterDependencies,
    LBraceAfterDependencies,
    DotBeforeDependencyName,
    DependencyName,
    EqualsAfterDependencyName,
    DotAfterDependencyEquals,
    LBraceForDependency,
    DotBeforeFieldName,
    FieldName,
    EqualsAfterFieldName,
    ValueAfterField,
}

/// The message that `parse` returns for each error.
pub open spec fn parse_error_message(e: ParseError) -> Seq<char> {
    match e {
        ParseError::EqualsAfterMinimumZigVersion =>
            "Expected = after minimum zig version declaration."@,
        ParseError::StringAfterMinimumZigVersion => "Expected string after minimum_zig_version ="@,
        ParseError::EqualsAfterName => "Expected = after name declaration."@,
        ParseError::ValueAfterName => "Expected string or identifier after name ="@,
        ParseError::EqualsAfterVersion => "Expected = after version declaration."@,
        ParseError::StringAfterVersion => "Expected string after version ="@,
        ParseError::EqualsAfterFingerprint => "Expected = after fingerprint declaration."@,
        ParseError::HexAfterFingerprint => "Expected hexadecimal after fingerprint ="@,
        ParseError::EqualsAfterDependencies => "Expected = after dependencies declaration."@,
        ParseError::DotAfterDependencies => "Expected . after dependencies ="@,
        ParseError::LBraceAfterDependencies => "Expected { after dependencies = ."@,
        ParseError::DotBeforeDependencyName => "Expected . before dependency name"@,
        ParseError::DependencyName => "Expected dependency name"@,
        ParseError::EqualsAfterDependencyName => "Expected = after dependency name"@,
        ParseError::DotAfterDependencyEquals => "Expected . after dependency name ="@,
        ParseError::LBraceForDependency => "Expected { for dependency object"@,
        ParseError::DotBeforeFieldName => "Expected . before field name"@,
        ParseError::FieldName => "Expected field name"@,
        ParseError::EqualsAfterFieldName => "Expected = after field name"@,
        ParseError::ValueAfterField => "Expected value after field ="@,
    }
}

/// Whether the token at position `k` of `t` is `want`.
pub open spec fn token_is(t: Seq<SpecToken>, k: int, want: SpecToken) -> bool {
    0 <= k < t.len() && t[k] == want
}

/// The text of the token at `k` when it is a string literal or an
/// identifier.
pub open spec fn name_or_string(t: Seq<SpecToken>, k: int) -> Option<Seq<char>> {
    if 0 <= k < t.len() {
        match t[k] {
            SpecToken::Str(v) => Some(v),
            SpecToken::Identifier(v) => Some(v),
            _ => None,
        }
    } else {
        None
    }
}

/// The text of the token at `k` when it is a string literal.
pub open spec fn string_token(t: Seq<SpecToken>, k: int) -> Option<Seq<char>> {
    if 0 <= k < t.len() {
        match t[k] {
            SpecToken::Str(v) => Some(v),
            _ => None,
        }
    } else {
        None
    }
}

/// The text of the token at `k` when it is a hexadecimal number.
pub open spec fn hex_token(t: Seq<SpecToken>, k: int) -> Option<Seq<char>> {
    if 0 <= k < t.len() {
        match t[k] {
            SpecToken::Hexadecimal(v) => Some(v),
            _ => None,
        }
    } else {
        None
    }
}

/// `k`, or the position after it when a comma stands there.
pub open spec fn skip_comma(t: Seq<SpecToken>, k: int) -> int {
    if token_is(t, k, SpecToken::Comma) {
        k + 1
    } else {
        k
    }
}

/// A dependency called `name` with all other fields empty.
pub open spec fn empty_dependency(name: Seq<char>) -> SpecDependency {
    SpecDependency {
        name: name,
        hash: Seq::empty(),
        lazy: Seq::empty(),
        url: Seq::empty(),
        path: Seq::empty(),
    }
}

/// `d` after the field assignment `.key = value`: `url`, `hash`, `path` and
/// `lazy` are kept, other keys are ignored.
pub open spec fn set_dependency_field(d: SpecDependency, key: Seq<char>, value: Seq<char>) -> SpecDependency {
    if key == "url"@ {
        SpecDependency { name: d.name, hash: d.hash, lazy: d.lazy, url: value, path: d.path }
    } else if key == "hash"@ {
        SpecDependency { name: d.name, hash: value, lazy: d.lazy, url: d.url, path: d.path }
    } else if key == "path"@ {
        SpecDependency { name: d.name, hash: d.hash, lazy: d.lazy, url: d.url, path: value }
    } else if key == "lazy"@ {
        SpecDependency { name: d.name, hash: d.hash, lazy: value, url: d.url, path: d.path }
    } else {
        d
    }
}

/// The fields of one dependency object, read from `i` (just after its `{`)
/// up to and including its `}`: the position after the `}` and the
/// dependency, or the first error.
pub open spec fn dependency_fields(t: Seq<SpecToken>, i: int, d: SpecDependency) -> Result<
    (int, SpecDependency),
    ParseError,
>
    decreases t.len() - i,
{
    let j = skip_comma(t, i);
    if token_is(t, j, SpecToken::RBrace) {
        Ok((j + 1, d))
    } else if !token_is(t, j, SpecToken::Dot) {
        Err(ParseError::DotBeforeFieldName)
    } else {
        match name_or_string(t, j + 1) {
            None => Err(ParseError::FieldName),
            Some(key) => if !token_is(t, j + 2, SpecToken::Equals) {
                Err(ParseError::EqualsAfterFieldName)
            } else {
                match name_or_string(t, j + 3) {
                    None => Err(ParseError::ValueAfterField),
                    Some(value) => dependency_fields(t, j + 4, set_dependency_field(d, key, value)),
                }
            },
        }
    }
}

pub proof fn lemma_dependency_fields_advances(t: Seq<SpecToken>, i: int, d: SpecDependency)
    requires
        0 <= i,
    ensures
        dependency_fields(t, i, d) matches Ok((k, _)) ==> i < k <= t.len(),
    decreases t.len() - i,
{
    let j = skip_comma(t, i);
    if !token_is(t, j, SpecToken::RBrace) && token_is(t, j, SpecToken::Dot) {
        if let Some(key) = name_or_string(t, j + 1) {
            if token_is(t, j + 2, SpecToken::Equals) {
                if let Some(value) = name_or_string(t, j + 3) {
                    lemma_dependency_fields_advances(t, j + 4, set_dependency_field(d, key, value));
                }
            }
        }
    }
}

/// The entries of a `dependencies` block, read from `i` (just after its
/// `{`) up to and including its `}`: the position after the `}` and the
/// dependencies in order, appended to `deps`, or the first error.
pub open spec fn dependency_list(t: Seq<SpecToken>, i: int, deps: Seq<SpecDependency>) -> Result<
    (int, Seq<SpecDependency>),
    ParseError,
>
    decreases t.len() - i,
{
    let j = skip_comma(t, i);
    if token_is(t, j, SpecToken::RBrace) {
        Ok((j + 1, deps))
    } else if !token_is(t, j, SpecToken::Dot) {
        Err(ParseError::DotBeforeDependencyName)
    } else {
        match name_or_string(t, j + 1) {
            None => Err(ParseError::DependencyName),
            Some(name) => if !token_is(t, j + 2, SpecToken::Equals) {
                Err(ParseError::EqualsAfterDependencyName)
            } else if !token_is(t, j + 3, SpecToken::Dot) {
                Err(ParseError::DotAfterDependencyEquals)
            } else if !token_is(t, j + 4, SpecToken::LBrace) {
                Err(ParseError::LBraceForDependency)
            } else {
                proof {
                    lemma_dependency_fields_advances(t, j + 5, empty_dependency(name));
                }
                match dependency_fields(t, j + 5, empty_dependency(name)) {
                    Err(e) => Err(e),
                    Ok(r) => dependency_list(t, r.0, deps.push(r.1)),
                }
            },
        }
    }
}

pub proof fn lemma_dependency_list_advances(t: Seq<SpecToken>, i: int, deps: Seq<SpecDependency>)
    requires
        0 <= i,
    ensures
        dependency_list(t, i, deps) matches Ok((k, _)) ==> i < k <= t.len(),
    decreases t.len() - i,
{
    let j = skip_comma(t, i);
    if !token_is(t, j, SpecToken::RBrace) && token_is(t, j, SpecToken::Dot) {
        if let Some(name) = name_or_string(t, j + 1) {
            if token_is(t, j + 2, SpecToken::Equals) && token_is(t, j + 3, SpecToken::Dot)
                && token_is(t, j + 4, SpecToken::LBrace) {
                lemma_dependency_fields_advances(t, j + 5, empty_dependency(name));
                if let Ok(r) = dependency_fields(t, j + 5, empty_dependency(name)) {
                    lemma_dependency_list_advances(t, r.0, deps.push(r.1));
                }
            }
        }
    }
}

/// A manifest with every field empty.
pub open spec fn empty_zon() -> SpecZon {
    SpecZon {
        name: Seq::empty(),
        fingerprint: Seq::empty(),
        version: Seq::empty(),
        minimum_zig_version: Seq::empty(),
        dependencies: Seq::empty(),
        paths: Seq::empty(),
    }
}

pub open spec fn with_name(z: SpecZon, v: Seq<char>) -> SpecZon {
    SpecZon {
        name: v,
        fingerprint: z.fingerprint,
        version: z.version,
        minimum_zig_version: z.minimum_zig_version,
        dependencies: z.dependencies,
        paths: z.paths,
    }
}

pub open spec fn with_fingerprint(z: SpecZon, v: Seq<char>) -> SpecZon {
    SpecZon {
        name: z.name,
        fingerprint: v,
        version: z.version,
        minimum_zig_version: z.minimum_zig_version,
        dependencies: z.dependencies,
        paths: z.paths,
    }
}

pub open spec fn with_version(z: SpecZon, v: Seq<char>) -> SpecZon {
    SpecZon {
        name: z.name,
        fingerprint: z.fingerprint,
        version: v,
        minimum_zig_version: z.minimum_zig_version,
        dependencies: z.dependencies,
        paths: z.paths,
    }
}

pub open spec fn with_minimum_zig_version(z: SpecZon, v: Seq<char>) -> SpecZon {
    SpecZon {
        name: z.name,
        fingerprint: z.fingerprint,
        version: z.version,
        minimum_zig_version: v,
        dependencies: z.dependencies,
        paths: z.paths,
    }
}

pub open spec fn with_dependencies(z: SpecZon, deps: Seq<SpecDependency>) -> SpecZon {
    SpecZon {
        name: z.name,
        fingerprint: z.fingerprint,
        version: z.version,
        minimum_zig_version: z.minimum_zig_version,
        dependencies: deps,
        paths: z.paths,
    }
}

/// The manifest read from position `i` of `t` on, starting from what `acc`
/// already holds, or the first error.
///
/// Outside of the recognised declarations every token is skipped. An
/// identifier `minimum_zig_version`, `version`, `fingerprint`, `name` or
/// `dependencies` must be followed by `=` and its value (a string, a string,
/// a hexadecimal number, a string or identifier after an optional `.`, and
/// a `.{ ... }` block of dependencies); a later declaration replaces an
/// earlier one.
pub open spec fn zon_from(t: Seq<SpecToken>, i: int, acc: SpecZon) -> Result<SpecZon, ParseError>
    decreases t.len() - i,
{
    if i < 0 || i >= t.len() {
        Ok(acc)
    } else {
        match t[i] {
            SpecToken::Identifier(v) => if v == "minimum_zig_version"@ {
                if !token_is(t, i + 1, SpecToken::Equals) {
                    Err(ParseError::EqualsAfterMinimumZigVersion)
                } else {
                    match string_token(t, i + 2) {
                        Some(s) => zon_from(t, i + 3, with_minimum_zig_version(acc, s)),
                        None => Err(ParseError::StringAfterMinimumZigVersion),
                    }
                }
            } else if v == "name"@ {
                if !token_is(t, i + 1, SpecToken::Equals) {
                    Err(ParseError::EqualsAfterName)
                } else {
                    let j = if token_is(t, i + 2, SpecToken::Dot) {
                        i + 3
                    } else {
                        i + 2
                    };
                    match name_or_string(t, j) {
                        Some(s) => zon_from(t, j + 1, with_name(acc, s)),
                        None => Err(ParseError::ValueAfterName),
                    }
                }
            } else if v == "version"@ {
                if !token_is(t, i + 1, SpecToken::Equals) {
                    Err(ParseError::EqualsAfterVersion)
                } else {
                    match string_token(t, i + 2) {
                        Some(s) => zon_from(t, i + 3, with_version(acc, s)),
                        None => Err(ParseError::StringAfterVersion),
                    }
                }
            } else if v == "fingerprint"@ {
                if !token_is(t, i + 1, SpecToken::Equals) {
                    Err(ParseError::EqualsAfterFingerprint)
                } else {
                    match hex_token(t, i + 2) {
                        Some(s) => zon_from(t, i + 3, with_fingerprint(acc, s)),
                        None => Err(ParseError::HexAfterFingerprint),
                    }
                }
            } else if v == "dependencies"@ {
                if !token_is(t, i + 1, SpecToken::Equals) {
                    Err(ParseError::EqualsAfterDependencies)
                } else if !token_is(t, i + 2, SpecToken::Dot) {
                    Err(ParseError::DotAfterDependencies)
                } else if !token_is(t, i + 3, SpecToken::LBrace) {
                    Err(ParseError::LBraceAfterDependencies)
                } else {
                    proof {
                        lemma_dependency_list_advances(t, i + 4, Seq::empty());
                    }
                    match dependency_list(t, i + 4, Seq::empty()) {
                        Err(e) => Err(e),
                        Ok(r) => zon_from(t, r.0, with_dependencies(acc, r.1)),
                    }
                }
            } else {
                zon_from(t, i + 1, acc)
            },
            _ => zon_from(t, i + 1, acc),
        }
    }
}

/// The manifest that the whole token sequence `t` describes.
pub open spec fn spec_parse(t: Seq<SpecToken>) -> Result<SpecZon, ParseError> {
    zon_from(t, 0, empty_zon())
}

// ---------------------------------------------------------------------------
// Parser
// ---------------------------------------------------------------------------

/// The punctuation tokens.
#[derive(Clone, Copy)]
pub enum Punct {
    Dot,
    LBrace,
    RBrace,
    Equals,
    Comma,
}

pub open spec fn punct_token(p: Punct) -> SpecToken {
    match p {
        Punct::Dot => SpecToken::Dot,
        Punct::LBrace => SpecToken::LBrace,
        Punct::RBrace => SpecToken::RBrace,
        Punct::Equals => SpecToken::Equals,
        Punct::Comma => SpecToken::Comma,
    }
}

/// Whether the token at `i + off` is the punctuation `p`.
fn punct_at(tokens: &Vec<TokenType>, i: usize, off: usize, p: Punct) -> (b: bool)
    requires
        i <= tokens@.len(),
    ensures
        b == token_is(tokens_view(tokens@), i + off, punct_token(p)),
{
    if off >= tokens.len() - i {
        return false;
    }
    let k = i + off;
    match (&tokens[k], p) {
        (TokenType::Dot, Punct::Dot) => true,
        (TokenType::LBrace, Punct::LBrace) => true,
        (TokenType::RBrace, Punct::RBrace) => true,
        (TokenType::Equals, Punct::Equals) => true,
        (TokenType::Comma, Punct::Comma) => true,
        _ => false,
    }
}

/// The text of the token at `i + off` when it is a string or an identifier.
fn name_or_string_at(tokens: &Vec<TokenType>, i: usize, off: usize) -> (res: Option<String>)
    requires
        i <= tokens@.len(),
    ensures
        res is Some <==> name_or_string(tokens_view(tokens@), i + off) is Some,
        res matches Some(v) ==> v@ == name_or_string(tokens_view(tokens@), i + off)->Some_0,
{
    if off >= tokens.len() - i {
        return None;
    }
    match &tokens[i + off] {
        TokenType::Str(v) => Some(v.clone()),
        TokenType::Identifier(v) => Some(v.clone()),
        _ => None,
    }
}

/// The text of the token at `i + off` when it is a string literal.
fn string_at(tokens: &Vec<TokenType>, i: usize, off: usize) -> (res: Option<String>)
    requires
        i <= tokens@.len(),
    ensures
        res is Some <==> string_token(tokens_view(tokens@), i + off) is Some,
        res matches Some(v) ==> v@ == string_token(tokens_view(tokens@), i + off)->Some_0,
{
    if off >= tokens.len() - i {
        return None;
    }
    match &tokens[i + off] {
        TokenType::Str(v) => Some(v.clone()),
        _ => None,
    }
}

/// The text of the token at `i + off` when it is a hexadecimal number.
fn hex_at(tokens: &Vec<TokenType>, i: usize, off: usize) -> (res: Option<String>)
    requires
        i <= tokens@.len(),
    ensures
        res is Some <==> hex_token(tokens_view(tokens@), i + off) is Some,
        res matches Some(v) ==> v@ == hex_token(tokens_view(tokens@), i + off)->Some_0,
{
    if off >= tokens.len() - i {
        return None;
    }
    match &tokens[i + off] {
        TokenType::Hexadecimal(v) => Some(v.clone()),
        _ => None,
    }
}

/// Reads the fields of one dependency object (see `dependency_fields`).
fn parse_dependency_fields(tokens: &Vec<TokenType>, start: usize, dep: Dependency) -> (res: Result<
    (usize, Dependency),
    String,
>)
    requires
        start <= tokens@.len(),
    ensures
        res is Ok <==> dependency_fields(tokens_view(tokens@), start as int, dep@) is Ok,
        res matches Ok(r) ==> (r.0 as int, r.1@) == dependency_fields(
            tokens_view(tokens@),
            start as int,
            dep@,
        )->Ok_0,
        res matches Err(m) ==> m@ == parse_error_message(
            dependency_fields(tokens_view(tokens@), start as int, dep@)->Err_0,
        ),
{
    let ghost t = tokens_view(tokens@);
    let n = tokens.len();
    let mut j = start;
    let ghost d0 = dep@;
    let mut cur = dep;
    loop
        invariant
            t == tokens_view(tokens@),
            n == tokens@.len(),
            j <= n,
            d0 == dep@,
            dependency_fields(t, start as int, d0) == dependency_fields(t, j as int, cur@),
        decreases n - j,
    {
        let j1 = if punct_at(tokens, j, 0, Punct::Comma) {
            j + 1
        } else {
            j
        };
        if punct_at(tokens, j1, 0, Punct::RBrace) {
            return Ok((j1 + 1, cur));
        }
        if !punct_at(tokens, j1, 0, Punct::Dot) {
            return Err("Expected . before field name".to_string());
        }
        let key = match name_or_string_at(tokens, j1, 1) {
            Some(k) => k,
            None => {
                return Err("Expected field name".to_string());
            },
        };
        if !punct_at(tokens, j1, 2, Punct::Equals) {
            return Err("Expected = after field name".to_string());
        }
        let value = match name_or_string_at(tokens, j1, 3) {
            Some(v) => v,
            None => {
                return Err("Expected value after field =".to_string());
            },
        };
        if text_equals(&key, "url") {
            cur.url = value;
        } else if text_equals(&key, "hash") {
            cur.hash = value;
        } else if text_equals(&key, "path") {
            cur.path = value;
        } else if text_equals(&key, "lazy") {
            cur.lazy = value;
        }
        j = j1 + 4;
    }
}

/// Reads the entries of a `dependencies` block (see `dependency_list`).
fn parse_dependency_list(tokens: &Vec<TokenType>, start: usize) -> (res: Result<
    (usize, Vec<Dependency>),
    String,
>)
    requires
        start <= tokens@.len(),
    ensures
        res is Ok <==> dependency_list(tokens_view(tokens@), start as int, Seq::empty()) is Ok,
        res matches Ok(r) ==> (r.0 as int, dependencies_view(r.1@)) == dependency_list(
            tokens_view(tokens@),
            start as int,
            Seq::empty(),
        )->Ok_0,
        res matches Err(m) ==> m@ == parse_error_message(
            dependency_list(tokens_view(tokens@), start as int, Seq::empty())->Err_0,
        ),
{
    let ghost t = tokens_view(tokens@);
    let n = tokens.len();
    let mut j = start;
    let mut dependencies: Vec<Dependency> = Vec::new();
    assert(dependencies_view(dependencies@) == Seq::<SpecDependency>::empty());
    loop
        invariant
            t == tokens_view(tokens@),
            n == tokens@.len(),
            start <= j <= n,
            dependency_list(t, start as int, Seq::empty()) == dependency_list(
                t,
                j as int,
                dependencies_view(dependencies@),
            ),
        decreases n - j,
    {
        let j1 = if punct_at(tokens, j, 0, Punct::Comma) {
            j + 1
        } else {
            j
        };
        if punct_at(tokens, j1, 0, Punct::RBrace) {
            return Ok((j1 + 1, dependencies));
        }
        if !punct_at(tokens, j1, 0, Punct::Dot) {
            return Err("Expected . before dependency name".to_string());
        }
        let dep_name = match name_or_string_at(tokens, j1, 1) {
            Some(v) => v,
            None => {
                return Err("Expected dependency name".to_string());
            },
        };
        if !punct_at(tokens, j1, 2, Punct::Equals) {
            return Err("Expected = after dependency name".to_string());
        }
        if !punct_at(tokens, j1, 3, Punct::Dot) {
            return Err("Expected . after dependency name =".to_string());
        }
        if !punct_at(tokens, j1, 4, Punct::LBrace) {
            return Err("Expected { for dependency object".to_string());
        }
        let dependency = Dependency {
            name: dep_name,
            url: String::new(),
            hash: String::new(),
            lazy: String::new(),
            path: String::new(),
        };
        assert(dependency@ == empty_dependency(dependency.name@));
        proof {
            lemma_dependency_fields_advances(t, j1 + 5, dependency@);
        }
        match parse_dependency_fields(tokens, j1 + 5, dependency) {
            Ok((k, d)) => {
                let ghost before = dependencies@;
                dependencies.push(d);
                assert(dependencies_view(dependencies@) == dependencies_view(before).push(d@));
                j = k;
            },
            Err(m) => {
                return Err(m);
            },
        }
    }
}

/// Reads the package name, fingerprint, version, minimum Zig version and
/// dependencies out of the tokens of a `build.zig.zon` file.
///
/// The result is `spec_parse` of the tokens: the manifest, or the message
/// of the first error.
pub fn parse(tokens: Vec<TokenType>) -> (res: Result<BuildZigZonData, String>)
    ensures
        res is Ok <==> spec_parse(tokens_view(tokens@)) is Ok,
        res matches Ok(d) ==> d@ == spec_parse(tokens_view(tokens@))->Ok_0,
        res matches Err(m) ==> m@ == parse_error_message(spec_parse(tokens_view(tokens@))->Err_0),
{
    let ghost t = tokens_view(tokens@);
    let mut build_zig_zon_parsed = BuildZigZonData {
        name: String::new(),
        fingerprint: String::new(),
        version: String::new(),
        minimum_zig_version: String::new(),
        dependencies: Vec::new(),
        paths: Vec::new(),
    };
    assert(build_zig_zon_parsed@ == empty_zon()) by {
        assert(dependencies_view(build_zig_zon_parsed.dependencies@) == Seq::<SpecDependency>::empty());
        assert(build_zig_zon_parsed.paths@.map_values(|p: String| p@) == Seq::<Seq<char>>::empty());
    }
    let n = tokens.len();
    let mut i: usize = 0;
    while i < n
        invariant
            t == tokens_view(tokens@),
            n == tokens@.len(),
            i <= n,
            build_zig_zon_parsed.paths@.len() == 0,
            spec_parse(t) == zon_from(t, i as int, build_zig_zon_parsed@),
        decreases n - i,
    {
        if let TokenType::Identifier(val) = &tokens[i] {
            if text_equals(val, "minimum_zig_version") {
                if !punct_at(&tokens, i, 1, Punct::Equals) {
                    return Err("Expected = after minimum zig version declaration.".to_string());
                }
                match string_at(&tokens, i, 2) {
                    Some(s) => {
                        build_zig_zon_parsed.minimum_zig_version = s;
                        i = i + 3;
                    },
                    None => {
                        return Err("Expected string after minimum_zig_version =".to_string());
                    },
                }
            } else if text_equals(val, "name") {
                if !punct_at(&tokens, i, 1, Punct::Equals) {
                    return Err("Expected = after name declaration.".to_string());
                }
                // Zig 0.12 writes the name as a string, Zig 0.15 as an enum
                // literal (`.name = .foo`): both are accepted.
                let j = if punct_at(&tokens, i, 2, Punct::Dot) {
                    i + 3
                } else {
                    i + 2
                };
                match name_or_string_at(&tokens, j, 0) {
                    Some(s) => {
                        build_zig_zon_parsed.name = s;
                        i = j + 1;
                    },
                    None => {
                        return Err("Expected string or identifier after name =".to_string());
                    },
                }
            } else if text_equals(val, "version") {
                if !punct_at(&tokens, i, 1, Punct::Equals) {
                    return Err("Expected = after version declaration.".to_string());
                }
                match string_at(&tokens, i, 2) {
                    Some(s) => {
                        build_zig_zon_parsed.version = s;
                        i = i + 3;
                    },
                    None => {
                        return Err("Expected string after version =".to_string());
                    },
                }
            } else if text_equals(val, "fingerprint") {
                if !punct_at(&tokens, i, 1, Punct::Equals) {
                    return Err("Expected = after fingerprint declaration.".to_string());
                }
                match hex_at(&tokens, i, 2) {
                    Some(s) => {
                        build_zig_zon_parsed.fingerprint = s;
                        i = i + 3;
                    },
                    None => {
                        return Err("Expected hexadecimal after fingerprint =".to_string());
                    },
                }
            } else if text_equals(val, "dependencies") {
                if !punct_at(&tokens, i, 1, Punct::Equals) {
                    return Err("Expected = after dependencies declaration.".to_string());
                }
                if !punct_at(&tokens, i, 2, Punct::Dot) {
                    return Err("Expected . after dependencies =".to_string());
                }
                if !punct_at(&tokens, i, 3, Punct::LBrace) {
                    return Err("Expected { after dependencies = .".to_string());
                }
                proof {
                    lemma_dependency_list_advances(t, i + 4, Seq::empty());
                }
                match parse_dependency_list(&tokens, i + 4) {
                    Ok((k, dependencies)) => {
                        build_zig_zon_parsed.dependencies = dependencies;
                        i = k;
                    },
                    Err(m) => {
                        return Err(m);
                    },
                }
            } else {
                i = i + 1;
            }
        } else {
            i = i + 1;
        }
    }
    Ok(build_zig_zon_parsed)
}

/// What the crawlers keep of a `build.zig.zon` text: the minimum Zig
/// version and the dependencies, or the message of the first error of
/// tokenizing or parsing it.
pub open spec fn spec_version_and_dependencies(text: Seq<char>) -> Result<
    (Seq<char>, Seq<SpecDependency>),
    Seq<char>,
> {
    match spec_tokenize(text) {
        Err(e) => Err(tokenize_error_message(e)),
        Ok(ts) => match spec_parse(ts) {
            Err(e) => Err(parse_error_message(e)),
            Ok(z) => Ok((z.minimum_zig_version, z.dependencies)),
        },
    }
}

/// Tokenizes and parses a `build.zig.zon` text and keeps its minimum Zig
/// version and dependencies.
pub fn zon_version_and_dependencies(text: &str) -> (res: Result<(String, Vec<Dependency>), String>)
    ensures
        res is Ok <==> spec_version_and_dependencies(text@) is Ok,
        res matches Ok(r) ==> (r.0@, dependencies_view(r.1@))
            == spec_version_and_dependencies(text@)->Ok_0,
        res matches Err(m) ==> m@ == spec_version_and_dependencies(text@)->Err_0,
{
    let tokens = tokenize(text)?;
    let parsed = parse(tokens)?;
    Ok((parsed.minimum_zig_version, parsed.dependencies))
}

} // verus!
