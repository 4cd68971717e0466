//! What is done to values before they are written to the database:
//! truncation to the column limits, reading the `lazy` flag of a
//! dependency, and the search keywords of a repository.
use vstd::prelude::*;
use crate::text::{
    chars_of, string_from_range, trim, trim_whitespace, eq_ignore_ascii_case,
    str_eq_ignore_ascii_case, strings_view, join_with, join_strings,
    law_trim_idempotent, lemma_trim_ends, lemma_trim_unpadded,
};

verus! {

broadcast use vstd::string::group_string_axioms;

/// `s` cut to its first `max` chars when it is longer.
pub open spec fn truncated(s: Seq<char>, max: nat) -> Seq<char> {
    if s.len() <= max {
        s
    } else {
        s.take(max as int)
    }
}

/// `value` cut to its first `max_chars` characters (not bytes) when it is
/// longer; otherwise `value` itself.
pub fn truncate_to_char_limit(value: &str, max_chars: usize) -> (res: String)
    ensures
        res@ == truncated(value@, max_chars as nat),
{
    let cs = chars_of(value);
    if cs.len() <= max_chars {
        return value.to_owned();
    }
    string_from_range(&cs, 0, max_chars)
}

/// [`truncate_to_char_limit`] applied inside an `Option`.
pub fn truncate_option_to_char_limit(value: Option<&str>, max_chars: usize) -> (res: Option<String>)
    ensures
        res is Some <==> value is Some,
        res matches Some(r) ==> r@ == truncated(value->Some_0@, max_chars as nat),
{
    match value {
        Some(v) => Some(truncate_to_char_limit(v, max_chars)),
        None => None,
    }
}

/// Whether a dependency's `lazy` value means `true`: the text, with the
/// whitespace around it removed, is `true` up to ASCII case.
pub fn parse_lazy_flag(value: &str) -> (res: bool)
    ensures
        res == eq_ignore_ascii_case(trim_whitespace(value@), "true"@),
{
    let trimmed = trim(value);
    str_eq_ignore_ascii_case(trimmed.as_str(), "true")
}

/// Truncating to `n` chars and then to `m` chars is truncating to the
/// smaller of the two limits; in particular truncating twice to the same
/// limit changes nothing the second time.
pub proof fn law_truncate_twice(s: Seq<char>, n: nat, m: nat)
    ensures
        truncated(truncated(s, n), m) == truncated(s, if n <= m { n } else { m }),
        truncated(truncated(s, n), n) == truncated(s, n),
{
}

/// A truncated value is a prefix of the value and holds at most the limit.
pub proof fn law_truncate_is_prefix(s: Seq<char>, n: nat)
    ensures
        truncated(s, n).len() == if s.len() <= n {
            s.len()
        } else {
            n
        },
        truncated(s, n).len() <= n,
        truncated(s, n).len() <= s.len(),
        truncated(s, n) == s.take(truncated(s, n).len() as int),
{
}

// ---------------------------------------------------------------------------
// Search keywords
// ---------------------------------------------------------------------------

/// The stop-word list that `stop_words::get` gives for a language code.
pub uninterp spec fn stop_word_list(language: Seq<char>) -> Seq<Seq<char>>;

/// The keywords that `keyword_extraction`'s RAKE ranks highest for `text`
/// with the given stop words, at most `n` of them, best first.
pub uninterp spec fn rake_keywords(text: Seq<char>, stop_words: Seq<Seq<char>>, n: nat) -> Seq<
    Seq<char>,
>;

/// Calls `stop_words::get` for the English list and copies it into
/// `String`s. The list's contents are named `stop_word_list`, not restated.
/// Only the code `en` is admitted: `get` panics on a code it does not know.
#[verifier::external_body]
fn stop_words_for(language: &str) -> (res: Vec<String>)
    requires
        language@ == "en"@,
    ensures
        strings_view(res@) == stop_word_list(language@),
{
    stop_words::get(language).iter().map(|s| s.to_string()).collect()
}

/// Calls `Rake::new(RakeParams::WithDefaults(text, stop_words))` and
/// `get_ranked_keyword(n)` of `keyword_extraction`. The ranking is named
/// `rake_keywords`; the crate's source takes the first `n` entries of the
/// sorted score table, so at most `n` come back.
#[verifier::external_body]
fn rake_ranked_keywords(text: &str, stop_words: &Vec<String>, n: usize) -> (res: Vec<String>)
    ensures
        strings_view(res@) == rake_keywords(text@, strings_view(stop_words@), n as nat),
        res@.len() <= n,
{
    keyword_extraction::rake::Rake::new(
        keyword_extraction::rake::RakeParams::WithDefaults(text, stop_words.as_slice()),
    ).get_ranked_keyword(n)
}

/// The keywords text that `extract_keywords_from_text_and_return_as_string`
/// gives for `text`: empty for a blank text, else the ranked keywords of the
/// trimmed text joined by single spaces.
pub open spec fn keywords_text(text: Seq<char>, max_keywords: nat) -> Seq<char> {
    let t = trim_whitespace(text);
    if t.len() == 0 {
        Seq::empty()
    } else {
        join_with(rake_keywords(t, stop_word_list("en"@), max_keywords), " "@)
    }
}

/// At most `max_keywords` keywords of `text` (RAKE with the English stop
/// words), joined by spaces; empty when `text` is blank.
pub fn extract_keywords_from_text_and_return_as_string(text: &str, max_keywords: usize) -> (res:
    String)
    ensures
        res@ == keywords_text(text@, max_keywords as nat),
        max_keywords == 0 ==> res@.len() == 0,
{
    let trimmed_text = trim(text);
    if trimmed_text.as_str().is_empty() {
        return String::new();
    }
    let stop_words = stop_words_for("en");
    let keywords = rake_ranked_keywords(trimmed_text.as_str(), &stop_words, max_keywords);
    join_strings(&keywords, " ")
}

/// `readme` and `description` put together: the non-empty one alone, or
/// both separated by one space.
pub open spec fn merged_keywords(readme: Seq<char>, description: Seq<char>) -> Seq<char> {
    if readme.len() == 0 {
        description
    } else if description.len() == 0 {
        readme
    } else {
        readme + " "@ + description
    }
}

/// The keywords of a description (at most 50), or nothing without one.
pub open spec fn description_keywords(description: Option<Seq<char>>) -> Seq<char> {
    match description {
        Some(d) => keywords_text(d, 50),
        None => Seq::empty(),
    }
}

/// The search keywords of a repository: the README keywords and the
/// keywords of the description, each trimmed, put together.
pub fn merge_search_keywords(readme_keywords: &str, description: Option<&str>) -> (res: String)
    ensures
        res@ == merged_keywords(
            trim_whitespace(readme_keywords@),
            trim_whitespace(
                description_keywords(
                    match description {
                        Some(d) => Some(d@),
                        None => None,
                    },
                ),
            ),
        ),
        trim_whitespace(res@) == res@,
        trim_whitespace(readme_keywords@).is_prefix_of(res@),
{
    proof {
        law_merged_keywords_trimmed(
            readme_keywords@,
            description_keywords(
                match description {
                    Some(d) => Some(d@),
                    None => None,
                },
            ),
        );
    }
    let description_keywords = match description {
        Some(text) => extract_keywords_from_text_and_return_as_string(text, 50),
        None => String::new(),
    };
    let readme_trimmed = trim(readme_keywords);
    let description_keywords_trimmed = trim(description_keywords.as_str());
    if readme_trimmed.as_str().is_empty() && description_keywords_trimmed.as_str().is_empty() {
        return String::new();
    }
    if readme_trimmed.as_str().is_empty() {
        return description_keywords_trimmed;
    }
    if description_keywords_trimmed.as_str().is_empty() {
        return readme_trimmed;
    }
    let mut merged = readme_trimmed;
    merged.append(" ");
    merged.append(description_keywords_trimmed.as_str());
    merged
}

/// Surrounding whitespace does not change the keywords of a text: the
/// keywords of `text` are those of its trim.
pub proof fn law_keywords_ignore_surrounding_whitespace(text: Seq<char>, max_keywords: nat)
    ensures
        keywords_text(trim_whitespace(text), max_keywords) == keywords_text(text, max_keywords),
{
    law_trim_idempotent(text);
}

/// The merged search keywords neither start nor end with whitespace, and
/// they start with the trimmed README keywords (followed, when there are
/// description keywords too, by one space and those).
pub proof fn law_merged_keywords_trimmed(readme: Seq<char>, description: Seq<char>)
    ensures
        trim_whitespace(merged_keywords(trim_whitespace(readme), trim_whitespace(description)))
            == merged_keywords(trim_whitespace(readme), trim_whitespace(description)),
        trim_whitespace(readme).is_prefix_of(
            merged_keywords(trim_whitespace(readme), trim_whitespace(description)),
        ),
        trim_whitespace(description).is_suffix_of(
            merged_keywords(trim_whitespace(readme), trim_whitespace(description)),
        ),
        merged_keywords(trim_whitespace(readme), trim_whitespace(description)).len()
            == trim_whitespace(readme).len() + trim_whitespace(description).len() + (if trim_whitespace(
            readme,
        ).len() > 0 && trim_whitespace(description).len() > 0 {
            1int
        } else {
            0int
        }),
{
    let r = trim_whitespace(readme);
    let d = trim_whitespace(description);
    let m = merged_keywords(r, d);
    reveal_strlit(" ");
    lemma_trim_ends(readme);
    lemma_trim_ends(description);
    law_trim_idempotent(readme);
    law_trim_idempotent(description);
    if r.len() > 0 && d.len() > 0 {
        assert(m[0] == r[0]);
        assert(m.last() == d.last());
        lemma_trim_unpadded(m);
        assert(m.take(r.len() as int) == r);
        assert(m.skip(m.len() - d.len()) == d);
    } else if r.len() == 0 {
        assert(r.is_prefix_of(m));
        assert(m.skip(m.len() - d.len()) == d);
    } else {
        assert(m.take(r.len() as int) == r);
        assert(m.skip(m.len() - d.len()) == d);
    }
}

} // verus!
