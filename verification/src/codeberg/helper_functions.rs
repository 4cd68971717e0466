//! What the Codeberg crawler computes from the API's answers: where a
//! repository's files are, which file is its README, its root directory
//! listing, its commit hash and whether Zig is among its top languages.
use vstd::prelude::*;
use crate::json::{JsonValue, json_get, json_str, json_at};
use crate::text::{
    chars_of, string_from_range, trim, trim_whitespace, joined, index_of_from,
    lemma_index_of_from, eq_ignore_ascii_case, str_eq_ignore_ascii_case, strings_view, join_with,
    join_strings, parsed_u64, parse_u64,
};
use crate::github::{normal_commit_hash, makeing_commit_hash_normal};

verus! {

broadcast use vstd::string::group_string_axioms;

// ---------------------------------------------------------------------------
// Locations
// ---------------------------------------------------------------------------

/// The URL under which the raw files of a tag or branch are served.
pub open spec fn raw_base_url(owner: Seq<char>, repo: Seq<char>, branch_or_tag: Seq<char>, is_tag: bool) -> Seq<char> {
    "https://codeberg.org/"@ + owner + "/"@ + repo + "/raw/"@ + (if is_tag {
        "tag"@
    } else {
        "branch"@
    }) + "/"@ + branch_or_tag + "/"@
}

/// The URL under which the raw files of a tag or branch are served.
pub fn raw_file_base_url(owner_name: &str, repo_name: &str, branch_or_tag: &str, is_tag: bool) -> (res:
    String)
    ensures
        res@ == raw_base_url(owner_name@, repo_name@, branch_or_tag@, is_tag),
{
    let mut url = joined("https://codeberg.org/", owner_name);
    url.append("/");
    url.append(repo_name);
    url.append("/raw/");
    url.append(if is_tag {
        "tag"
    } else {
        "branch"
    });
    url.append("/");
    url.append(branch_or_tag);
    url.append("/");
    url
}

/// The URL of the `build.zig.zon` file of a tag or branch.
pub fn build_zig_zon_url(owner_name: &str, repo_name: &str, branch_or_tag: &str, is_tag: bool) -> (res:
    String)
    ensures
        res@ == raw_base_url(owner_name@, repo_name@, branch_or_tag@, is_tag) + "build.zig.zon"@,
{
    let mut url = raw_file_base_url(owner_name, repo_name, branch_or_tag, is_tag);
    url.append("build.zig.zon");
    url
}

/// The URL of an API endpoint of a repository:
/// `https://codeberg.org/api/v1/repos/<owner>/<repo><suffix>`.
pub fn repo_api_url(owner_name: &str, repo_name: &str, suffix: &str) -> (res: String)
    ensures
        res@ == "https://codeberg.org/api/v1/repos/"@ + owner_name@ + "/"@ + repo_name@ + suffix@,
{
    let mut url = joined("https://codeberg.org/api/v1/repos/", owner_name);
    url.append("/");
    url.append(repo_name);
    url.append(suffix);
    url
}

// ---------------------------------------------------------------------------
// The README
// ---------------------------------------------------------------------------

/// Whether `line` matches the regular expression `(?i)^readme[\w.]*$`:
/// `readme` in any case followed by word characters and dots only.
pub uninterp spec fn readme_pattern_matches(line: Seq<char>) -> bool;

/// Calls `regex::Regex::new(r"(?i)^readme[\w.]*$")` and `is_match` on
/// `line`; whether it matches is named `readme_pattern_matches`. The
/// pattern is a valid constant, so building it does not fail.
#[verifier::external_body]
fn is_readme_file_name(line: &str) -> (b: bool)
    ensures
        b == readme_pattern_matches(line@),
{
    regex::Regex::new(r"(?i)^readme[\w.]*$").unwrap().is_match(line)
}

/// `piece` without a final carriage return.
pub open spec fn strip_cr(piece: Seq<char>) -> Seq<char> {
    if piece.len() > 0 && piece.last() == '\r' {
        piece.drop_last()
    } else {
        piece
    }
}

/// The lines of `s` from position `start` on, as `str::lines` gives them:
/// split at `\n`, a `\r` before the `\n` removed, and no empty line after a
/// final `\n`.
pub open spec fn lines_from(s: Seq<char>, start: int) -> Seq<Seq<char>>
    decreases s.len() - start,
{
    if start < 0 || start >= s.len() {
        Seq::empty()
    } else {
        let p = index_of_from(s, '\n', start);
        if p < s.len() {
            proof {
                lemma_index_of_from(s, '\n', start);
            }
            seq![strip_cr(s.subrange(start, p))] + lines_from(s, p + 1)
        } else {
            seq![s.subrange(start, s.len() as int)]
        }
    }
}

/// The first of `lines` that, trimmed, is a README file name.
pub open spec fn first_readme_line(lines: Seq<Seq<char>>) -> Option<Seq<char>>
    decreases lines.len(),
{
    if lines.len() == 0 {
        None
    } else if readme_pattern_matches(trim_whitespace(lines[0])) {
        Some(lines[0])
    } else {
        first_readme_line(lines.drop_first())
    }
}

/// The first line of a directory listing that, trimmed, is a README file
/// name.
pub fn find_readme_file_name(directory_files: &str) -> (res: Option<String>)
    ensures
        res is Some <==> first_readme_line(lines_from(directory_files@, 0)) is Some,
        res matches Some(n) ==> n@ == first_readme_line(lines_from(directory_files@, 0))->Some_0,
{
    let cs = chars_of(directory_files);
    let n = cs.len();
    let ghost s = cs@;
    let mut pos: usize = 0;
    while pos < n
        invariant
            s == cs@,
            s == directory_files@,
            n == cs@.len(),
            pos <= n,
            first_readme_line(lines_from(s, 0)) == first_readme_line(lines_from(s, pos as int)),
        decreases n - pos,
    {
        proof {
            lemma_index_of_from(s, '\n', pos as int);
        }
        let mut p = pos;
        while p < n && cs[p] != '\n'
            invariant
                s == cs@,
                n == cs@.len(),
                pos <= p <= n,
                index_of_from(s, '\n', p as int) == index_of_from(s, '\n', pos as int),
            decreases n - p,
        {
            p = p + 1;
        }
        let end = if p < n && p > pos && cs[p - 1] == '\r' {
            p - 1
        } else {
            p
        };
        let line = string_from_range(&cs, pos, end);
        let ghost lines = lines_from(s, pos as int);
        assert(lines[0] == line@) by {
            if p < n {
                assert(strip_cr(s.subrange(pos as int, p as int)) == s.subrange(pos as int, end as int));
            }
        }
        let trimmed = trim(line.as_str());
        if is_readme_file_name(trimmed.as_str()) {
            return Some(line);
        }
        assert(lines.drop_first() == lines_from(s, if p < n {
            p + 1
        } else {
            n as int
        }));
        if p < n {
            pos = p + 1;
        } else {
            pos = n;
        }
    }
    None
}

/// The README URL of a tag or branch, found in its root directory listing:
/// none when the listing is empty or names no README.
pub fn codeberg_readme_url(
    owner_name: &str,
    repo_name: &str,
    branch_or_tag: &str,
    is_tag: bool,
    directory_files: &str,
) -> (res: Option<String>)
    ensures
        directory_files@.len() == 0 ==> res is None,
        directory_files@.len() > 0 ==> match first_readme_line(lines_from(directory_files@, 0)) {
            Some(name) => res is Some && res->Some_0@ == raw_base_url(
                owner_name@,
                repo_name@,
                branch_or_tag@,
                is_tag,
            ) + name,
            None => res is None,
        },
{
    if directory_files.is_empty() {
        return None;
    }
    match find_readme_file_name(directory_files) {
        Some(name) => {
            let mut url = raw_file_base_url(owner_name, repo_name, branch_or_tag, is_tag);
            url.append(name.as_str());
            Some(url)
        },
        None => None,
    }
}

// ---------------------------------------------------------------------------
// The root directory listing
// ---------------------------------------------------------------------------

/// The names of the entries of `kind` (`dir` or `file`) among the content
/// records `items`, in order; a record without a string `name` or `type`
/// is skipped.
pub open spec fn entry_names(items: Seq<JsonValue>, kind: Seq<char>) -> Seq<Seq<char>>
    decreases items.len(),
{
    if items.len() == 0 {
        Seq::empty()
    } else {
        let before = entry_names(items.drop_last(), kind);
        let name = json_str(json_get(items.last(), "name"@));
        let ty = json_str(json_get(items.last(), "type"@));
        if name is Some && ty is Some && ty->Some_0 == kind {
            before.push(name->Some_0)
        } else {
            before
        }
    }
}

/// The root directory listing of a tag or branch: the directory names one
/// per line, an empty line, then the file names one per line.
pub open spec fn listing_text(items: Seq<JsonValue>) -> Seq<char> {
    join_with(entry_names(items, "dir"@), "\n"@) + "\n\n"@ + join_with(
        entry_names(items, "file"@),
        "\n"@,
    )
}

/// The text of the member `key` of `v` when it is a string.
fn member_text<'a>(v: &'a JsonValue, key: &str) -> (res: Option<&'a str>)
    ensures
        res is Some <==> json_str(json_get(*v, key@)) is Some,
        res matches Some(s) ==> s@ == json_str(json_get(*v, key@))->Some_0,
{
    match v.get(key) {
        Some(w) => w.as_str(),
        None => None,
    }
}

/// Whether `a` and `b` hold the same characters.
fn same_text(a: &str, b: &str) -> (res: bool)
    ensures
        res == (a@ == b@),
{
    let x = a.to_owned();
    let y = b.to_owned();
    x == y
}

/// The root directory listing built from the content records of a tag or
/// branch (see `listing_text`).
pub fn directory_listing(items: &Vec<JsonValue>) -> (res: String)
    ensures
        res@ == listing_text(items@),
{
    let mut directories: Vec<String> = Vec::new();
    let mut files: Vec<String> = Vec::new();
    let mut i: usize = 0;
    while i < items.len()
        invariant
            i <= items@.len(),
            strings_view(directories@) == entry_names(items@.take(i as int), "dir"@),
            strings_view(files@) == entry_names(items@.take(i as int), "file"@),
        decreases items@.len() - i,
    {
        assert(items@.take(i + 1).drop_last() == items@.take(i as int));
        assert(items@.take(i + 1).last() == items@[i as int]);
        assert("dir"@ != "file"@) by {
            reveal_strlit("dir");
            reveal_strlit("file");
            assert("dir"@[0] != "file"@[0]);
        }
        let item = &items[i];
        let name = member_text(item, "name");
        let kind = member_text(item, "type");
        if let (Some(n), Some(k)) = (name, kind) {
            if same_text(k, "dir") {
                let ghost before = directories@;
                directories.push(n.to_owned());
                assert(strings_view(directories@) == strings_view(before).push(n@));
            } else if same_text(k, "file") {
                let ghost before = files@;
                files.push(n.to_owned());
                assert(strings_view(files@) == strings_view(before).push(n@));
            }
        }
        i = i + 1;
    }
    assert(items@.take(items@.len() as int) == items@);
    let mut listing = join_strings(&directories, "\n");
    listing.append("\n\n");
    let files_text = join_strings(&files, "\n");
    listing.append(files_text.as_str());
    listing
}

// ---------------------------------------------------------------------------
// Commit hash
// ---------------------------------------------------------------------------

/// The hash stored for the newest commit of a commits listing: the `sha`
/// of its first record (see `normal_commit_hash`).
pub fn latest_commit_hash_of(commits: &JsonValue) -> (res: String)
    ensures
        res@ == normal_commit_hash(
            match json_at(*commits, 0) {
                Some(c) => json_str(json_get(c, "sha"@)),
                None => None,
            },
        ),
{
    let raw_sha = match commits.at(0) {
        Some(c) => member_text(c, "sha"),
        None => None,
    };
    makeing_commit_hash_normal(raw_sha)
}

// ---------------------------------------------------------------------------
// Languages
// ---------------------------------------------------------------------------

/// The value of a JSON number when it is an unsigned integer that fits in a
/// `u64` (`Value::as_u64`).
pub open spec fn json_u64(v: JsonValue) -> Option<u64> {
    match v {
        JsonValue::Number(t) => if t@.len() > 0 && t@[0] != '+' {
            parsed_u64(t@)
        } else {
            None
        },
        _ => None,
    }
}

/// The languages of a languages record with their sizes, in the record's
/// order; members whose size is not an unsigned integer are skipped.
pub open spec fn language_sizes(members: Seq<(String, JsonValue)>) -> Seq<(Seq<char>, u64)>
    decreases members.len(),
{
    if members.len() == 0 {
        Seq::empty()
    } else {
        let before = language_sizes(members.drop_last());
        match json_u64(members.last().1) {
            Some(size) => before.push((members.last().0@, size)),
            None => before,
        }
    }
}

/// How many of `langs[0..upto]` come before `langs[i]` once the languages
/// are sorted by size, largest first, equal sizes keeping their order.
pub open spec fn rank_before(langs: Seq<(Seq<char>, u64)>, i: int, upto: int) -> nat
    decreases upto,
{
    if upto <= 0 {
        0
    } else {
        let j = upto - 1;
        rank_before(langs, i, j) + if langs[j].1 > langs[i].1 || (langs[j].1 == langs[i].1 && j
            < i) {
            1nat
        } else {
            0nat
        }
    }
}

/// The position of `langs[i]` once the languages are sorted by size,
/// largest first, equal sizes keeping their order.
pub open spec fn size_rank(langs: Seq<(Seq<char>, u64)>, i: int) -> nat {
    rank_before(langs, i, langs.len() as int)
}

/// Whether Zig (in any ASCII case) is among the ten largest languages.
pub open spec fn zig_in_top_ten(langs: Seq<(Seq<char>, u64)>) -> bool {
    exists|i: int|
        0 <= i < langs.len() && eq_ignore_ascii_case(#[trigger] langs[i].0, "zig"@) && size_rank(
            langs,
            i,
        ) < 10
}

proof fn lemma_rank_before_bound(langs: Seq<(Seq<char>, u64)>, i: int, upto: int)
    requires
        0 <= i < langs.len(),
        0 <= upto <= langs.len(),
    ensures
        rank_before(langs, i, upto) + (if i < upto { 1int } else { 0int }) <= upto,
    decreases upto,
{
    if upto > 0 {
        lemma_rank_before_bound(langs, i, upto - 1);
    }
}

proof fn lemma_rank_before_largest(langs: Seq<(Seq<char>, u64)>, i: int, upto: int)
    requires
        0 <= i < langs.len(),
        0 <= upto <= langs.len(),
        forall|j: int| 0 <= j < langs.len() && j != i ==> (#[trigger] langs[j]).1 < langs[i].1,
    ensures
        rank_before(langs, i, upto) == 0,
    decreases upto,
{
    if upto > 0 {
        lemma_rank_before_largest(langs, i, upto - 1);
    }
}

/// With at most ten sized languages every one of them is in the top ten, so
/// Zig is among them exactly when one of them is Zig (in any ASCII case).
pub proof fn law_few_languages_all_count(langs: Seq<(Seq<char>, u64)>)
    requires
        langs.len() <= 10,
    ensures
        zig_in_top_ten(langs) <==> exists|i: int|
            0 <= i < langs.len() && eq_ignore_ascii_case(#[trigger] langs[i].0, "zig"@),
{
    assert forall|i: int| 0 <= i < langs.len() implies #[trigger] size_rank(langs, i) < 10 by {
        lemma_rank_before_bound(langs, i, langs.len() as int);
    }
    if exists|i: int| 0 <= i < langs.len() && eq_ignore_ascii_case(#[trigger] langs[i].0, "zig"@) {
        let i = choose|i: int| 0 <= i < langs.len() && eq_ignore_ascii_case(#[trigger] langs[i].0, "zig"@);
        assert(size_rank(langs, i) < 10);
    }
}

/// Zig, when it is strictly the largest language, is in the top ten,
/// however many languages there are.
pub proof fn law_largest_language_counts(langs: Seq<(Seq<char>, u64)>, i: int)
    requires
        0 <= i < langs.len(),
        eq_ignore_ascii_case(langs[i].0, "zig"@),
        forall|j: int| 0 <= j < langs.len() && j != i ==> (#[trigger] langs[j]).1 < langs[i].1,
    ensures
        zig_in_top_ten(langs),
{
    lemma_rank_before_largest(langs, i, langs.len() as int);
    assert(size_rank(langs, i) == 0);
}

/// The value of a JSON number when it is an unsigned integer that fits in a
/// `u64`.
fn number_as_u64(v: &JsonValue) -> (res: Option<u64>)
    ensures
        res == json_u64(*v),
{
    match v {
        JsonValue::Number(t) => {
            let s = t.as_str();
            if s.is_empty() {
                return None;
            }
            let cs = chars_of(s);
            if cs[0] == '+' {
                return None;
            }
            parse_u64(s)
        },
        _ => None,
    }
}

/// The sized languages of a languages record (see `language_sizes`).
fn sized_languages(members: &Vec<(String, JsonValue)>) -> (res: Vec<(String, u64)>)
    ensures
        res@.map_values(|p: (String, u64)| (p.0@, p.1)) == language_sizes(members@),
{
    let mut out: Vec<(String, u64)> = Vec::new();
    let mut i: usize = 0;
    while i < members.len()
        invariant
            i <= members@.len(),
            out@.map_values(|p: (String, u64)| (p.0@, p.1)) == language_sizes(
                members@.take(i as int),
            ),
        decreases members@.len() - i,
    {
        assert(members@.take(i + 1).drop_last() == members@.take(i as int));
        assert(members@.take(i + 1).last() == members@[i as int]);
        match number_as_u64(&members[i].1) {
            Some(size) => {
                let ghost before = out@;
                out.push((members[i].0.clone(), size));
                assert(out@.map_values(|p: (String, u64)| (p.0@, p.1)) == before.map_values(
                    |p: (String, u64)| (p.0@, p.1),
                ).push((members@[i as int].0@, size)));
            },
            None => {},
        }
        i = i + 1;
    }
    assert(members@.take(members@.len() as int) == members@);
    out
}

/// Whether Zig is among the ten largest languages of a languages record
/// (an object from language name to size in bytes).
#[verifier::loop_isolation(false)]
pub fn zig_in_top_languages(languages: &JsonValue) -> (res: bool)
    ensures
        res == match *languages {
            JsonValue::Object(members) => zig_in_top_ten(language_sizes(members@)),
            _ => false,
        },
{
    let members = match languages {
        JsonValue::Object(m) => m,
        _ => {
            return false;
        },
    };
    let langs = sized_languages(members);
    let ghost lv = langs@.map_values(|p: (String, u64)| (p.0@, p.1));
    let n = langs.len();
    let mut i: usize = 0;
    while i < n
        invariant
            n == langs@.len(),
            lv == langs@.map_values(|p: (String, u64)| (p.0@, p.1)),
            i <= n,
            forall|k: int|
                0 <= k < i ==> !(eq_ignore_ascii_case(#[trigger] lv[k].0, "zig"@) && size_rank(
                    lv,
                    k,
                ) < 10),
        decreases n - i,
    {
        if str_eq_ignore_ascii_case(langs[i].0.as_str(), "zig") {
            let size = langs[i].1;
            let mut rank: usize = 0;
            let mut j: usize = 0;
            while j < n
                invariant
                    n == langs@.len(),
                    lv == langs@.map_values(|p: (String, u64)| (p.0@, p.1)),
                    i < n,
                    j <= n,
                    size == lv[i as int].1,
                    rank as nat == rank_before(lv, i as int, j as int),
                    rank <= j,
                decreases n - j,
            {
                if langs[j].1 > size || (langs[j].1 == size && j < i) {
                    rank = rank + 1;
                }
                j = j + 1;
            }
            if rank < 10 {
                assert(eq_ignore_ascii_case(lv[i as int].0, "zig"@) && size_rank(lv, i as int) < 10);
                return true;
            }
        }
        i = i + 1;
    }
    false
}

// ---------------------------------------------------------------------------
// Retrying the search API
// ---------------------------------------------------------------------------

/// How many times a search page is requested before the crawler gives up.
pub const SEARCH_ATTEMPTS: u32 = 5;

/// The wait, in seconds, after failed attempt `attempt` (counted from 0) to
/// get a search page: for a 429 answer the `Retry-After` header when it is
/// a number, else 60; otherwise `2^attempt`.
pub fn search_retry_wait_secs(too_many_requests: bool, retry_after: Option<&str>, attempt: u32) -> (res:
    u64)
    requires
        attempt < 64,
    ensures
        res == if too_many_requests {
            match retry_after {
                Some(h) => match parsed_u64(h@) {
                    Some(v) => v,
                    None => 60,
                },
                None => 60,
            }
        } else {
            vstd::arithmetic::power2::pow2(attempt as nat) as u64
        },
{
    if too_many_requests {
        match retry_after {
            Some(h) => match parse_u64(h) {
                Some(v) => v,
                None => 60,
            },
            None => 60,
        }
    } else {
        backoff_secs(attempt)
    }
}

/// `2^attempt` seconds.
pub fn backoff_secs(attempt: u32) -> (res: u64)
    requires
        attempt < 64,
    ensures
        res == vstd::arithmetic::power2::pow2(attempt as nat),
{
    let mut r: u64 = 1;
    let mut k: u32 = 0;
    proof {
        vstd::arithmetic::power2::lemma2_to64();
    }
    while k < attempt
        invariant
            k <= attempt < 64,
            r == vstd::arithmetic::power2::pow2(k as nat),
        decreases attempt - k,
    {
        proof {
            vstd::arithmetic::power2::lemma_pow2_unfold((k + 1) as nat);
            vstd::arithmetic::power2::lemma2_to64_rest();
            if k + 1 < 64 {
                vstd::arithmetic::power2::lemma_pow2_strictly_increases((k + 1) as nat, 64);
            }
        }
        r = r * 2;
        k = k + 1;
    }
    r
}

} // verus!
