//! The decisions of the batch jobs: reading repository ids, building the
//! GraphQL queries that refresh repositories, and choosing what to fetch.
use vstd::prelude::*;
use crate::text::{
    chars_of, string_from_range, index_of_from, lemma_index_of_from, push_char, joined, trim,
    trim_whitespace, eq_ignore_ascii_case, str_eq_ignore_ascii_case, u64_to_text, decimal_text,
};
use crate::json::{JsonValue, json_get};

verus! {

broadcast use vstd::string::group_string_axioms;

// ---------------------------------------------------------------------------
// Repository ids
// ---------------------------------------------------------------------------

/// The parts of `s` between the occurrences of `c`, from position `start`
/// on (`str::split`): one more part than there are `c`s.
pub open spec fn parts_from(s: Seq<char>, c: char, start: int) -> Seq<Seq<char>>
    decreases s.len() + 1 - start,
{
    if start < 0 || start > s.len() {
        Seq::empty()
    } else {
        let p = index_of_from(s, c, start);
        if p < s.len() {
            proof {
                lemma_index_of_from(s, c, start);
            }
            seq![s.subrange(start, p)] + parts_from(s, c, p + 1)
        } else {
            seq![s.subrange(start, s.len() as int)]
        }
    }
}

/// The parts of `s` between its `/`s.
pub open spec fn slash_parts(s: Seq<char>) -> Seq<Seq<char>> {
    parts_from(s, '/', 0)
}

/// Splits `s` at every `c` (see `parts_from`).
pub fn split_all(s: &str, c: char) -> (res: Vec<String>)
    ensures
        res@.map_values(|p: String| p@) == parts_from(s@, c, 0),
{
    let cs = chars_of(s);
    let n = cs.len();
    let mut out: Vec<String> = Vec::new();
    let mut start: usize = 0;
    loop
        invariant
            n == cs@.len(),
            cs@ == s@,
            start <= n,
            parts_from(s@, c, 0) == out@.map_values(|p: String| p@) + parts_from(s@, c, start as int),
        decreases n - start,
    {
        proof {
            lemma_index_of_from(cs@, c, start as int);
        }
        let mut p = start;
        while p < n && cs[p] != c
            invariant
                n == cs@.len(),
                start <= p <= n,
                index_of_from(cs@, c, p as int) == index_of_from(cs@, c, start as int),
            decreases n - p,
        {
            p = p + 1;
        }
        let part = string_from_range(&cs, start, p);
        let ghost before = out@;
        out.push(part);
        assert(out@.map_values(|q: String| q@) == before.map_values(|q: String| q@).push(part@));
        if p < n {
            assert(parts_from(s@, c, start as int) == seq![part@] + parts_from(s@, c, p + 1));
            assert(before.map_values(|q: String| q@) + (seq![part@] + parts_from(s@, c, p + 1))
                == out@.map_values(|q: String| q@) + parts_from(s@, c, p + 1));
            start = p + 1;
        } else {
            assert(parts_from(s@, c, start as int) == seq![part@]);
            assert(before.map_values(|q: String| q@) + seq![part@] == out@.map_values(
                |q: String| q@,
            ));
            return out;
        }
    }
}

/// The owner and name in a GitHub repository id `gh/<owner>/<name>`: the
/// id must have exactly these three parts, both names non-empty.
pub open spec fn github_repo_id_parts(repo_id: Seq<char>) -> Option<(Seq<char>, Seq<char>)> {
    let parts = slash_parts(repo_id);
    if parts.len() == 3 && parts[0] == "gh"@ && parts[1].len() > 0 && parts[2].len() > 0 {
        Some((parts[1], parts[2]))
    } else {
        None
    }
}

/// The owner and name in a GitHub repository id (see
/// `github_repo_id_parts`).
pub fn parse_github_repo_id(repo_id: &str) -> (res: Option<(String, String)>)
    ensures
        res is Some <==> github_repo_id_parts(repo_id@) is Some,
        res matches Some(r) ==> (r.0@, r.1@) == github_repo_id_parts(repo_id@)->Some_0,
{
    let parts = split_all(repo_id, '/');
    let ghost pv = parts@.map_values(|p: String| p@);
    if parts.len() != 3 {
        return None;
    }
    assert(pv[0] == parts@[0]@ && pv[1] == parts@[1]@ && pv[2] == parts@[2]@);
    if !crate::github::crawl::str_equals(parts[0].as_str(), "gh") {
        return None;
    }
    if parts[1].as_str().is_empty() || parts[2].as_str().is_empty() {
        return None;
    }
    Some((parts[1].clone(), parts[2].clone()))
}

/// The platform, owner and name of a repository id `<platform>/<owner>/<name>`
/// (the first three parts between `/`s; later parts are ignored).
pub fn parse_repo_id(id: &str) -> (res: Result<(String, String, String), String>)
    requires
        slash_parts(id@).len() >= 3,
    ensures
        res is Ok,
        res matches Ok(r) ==> r.0@ == slash_parts(id@)[0] && r.1@ == slash_parts(id@)[1] && r.2@
            == slash_parts(id@)[2],
{
    let parts = split_all(id, '/');
    let ghost pv = parts@.map_values(|p: String| p@);
    assert(pv[0] == parts@[0]@ && pv[1] == parts@[1]@ && pv[2] == parts@[2]@);
    Ok((parts[0].clone(), parts[1].clone(), parts[2].clone()))
}

/// The platforms whose repositories are indexed.
#[derive(Debug, Clone, Copy, PartialEq, Eq)]
pub enum Platform {
    GitHub,
    Codeberg,
}

/// The platform of an id prefix: `gh` is GitHub, `cb` is Codeberg, others
/// are unknown.
pub fn platform_of(prefix: &str) -> (res: Option<Platform>)
    ensures
        res == if prefix@ == "gh"@ {
            Some(Platform::GitHub)
        } else if prefix@ == "cb"@ {
            Some(Platform::Codeberg)
        } else {
            None
        },
{
    if crate::github::crawl::str_equals(prefix, "gh") {
        Some(Platform::GitHub)
    } else if crate::github::crawl::str_equals(prefix, "cb") {
        Some(Platform::Codeberg)
    } else {
        None
    }
}

/// The branch whose README is read: `HEAD` for a blank branch name.
pub fn readme_branch(branch: String) -> (res: String)
    ensures
        res@ == if trim_whitespace(branch@).len() == 0 {
            "HEAD"@
        } else {
            branch@
        },
{
    let trimmed = trim(branch.as_str());
    if trimmed.as_str().is_empty() {
        "HEAD".to_string()
    } else {
        branch
    }
}

/// Whether a queued repository is a package: its type is `package` up to
/// ASCII case.
pub fn is_package_type(type_of_repo: &str) -> (res: bool)
    ensures
        res == eq_ignore_ascii_case(type_of_repo@, "package"@),
{
    str_eq_ignore_ascii_case(type_of_repo, "package")
}

// ---------------------------------------------------------------------------
// GraphQL queries
// ---------------------------------------------------------------------------

/// `c` as it is written inside a GraphQL string literal.
pub open spec fn escaped_char(c: char) -> Seq<char> {
    if c == '\\' {
        seq!['\\', '\\']
    } else if c == '"' {
        seq!['\\', '"']
    } else {
        seq![c]
    }
}

/// `s` with every backslash and double quote escaped by a backslash.
pub open spec fn escaped(s: Seq<char>) -> Seq<char>
    decreases s.len(),
{
    if s.len() == 0 {
        Seq::empty()
    } else {
        escaped(s.drop_last()) + escaped_char(s.last())
    }
}

/// Whether a GraphQL string body `e` holds no quote that would end the
/// literal: read from the front, a backslash takes the next char with it,
/// and the body neither has a quote standing alone nor ends with a lone
/// backslash.
pub open spec fn no_bare_quote(e: Seq<char>) -> bool
    decreases e.len(),
{
    if e.len() == 0 {
        true
    } else if e[0] == '\\' {
        e.len() >= 2 && no_bare_quote(e.skip(2))
    } else if e[0] == '"' {
        false
    } else {
        no_bare_quote(e.skip(1))
    }
}

/// The text that a GraphQL string body `e` stands for: a backslash and the
/// char after it stand for that char.
pub open spec fn unescaped(e: Seq<char>) -> Seq<char>
    decreases e.len(),
{
    if e.len() == 0 {
        Seq::empty()
    } else if e[0] == '\\' && e.len() >= 2 {
        seq![e[1]] + unescaped(e.skip(2))
    } else {
        seq![e[0]] + unescaped(e.skip(1))
    }
}

proof fn lemma_escaped_concat(a: Seq<char>, b: Seq<char>)
    ensures
        escaped(a + b) == escaped(a) + escaped(b),
    decreases b.len(),
{
    if b.len() == 0 {
        assert(a + b == a);
    } else {
        lemma_escaped_concat(a, b.drop_last());
        assert((a + b).drop_last() == a + b.drop_last());
        assert((a + b).last() == b.last());
    }
}

proof fn lemma_escaped_char_front(c: char, y: Seq<char>)
    ensures
        no_bare_quote(escaped_char(c) + y) == no_bare_quote(y),
        unescaped(escaped_char(c) + y) == seq![c] + unescaped(y),
{
    let x = escaped_char(c) + y;
    if c == '\\' || c == '"' {
        assert(x.skip(2) == y);
        assert(x[1] == c);
    } else {
        assert(x.skip(1) == y);
    }
}

/// Escaping is safe and loses nothing: the escaped text holds no quote
/// that would end the literal, and reading it back gives the text itself.
pub proof fn law_escape_is_safe_and_reversible(s: Seq<char>)
    ensures
        no_bare_quote(escaped(s)),
        unescaped(escaped(s)) == s,
    decreases s.len(),
{
    if s.len() > 0 {
        let rest = s.skip(1);
        law_escape_is_safe_and_reversible(rest);
        assert(s == seq![s[0]] + rest);
        lemma_escaped_concat(seq![s[0]], rest);
        assert(escaped(seq![s[0]]) == escaped_char(s[0])) by {
            let one = seq![s[0]];
            assert(one.drop_last() =~= Seq::<char>::empty());
            assert(one.last() == s[0]);
            assert(escaped(one.drop_last()) == Seq::<char>::empty());
            assert(Seq::<char>::empty() + escaped_char(s[0]) =~= escaped_char(s[0]));
        }
        lemma_escaped_char_front(s[0], escaped(rest));
    }
}

/// `value` made safe to stand inside a GraphQL string literal: every
/// backslash and double quote is preceded by a backslash.
pub fn escape_graphql_string(value: &str) -> (res: String)
    ensures
        res@ == escaped(value@),
{
    let cs = chars_of(value);
    let mut out = String::new();
    let mut i: usize = 0;
    while i < cs.len()
        invariant
            i <= cs@.len(),
            cs@ == value@,
            out@ == escaped(cs@.take(i as int)),
        decreases cs@.len() - i,
    {
        let c = cs[i];
        assert(cs@.take(i + 1).drop_last() == cs@.take(i as int));
        assert(cs@.take(i + 1).last() == c);
        let ghost before = out@;
        if c == '\\' {
            push_char(&mut out, '\\');
            push_char(&mut out, '\\');
        } else if c == '"' {
            push_char(&mut out, '\\');
            push_char(&mut out, '"');
        } else {
            push_char(&mut out, c);
        }
        assert(out@ == before + escaped_char(c));
        i = i + 1;
    }
    assert(cs@.take(cs@.len() as int) == cs@);
    out
}

/// The GraphQL selection of one repository, under an optional alias:
/// `repository(owner: "<owner>", name: "<name>") { ...RepoFields }`.
pub open spec fn repository_selection(owner: Seq<char>, name: Seq<char>) -> Seq<char> {
    "repository(owner: \""@ + escaped(owner) + "\", name: \""@ + escaped(name)
        + "\") { ...RepoFields }"@
}

fn repository_selection_text(owner: &str, name: &str) -> (res: String)
    ensures
        res@ == repository_selection(owner@, name@),
{
    let mut q = "repository(owner: \"".to_string();
    let eo = escape_graphql_string(owner);
    q.append(eo.as_str());
    q.append("\", name: \"");
    let en = escape_graphql_string(name);
    q.append(en.as_str());
    q.append("\") { ...RepoFields }");
    q
}

/// The query for one repository, followed by the `RepoFields` fragment.
pub fn make_repo_query(owner_name: &str, repo_name: &str, fragment: &str) -> (res: String)
    ensures
        res@ == "query {\n  "@ + repository_selection(owner_name@, repo_name@) + "\n}\n"@
            + fragment@,
{
    let mut q = "query {\n  ".to_string();
    let sel = repository_selection_text(owner_name, repo_name);
    q.append(sel.as_str());
    q.append("\n}\n");
    q.append(fragment);
    q
}

/// A repository waiting in `needs_updates`.
#[derive(Debug, Clone)]
pub struct NeedsUpdateRow {
    pub id: String,
    pub type_of_repo: String,
}

/// The alias under which the repository at position `idx` of a batch is
/// asked for.
pub open spec fn batch_alias(idx: nat) -> Seq<char> {
    "repo_"@ + decimal_text(idx)
}

/// The alias `repo_<idx>`.
pub fn batch_alias_text(idx: u64) -> (res: String)
    ensures
        res@ == batch_alias(idx as nat),
{
    let mut a = "repo_".to_string();
    let d = u64_to_text(idx);
    a.append(d.as_str());
    a
}

/// The lines of a batch query for the rows `rows[0..k]`: one aliased
/// selection for each row with a valid GitHub id, rows with other ids
/// skipped.
pub open spec fn batch_lines(rows: Seq<NeedsUpdateRow>, k: int) -> Seq<char>
    decreases k,
{
    if k <= 0 {
        Seq::empty()
    } else {
        let before = batch_lines(rows, k - 1);
        match github_repo_id_parts(rows[k - 1].id@) {
            Some(names) => before + "  "@ + batch_alias((k - 1) as nat) + ": "@
                + repository_selection(names.0, names.1) + "\n"@,
            None => before,
        }
    }
}

/// The query that asks for every repository of a batch at once, followed
/// by the `RepoFields` fragment.
pub fn build_batch_query(rows: &Vec<NeedsUpdateRow>, fragment: &str) -> (res: String)
    ensures
        res@ == "query {\n"@ + batch_lines(rows@, rows@.len() as int) + "}\n"@ + fragment@,
{
    let mut query = "query {\n".to_string();
    let mut repo_idx: usize = 0;
    while repo_idx < rows.len()
        invariant
            repo_idx <= rows@.len(),
            query@ == "query {\n"@ + batch_lines(rows@, repo_idx as int),
        decreases rows@.len() - repo_idx,
    {
        let ghost before = query@;
        match parse_github_repo_id(rows[repo_idx].id.as_str()) {
            Some((owner, repo)) => {
                query.append("  ");
                let alias = batch_alias_text(repo_idx as u64);
                query.append(alias.as_str());
                query.append(": ");
                let sel = repository_selection_text(owner.as_str(), repo.as_str());
                query.append(sel.as_str());
                query.append("\n");
                assert(query@ == "query {\n"@ + batch_lines(rows@, repo_idx + 1));
            },
            None => {},
        }
        repo_idx = repo_idx + 1;
    }
    query.append("}\n");
    query.append(fragment);
    query
}

/// The positions among `rows[0..k]` of the repositories that a batch answer
/// carries: rows with a valid GitHub id whose alias is a member of the
/// answer's `data` object and is not `null`, in order.
pub open spec fn answered_positions(rows: Seq<NeedsUpdateRow>, response: JsonValue, k: int) -> Seq<
    int,
>
    decreases k,
{
    if k <= 0 {
        Seq::empty()
    } else {
        let before = answered_positions(rows, response, k - 1);
        let value = match json_get(response, "data"@) {
            Some(d) => json_get(d, batch_alias((k - 1) as nat)),
            None => None,
        };
        let carried = match value {
            Some(v) => !(v is Null),
            None => false,
        };
        if github_repo_id_parts(rows[k - 1].id@) is Some && carried {
            before.push(k - 1)
        } else {
            before
        }
    }
}

/// The positions of the rows of a batch that its answer carries a
/// repository for (see `answered_positions`).
pub fn answered_rows(rows: &Vec<NeedsUpdateRow>, response: &JsonValue) -> (res: Vec<usize>)
    ensures
        res@.map_values(|i: usize| i as int) == answered_positions(
            rows@,
            *response,
            rows@.len() as int,
        ),
{
    let mut out: Vec<usize> = Vec::new();
    let data = response.get("data");
    let mut k: usize = 0;
    while k < rows.len()
        invariant
            k <= rows@.len(),
            data is Some <==> json_get(*response, "data"@) is Some,
            data matches Some(d) ==> *d == json_get(*response, "data"@)->Some_0,
            out@.map_values(|i: usize| i as int) == answered_positions(rows@, *response, k as int),
        decreases rows@.len() - k,
    {
        let ghost before = out@;
        if parse_github_repo_id(rows[k].id.as_str()).is_some() {
            if let Some(d) = data {
                let alias = batch_alias_text(k as u64);
                match d.get(alias.as_str()) {
                    Some(v) => {
                        if !matches!(v, JsonValue::Null) {
                            out.push(k);
                            assert(out@.map_values(|i: usize| i as int) == before.map_values(
                                |i: usize| i as int,
                            ).push(k as int));
                        }
                    },
                    None => {},
                }
            }
        }
        k = k + 1;
    }
    out
}

} // verus!
