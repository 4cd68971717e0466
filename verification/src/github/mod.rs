//! The decisions of the GitHub crawler: whether a repository is written in
//! Zig, which commit it is at, how its identifiers are formed, and what is
//! written for it.
use vstd::prelude::*;
use crate::constants::limits;
use crate::database::{truncated, truncate_to_char_limit, truncate_option_to_char_limit};
use crate::json::{JsonValue, json_get, json_path, json_str};
use crate::text::{
    trim, trim_whitespace, eq_ignore_ascii_case, str_eq_ignore_ascii_case, unicode_lowercase,
    to_lowercase, split_once, split_once_at, joined, opt_text, strings_view,
};
use crate::github::types::{Node, DefaultBranchRef, ReleaseNode, RepositoryTopics, TopicNode, TopicEdge};
use crate::github::github_data::{ReleaseData, RepoData};
use crate::custom_types::{Dependency, SpecDependency, dependencies_view};
use crate::records::{
    RepoWritePlan, UserRow, RepoRow, ReleaseRow, is_release_row, release_row, prepare_topics,
    first_occurrences, kept_topics, default_branch_version, plan_fits_columns,
    lemma_plan_topics, lemma_release_row_fits, release_row_fits, cut_from, lemma_truncated_cut,
    release_row_columns, law_release_row_columns,
};

pub mod crawl;
pub mod github_data;
pub mod types;

verus! {

broadcast use vstd::string::group_string_axioms;

// ---------------------------------------------------------------------------
// Commit hashes
// ---------------------------------------------------------------------------

/// The commit hash stored for a raw object id: the trimmed id cut to the
/// column limit, or `unknown` when there is no id or it is blank.
pub open spec fn normal_commit_hash(raw_oid: Option<Seq<char>>) -> Seq<char> {
    match raw_oid {
        Some(oid) => if trim_whitespace(oid).len() > 0 {
            truncated(trim_whitespace(oid), limits::REPO_COMMIT_HASH_MAX_LEN as nat)
        } else {
            "unknown"@
        },
        None => "unknown"@,
    }
}

/// The commit hash stored for a raw object id (see `normal_commit_hash`).
pub fn makeing_commit_hash_normal(raw_oid: Option<&str>) -> (res: String)
    ensures
        res@ == normal_commit_hash(
            match raw_oid {
                Some(o) => Some(o@),
                None => None,
            },
        ),
{
    match raw_oid {
        Some(oid) => {
            let trimmed = trim(oid);
            if trimmed.as_str().is_empty() {
                "unknown".to_string()
            } else {
                truncate_to_char_limit(trimmed.as_str(), limits::REPO_COMMIT_HASH_MAX_LEN)
            }
        },
        None => "unknown".to_string(),
    }
}

/// The object id at the tip of the default branch, when GitHub gave one.
pub open spec fn branch_oid(default_branch_ref: Option<DefaultBranchRef>) -> Option<Seq<char>> {
    match default_branch_ref {
        Some(branch) => match branch.target {
            Some(target) => match target.oid {
                Some(oid) => Some(oid@),
                None => None,
            },
            None => None,
        },
        None => None,
    }
}

/// The commit hash stored for a repository's default branch.
pub fn get_commit_hash(default_branch_ref: Option<&DefaultBranchRef>) -> (res: String)
    ensures
        res@ == normal_commit_hash(
            branch_oid(
                match default_branch_ref {
                    Some(b) => Some(*b),
                    None => None,
                },
            ),
        ),
{
    let raw_oid: Option<&str> = match default_branch_ref {
        Some(branch) => match &branch.target {
            Some(target) => match &target.oid {
                Some(oid) => Some(oid.as_str()),
                None => None,
            },
            None => None,
        },
        None => None,
    };
    makeing_commit_hash_normal(raw_oid)
}

/// The object id that a raw repository node carries, looked up at
/// `defaultBranchRef.target.oid`, then `defaultBranchRef.target.commit.oid`,
/// then `default_branch_ref.target.oid`; the first that is a string wins.
pub open spec fn node_oid(node: JsonValue) -> Option<Seq<char>> {
    let first = json_str(json_path(node, seq!["defaultBranchRef"@, "target"@, "oid"@]));
    let second = json_str(json_path(node, seq!["defaultBranchRef"@, "target"@, "commit"@, "oid"@]));
    let third = json_str(json_path(node, seq!["default_branch_ref"@, "target"@, "oid"@]));
    if first is Some {
        first
    } else if second is Some {
        second
    } else {
        third
    }
}

/// The string at the end of a path of object keys, when there is one.
fn string_at_path<'a>(node: &'a JsonValue, keys: &Vec<&str>) -> (res: Option<&'a str>)
    ensures
        res is Some <==> json_str(json_path(*node, keys@.map_values(|k: &str| k@))) is Some,
        res matches Some(s) ==> s@ == json_str(json_path(*node, keys@.map_values(|k: &str| k@)))->Some_0,
{
    let ghost kv = keys@.map_values(|k: &str| k@);
    let mut cur: &JsonValue = node;
    let mut i: usize = 0;
    assert(kv.skip(0) == kv);
    while i < keys.len()
        invariant
            kv == keys@.map_values(|k: &str| k@),
            i <= keys@.len(),
            json_path(*node, kv) == json_path(*cur, kv.skip(i as int)),
        decreases keys@.len() - i,
    {
        assert(kv.skip(i as int).drop_first() == kv.skip(i + 1));
        assert(kv.skip(i as int)[0] == keys@[i as int]@);
        match cur.get(keys[i]) {
            Some(next) => {
                cur = next;
            },
            None => {
                return None;
            },
        }
        i = i + 1;
    }
    assert(kv.skip(keys@.len() as int).len() == 0);
    cur.as_str()
}

/// The commit hash stored for a raw repository node (see `node_oid`).
pub fn get_commit_hash_value(node: &JsonValue) -> (res: String)
    ensures
        res@ == normal_commit_hash(node_oid(*node)),
{
    let mut first_path: Vec<&str> = Vec::new();
    first_path.push("defaultBranchRef");
    first_path.push("target");
    first_path.push("oid");
    let mut second_path: Vec<&str> = Vec::new();
    second_path.push("defaultBranchRef");
    second_path.push("target");
    second_path.push("commit");
    second_path.push("oid");
    let mut third_path: Vec<&str> = Vec::new();
    third_path.push("default_branch_ref");
    third_path.push("target");
    third_path.push("oid");
    assert(first_path@.map_values(|k: &str| k@) == seq!["defaultBranchRef"@, "target"@, "oid"@]);
    assert(second_path@.map_values(|k: &str| k@) == seq![
        "defaultBranchRef"@,
        "target"@,
        "commit"@,
        "oid"@,
    ]);
    assert(third_path@.map_values(|k: &str| k@) == seq!["default_branch_ref"@, "target"@, "oid"@]);
    let raw_oid = match string_at_path(node, &first_path) {
        Some(oid) => Some(oid),
        None => match string_at_path(node, &second_path) {
            Some(oid) => Some(oid),
            None => string_at_path(node, &third_path),
        },
    };
    makeing_commit_hash_normal(raw_oid)
}

// ---------------------------------------------------------------------------
// Languages
// ---------------------------------------------------------------------------

/// Whether a `languages` value names Zig: a string equal to `zig` up to
/// ASCII case, an array with such an item, or an object whose `name` is
/// such a string or whose `node`, `edges` or `nodes` member contains one.
pub open spec fn json_contains_zig(value: JsonValue) -> bool {
    contains_zig_from(value, 0)
}

/// `json_contains_zig`, where for an array only the items from position `k`
/// on are looked at.
pub open spec fn contains_zig_from(value: JsonValue, k: int) -> bool
    decreases value, (match value {
        JsonValue::Array(items) => items@.len() - k,
        _ => 0,
    }),
{
    match value {
        JsonValue::Str(name) => eq_ignore_ascii_case(name@, "zig"@),
        JsonValue::Array(items) => if 0 <= k < items@.len() {
            contains_zig_from(items@[k], 0) || contains_zig_from(value, k + 1)
        } else {
            false
        },
        JsonValue::Object(members) => {
            let n = crate::json::member_index(members@, "name"@, 0);
            let nd = crate::json::member_index(members@, "node"@, 0);
            let e = crate::json::member_index(members@, "edges"@, 0);
            let ns = crate::json::member_index(members@, "nodes"@, 0);
            ||| (0 <= n < members@.len() && members@[n].1 is Str && eq_ignore_ascii_case(
                members@[n].1->Str_0@,
                "zig"@,
            ))
            ||| (0 <= nd < members@.len() && contains_zig_from(members@[nd].1, 0))
            ||| (0 <= e < members@.len() && contains_zig_from(members@[e].1, 0))
            ||| (0 <= ns < members@.len() && contains_zig_from(members@[ns].1, 0))
        },
        _ => false,
    }
}

proof fn lemma_array_contains_zig_from(value: JsonValue, k: int)
    requires
        value is Array,
        0 <= k,
    ensures
        contains_zig_from(value, k) <==> exists|i: int|
            k <= i < value->Array_0@.len() && json_contains_zig(#[trigger] value->Array_0@[i]),
    decreases value->Array_0@.len() - k,
{
    let items = value->Array_0@;
    if k < items.len() {
        lemma_array_contains_zig_from(value, k + 1);
        if contains_zig_from(value, k + 1) {
            let i = choose|i: int| k + 1 <= i < items.len() && json_contains_zig(#[trigger] items[i]);
            assert(k <= i < items.len() && json_contains_zig(items[i]));
        }
        if json_contains_zig(items[k]) {
            assert(k <= k < items.len() && json_contains_zig(items[k]));
        }
    }
}

/// An array of languages names Zig exactly when one of its items, at any
/// position, does.
pub proof fn law_array_contains_zig(value: JsonValue)
    requires
        value is Array,
    ensures
        json_contains_zig(value) <==> exists|i: int|
            0 <= i < value->Array_0@.len() && json_contains_zig(#[trigger] value->Array_0@[i]),
{
    lemma_array_contains_zig_from(value, 0);
}

/// A string names Zig exactly when it is `zig` up to ASCII case; other
/// values that are neither arrays nor objects never name it.
pub proof fn law_scalar_contains_zig(value: JsonValue)
    ensures
        value matches JsonValue::Str(s) ==> (json_contains_zig(value) <==> s@.len() == 3 && (
        s@[0] == 'z' || s@[0] == 'Z') && (s@[1] == 'i' || s@[1] == 'I') && (s@[2] == 'g' || s@[2]
            == 'G')),
        (value is Null || value is Bool || value is Number) ==> !json_contains_zig(value),
{
    reveal_strlit("zig");
    if let JsonValue::Str(s) = value {
        if s@.len() == 3 {
            lemma_fold_letter(s@[0], 'z', 'Z');
            lemma_fold_letter(s@[1], 'i', 'I');
            lemma_fold_letter(s@[2], 'g', 'G');
            assert("zig"@[0] == 'z' && "zig"@[1] == 'i' && "zig"@[2] == 'g');
            if s@[0] == 'z' || s@[0] == 'Z' {
                if s@[1] == 'i' || s@[1] == 'I' {
                    if s@[2] == 'g' || s@[2] == 'G' {
                        assert forall|i: int| 0 <= i < 3 implies crate::text::ascii_fold(
                            #[trigger] s@[i],
                        ) == crate::text::ascii_fold("zig"@[i]) by {
                            if i == 1 {
                            }
                        }
                    }
                }
            }
            if eq_ignore_ascii_case(s@, "zig"@) {
                assert(crate::text::ascii_fold(s@[0]) == crate::text::ascii_fold("zig"@[0]));
                assert(crate::text::ascii_fold(s@[1]) == crate::text::ascii_fold("zig"@[1]));
                assert(crate::text::ascii_fold(s@[2]) == crate::text::ascii_fold("zig"@[2]));
            }
        }
    }
}

proof fn lemma_fold_letter(c: char, lower: char, upper: char)
    requires
        'a' <= lower <= 'z',
        'A' <= upper <= 'Z',
        lower as u32 == upper as u32 + 32,
    ensures
        crate::text::ascii_fold(c) == crate::text::ascii_fold(lower) <==> (c == lower || c == upper),
{
    assert(crate::text::ascii_fold(lower) == lower as u32);
    if 'A' <= c && c <= 'Z' {
        assert(crate::text::ascii_fold(c) == c as u32 + 32);
    } else {
        assert(crate::text::ascii_fold(c) == c as u32);
    }
}

/// An object names Zig exactly when its `name` is `zig` up to ASCII case
/// or its `node`, `edges` or `nodes` member names Zig.
pub proof fn law_object_contains_zig(value: JsonValue)
    requires
        value is Object,
    ensures
        json_contains_zig(value) <==> {
            ||| (json_get(value, "name"@) matches Some(JsonValue::Str(n)) && eq_ignore_ascii_case(
                n@,
                "zig"@,
            ))
            ||| (json_get(value, "node"@) matches Some(v) && json_contains_zig(v))
            ||| (json_get(value, "edges"@) matches Some(v) && json_contains_zig(v))
            ||| (json_get(value, "nodes"@) matches Some(v) && json_contains_zig(v))
        },
{
    let members = value->Object_0@;
    crate::json::lemma_member_index(members, "name"@, 0);
    crate::json::lemma_member_index(members, "node"@, 0);
    crate::json::lemma_member_index(members, "edges"@, 0);
    crate::json::lemma_member_index(members, "nodes"@, 0);
}

/// Whether a `languages` value names Zig (see `json_contains_zig`).
#[verifier::loop_isolation(false)]
pub fn contains_zig(value: &JsonValue) -> (res: bool)
    ensures
        res == json_contains_zig(*value),
        *value is Array ==> (res <==> exists|i: int|
            0 <= i < value->Array_0@.len() && json_contains_zig(#[trigger] value->Array_0@[i])),
    decreases value,
{
    proof {
        if *value is Array {
            law_array_contains_zig(*value);
        }
    }
    match value {
        JsonValue::Str(name) => str_eq_ignore_ascii_case(name.as_str(), "zig"),
        JsonValue::Array(items) => {
            let mut i: usize = 0;
            while i < items.len()
                invariant
                    i <= items@.len(),
                    json_contains_zig(*value) == contains_zig_from(*value, i as int),
                decreases items@.len() - i,
            {
                if contains_zig(&items[i]) {
                    return true;
                }
                i = i + 1;
            }
            false
        },
        JsonValue::Object(members) => {
            proof {
                crate::json::lemma_member_index(members@, "name"@, 0);
                crate::json::lemma_member_index(members@, "node"@, 0);
                crate::json::lemma_member_index(members@, "edges"@, 0);
                crate::json::lemma_member_index(members@, "nodes"@, 0);
            }
            if let Some(JsonValue::Str(name)) = value.get("name") {
                if str_eq_ignore_ascii_case(name.as_str(), "zig") {
                    return true;
                }
            }
            if let Some(node) = value.get("node") {
                if contains_zig(node) {
                    return true;
                }
            }
            if let Some(edges) = value.get("edges") {
                if contains_zig(edges) {
                    return true;
                }
            }
            if let Some(nodes) = value.get("nodes") {
                if contains_zig(nodes) {
                    return true;
                }
            }
            false
        },
        _ => false,
    }
}

/// Whether Zig is among the languages of a repository.
pub fn has_zig_in_top_languages(repository: &Node) -> (res: bool)
    ensures
        res == match repository.languages {
            Some(l) => json_contains_zig(l),
            None => false,
        },
{
    match &repository.languages {
        Some(languages) => contains_zig(languages),
        None => false,
    }
}

/// Whether Zig is among the languages of a raw repository node.
pub fn has_zig_in_top_languages_value(repository: &JsonValue) -> (res: bool)
    ensures
        res == match json_get(*repository, "languages"@) {
            Some(l) => json_contains_zig(l),
            None => false,
        },
{
    match repository.get("languages") {
        Some(languages) => contains_zig(languages),
        None => false,
    }
}

// ---------------------------------------------------------------------------
// Raw repository nodes of the search results
// ---------------------------------------------------------------------------

/// What a search result gives about a repository before it is fetched in
/// full.
#[derive(Debug)]
pub struct PartialRepoNode {
    pub owner_login: String,
    pub owner_id: String,
    pub repo_id: String,
    pub latest_commit_hash: String,
}

/// The member `key` of an optional value.
pub open spec fn json_get_opt(v: Option<JsonValue>, key: Seq<char>) -> Option<JsonValue> {
    match v {
        Some(w) => json_get(w, key),
        None => None,
    }
}

/// The owner login and repository name of a raw node, trimmed and in lower
/// case: from `nameWithOwner` (split at its first `/`) when that is a
/// non-blank string, else from `owner.login` and `name`.
pub open spec fn partial_node_names(node: JsonValue) -> Option<(Seq<char>, Seq<char>)> {
    let nwo = json_str(json_get(node, "nameWithOwner"@));
    if nwo is Some && trim_whitespace(nwo->Some_0).len() > 0 {
        let parts = split_once(trim_whitespace(nwo->Some_0), '/');
        match parts.1 {
            Some(rest) => Some(
                (
                    unicode_lowercase(trim_whitespace(parts.0)),
                    unicode_lowercase(trim_whitespace(rest)),
                ),
            ),
            None => None,
        }
    } else {
        let login = json_str(json_get_opt(json_get(node, "owner"@), "login"@));
        let name = json_str(json_get(node, "name"@));
        match (login, name) {
            (Some(l), Some(n)) => Some(
                (unicode_lowercase(trim_whitespace(l)), unicode_lowercase(trim_whitespace(n))),
            ),
            _ => None,
        }
    }
}

/// The text of the member `key` of `v` when it is a string.
fn member_str<'a>(v: &'a JsonValue, key: &str) -> (res: Option<&'a str>)
    ensures
        res is Some <==> json_str(json_get(*v, key@)) is Some,
        res matches Some(s) ==> s@ == json_str(json_get(*v, key@))->Some_0,
{
    match v.get(key) {
        Some(w) => w.as_str(),
        None => None,
    }
}

/// The owner login and repository name of a raw node (see
/// `partial_node_names`).
fn partial_names(node: &JsonValue) -> (res: Option<(String, String)>)
    ensures
        res is Some <==> partial_node_names(*node) is Some,
        res matches Some(r) ==> (r.0@, r.1@) == partial_node_names(*node)->Some_0,
{
    let mut name_with_owner: Option<String> = None;
    if let Some(nwo) = member_str(node, "nameWithOwner") {
        let t = trim(nwo);
        if !t.as_str().is_empty() {
            name_with_owner = Some(t);
        }
    }
    match name_with_owner {
        Some(t) => {
            let (owner_part, rest) = split_once_at(t.as_str(), '/');
            match rest {
                Some(repo_part) => {
                    let owner_trimmed = trim(owner_part.as_str());
                    let repo_trimmed = trim(repo_part.as_str());
                    Some((to_lowercase(owner_trimmed.as_str()), to_lowercase(repo_trimmed.as_str())))
                },
                None => None,
            }
        },
        None => {
            let login = match node.get("owner") {
                Some(owner) => member_str(owner, "login"),
                None => None,
            };
            let owner_login = match login {
                Some(l) => {
                    let lt = trim(l);
                    to_lowercase(lt.as_str())
                },
                None => {
                    return None;
                },
            };
            let repo_name = match member_str(node, "name") {
                Some(n) => {
                    let nt = trim(n);
                    to_lowercase(nt.as_str())
                },
                None => {
                    return None;
                },
            };
            Some((owner_login, repo_name))
        },
    }
}

/// What a raw search result node gives: the lower-case owner login, the
/// owner id `gh/<owner>`, the repository id `gh/<owner>/<name>` and the
/// commit hash of its default branch; nothing when the names are missing
/// or empty.
pub fn parse_partial_repo_node(node: &JsonValue) -> (res: Option<PartialRepoNode>)
    ensures
        res is Some <==> (partial_node_names(*node) is Some && partial_node_names(*node)->Some_0.0.len()
            > 0 && partial_node_names(*node)->Some_0.1.len() > 0),
        res matches Some(p) ==> {
            let names = partial_node_names(*node)->Some_0;
            &&& p.owner_login@ == names.0
            &&& p.owner_id@ == "gh/"@ + names.0
            &&& p.repo_id@ == "gh/"@ + names.0 + "/"@ + names.1
            &&& p.latest_commit_hash@ == normal_commit_hash(node_oid(*node))
        },
{
    let (owner_login, repo_name) = match partial_names(node) {
        Some(names) => names,
        None => {
            return None;
        },
    };
    if owner_login.as_str().is_empty() || repo_name.as_str().is_empty() {
        return None;
    }
    let latest_commit_hash = get_commit_hash_value(node);
    let owner_id = joined("gh/", owner_login.as_str());
    let mut repo_id = joined("gh/", owner_login.as_str());
    repo_id.append("/");
    repo_id.append(repo_name.as_str());
    Some(PartialRepoNode { owner_id, repo_id, owner_login, latest_commit_hash })
}

// ---------------------------------------------------------------------------
// Gathering a repository
// ---------------------------------------------------------------------------

/// The user id `gh/<login>` and repository id `gh/<login>/<name>` of a
/// repository, in lower case.
pub fn repo_identity(owner_login: &str, name: &str) -> (res: (String, String))
    ensures
        res.0@ == unicode_lowercase("gh/"@ + owner_login@),
        res.1@ == unicode_lowercase("gh/"@ + owner_login@ + "/"@ + name@),
{
    let user = joined("gh/", owner_login);
    let mut repo = joined("gh/", owner_login);
    repo.append("/");
    repo.append(name);
    (to_lowercase(user.as_str()), to_lowercase(repo.as_str()))
}

/// The name of the default branch, or empty when GitHub gave none.
pub open spec fn default_branch_name_of(default_branch_ref: Option<DefaultBranchRef>) -> Seq<char> {
    match default_branch_ref {
        Some(b) => b.name@,
        None => Seq::empty(),
    }
}

/// The branch whose files are read: the default branch, or `HEAD` when its
/// name is empty.
pub fn branch_to_read(default_branch_ref: Option<&DefaultBranchRef>) -> (res: String)
    ensures
        res@ == if default_branch_name_of(
            match default_branch_ref {
                Some(b) => Some(*b),
                None => None,
            },
        ).len() == 0 {
            "HEAD"@
        } else {
            default_branch_name_of(
                match default_branch_ref {
                    Some(b) => Some(*b),
                    None => None,
                },
            )
        },
{
    match default_branch_ref {
        Some(b) => if b.name.as_str().is_empty() {
            "HEAD".to_string()
        } else {
            b.name.clone()
        },
        None => "HEAD".to_string(),
    }
}

/// The README URL and content kept for the default branch: both when both
/// were found, the URL and no content when only the URL was, and a
/// not-found marker otherwise.
pub open spec fn default_branch_readme(url: Option<Seq<char>>, content: Option<Seq<char>>) -> (
    Seq<char>,
    Seq<char>,
) {
    match (url, content) {
        (Some(u), Some(c)) => (u, c),
        (Some(u), None) => (u, Seq::empty()),
        _ => ("404 unable to find readme. "@, Seq::empty()),
    }
}

/// The README URL and content kept for the default branch.
pub fn choose_default_branch_readme(url: Option<String>, content: Option<String>) -> (res: (
    String,
    String,
))
    ensures
        (res.0@, res.1@) == default_branch_readme(opt_text(url), opt_text(content)),
{
    match (url, content) {
        (Some(u), Some(c)) => (u, c),
        (Some(u), None) => (u, String::new()),
        _ => ("404 unable to find readme. ".to_string(), String::new()),
    }
}

/// The README URL kept for a release, or a not-found marker.
pub fn release_readme_url(url: Option<String>) -> (res: String)
    ensures
        res@ == match url {
            Some(u) => u@,
            None => "404 unable to find readme."@,
        },
{
    match url {
        Some(u) => u,
        None => "404 unable to find readme.".to_string(),
    }
}

/// What is kept of a `build.zig.zon` fetch: its minimum Zig version and
/// dependencies, or `unknown` and none when it could not be had.
pub fn zon_data_or_unknown(fetched: Result<(String, Vec<Dependency>), String>) -> (res: (
    String,
    Vec<Dependency>,
))
    ensures
        fetched is Ok ==> res.0@ == fetched->Ok_0.0@ && res.1@ == fetched->Ok_0.1@,
        fetched is Err ==> res.0@ == "unknown"@ && res.1@.len() == 0,
{
    match fetched {
        Ok((minimum_zig_version, dependencies)) => (minimum_zig_version, dependencies),
        Err(_) => ("unknown".to_string(), Vec::new()),
    }
}

/// The release record of a tagged release.
pub fn release_data(
    release: &ReleaseNode,
    readme_url: Option<String>,
    zon: Result<(String, Vec<Dependency>), String>,
    directory_files: String,
) -> (res: ReleaseData)
    ensures
        res.tag_name@ == release.tag_name@,
        res.directory_files@ == directory_files@,
        res.is_prerelease == release.is_prerelease,
        res.published_at@ == release.published_at@,
        res.readme_url@ == match readme_url {
            Some(u) => u@,
            None => "404 unable to find readme."@,
        },
        zon is Ok ==> res.minimum_zig_version@ == zon->Ok_0.0@ && res.dependencies@
            == zon->Ok_0.1@,
        zon is Err ==> res.minimum_zig_version@ == "unknown"@ && res.dependencies@.len() == 0,
{
    let (minimum_zig_version, dependencies) = zon_data_or_unknown(zon);
    ReleaseData {
        tag_name: release.tag_name.clone(),
        is_prerelease: release.is_prerelease,
        published_at: release.published_at.clone(),
        minimum_zig_version,
        readme_url: release_readme_url(readme_url),
        dependencies,
        directory_files,
    }
}

/// The repository record, from what was fetched for its default branch.
pub fn assemble_repo_data(
    repository: Node,
    is_package: bool,
    readme_url: Option<String>,
    readme_content: Option<String>,
    readme_keywords: String,
    zon: Result<(String, Vec<Dependency>), String>,
    default_branch_directory_files: String,
    releases: Vec<ReleaseData>,
) -> (res: RepoData)
    ensures
        res.default_branch_directory_files@ == default_branch_directory_files@,
        res.user_id@ == unicode_lowercase("gh/"@ + repository.owner.login@),
        res.repo_id@ == unicode_lowercase(
            "gh/"@ + repository.owner.login@ + "/"@ + repository.name@,
        ),
        res.is_package == is_package,
        res.readme_url@ == default_branch_readme(opt_text(readme_url), opt_text(readme_content)).0,
        res.readme_content@ == readme_keywords@,
        zon is Ok ==> res.build_zig_zon_version@ == zon->Ok_0.0@
            && res.build_zig_zon_dependencies@ == zon->Ok_0.1@,
        zon is Err ==> res.build_zig_zon_version@ == "unknown"@
            && res.build_zig_zon_dependencies@.len() == 0,
        res.releases@ == releases@,
        res.repository == repository,
{
    let (user_id, repo_id) = repo_identity(repository.owner.login.as_str(), repository.name.as_str());
    let (url, _content) = choose_default_branch_readme(readme_url, readme_content);
    let (build_zig_zon_version, build_zig_zon_dependencies) = zon_data_or_unknown(zon);
    RepoData {
        repository,
        is_package,
        user_id,
        repo_id,
        readme_url: url,
        readme_content: readme_keywords,
        build_zig_zon_version,
        build_zig_zon_dependencies,
        default_branch_directory_files,
        releases,
    }
}

// ---------------------------------------------------------------------------
// Storing a repository
// ---------------------------------------------------------------------------

/// The topic names of a repository: those of `nodes`, then those of `edges`.
pub open spec fn github_topic_names(t: RepositoryTopics) -> Seq<Seq<char>> {
    t.nodes@.map_values(|n: TopicNode| n.topic.name@) + t.edges@.map_values(
        |e: TopicEdge| e.node.topic.name@,
    )
}

/// `o` cut to `max` chars, inside the `Option`.
pub open spec fn truncated_opt(o: Option<Seq<char>>, max: nat) -> Option<Seq<char>> {
    match o {
        Some(s) => Some(truncated(s, max)),
        None => None,
    }
}

/// Whether the release rows `rows` are those of `releases`, in order.
/// The listing of each release is stored only when `with_directory_files`.
pub open spec fn are_release_rows(
    rows: Seq<ReleaseRow>,
    releases: Seq<ReleaseData>,
    with_directory_files: bool,
) -> bool {
    &&& rows.len() == releases.len()
    &&& forall|i: int|
        0 <= i < rows.len() ==> is_release_row(
            #[trigger] rows[i],
            releases[i].tag_name@,
            releases[i].is_prerelease,
            releases[i].published_at@,
            releases[i].minimum_zig_version@,
            releases[i].readme_url@,
            dependencies_view(releases[i].dependencies@),
            if with_directory_files {
                Some(releases[i].directory_files@)
            } else {
                None
            },
        )
}

/// Whether `p` is what is written for the GitHub repository `d` at time
/// `now`.
pub open spec fn is_github_write_plan(p: RepoWritePlan, d: RepoData, now: Seq<char>) -> bool {
    let r = d.repository;
    let user_id = truncated(d.user_id@, limits::USER_ID_MAX_LEN as nat);
    let platform = truncated("github"@, limits::PLATFORM_MAX_LEN as nat);
    &&& p.user.id@ == user_id
    &&& p.user.platform@ == platform
    &&& p.user.avatar_id@ == truncated(r.owner.login@, limits::USER_AVATAR_ID_MAX_LEN as nat)
    &&& opt_text(p.user.bio) == if r.owner.bio is Some {
        truncated_opt(opt_text(r.owner.bio), limits::USER_BIO_MAX_LEN as nat)
    } else {
        truncated_opt(opt_text(r.owner.description), limits::USER_BIO_MAX_LEN as nat)
    }
    &&& p.repo.id@ == truncated(d.repo_id@, limits::REPO_ID_MAX_LEN as nat)
    &&& p.repo.owner@ == truncated(user_id, limits::REPO_OWNER_MAX_LEN as nat)
    &&& p.repo.platform@ == platform
    &&& opt_text(p.repo.description) == truncated_opt(
        opt_text(r.description),
        limits::REPO_DESCRIPTION_MAX_LEN as nat,
    )
    &&& p.repo.issues_count == r.issues.total_count as i64
    &&& p.repo.default_branch_name@ == truncated(
        default_branch_name_of(r.default_branch_ref),
        limits::REPO_DEFAULT_BRANCH_MAX_LEN as nat,
    )
    &&& p.repo.fork_count == r.fork_count as i64
    &&& p.repo.stargazer_count == r.stargazer_count as i64
    &&& p.repo.watchers_count == r.watchers.total_count as i64
    &&& p.repo.pushed_at@ == r.pushed_at@
    &&& p.repo.created_at@ == r.created_at@
    &&& p.repo.is_archived == r.is_archived
    &&& p.repo.is_disabled == r.is_disabled
    &&& p.repo.is_fork == r.is_fork
    &&& p.repo.license@ == truncated(
        match r.license_info {
            Some(l) => l.spdx_id@,
            None => "-"@,
        },
        limits::REPO_LICENSE_MAX_LEN as nat,
    )
    &&& p.repo.primary_language@ == truncated(
        match r.primary_language {
            Some(l) => l.name@,
            None => "-"@,
        },
        limits::REPO_PRIMARY_LANGUAGE_MAX_LEN as nat,
    )
    &&& p.repo.latest_commit_hash@ == normal_commit_hash(branch_oid(r.default_branch_ref))
    &&& p.repo.last_updated_in_this_database@ == now
    &&& p.search_keywords@ == d.readme_content@
    &&& strings_view(p.topics@) == first_occurrences(
        kept_topics(github_topic_names(r.repository_topics), limits::TOPIC_MAX_LEN as nat),
    )
    &&& is_release_row(
        p.default_branch,
        default_branch_version(),
        false,
        r.created_at@,
        d.build_zig_zon_version@,
        d.readme_url@,
        dependencies_view(d.build_zig_zon_dependencies@),
        Some(d.default_branch_directory_files@),
    )
    &&& are_release_rows(p.releases@, d.releases@, true)
    &&& p.is_package == d.is_package
}

/// The topic names of a repository, nodes first.
fn topic_names(t: &RepositoryTopics) -> (res: Vec<String>)
    ensures
        strings_view(res@) == github_topic_names(*t),
{
    let mut names: Vec<String> = Vec::new();
    let mut i: usize = 0;
    while i < t.nodes.len()
        invariant
            i <= t.nodes@.len(),
            strings_view(names@) == t.nodes@.take(i as int).map_values(
                |n: TopicNode| n.topic.name@,
            ),
        decreases t.nodes@.len() - i,
    {
        let ghost before = names@;
        names.push(t.nodes[i].topic.name.clone());
        assert(strings_view(names@) == strings_view(before).push(t.nodes@[i as int].topic.name@));
        assert(t.nodes@.take(i + 1).map_values(|n: TopicNode| n.topic.name@) == t.nodes@.take(
            i as int,
        ).map_values(|n: TopicNode| n.topic.name@).push(t.nodes@[i as int].topic.name@));
        i = i + 1;
    }
    assert(t.nodes@.take(t.nodes@.len() as int) == t.nodes@);
    let ghost from_nodes = strings_view(names@);
    let mut j: usize = 0;
    while j < t.edges.len()
        invariant
            j <= t.edges@.len(),
            from_nodes == t.nodes@.map_values(|n: TopicNode| n.topic.name@),
            strings_view(names@) == from_nodes + t.edges@.take(j as int).map_values(
                |e: TopicEdge| e.node.topic.name@,
            ),
        decreases t.edges@.len() - j,
    {
        let ghost before = names@;
        names.push(t.edges[j].node.topic.name.clone());
        assert(strings_view(names@) == strings_view(before).push(t.edges@[j as int].node.topic.name@));
        assert(t.edges@.take(j + 1).map_values(|e: TopicEdge| e.node.topic.name@) == t.edges@.take(
            j as int,
        ).map_values(|e: TopicEdge| e.node.topic.name@).push(t.edges@[j as int].node.topic.name@));
        j = j + 1;
    }
    assert(t.edges@.take(t.edges@.len() as int) == t.edges@);
    names
}

/// The release rows of the tagged releases.
pub fn release_rows(releases: &Vec<ReleaseData>, with_directory_files: bool) -> (rows: Vec<ReleaseRow>)
    ensures
        are_release_rows(rows@, releases@, with_directory_files),
{
    let mut rows: Vec<ReleaseRow> = Vec::new();
    let mut i: usize = 0;
    while i < releases.len()
        invariant
            i <= releases@.len(),
            rows@.len() == i,
            forall|k: int|
                0 <= k < i ==> is_release_row(
                    #[trigger] rows@[k],
                    releases@[k].tag_name@,
                    releases@[k].is_prerelease,
                    releases@[k].published_at@,
                    releases@[k].minimum_zig_version@,
                    releases@[k].readme_url@,
                    dependencies_view(releases@[k].dependencies@),
                    if with_directory_files {
                        Some(releases@[k].directory_files@)
                    } else {
                        None
                    },
                ),
        decreases releases@.len() - i,
    {
        let r = &releases[i];
        rows.push(
            release_row(
                r.tag_name.as_str(),
                r.is_prerelease,
                r.published_at.clone(),
                r.minimum_zig_version.as_str(),
                r.readme_url.clone(),
                &r.dependencies,
                if with_directory_files {
                    Some(r.directory_files.as_str())
                } else {
                    None
                },
            ),
        );
        i = i + 1;
    }
    rows
}

/// The text of an optional `String`, as a `&str`.
fn opt_as_str(o: &Option<String>) -> (res: Option<&str>)
    ensures
        match res {
            Some(s) => o is Some && s@ == o->Some_0@,
            None => o is None,
        },
{
    match o {
        Some(s) => Some(s.as_str()),
        None => None,
    }
}

/// Everything that is written for a GitHub repository, every text cut to
/// its column (see `is_github_write_plan`). `database_updated_at` is the
/// time of the write.
pub fn repo_write_plan(data: &RepoData, database_updated_at: String) -> (plan: RepoWritePlan)
    ensures
        is_github_write_plan(plan, *data, database_updated_at@),
{
    let repository = &data.repository;
    let repo_id = truncate_to_char_limit(data.repo_id.as_str(), limits::REPO_ID_MAX_LEN);
    let user_id = truncate_to_char_limit(data.user_id.as_str(), limits::USER_ID_MAX_LEN);
    let platform = truncate_to_char_limit("github", limits::PLATFORM_MAX_LEN);
    let avatar_id = truncate_to_char_limit(
        repository.owner.login.as_str(),
        limits::USER_AVATAR_ID_MAX_LEN,
    );
    let owner_id = truncate_to_char_limit(user_id.as_str(), limits::REPO_OWNER_MAX_LEN);
    let user_bio = match truncate_option_to_char_limit(
        opt_as_str(&repository.owner.bio),
        limits::USER_BIO_MAX_LEN,
    ) {
        Some(b) => Some(b),
        None => truncate_option_to_char_limit(
            opt_as_str(&repository.owner.description),
            limits::USER_BIO_MAX_LEN,
        ),
    };
    let description = truncate_option_to_char_limit(
        opt_as_str(&repository.description),
        limits::REPO_DESCRIPTION_MAX_LEN,
    );
    let default_branch_ref = match &repository.default_branch_ref {
        Some(b) => Some(b),
        None => None,
    };
    proof {
        reveal_strlit("");
    }
    let default_branch_name = truncate_to_char_limit(
        match default_branch_ref {
            Some(b) => b.name.as_str(),
            None => "",
        },
        limits::REPO_DEFAULT_BRANCH_MAX_LEN,
    );
    let latest_commit_hash = get_commit_hash(default_branch_ref);
    let license = truncate_to_char_limit(
        match &repository.license_info {
            Some(l) => l.spdx_id.as_str(),
            None => "-",
        },
        limits::REPO_LICENSE_MAX_LEN,
    );
    let primary_language = truncate_to_char_limit(
        match &repository.primary_language {
            Some(l) => l.name.as_str(),
            None => "-",
        },
        limits::REPO_PRIMARY_LANGUAGE_MAX_LEN,
    );
    let names = topic_names(&repository.repository_topics);
    let topics = prepare_topics(&names, limits::TOPIC_MAX_LEN);
    let default_branch = release_row(
        "__ZIGISTRY__DEFAULT__BRANCH__",
        false,
        repository.created_at.clone(),
        data.build_zig_zon_version.as_str(),
        data.readme_url.clone(),
        &data.build_zig_zon_dependencies,
        Some(data.default_branch_directory_files.as_str()),
    );
    let releases = release_rows(&data.releases, true);
    let plan = RepoWritePlan {
        user: UserRow {
            id: user_id,
            platform: platform.clone(),
            avatar_id,
            bio: user_bio,
        },
        repo: RepoRow {
            id: repo_id,
            owner: owner_id,
            platform,
            description,
            issues_count: repository.issues.total_count as i64,
            default_branch_name,
            fork_count: repository.fork_count as i64,
            stargazer_count: repository.stargazer_count as i64,
            watchers_count: repository.watchers.total_count as i64,
            pushed_at: repository.pushed_at.clone(),
            created_at: repository.created_at.clone(),
            is_archived: repository.is_archived,
            is_disabled: repository.is_disabled,
            is_fork: repository.is_fork,
            license,
            primary_language,
            latest_commit_hash,
            last_updated_in_this_database: database_updated_at,
        },
        search_keywords: data.readme_content.clone(),
        topics,
        default_branch,
        releases,
        is_package: data.is_package,
    };
    proof {
        let r = data.repository;
        assert(opt_text(plan.user.bio) == if r.owner.bio is Some {
            truncated_opt(opt_text(r.owner.bio), limits::USER_BIO_MAX_LEN as nat)
        } else {
            truncated_opt(opt_text(r.owner.description), limits::USER_BIO_MAX_LEN as nat)
        });
        assert(opt_text(plan.repo.description) == truncated_opt(
            opt_text(r.description),
            limits::REPO_DESCRIPTION_MAX_LEN as nat,
        ));
        assert(plan.repo.default_branch_name@ == truncated(
            default_branch_name_of(r.default_branch_ref),
            limits::REPO_DEFAULT_BRANCH_MAX_LEN as nat,
        ));
        assert(plan.repo.latest_commit_hash@ == normal_commit_hash(branch_oid(r.default_branch_ref)));
        assert(plan.repo.license@ == truncated(
            match r.license_info {
                Some(l) => l.spdx_id@,
                None => "-"@,
            },
            limits::REPO_LICENSE_MAX_LEN as nat,
        ));
    }
    plan
}

// ---------------------------------------------------------------------------
// Locations
// ---------------------------------------------------------------------------

/// The URL of the raw `build.zig.zon` of a branch or tag.
pub fn build_zig_zon_url(owner_name: &str, repo_name: &str, branch_or_tag: &str) -> (res: String)
    ensures
        res@ == "https://raw.githubusercontent.com/"@ + owner_name@ + "/"@ + repo_name@ + "/"@
            + branch_or_tag@ + "/build.zig.zon"@,
{
    let mut url = joined("https://raw.githubusercontent.com/", owner_name);
    url.append("/");
    url.append(repo_name);
    url.append("/");
    url.append(branch_or_tag);
    url.append("/build.zig.zon");
    url
}

/// The API URL that describes the README of a branch or tag.
pub fn readme_api_url(owner_name: &str, repo_name: &str, branch_or_tag: &str) -> (res: String)
    ensures
        res@ == "https://api.github.com/repos/"@ + owner_name@ + "/"@ + repo_name@
            + "/readme?ref="@ + branch_or_tag@,
{
    let mut url = joined("https://api.github.com/repos/", owner_name);
    url.append("/");
    url.append(repo_name);
    url.append("/readme?ref=");
    url.append(branch_or_tag);
    url
}

/// The URL of the listing of the root directory of a branch or tag.
pub fn contents_api_url(owner_name: &str, repo_name: &str, branch_or_tag: &str) -> (res: String)
    ensures
        res@ == "https://api.github.com/repos/"@ + owner_name@ + "/"@ + repo_name@
            + "/contents?ref="@ + branch_or_tag@,
{
    let mut url = joined("https://api.github.com/repos/", owner_name);
    url.append("/");
    url.append(repo_name);
    url.append("/contents?ref=");
    url.append(branch_or_tag);
    url
}

/// Where the README that the readme endpoint describes can be downloaded:
/// its `download_url` when that is a string.
pub fn readme_download_url(body: &JsonValue) -> (res: Option<String>)
    ensures
        res is Some <==> json_str(json_get(*body, "download_url"@)) is Some,
        res matches Some(u) ==> u@ == json_str(json_get(*body, "download_url"@))->Some_0,
{
    match body.get("download_url") {
        Some(v) => match v.as_str() {
            Some(t) => Some(t.to_owned()),
            None => None,
        },
        None => None,
    }
}

/// Whatever a GitHub repository holds, every limited text that is written
/// for it fits its database column, and its topics are non-empty and
/// distinct.
pub proof fn law_github_plan_fits_columns(p: RepoWritePlan, d: RepoData, now: Seq<char>)
    requires
        is_github_write_plan(p, d, now),
    ensures
        plan_fits_columns(p),
{
    reveal_strlit("unknown");
    lemma_plan_topics(p.topics@, github_topic_names(d.repository.repository_topics));
    lemma_release_row_fits(
        p.default_branch,
        default_branch_version(),
        false,
        d.repository.created_at@,
        d.build_zig_zon_version@,
        d.readme_url@,
        dependencies_view(d.build_zig_zon_dependencies@),
        Some(d.default_branch_directory_files@),
    );
    assert forall|i: int| 0 <= i < p.releases@.len() implies release_row_fits(
        #[trigger] p.releases@[i],
    ) by {
        lemma_release_row_fits(
            p.releases@[i],
            d.releases@[i].tag_name@,
            d.releases@[i].is_prerelease,
            d.releases@[i].published_at@,
            d.releases@[i].minimum_zig_version@,
            d.releases@[i].readme_url@,
            dependencies_view(d.releases@[i].dependencies@),
            Some(d.releases@[i].directory_files@),
        );
    }
}

/// Whether an optional stored text is the optional source cut to `limit`.
pub open spec fn opt_cut_from(stored: Option<String>, source: Option<String>, limit: nat) -> bool {
    match (stored, source) {
        (Some(a), Some(b)) => cut_from(a@, b@, limit),
        (None, None) => true,
        _ => false,
    }
}

/// What is written for a GitHub repository takes every column from its
/// own source: the counts, flags and dates of the repository as they are
/// (the star count from the star count, the fork count from the fork count,
/// and so on), each text cut to its column, the bio from the owner's bio or
/// else description, and the default branch and each release as rows made
/// from their own values, in order.
pub proof fn law_github_plan_columns(p: RepoWritePlan, d: RepoData, now: Seq<char>)
    requires
        is_github_write_plan(p, d, now),
    ensures
        cut_from(p.user.id@, d.user_id@, limits::USER_ID_MAX_LEN as nat),
        cut_from(p.user.platform@, "github"@, limits::PLATFORM_MAX_LEN as nat),
        cut_from(p.user.avatar_id@, d.repository.owner.login@, limits::USER_AVATAR_ID_MAX_LEN as nat),
        d.repository.owner.bio is Some ==> opt_cut_from(
            p.user.bio,
            d.repository.owner.bio,
            limits::USER_BIO_MAX_LEN as nat,
        ),
        d.repository.owner.bio is None ==> opt_cut_from(
            p.user.bio,
            d.repository.owner.description,
            limits::USER_BIO_MAX_LEN as nat,
        ),
        cut_from(p.repo.id@, d.repo_id@, limits::REPO_ID_MAX_LEN as nat),
        cut_from(p.repo.owner@, p.user.id@, limits::REPO_OWNER_MAX_LEN as nat),
        p.repo.platform@ == p.user.platform@,
        opt_cut_from(
            p.repo.description,
            d.repository.description,
            limits::REPO_DESCRIPTION_MAX_LEN as nat,
        ),
        p.repo.issues_count == d.repository.issues.total_count,
        p.repo.fork_count == d.repository.fork_count,
        p.repo.stargazer_count == d.repository.stargazer_count,
        p.repo.watchers_count == d.repository.watchers.total_count,
        p.repo.pushed_at@ == d.repository.pushed_at@,
        p.repo.created_at@ == d.repository.created_at@,
        p.repo.is_archived == d.repository.is_archived,
        p.repo.is_disabled == d.repository.is_disabled,
        p.repo.is_fork == d.repository.is_fork,
        cut_from(
            p.repo.default_branch_name@,
            default_branch_name_of(d.repository.default_branch_ref),
            limits::REPO_DEFAULT_BRANCH_MAX_LEN as nat,
        ),
        cut_from(
            p.repo.license@,
            match d.repository.license_info {
                Some(l) => l.spdx_id@,
                None => "-"@,
            },
            limits::REPO_LICENSE_MAX_LEN as nat,
        ),
        cut_from(
            p.repo.primary_language@,
            match d.repository.primary_language {
                Some(l) => l.name@,
                None => "-"@,
            },
            limits::REPO_PRIMARY_LANGUAGE_MAX_LEN as nat,
        ),
        p.repo.last_updated_in_this_database@ == now,
        p.search_keywords@ == d.readme_content@,
        p.is_package == d.is_package,
        release_row_columns(
            p.default_branch,
            default_branch_version(),
            false,
            d.repository.created_at@,
            d.build_zig_zon_version@,
            d.readme_url@,
            dependencies_view(d.build_zig_zon_dependencies@),
            Some(d.default_branch_directory_files@),
        ),
        p.releases@.len() == d.releases@.len(),
        forall|i: int|
            0 <= i < d.releases@.len() ==> release_row_columns(
                #[trigger] p.releases@[i],
                d.releases@[i].tag_name@,
                d.releases@[i].is_prerelease,
                d.releases@[i].published_at@,
                d.releases@[i].minimum_zig_version@,
                d.releases@[i].readme_url@,
                dependencies_view(d.releases@[i].dependencies@),
                Some(d.releases@[i].directory_files@),
            ),
{
    let r = d.repository;
    lemma_truncated_cut(d.user_id@, limits::USER_ID_MAX_LEN as nat);
    lemma_truncated_cut("github"@, limits::PLATFORM_MAX_LEN as nat);
    lemma_truncated_cut(r.owner.login@, limits::USER_AVATAR_ID_MAX_LEN as nat);
    if let Some(b) = r.owner.bio {
        lemma_truncated_cut(b@, limits::USER_BIO_MAX_LEN as nat);
    }
    if let Some(b) = r.owner.description {
        lemma_truncated_cut(b@, limits::USER_BIO_MAX_LEN as nat);
    }
    lemma_truncated_cut(d.repo_id@, limits::REPO_ID_MAX_LEN as nat);
    lemma_truncated_cut(p.user.id@, limits::REPO_OWNER_MAX_LEN as nat);
    if let Some(x) = r.description {
        lemma_truncated_cut(x@, limits::REPO_DESCRIPTION_MAX_LEN as nat);
    }
    lemma_truncated_cut(default_branch_name_of(r.default_branch_ref), limits::REPO_DEFAULT_BRANCH_MAX_LEN as nat);
    lemma_truncated_cut(
        match r.license_info {
            Some(l) => l.spdx_id@,
            None => "-"@,
        },
        limits::REPO_LICENSE_MAX_LEN as nat,
    );
    lemma_truncated_cut(
        match r.primary_language {
            Some(l) => l.name@,
            None => "-"@,
        },
        limits::REPO_PRIMARY_LANGUAGE_MAX_LEN as nat,
    );
    law_release_row_columns(
        p.default_branch,
        default_branch_version(),
        false,
        r.created_at@,
        d.build_zig_zon_version@,
        d.readme_url@,
        dependencies_view(d.build_zig_zon_dependencies@),
        Some(d.default_branch_directory_files@),
    );
    assert forall|i: int| 0 <= i < d.releases@.len() implies release_row_columns(
        #[trigger] p.releases@[i],
        d.releases@[i].tag_name@,
        d.releases@[i].is_prerelease,
        d.releases@[i].published_at@,
        d.releases@[i].minimum_zig_version@,
        d.releases@[i].readme_url@,
        dependencies_view(d.releases@[i].dependencies@),
        Some(d.releases@[i].directory_files@),
    ) by {
        law_release_row_columns(
            p.releases@[i],
            d.releases@[i].tag_name@,
            d.releases@[i].is_prerelease,
            d.releases@[i].published_at@,
            d.releases@[i].minimum_zig_version@,
            d.releases@[i].readme_url@,
            dependencies_view(d.releases@[i].dependencies@),
            Some(d.releases@[i].directory_files@),
        );
    }
}

} // verus!
