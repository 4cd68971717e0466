//! The rows that are written for one repository: its owner, the repository
//! itself, its search keywords, its topics, and its releases with their
//! dependencies. Every text is cut to the limit of its column.
use vstd::prelude::*;
use crate::constants::limits;
use crate::custom_types::{Dependency, SpecDependency, dependencies_view};
use crate::database::{truncated, truncate_to_char_limit, parse_lazy_flag};
use crate::text::{trim_whitespace, eq_ignore_ascii_case, strings_view, opt_text};

verus! {

broadcast use vstd::string::group_string_axioms;

/// A row of `release_dependencies`.
#[derive(Debug)]
pub struct DependencyRow {
    pub name: String,
    pub hash: String,
    pub is_lazy: i64,
    pub url: String,
    pub path: String,
}

/// 1 when the `lazy` text means `true` (see `parse_lazy_flag`), else 0.
pub open spec fn lazy_flag_value(lazy: Seq<char>) -> i64 {
    if eq_ignore_ascii_case(trim_whitespace(lazy), "true"@) {
        1
    } else {
        0
    }
}

/// Whether `r` is the row stored for dependency `d`.
pub open spec fn is_dependency_row(r: DependencyRow, d: SpecDependency) -> bool {
    &&& r.name@ == truncated(d.name, limits::RELEASE_DEPENDENCY_FIELD_MAX_LEN as nat)
    &&& r.hash@ == truncated(d.hash, limits::RELEASE_DEPENDENCY_FIELD_MAX_LEN as nat)
    &&& r.is_lazy == lazy_flag_value(d.lazy)
    &&& r.url@ == truncated(d.url, limits::RELEASE_DEPENDENCY_FIELD_MAX_LEN as nat)
    &&& r.path@ == truncated(d.path, limits::RELEASE_DEPENDENCY_FIELD_MAX_LEN as nat)
}

/// Whether `rows` are the rows stored for `deps`, one for each, in order.
pub open spec fn are_dependency_rows(rows: Seq<DependencyRow>, deps: Seq<SpecDependency>) -> bool {
    &&& rows.len() == deps.len()
    &&& forall|i: int| 0 <= i < rows.len() ==> is_dependency_row(#[trigger] rows[i], deps[i])
}

/// The row stored for one dependency.
pub fn dependency_row(d: &Dependency) -> (r: DependencyRow)
    ensures
        is_dependency_row(r, d@),
        dependency_row_columns(r, d@),
{
    let r = DependencyRow {
        name: truncate_to_char_limit(d.name.as_str(), limits::RELEASE_DEPENDENCY_FIELD_MAX_LEN),
        hash: truncate_to_char_limit(d.hash.as_str(), limits::RELEASE_DEPENDENCY_FIELD_MAX_LEN),
        is_lazy: if parse_lazy_flag(d.lazy.as_str()) {
            1
        } else {
            0
        },
        url: truncate_to_char_limit(d.url.as_str(), limits::RELEASE_DEPENDENCY_FIELD_MAX_LEN),
        path: truncate_to_char_limit(d.path.as_str(), limits::RELEASE_DEPENDENCY_FIELD_MAX_LEN),
    };
    proof {
        law_dependency_row_columns(r, d@);
    }
    r
}

/// The rows stored for a list of dependencies.
pub fn dependency_rows(deps: &Vec<Dependency>) -> (rows: Vec<DependencyRow>)
    ensures
        are_dependency_rows(rows@, dependencies_view(deps@)),
{
    let mut rows: Vec<DependencyRow> = Vec::new();
    let mut i: usize = 0;
    while i < deps.len()
        invariant
            i <= deps@.len(),
            rows@.len() == i,
            forall|k: int| 0 <= k < i ==> is_dependency_row(#[trigger] rows@[k], deps@[k]@),
        decreases deps@.len() - i,
    {
        rows.push(dependency_row(&deps[i]));
        i = i + 1;
    }
    rows
}

/// A row of `releases`, with the dependency rows of that release.
#[derive(Debug)]
pub struct ReleaseRow {
    pub version: String,
    pub is_prerelease: bool,
    pub published_at: String,
    pub minimum_zig_version: String,
    pub readme_url: String,
    pub dependencies: Vec<DependencyRow>,
    /// The root directory listing, for the platforms that store one.
    pub directory_files: Option<String>,
}

/// The version under which the state of the default branch is stored.
pub open spec fn default_branch_version() -> Seq<char> {
    "__ZIGISTRY__DEFAULT__BRANCH__"@
}

/// Whether `r` is the release row for the given values.
pub open spec fn is_release_row(
    r: ReleaseRow,
    version: Seq<char>,
    is_prerelease: bool,
    published_at: Seq<char>,
    minimum_zig_version: Seq<char>,
    readme_url: Seq<char>,
    deps: Seq<SpecDependency>,
    directory_files: Option<Seq<char>>,
) -> bool {
    &&& r.version@ == truncated(version, limits::RELEASE_VERSION_MAX_LEN as nat)
    &&& r.is_prerelease == is_prerelease
    &&& r.published_at@ == published_at
    &&& r.minimum_zig_version@ == truncated(
        minimum_zig_version,
        limits::RELEASE_MIN_ZIG_VERSION_MAX_LEN as nat,
    )
    &&& r.readme_url@ == readme_url
    &&& are_dependency_rows(r.dependencies@, deps)
    &&& opt_text(r.directory_files) == directory_files_column(directory_files)
}

/// The directory listing as it is stored: cut to its column, when the
/// platform stores one.
pub open spec fn directory_files_column(directory_files: Option<Seq<char>>) -> Option<Seq<char>> {
    match directory_files {
        Some(d) => Some(truncated(d, limits::RELEASE_DIRECTORY_FILES_MAX_LEN as nat)),
        None => None,
    }
}

/// The release row for a version, cutting the version and the minimum Zig
/// version to their limits.
pub fn release_row(
    version: &str,
    is_prerelease: bool,
    published_at: String,
    minimum_zig_version: &str,
    readme_url: String,
    deps: &Vec<Dependency>,
    directory_files: Option<&str>,
) -> (r: ReleaseRow)
    ensures
        is_release_row(
            r,
            version@,
            is_prerelease,
            published_at@,
            minimum_zig_version@,
            readme_url@,
            dependencies_view(deps@),
            match directory_files {
                Some(d) => Some(d@),
                None => None,
            },
        ),
{
    ReleaseRow {
        version: truncate_to_char_limit(version, limits::RELEASE_VERSION_MAX_LEN),
        is_prerelease,
        published_at,
        minimum_zig_version: truncate_to_char_limit(
            minimum_zig_version,
            limits::RELEASE_MIN_ZIG_VERSION_MAX_LEN,
        ),
        readme_url,
        dependencies: dependency_rows(deps),
        directory_files: match directory_files {
            Some(d) => Some(truncate_to_char_limit(d, limits::RELEASE_DIRECTORY_FILES_MAX_LEN)),
            None => None,
        },
    }
}

// ---------------------------------------------------------------------------
// Topics
// ---------------------------------------------------------------------------

/// The topic names cut to `limit`, without those that are empty, in order.
pub open spec fn kept_topics(names: Seq<Seq<char>>, limit: nat) -> Seq<Seq<char>>
    decreases names.len(),
{
    if names.len() == 0 {
        Seq::empty()
    } else {
        let kept = kept_topics(names.drop_last(), limit);
        let t = truncated(names.last(), limit);
        if t.len() > 0 {
            kept.push(t)
        } else {
            kept
        }
    }
}

/// `s` with every element after its first occurrence removed.
pub open spec fn first_occurrences(s: Seq<Seq<char>>) -> Seq<Seq<char>>
    decreases s.len(),
{
    if s.len() == 0 {
        Seq::empty()
    } else {
        let d = first_occurrences(s.drop_last());
        if d.contains(s.last()) {
            d
        } else {
            d.push(s.last())
        }
    }
}

/// Whether `t` is one of the strings of `v`.
fn contains_text(v: &Vec<String>, t: &String) -> (b: bool)
    ensures
        b == strings_view(v@).contains(t@),
{
    let mut k: usize = 0;
    while k < v.len()
        invariant
            k <= v@.len(),
            forall|j: int| 0 <= j < k ==> v@[j]@ != t@,
        decreases v@.len() - k,
    {
        if v[k] == *t {
            assert(strings_view(v@)[k as int] == t@);
            return true;
        }
        k = k + 1;
    }
    proof {
        if strings_view(v@).contains(t@) {
            let j = choose|j: int| 0 <= j < strings_view(v@).len() && strings_view(v@)[j] == t@;
            assert(v@[j]@ == t@);
        }
    }
    false
}

/// The topics stored for a repository: each name cut to `limit`, the empty
/// ones dropped, and each topic kept once, where it first appears.
pub fn prepare_topics(names: &Vec<String>, limit: usize) -> (res: Vec<String>)
    ensures
        strings_view(res@) == first_occurrences(kept_topics(strings_view(names@), limit as nat)),
{
    let ghost nv = strings_view(names@);
    let mut topics: Vec<String> = Vec::new();
    let mut i: usize = 0;
    while i < names.len()
        invariant
            nv == strings_view(names@),
            i <= names@.len(),
            strings_view(topics@) == first_occurrences(kept_topics(nv.take(i as int), limit as nat)),
        decreases names@.len() - i,
    {
        assert(nv.take(i + 1).drop_last() == nv.take(i as int));
        assert(nv.take(i + 1).last() == nv[i as int]);
        let t = truncate_to_char_limit(names[i].as_str(), limit);
        let ghost kept_before = kept_topics(nv.take(i as int), limit as nat);
        assert(nv[i as int] == names@[i as int]@);
        assert(kept_topics(nv.take(i + 1), limit as nat) == if t@.len() > 0 {
            kept_before.push(t@)
        } else {
            kept_before
        });
        proof {
            if t@.len() > 0 {
                assert(kept_before.push(t@).drop_last() == kept_before);
                assert(kept_before.push(t@).last() == t@);
            }
        }
        if !t.as_str().is_empty() {
            let seen = contains_text(&topics, &t);
            if !seen {
                let ghost before = topics@;
                topics.push(t);
                assert(strings_view(topics@) == strings_view(before).push(topics@[before.len() as int]@));
            }
        }
        i = i + 1;
    }
    assert(nv.take(names@.len() as int) == nv);
    topics
}

/// Every stored topic is non-empty, fits its column, and appears once.
pub proof fn law_prepared_topics(names: Seq<Seq<char>>, limit: nat)
    ensures
        forall|i: int|
            0 <= i < first_occurrences(kept_topics(names, limit)).len() ==> {
                let t = #[trigger] first_occurrences(kept_topics(names, limit))[i];
                0 < t.len() <= limit
            },
        forall|i: int, j: int|
            0 <= i < j < first_occurrences(kept_topics(names, limit)).len() ==> first_occurrences(
                kept_topics(names, limit),
            )[i] != first_occurrences(kept_topics(names, limit))[j],
{
    let k = kept_topics(names, limit);
    let f = first_occurrences(k);
    lemma_kept_topics_bounded(names, limit);
    lemma_first_occurrences(k);
    assert forall|i: int| 0 <= i < f.len() implies 0 < (#[trigger] f[i]).len() <= limit by {
        assert(f.contains(f[i]));
        assert(k.contains(f[i]));
        let j = choose|j: int| 0 <= j < k.len() && k[j] == f[i];
        assert(0 < k[j].len() <= limit);
    }
}

proof fn lemma_kept_topics_bounded(names: Seq<Seq<char>>, limit: nat)
    ensures
        forall|i: int|
            0 <= i < kept_topics(names, limit).len() ==> 0 < (#[trigger] kept_topics(
                names,
                limit,
            )[i]).len() <= limit,
    decreases names.len(),
{
    if names.len() > 0 {
        lemma_kept_topics_bounded(names.drop_last(), limit);
        let kept = kept_topics(names.drop_last(), limit);
        let t = truncated(names.last(), limit);
        assert(t.len() <= limit);
        if t.len() > 0 {
            assert forall|i: int| 0 <= i < kept.push(t).len() implies 0 < (#[trigger] kept.push(
                t,
            )[i]).len() <= limit by {
                if i < kept.len() {
                    assert(kept.push(t)[i] == kept[i]);
                }
            }
        }
    }
}

/// `first_occurrences(s)` holds each element of `s` once, and nothing else.
pub proof fn lemma_first_occurrences(s: Seq<Seq<char>>)
    ensures
        forall|i: int, j: int|
            0 <= i < j < first_occurrences(s).len() ==> first_occurrences(s)[i]
                != first_occurrences(s)[j],
        forall|x: Seq<char>| first_occurrences(s).contains(x) <==> s.contains(x),
    decreases s.len(),
{
    if s.len() > 0 {
        let p = s.drop_last();
        let l = s.last();
        lemma_first_occurrences(p);
        let d = first_occurrences(p);
        assert(s == p.push(l));
        assert forall|x: Seq<char>| s.contains(x) <==> (p.contains(x) || x == l) by {
            if s.contains(x) {
                let k = choose|k: int| 0 <= k < s.len() && s[k] == x;
                if k < p.len() {
                    assert(p[k] == x);
                }
            }
            if p.contains(x) {
                let k = choose|k: int| 0 <= k < p.len() && p[k] == x;
                assert(s[k] == x);
            }
            if x == l {
                assert(s[s.len() - 1] == x);
            }
        }
        if !d.contains(l) {
            let r = d.push(l);
            assert forall|x: Seq<char>| r.contains(x) <==> (d.contains(x) || x == l) by {
                if r.contains(x) {
                    let k = choose|k: int| 0 <= k < r.len() && r[k] == x;
                    if k < d.len() {
                        assert(d[k] == x);
                    }
                }
                if d.contains(x) {
                    let k = choose|k: int| 0 <= k < d.len() && d[k] == x;
                    assert(r[k] == x);
                }
                if x == l {
                    assert(r[r.len() - 1] == x);
                }
            }
            assert forall|i: int, j: int| 0 <= i < j < r.len() implies r[i] != r[j] by {
                if j == r.len() - 1 {
                    assert(r[i] == d[i]);
                    assert(d.contains(d[i]));
                } else {
                    assert(r[i] == d[i]);
                    assert(r[j] == d[j]);
                }
            }
        }
    }
}

// ---------------------------------------------------------------------------
// The whole plan
// ---------------------------------------------------------------------------

/// A row of `users`.
#[derive(Debug)]
pub struct UserRow {
    pub id: String,
    pub platform: String,
    pub avatar_id: String,
    pub bio: Option<String>,
}

/// A row of `repos`.
#[derive(Debug)]
pub struct RepoRow {
    pub id: String,
    pub owner: String,
    pub platform: String,
    pub description: Option<String>,
    pub issues_count: i64,
    pub default_branch_name: String,
    pub fork_count: i64,
    pub stargazer_count: i64,
    pub watchers_count: i64,
    pub pushed_at: String,
    pub created_at: String,
    pub is_archived: bool,
    pub is_disabled: bool,
    pub is_fork: bool,
    pub license: String,
    pub primary_language: String,
    pub latest_commit_hash: String,
    pub last_updated_in_this_database: String,
}

/// Everything that is written for one repository. `default_branch` is the
/// release row of the default branch; `releases` are the tagged releases.
/// The repository goes into `packages` when `is_package`, else into
/// `programs`.
#[derive(Debug)]
pub struct RepoWritePlan {
    pub user: UserRow,
    pub repo: RepoRow,
    pub search_keywords: String,
    pub topics: Vec<String>,
    pub default_branch: ReleaseRow,
    pub releases: Vec<ReleaseRow>,
    pub is_package: bool,
}

/// Whether an optional text, when there, holds at most `limit` characters.
pub open spec fn opt_fits(o: Option<String>, limit: nat) -> bool {
    match o {
        Some(t) => t@.len() <= limit,
        None => true,
    }
}

/// Whether every text of a release row, and of its dependency rows, fits
/// its column.
pub open spec fn release_row_fits(r: ReleaseRow) -> bool {
    &&& r.version@.len() <= limits::RELEASE_VERSION_MAX_LEN
    &&& r.minimum_zig_version@.len() <= limits::RELEASE_MIN_ZIG_VERSION_MAX_LEN
    &&& opt_fits(r.directory_files, limits::RELEASE_DIRECTORY_FILES_MAX_LEN as nat)
    &&& forall|i: int|
        0 <= i < r.dependencies@.len() ==> {
            let d = #[trigger] r.dependencies@[i];
            &&& d.name@.len() <= limits::RELEASE_DEPENDENCY_FIELD_MAX_LEN
            &&& d.hash@.len() <= limits::RELEASE_DEPENDENCY_FIELD_MAX_LEN
            &&& d.url@.len() <= limits::RELEASE_DEPENDENCY_FIELD_MAX_LEN
            &&& d.path@.len() <= limits::RELEASE_DEPENDENCY_FIELD_MAX_LEN
        }
}

/// Whether every limited text of a write plan fits its column, and its
/// topics are non-empty and distinct.
pub open spec fn plan_fits_columns(p: RepoWritePlan) -> bool {
    &&& p.user.id@.len() <= limits::USER_ID_MAX_LEN
    &&& p.user.platform@.len() <= limits::PLATFORM_MAX_LEN
    &&& p.user.avatar_id@.len() <= limits::USER_AVATAR_ID_MAX_LEN
    &&& opt_fits(p.user.bio, limits::USER_BIO_MAX_LEN as nat)
    &&& p.repo.id@.len() <= limits::REPO_ID_MAX_LEN
    &&& p.repo.owner@.len() <= limits::REPO_OWNER_MAX_LEN
    &&& p.repo.platform@.len() <= limits::PLATFORM_MAX_LEN
    &&& opt_fits(p.repo.description, limits::REPO_DESCRIPTION_MAX_LEN as nat)
    &&& p.repo.default_branch_name@.len() <= limits::REPO_DEFAULT_BRANCH_MAX_LEN
    &&& p.repo.license@.len() <= limits::REPO_LICENSE_MAX_LEN
    &&& p.repo.primary_language@.len() <= limits::REPO_PRIMARY_LANGUAGE_MAX_LEN
    &&& p.repo.latest_commit_hash@.len() <= limits::REPO_COMMIT_HASH_MAX_LEN
    &&& forall|i: int|
        0 <= i < p.topics@.len() ==> 0 < (#[trigger] p.topics@[i])@.len()
            <= limits::TOPIC_MAX_LEN
    &&& forall|i: int, j: int|
        0 <= i < j < p.topics@.len() ==> (#[trigger] p.topics@[i])@ != (#[trigger] p.topics@[j])@
    &&& release_row_fits(p.default_branch)
    &&& forall|i: int| 0 <= i < p.releases@.len() ==> release_row_fits(#[trigger] p.releases@[i])
}

/// A release row made for any values fits its columns.
pub proof fn lemma_release_row_fits(
    r: ReleaseRow,
    version: Seq<char>,
    is_prerelease: bool,
    published_at: Seq<char>,
    minimum_zig_version: Seq<char>,
    readme_url: Seq<char>,
    deps: Seq<SpecDependency>,
    directory_files: Option<Seq<char>>,
)
    requires
        is_release_row(
            r,
            version,
            is_prerelease,
            published_at,
            minimum_zig_version,
            readme_url,
            deps,
            directory_files,
        ),
    ensures
        release_row_fits(r),
{
    assert forall|i: int| 0 <= i < r.dependencies@.len() implies {
        let d = #[trigger] r.dependencies@[i];
        &&& d.name@.len() <= limits::RELEASE_DEPENDENCY_FIELD_MAX_LEN
        &&& d.hash@.len() <= limits::RELEASE_DEPENDENCY_FIELD_MAX_LEN
        &&& d.url@.len() <= limits::RELEASE_DEPENDENCY_FIELD_MAX_LEN
        &&& d.path@.len() <= limits::RELEASE_DEPENDENCY_FIELD_MAX_LEN
    } by {
        assert(is_dependency_row(r.dependencies@[i], deps[i]));
    }
}

/// The topics of a plan, made by `first_occurrences` of the kept topics,
/// are non-empty, fit their column and are distinct.
pub proof fn lemma_plan_topics(topics: Seq<String>, names: Seq<Seq<char>>)
    requires
        strings_view(topics) == first_occurrences(kept_topics(names, limits::TOPIC_MAX_LEN as nat)),
    ensures
        forall|i: int|
            0 <= i < topics.len() ==> 0 < (#[trigger] topics[i])@.len() <= limits::TOPIC_MAX_LEN,
        forall|i: int, j: int|
            0 <= i < j < topics.len() ==> (#[trigger] topics[i])@ != (#[trigger] topics[j])@,
{
    law_prepared_topics(names, limits::TOPIC_MAX_LEN as nat);
    let f = first_occurrences(kept_topics(names, limits::TOPIC_MAX_LEN as nat));
    assert forall|i: int| 0 <= i < topics.len() implies 0 < (#[trigger] topics[i])@.len()
        <= limits::TOPIC_MAX_LEN by {
        assert(strings_view(topics)[i] == topics[i]@);
        assert(f[i] == topics[i]@);
    }
    assert forall|i: int, j: int| 0 <= i < j < topics.len() implies (#[trigger] topics[i])@ != (
    #[trigger] topics[j])@ by {
        assert(strings_view(topics)[i] == topics[i]@);
        assert(strings_view(topics)[j] == topics[j]@);
        assert(f[i] != f[j]);
    }
}

// ---------------------------------------------------------------------------
// Every column comes from its own source
// ---------------------------------------------------------------------------

/// Whether `stored` is `source` cut to `limit` chars: a prefix of `source`,
/// as long as `source` or as `limit`, whichever is shorter.
pub open spec fn cut_from(stored: Seq<char>, source: Seq<char>, limit: nat) -> bool {
    &&& stored.is_prefix_of(source)
    &&& stored.len() == if source.len() <= limit {
        source.len()
    } else {
        limit
    }
}

/// A truncated text is its source cut to the limit.
pub proof fn lemma_truncated_cut(s: Seq<char>, n: nat)
    ensures
        cut_from(truncated(s, n), s, n),
{
    if s.len() > n {
        assert(s.take(n as int).is_prefix_of(s));
    } else {
        assert(s.is_prefix_of(s));
    }
}

/// Whether each column of a dependency row comes from the same field of the
/// dependency: name from name, hash from hash, url from url, path from
/// path, each cut to its column, and the lazy flag is 1 exactly when the
/// `lazy` text is `true` (up to ASCII case and surrounding whitespace),
/// else 0.
pub open spec fn dependency_row_columns(r: DependencyRow, d: SpecDependency) -> bool {
    &&& cut_from(r.name@, d.name, limits::RELEASE_DEPENDENCY_FIELD_MAX_LEN as nat)
    &&& cut_from(r.hash@, d.hash, limits::RELEASE_DEPENDENCY_FIELD_MAX_LEN as nat)
    &&& cut_from(r.url@, d.url, limits::RELEASE_DEPENDENCY_FIELD_MAX_LEN as nat)
    &&& cut_from(r.path@, d.path, limits::RELEASE_DEPENDENCY_FIELD_MAX_LEN as nat)
    &&& (r.is_lazy == 0 || r.is_lazy == 1)
    &&& (r.is_lazy == 1 <==> eq_ignore_ascii_case(trim_whitespace(d.lazy), "true"@))
}

/// The row stored for a dependency takes each column from the dependency's
/// own field.
pub proof fn law_dependency_row_columns(r: DependencyRow, d: SpecDependency)
    requires
        is_dependency_row(r, d),
    ensures
        dependency_row_columns(r, d),
{
    lemma_truncated_cut(d.name, limits::RELEASE_DEPENDENCY_FIELD_MAX_LEN as nat);
    lemma_truncated_cut(d.hash, limits::RELEASE_DEPENDENCY_FIELD_MAX_LEN as nat);
    lemma_truncated_cut(d.url, limits::RELEASE_DEPENDENCY_FIELD_MAX_LEN as nat);
    lemma_truncated_cut(d.path, limits::RELEASE_DEPENDENCY_FIELD_MAX_LEN as nat);
}

/// Whether each column of a release row comes from its own source, cut to
/// its column where it has a limit, and its dependency rows are those of
/// `deps`, one for each, in order.
pub open spec fn release_row_columns(
    r: ReleaseRow,
    version: Seq<char>,
    is_prerelease: bool,
    published_at: Seq<char>,
    minimum_zig_version: Seq<char>,
    readme_url: Seq<char>,
    deps: Seq<SpecDependency>,
    directory_files: Option<Seq<char>>,
) -> bool {
    &&& cut_from(r.version@, version, limits::RELEASE_VERSION_MAX_LEN as nat)
    &&& r.is_prerelease == is_prerelease
    &&& r.published_at@ == published_at
    &&& cut_from(
        r.minimum_zig_version@,
        minimum_zig_version,
        limits::RELEASE_MIN_ZIG_VERSION_MAX_LEN as nat,
    )
    &&& r.readme_url@ == readme_url
    &&& r.dependencies@.len() == deps.len()
    &&& forall|i: int|
        0 <= i < deps.len() ==> dependency_row_columns(#[trigger] r.dependencies@[i], deps[i])
    &&& match directory_files {
        Some(x) => r.directory_files is Some && cut_from(
            r.directory_files->Some_0@,
            x,
            limits::RELEASE_DIRECTORY_FILES_MAX_LEN as nat,
        ),
        None => r.directory_files is None,
    }
}

/// A release row takes each column from its own source.
pub proof fn law_release_row_columns(
    r: ReleaseRow,
    version: Seq<char>,
    is_prerelease: bool,
    published_at: Seq<char>,
    minimum_zig_version: Seq<char>,
    readme_url: Seq<char>,
    deps: Seq<SpecDependency>,
    directory_files: Option<Seq<char>>,
)
    requires
        is_release_row(
            r,
            version,
            is_prerelease,
            published_at,
            minimum_zig_version,
            readme_url,
            deps,
            directory_files,
        ),
    ensures
        release_row_columns(
            r,
            version,
            is_prerelease,
            published_at,
            minimum_zig_version,
            readme_url,
            deps,
            directory_files,
        ),
{
    lemma_truncated_cut(version, limits::RELEASE_VERSION_MAX_LEN as nat);
    lemma_truncated_cut(minimum_zig_version, limits::RELEASE_MIN_ZIG_VERSION_MAX_LEN as nat);
    if let Some(x) = directory_files {
        lemma_truncated_cut(x, limits::RELEASE_DIRECTORY_FILES_MAX_LEN as nat);
    }
    assert forall|i: int| 0 <= i < deps.len() implies dependency_row_columns(
        #[trigger] r.dependencies@[i],
        deps[i],
    ) by {
        assert(is_dependency_row(r.dependencies@[i], deps[i]));
        law_dependency_row_columns(r.dependencies@[i], deps[i]);
    }
}

} // verus!
