//! The decisions of the Codeberg crawler: the search pages it asks for,
//! how a repository's identifiers and records are formed, and what is
//! written for it.
use vstd::prelude::*;
use crate::constants::limits;
use crate::custom_types::{Dependency, dependencies_view};
use crate::database::{truncated, truncate_to_char_limit};
use crate::text::{joined, to_lowercase, unicode_lowercase, strings_view, u64_to_text, decimal_text};
use crate::records::{
    RepoWritePlan, UserRow, RepoRow, is_release_row, release_row, prepare_topics,
    first_occurrences, kept_topics, default_branch_version, plan_fits_columns,
    lemma_plan_topics, lemma_release_row_fits, release_row_fits, cut_from, lemma_truncated_cut,
    release_row_columns, law_release_row_columns,
};
use crate::github::{are_release_rows, release_rows};
use crate::github::github_data::ReleaseData;
use crate::codeberg::codeberg_data::RepoData;
use crate::codeberg::types::types::Daum;
use crate::codeberg::types::releases_types::Root2;

pub mod codeberg_data;
pub mod codeberg_process_release;
pub mod helper_functions;
pub mod types;

verus! {

broadcast use vstd::string::group_string_axioms;

/// The URL of page `page` of the search for repositories with topic
/// `query`, 100 per page.
pub fn search_page_url(query: &str, page: u64) -> (res: String)
    ensures
        res@ == "https://codeberg.org/api/v1/repos/search?q="@ + query@ + "&limit=100&page="@
            + decimal_text(page as nat) + "&topic=true"@,
{
    let mut url = joined("https://codeberg.org/api/v1/repos/search?q=", query);
    url.append("&limit=100&page=");
    let page_text = u64_to_text(page);
    url.append(page_text.as_str());
    url.append("&topic=true");
    url
}

/// What the crawler does after asking for a search page.
#[derive(Debug, Clone, Copy, PartialEq, Eq)]
pub enum SearchPageStep {
    /// Every attempt failed: the crawl stops with an error.
    GiveUp,
    /// The page was empty: the search is done.
    Done,
    /// The page held repositories: they are stored and the next page is
    /// asked for.
    StoreAndContinue,
}

/// After a search page: `page_len` is the number of repositories it held,
/// or none when every attempt to get it failed.
pub fn search_page_step(page_len: Option<usize>) -> (res: SearchPageStep)
    ensures
        res == match page_len {
            None => SearchPageStep::GiveUp,
            Some(n) => if n == 0 {
                SearchPageStep::Done
            } else {
                SearchPageStep::StoreAndContinue
            },
        },
{
    match page_len {
        None => SearchPageStep::GiveUp,
        Some(n) => if n == 0 {
            SearchPageStep::Done
        } else {
            SearchPageStep::StoreAndContinue
        },
    }
}

/// The user id `cb/<login>` and repository id `cb/<login>/<name>` of a
/// repository, in lower case.
pub fn repo_identity(owner_login: &str, name: &str) -> (res: (String, String))
    ensures
        res.0@ == unicode_lowercase("cb/"@ + owner_login@),
        res.1@ == unicode_lowercase("cb/"@ + owner_login@ + "/"@ + name@),
{
    let user = joined("cb/", owner_login);
    let mut repo = joined("cb/", owner_login);
    repo.append("/");
    repo.append(name);
    (to_lowercase(user.as_str()), to_lowercase(repo.as_str()))
}

/// What is kept of a `build.zig.zon` fetch: its minimum Zig version and
/// dependencies, or nothing when it could not be had.
pub fn zon_data_or_empty(fetched: Result<(String, Vec<Dependency>), String>) -> (res: (
    String,
    Vec<Dependency>,
))
    ensures
        fetched is Ok ==> res.0@ == fetched->Ok_0.0@ && res.1@ == fetched->Ok_0.1@,
        fetched is Err ==> res.0@.len() == 0 && res.1@.len() == 0,
{
    match fetched {
        Ok(t) => t,
        Err(_) => (String::new(), Vec::new()),
    }
}

/// The record of a Codeberg release.
pub fn release_data(
    release: &Root2,
    readme_url: String,
    zon: Result<(String, Vec<Dependency>), String>,
) -> (res: ReleaseData)
    ensures
        res.tag_name@ == release.tag_name@,
        res.is_prerelease == release.prerelease,
        res.published_at@ == release.published_at@,
        res.readme_url@ == readme_url@,
        zon is Ok ==> res.minimum_zig_version@ == zon->Ok_0.0@ && res.dependencies@
            == zon->Ok_0.1@,
        zon is Err ==> res.minimum_zig_version@.len() == 0 && res.dependencies@.len() == 0,
        res.directory_files@.len() == 0,
{
    let (minimum_zig_version, dependencies) = zon_data_or_empty(zon);
    ReleaseData {
        tag_name: release.tag_name.clone(),
        is_prerelease: release.prerelease,
        published_at: release.published_at.clone(),
        minimum_zig_version,
        readme_url,
        dependencies,
        directory_files: String::new(),
    }
}

/// The repository record, from what was fetched for its default branch:
/// the README's URL and content (the content is what the search keywords
/// are made of), the `build.zig.zon` of `HEAD` and the releases.
pub fn get_repo_data(
    repository: Daum,
    readme_url: String,
    readme_content: String,
    zon: Result<(String, Vec<Dependency>), String>,
    releases: Vec<ReleaseData>,
) -> (res: RepoData)
    ensures
        res.user_id@ == unicode_lowercase("cb/"@ + repository.owner.login@),
        res.repo_id@ == unicode_lowercase(
            "cb/"@ + repository.owner.login@ + "/"@ + repository.name@,
        ),
        res.readme_url@ == readme_url@,
        res.readme_keywords@ == readme_content@,
        zon is Ok ==> res.build_zig_zon_version@ == zon->Ok_0.0@
            && res.build_zig_zon_dependencies@ == zon->Ok_0.1@,
        zon is Err ==> res.build_zig_zon_version@.len() == 0
            && res.build_zig_zon_dependencies@.len() == 0,
        res.releases@ == releases@,
        res.repository == repository,
{
    let (user_id, repo_id) = repo_identity(repository.owner.login.as_str(), repository.name.as_str());
    let (build_zig_zon_version, build_zig_zon_dependencies) = zon_data_or_empty(zon);
    RepoData {
        repository,
        user_id,
        repo_id,
        readme_url,
        readme_keywords: readme_content,
        build_zig_zon_version,
        build_zig_zon_dependencies,
        releases,
    }
}

// ---------------------------------------------------------------------------
// Storing a repository
// ---------------------------------------------------------------------------

/// The position after the last `/` of `s`, or 0 when there is none.
pub open spec fn after_last_slash(s: Seq<char>, k: int) -> int
    decreases k,
{
    if k <= 0 {
        0
    } else if s[k - 1] == '/' {
        k
    } else {
        after_last_slash(s, k - 1)
    }
}

/// The last `/`-separated segment of `s` (`s.rsplit('/').next()`).
pub open spec fn last_segment(s: Seq<char>) -> Seq<char> {
    s.skip(after_last_slash(s, s.len() as int))
}

pub proof fn lemma_after_last_slash(s: Seq<char>, k: int)
    requires
        0 <= k <= s.len(),
    ensures
        0 <= after_last_slash(s, k) <= k,
    decreases k,
{
    if k > 0 && s[k - 1] != '/' {
        lemma_after_last_slash(s, k - 1);
    }
}

/// The last `/`-separated segment of `s`.
pub fn last_path_segment(s: &str) -> (res: String)
    ensures
        res@ == last_segment(s@),
{
    let cs = crate::text::chars_of(s);
    let mut k = cs.len();
    proof {
        lemma_after_last_slash(cs@, k as int);
    }
    while k > 0 && cs[k - 1] != '/'
        invariant
            k <= cs@.len(),
            after_last_slash(cs@, k as int) == after_last_slash(cs@, cs@.len() as int),
        decreases k,
    {
        k = k - 1;
    }
    crate::text::string_from_range(&cs, k, cs.len())
}

/// Whether one of `topics` is exactly `zig-package`.
pub open spec fn has_package_topic(topics: Seq<String>) -> bool {
    exists|i: int| 0 <= i < topics.len() && (#[trigger] topics[i])@ == "zig-package"@
}

/// Whether a Codeberg repository is a package: one of its topics is
/// exactly `zig-package`.
pub fn is_package_repo(topics: &Vec<String>) -> (res: bool)
    ensures
        res == has_package_topic(topics@),
        res == strings_view(topics@).contains("zig-package"@),
{
    proof {
        law_package_topic(topics@);
    }
    let mut i: usize = 0;
    while i < topics.len()
        invariant
            i <= topics@.len(),
            forall|k: int| 0 <= k < i ==> (#[trigger] topics@[k])@ != "zig-package"@,
        decreases topics@.len() - i,
    {
        if crate::github::crawl::str_equals(topics[i].as_str(), "zig-package") {
            assert(topics@[i as int]@ == "zig-package"@);
            proof {
                law_package_topic(topics@);
            }
            return true;
        }
        i = i + 1;
    }
    proof {
        law_package_topic(topics@);
    }
    false
}

/// Whether `p` is what is written for the Codeberg repository `d` at time
/// `now`.
pub open spec fn is_codeberg_write_plan(p: RepoWritePlan, d: RepoData, now: Seq<char>) -> bool {
    let r = d.repository;
    let user_id = truncated(d.user_id@, limits::USER_ID_MAX_LEN as nat);
    let platform = truncated("codeberg"@, limits::PLATFORM_MAX_LEN as nat);
    &&& p.user.id@ == user_id
    &&& p.user.platform@ == platform
    &&& p.user.avatar_id@ == truncated(
        last_segment(r.owner.avatar_url@),
        limits::USER_AVATAR_ID_MAX_LEN as nat,
    )
    &&& p.user.bio is Some && p.user.bio->Some_0@ == truncated(
        r.owner.description@,
        limits::USER_BIO_MAX_LEN as nat,
    )
    &&& p.repo.id@ == truncated(d.repo_id@, limits::REPO_ID_MAX_LEN as nat)
    &&& p.repo.owner@ == truncated(user_id, limits::REPO_OWNER_MAX_LEN as nat)
    &&& p.repo.platform@ == platform
    &&& p.repo.description is Some && p.repo.description->Some_0@ == truncated(
        r.description@,
        limits::REPO_DESCRIPTION_MAX_LEN as nat,
    )
    &&& p.repo.issues_count == r.open_issues_count
    &&& p.repo.default_branch_name@ == truncated(
        r.default_branch@,
        limits::REPO_DEFAULT_BRANCH_MAX_LEN as nat,
    )
    &&& p.repo.fork_count == r.forks_count
    &&& p.repo.stargazer_count == r.stars_count
    &&& p.repo.watchers_count == r.watchers_count
    &&& p.repo.pushed_at@ == r.updated_at@
    &&& p.repo.created_at@ == r.created_at@
    &&& p.repo.is_archived == r.archived
    &&& p.repo.is_disabled == r.archived
    &&& p.repo.is_fork == r.fork
    &&& p.repo.license@ == truncated("-"@, limits::REPO_LICENSE_MAX_LEN as nat)
    &&& p.repo.primary_language@ == truncated(
        r.language@,
        limits::REPO_PRIMARY_LANGUAGE_MAX_LEN as nat,
    )
    &&& p.repo.latest_commit_hash@ == truncated(
        "unknown"@,
        limits::REPO_COMMIT_HASH_MAX_LEN as nat,
    )
    &&& p.repo.last_updated_in_this_database@ == now
    &&& p.search_keywords@ == d.readme_keywords@
    &&& strings_view(p.topics@) == first_occurrences(
        kept_topics(strings_view(r.topics@), limits::TOPIC_MAX_LEN as nat),
    )
    &&& is_release_row(
        p.default_branch,
        default_branch_version(),
        false,
        r.created_at@,
        d.build_zig_zon_version@,
        d.readme_url@,
        dependencies_view(d.build_zig_zon_dependencies@),
        None,
    )
    &&& are_release_rows(p.releases@, d.releases@, false)
    &&& p.is_package == has_package_topic(r.topics@)
}

/// Everything that is written for a Codeberg repository, every text cut to
/// its column (see `is_codeberg_write_plan`). `database_updated_at` is the
/// time of the write.
pub fn repo_write_plan(data: &RepoData, database_updated_at: String) -> (plan: RepoWritePlan)
    ensures
        is_codeberg_write_plan(plan, *data, database_updated_at@),
{
    let repository = &data.repository;
    let repo_id = truncate_to_char_limit(data.repo_id.as_str(), limits::REPO_ID_MAX_LEN);
    let user_id = truncate_to_char_limit(data.user_id.as_str(), limits::USER_ID_MAX_LEN);
    let platform = truncate_to_char_limit("codeberg", limits::PLATFORM_MAX_LEN);
    let avatar_segment = last_path_segment(repository.owner.avatar_url.as_str());
    let avatar_id = truncate_to_char_limit(avatar_segment.as_str(), limits::USER_AVATAR_ID_MAX_LEN);
    let owner_id = truncate_to_char_limit(user_id.as_str(), limits::REPO_OWNER_MAX_LEN);
    let user_bio = Some(
        truncate_to_char_limit(repository.owner.description.as_str(), limits::USER_BIO_MAX_LEN),
    );
    let description = Some(
        truncate_to_char_limit(repository.description.as_str(), limits::REPO_DESCRIPTION_MAX_LEN),
    );
    let default_branch_name = truncate_to_char_limit(
        repository.default_branch.as_str(),
        limits::REPO_DEFAULT_BRANCH_MAX_LEN,
    );
    let latest_commit_hash = truncate_to_char_limit("unknown", limits::REPO_COMMIT_HASH_MAX_LEN);
    let license = truncate_to_char_limit("-", limits::REPO_LICENSE_MAX_LEN);
    let primary_language = truncate_to_char_limit(
        repository.language.as_str(),
        limits::REPO_PRIMARY_LANGUAGE_MAX_LEN,
    );
    let is_package = is_package_repo(&repository.topics);
    let topics = prepare_topics(&repository.topics, limits::TOPIC_MAX_LEN);
    let default_branch = release_row(
        "__ZIGISTRY__DEFAULT__BRANCH__",
        false,
        repository.created_at.clone(),
        data.build_zig_zon_version.as_str(),
        data.readme_url.clone(),
        &data.build_zig_zon_dependencies,
        None,
    );
    let releases = release_rows(&data.releases, false);
    RepoWritePlan {
        user: UserRow { id: user_id, platform: platform.clone(), avatar_id, bio: user_bio },
        repo: RepoRow {
            id: repo_id,
            owner: owner_id,
            platform,
            description,
            issues_count: repository.open_issues_count,
            default_branch_name,
            fork_count: repository.forks_count,
            stargazer_count: repository.stars_count,
            watchers_count: repository.watchers_count,
            pushed_at: repository.updated_at.clone(),
            created_at: repository.created_at.clone(),
            is_archived: repository.archived,
            is_disabled: repository.archived,
            is_fork: repository.fork,
            license,
            primary_language,
            latest_commit_hash,
            last_updated_in_this_database: database_updated_at,
        },
        search_keywords: data.readme_keywords.clone(),
        topics,
        default_branch,
        releases,
        is_package,
    }
}

/// Whatever a Codeberg repository holds, every limited text that is written
/// for it fits its database column, and its topics are non-empty and
/// distinct.
pub proof fn law_codeberg_plan_fits_columns(p: RepoWritePlan, d: RepoData, now: Seq<char>)
    requires
        is_codeberg_write_plan(p, d, now),
    ensures
        plan_fits_columns(p),
{
    lemma_plan_topics(p.topics@, strings_view(d.repository.topics@));
    lemma_release_row_fits(
        p.default_branch,
        default_branch_version(),
        false,
        d.repository.created_at@,
        d.build_zig_zon_version@,
        d.readme_url@,
        dependencies_view(d.build_zig_zon_dependencies@),
        None,
    );
    assert forall|i: int| 0 <= i < p.releases@.len() implies release_row_fits(
        #[trigger] p.releases@[i],
    ) by {
        lemma_release_row_fits(
            p.releases@[i],
            d.releases@[i].tag_name@,
            d.releases@[i].is_prerelease,
            d.releases@[i].published_at@,
            d.releases@[i].minimum_zig_version@,
            d.releases@[i].readme_url@,
            dependencies_view(d.releases@[i].dependencies@),
            None,
        );
    }
}

/// A repository is a package exactly when `zig-package` is among its
/// topics, at any position; putting a topic in front of others makes a
/// package exactly when that topic is `zig-package` or the others already
/// make one.
pub proof fn law_package_topic(topics: Seq<String>)
    ensures
        has_package_topic(topics) <==> strings_view(topics).contains("zig-package"@),
        forall|t: String|
            has_package_topic(#[trigger] (seq![t] + topics)) <==> (t@ == "zig-package"@
                || has_package_topic(topics)),
{
    let v = strings_view(topics);
    if has_package_topic(topics) {
        let i = choose|i: int| 0 <= i < topics.len() && (#[trigger] topics[i])@ == "zig-package"@;
        assert(v[i] == "zig-package"@);
    }
    if v.contains("zig-package"@) {
        let i = choose|i: int| 0 <= i < v.len() && v[i] == "zig-package"@;
        assert(topics[i]@ == "zig-package"@);
    }
    assert forall|t: String| has_package_topic(#[trigger] (seq![t] + topics)) <==> (t@
        == "zig-package"@ || has_package_topic(topics)) by {
        let all = seq![t] + topics;
        if has_package_topic(all) {
            let i = choose|i: int| 0 <= i < all.len() && (#[trigger] all[i])@ == "zig-package"@;
            if i > 0 {
                assert(topics[i - 1] == all[i]);
            }
        }
        if t@ == "zig-package"@ {
            assert(all[0] == t);
        }
        if has_package_topic(topics) {
            let i = choose|i: int| 0 <= i < topics.len() && (#[trigger] topics[i])@ == "zig-package"@;
            assert(all[i + 1] == topics[i]);
        }
    }
}

/// Whether an optional stored text is the source cut to `limit`.
pub open spec fn some_cut_from(stored: Option<String>, source: Seq<char>, limit: nat) -> bool {
    stored matches Some(a) && cut_from(a@, source, limit)
}

/// What is written for a Codeberg repository takes every column from its
/// own source: the open issues, forks, stars and watchers as they are, the
/// last update as the push time, the archived flag as both archived and
/// disabled, each text cut to its column (the avatar from the last segment
/// of the avatar URL), a package exactly when one topic is `zig-package`,
/// and the default branch and each release as rows made from their own
/// values, in order, without directory listings.
pub proof fn law_codeberg_plan_columns(p: RepoWritePlan, d: RepoData, now: Seq<char>)
    requires
        is_codeberg_write_plan(p, d, now),
    ensures
        cut_from(p.user.id@, d.user_id@, limits::USER_ID_MAX_LEN as nat),
        cut_from(p.user.platform@, "codeberg"@, limits::PLATFORM_MAX_LEN as nat),
        cut_from(
            p.user.avatar_id@,
            last_segment(d.repository.owner.avatar_url@),
            limits::USER_AVATAR_ID_MAX_LEN as nat,
        ),
        some_cut_from(p.user.bio, d.repository.owner.description@, limits::USER_BIO_MAX_LEN as nat),
        cut_from(p.repo.id@, d.repo_id@, limits::REPO_ID_MAX_LEN as nat),
        cut_from(p.repo.owner@, p.user.id@, limits::REPO_OWNER_MAX_LEN as nat),
        p.repo.platform@ == p.user.platform@,
        some_cut_from(
            p.repo.description,
            d.repository.description@,
            limits::REPO_DESCRIPTION_MAX_LEN as nat,
        ),
        p.repo.issues_count == d.repository.open_issues_count,
        p.repo.fork_count == d.repository.forks_count,
        p.repo.stargazer_count == d.repository.stars_count,
        p.repo.watchers_count == d.repository.watchers_count,
        p.repo.pushed_at@ == d.repository.updated_at@,
        p.repo.created_at@ == d.repository.created_at@,
        p.repo.is_archived == d.repository.archived,
        p.repo.is_disabled == d.repository.archived,
        p.repo.is_fork == d.repository.fork,
        cut_from(
            p.repo.default_branch_name@,
            d.repository.default_branch@,
            limits::REPO_DEFAULT_BRANCH_MAX_LEN as nat,
        ),
        cut_from(p.repo.license@, "-"@, limits::REPO_LICENSE_MAX_LEN as nat),
        cut_from(
            p.repo.primary_language@,
            d.repository.language@,
            limits::REPO_PRIMARY_LANGUAGE_MAX_LEN as nat,
        ),
        cut_from(p.repo.latest_commit_hash@, "unknown"@, limits::REPO_COMMIT_HASH_MAX_LEN as nat),
        p.repo.last_updated_in_this_database@ == now,
        p.search_keywords@ == d.readme_keywords@,
        p.is_package == strings_view(d.repository.topics@).contains("zig-package"@),
        release_row_columns(
            p.default_branch,
            default_branch_version(),
            false,
            d.repository.created_at@,
            d.build_zig_zon_version@,
            d.readme_url@,
            dependencies_view(d.build_zig_zon_dependencies@),
            None,
        ),
        p.releases@.len() == d.releases@.len(),
        forall|i: int|
            0 <= i < d.releases@.len() ==> release_row_columns(
                #[trigger] p.releases@[i],
                d.releases@[i].tag_name@,
                d.releases@[i].is_prerelease,
                d.releases@[i].published_at@,
                d.releases@[i].minimum_zig_version@,
                d.releases@[i].readme_url@,
                dependencies_view(d.releases@[i].dependencies@),
                None,
            ),
{
    let r = d.repository;
    lemma_truncated_cut(d.user_id@, limits::USER_ID_MAX_LEN as nat);
    lemma_truncated_cut("codeberg"@, limits::PLATFORM_MAX_LEN as nat);
    lemma_truncated_cut(last_segment(r.owner.avatar_url@), limits::USER_AVATAR_ID_MAX_LEN as nat);
    lemma_truncated_cut(r.owner.description@, limits::USER_BIO_MAX_LEN as nat);
    lemma_truncated_cut(d.repo_id@, limits::REPO_ID_MAX_LEN as nat);
    lemma_truncated_cut(p.user.id@, limits::REPO_OWNER_MAX_LEN as nat);
    lemma_truncated_cut(r.description@, limits::REPO_DESCRIPTION_MAX_LEN as nat);
    lemma_truncated_cut(r.default_branch@, limits::REPO_DEFAULT_BRANCH_MAX_LEN as nat);
    lemma_truncated_cut("-"@, limits::REPO_LICENSE_MAX_LEN as nat);
    lemma_truncated_cut(r.language@, limits::REPO_PRIMARY_LANGUAGE_MAX_LEN as nat);
    lemma_truncated_cut("unknown"@, limits::REPO_COMMIT_HASH_MAX_LEN as nat);
    law_package_topic(r.topics@);
    law_release_row_columns(
        p.default_branch,
        default_branch_version(),
        false,
        r.created_at@,
        d.build_zig_zon_version@,
        d.readme_url@,
        dependencies_view(d.build_zig_zon_dependencies@),
        None,
    );
    assert forall|i: int| 0 <= i < d.releases@.len() implies release_row_columns(
        #[trigger] p.releases@[i],
        d.releases@[i].tag_name@,
        d.releases@[i].is_prerelease,
        d.releases@[i].published_at@,
        d.releases@[i].minimum_zig_version@,
        d.releases@[i].readme_url@,
        dependencies_view(d.releases@[i].dependencies@),
        None,
    ) by {
        law_release_row_columns(
            p.releases@[i],
            d.releases@[i].tag_name@,
            d.releases@[i].is_prerelease,
            d.releases@[i].published_at@,
            d.releases@[i].minimum_zig_version@,
            d.releases@[i].readme_url@,
            dependencies_view(d.releases@[i].dependencies@),
            None,
        );
    }
}

} // verus!
