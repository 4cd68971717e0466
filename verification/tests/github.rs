use zigistry::custom_types::Dependency;
use zigistry::github::crawl::{
    after_failed_attempt, after_page, after_window, base_step, is_empty_reply, known_repo_action,
    queue_new_repo, repo_type_label, search_query_text, AttemptFailure, KnownRepoAction,
    PageOutcome, RetryState, EMPTY_REPLY, search_nodes, search_page_info, WindowWalk,
};
use zigistry::github::github_data::{ReleaseData, RepoData};
use zigistry::github::types::{
    DefaultBranchRef, LicenseInfo, Language, Node, Owner, ReleaseNode, Releases,
    RepositoryTopics, Target, Topic, TopicEdge, TopicNode, TotalCount,
};
use zigistry::github::{
    assemble_repo_data, branch_to_read, build_zig_zon_url, choose_default_branch_readme,
    contains_zig, get_commit_hash, get_commit_hash_value, has_zig_in_top_languages,
    has_zig_in_top_languages_value, makeing_commit_hash_normal, parse_partial_repo_node,
    contents_api_url, readme_api_url, readme_download_url, release_data, release_readme_url, repo_identity, repo_write_plan,
    zon_data_or_unknown,
};
use zigistry::json::JsonValue;

fn s(x: &str) -> JsonValue {
    JsonValue::Str(x.to_string())
}

fn obj(members: Vec<(&str, JsonValue)>) -> JsonValue {
    JsonValue::Object(members.into_iter().map(|(k, v)| (k.to_string(), v)).collect())
}

fn topic_node(name: &str) -> TopicNode {
    TopicNode { topic: Topic { name: name.to_string() } }
}

fn sample_node() -> Node {
    Node {
        name: "Zap".to_string(),
        description: Some("blazingly fast web framework".to_string()),
        owner: Owner {
            login: "ZigZap".to_string(),
            bio: None,
            description: Some("org".to_string()),
        },
        default_branch_ref: Some(DefaultBranchRef {
            name: "master".to_string(),
            target: Some(Target { oid: Some("  abc123  ".to_string()) }),
        }),
        license_info: Some(LicenseInfo { spdx_id: "MIT".to_string() }),
        primary_language: None,
        issues: TotalCount { total_count: 3 },
        fork_count: 4,
        stargazer_count: 5,
        watchers: TotalCount { total_count: 6 },
        pushed_at: "2024-01-02T00:00:00Z".to_string(),
        created_at: "2023-01-01T00:00:00Z".to_string(),
        is_archived: false,
        is_disabled: false,
        is_fork: true,
        repository_topics: RepositoryTopics {
            nodes: vec![topic_node("zig"), topic_node(""), topic_node("http")],
            edges: vec![TopicEdge { node: topic_node("zig") }, TopicEdge { node: topic_node("web") }],
        },
        releases: Releases {
            nodes: vec![ReleaseNode {
                tag_name: "v1".to_string(),
                is_prerelease: false,
                published_at: "2024".to_string(),
            }],
        },
        languages: Some(obj(vec![(
            "edges",
            JsonValue::Array(vec![obj(vec![("node", obj(vec![("name", s("Zig"))]))])]),
        )])),
    }
}

#[test]
fn commit_hash_normalisation() {
    assert_eq!(makeing_commit_hash_normal(None), "unknown");
    assert_eq!(makeing_commit_hash_normal(Some("   ")), "unknown");
    assert_eq!(makeing_commit_hash_normal(Some(" abc ")), "abc");
    let long = "a".repeat(50);
    assert_eq!(makeing_commit_hash_normal(Some(&long)), "a".repeat(40));
    let node = sample_node();
    assert_eq!(get_commit_hash(node.default_branch_ref.as_ref()), "abc123");
    assert_eq!(get_commit_hash(None), "unknown");
}

#[test]
fn commit_hash_of_raw_nodes() {
    let first = obj(vec![("defaultBranchRef", obj(vec![("target", obj(vec![("oid", s("111"))]))]))]);
    assert_eq!(get_commit_hash_value(&first), "111");
    let second = obj(vec![(
        "defaultBranchRef",
        obj(vec![("target", obj(vec![("commit", obj(vec![("oid", s("222"))]))]))]),
    )]);
    assert_eq!(get_commit_hash_value(&second), "222");
    let third = obj(vec![("default_branch_ref", obj(vec![("target", obj(vec![("oid", s("333"))]))]))]);
    assert_eq!(get_commit_hash_value(&third), "333");
    assert_eq!(get_commit_hash_value(&JsonValue::Null), "unknown");
}

#[test]
fn zig_language_detection() {
    assert!(contains_zig(&s("ZIG")));
    assert!(!contains_zig(&s("zag")));
    assert!(contains_zig(&JsonValue::Array(vec![s("c"), s("zig")])));
    assert!(contains_zig(&obj(vec![("nodes", JsonValue::Array(vec![obj(vec![("name", s("Zig"))])]))])));
    assert!(!contains_zig(&obj(vec![("other", s("zig"))])));
    assert!(!contains_zig(&JsonValue::Number("1".to_string())));
    assert!(has_zig_in_top_languages(&sample_node()));
    let mut node = sample_node();
    node.languages = None;
    assert!(!has_zig_in_top_languages(&node));
    assert!(has_zig_in_top_languages_value(&obj(vec![("languages", s("zig"))])));
    assert!(!has_zig_in_top_languages_value(&obj(vec![("language", s("zig"))])));
}

#[test]
fn partial_nodes() {
    let node = obj(vec![
        ("nameWithOwner", s(" ZigZap/Zap ")),
        ("defaultBranchRef", obj(vec![("target", obj(vec![("oid", s("abc"))]))])),
    ]);
    let p = parse_partial_repo_node(&node).unwrap();
    assert_eq!(p.owner_login, "zigzap");
    assert_eq!(p.owner_id, "gh/zigzap");
    assert_eq!(p.repo_id, "gh/zigzap/zap");
    assert_eq!(p.latest_commit_hash, "abc");

    let node = obj(vec![("owner", obj(vec![("login", s("A"))])), ("name", s("B"))]);
    let p = parse_partial_repo_node(&node).unwrap();
    assert_eq!(p.repo_id, "gh/a/b");
    assert_eq!(p.latest_commit_hash, "unknown");

    assert!(parse_partial_repo_node(&obj(vec![("nameWithOwner", s("noslash"))])).is_none());
    assert!(parse_partial_repo_node(&obj(vec![("nameWithOwner", s("/x"))])).is_none());
    assert!(parse_partial_repo_node(&obj(vec![("name", s("x"))])).is_none());
}

#[test]
fn repository_identity_and_branch() {
    assert_eq!(
        repo_identity("ZigZap", "Zap"),
        ("gh/zigzap".to_string(), "gh/zigzap/zap".to_string())
    );
    let node = sample_node();
    assert_eq!(branch_to_read(node.default_branch_ref.as_ref()), "master");
    assert_eq!(branch_to_read(None), "HEAD");
    let empty = DefaultBranchRef { name: String::new(), target: None };
    assert_eq!(branch_to_read(Some(&empty)), "HEAD");
}

#[test]
fn readme_and_zon_fallbacks() {
    assert_eq!(
        choose_default_branch_readme(Some("u".into()), Some("c".into())),
        ("u".to_string(), "c".to_string())
    );
    assert_eq!(
        choose_default_branch_readme(Some("u".into()), None),
        ("u".to_string(), String::new())
    );
    assert_eq!(
        choose_default_branch_readme(None, Some("c".into())),
        ("404 unable to find readme. ".to_string(), String::new())
    );
    assert_eq!(release_readme_url(None), "404 unable to find readme.");
    assert_eq!(zon_data_or_unknown(Err("x".into())), ("unknown".to_string(), vec![]));
    assert_eq!(build_zig_zon_url("o", "r", "main"), "https://raw.githubusercontent.com/o/r/main/build.zig.zon");
    assert_eq!(readme_api_url("o", "r", "v1"), "https://api.github.com/repos/o/r/readme?ref=v1");
}

fn dep(name: &str, lazy: &str) -> Dependency {
    Dependency {
        name: name.to_string(),
        hash: "h".to_string(),
        lazy: lazy.to_string(),
        url: "u".to_string(),
        path: String::new(),
    }
}

#[test]
fn write_plan_of_a_repository() {
    let node = sample_node();
    let release = release_data(
        &node.releases.nodes[0],
        None,
        Ok(("0.14.0".to_string(), vec![dep("b", "false")])),
        "src\n\nbuild.zig".to_string(),
    );
    assert_eq!(release.directory_files, "src\n\nbuild.zig");
    assert_eq!(release.readme_url, "404 unable to find readme.");
    let data: RepoData = assemble_repo_data(
        node,
        true,
        Some("https://readme".to_string()),
        Some("content".to_string()),
        "keywords".to_string(),
        Ok(("0.13.0".to_string(), vec![dep("a", " TRUE ")])),
        "lib\n\nREADME.md".to_string(),
        vec![release],
    );
    assert_eq!(data.user_id, "gh/zigzap");
    assert_eq!(data.repo_id, "gh/zigzap/zap");
    assert_eq!(data.readme_url, "https://readme");
    let plan = repo_write_plan(&data, "2025-01-01T00:00:00Z".to_string());
    assert_eq!(plan.user.id, "gh/zigzap");
    assert_eq!(plan.user.platform, "github");
    assert_eq!(plan.default_branch.directory_files, Some("lib\n\nREADME.md".to_string()));
    assert_eq!(plan.releases[0].directory_files, Some("src\n\nbuild.zig".to_string()));
    assert_eq!(plan.user.avatar_id, "ZigZap");
    assert_eq!(plan.user.bio, Some("org".to_string()));
    assert_eq!(plan.repo.id, "gh/zigzap/zap");
    assert_eq!(plan.repo.owner, "gh/zigzap");
    assert_eq!(plan.repo.description, Some("blazingly fast web framework".to_string()));
    assert_eq!(plan.repo.issues_count, 3);
    assert_eq!(plan.repo.watchers_count, 6);
    assert_eq!(plan.repo.default_branch_name, "master");
    assert_eq!(plan.repo.license, "MIT");
    assert_eq!(plan.repo.primary_language, "-");
    assert_eq!(plan.repo.latest_commit_hash, "abc123");
    assert_eq!(plan.repo.last_updated_in_this_database, "2025-01-01T00:00:00Z");
    assert!(plan.repo.is_fork);
    assert_eq!(plan.search_keywords, "keywords");
    assert_eq!(plan.topics, vec!["zig".to_string(), "http".to_string(), "web".to_string()]);
    assert_eq!(plan.default_branch.version, "__ZIGISTRY__DEFAULT__BRANCH__");
    assert_eq!(plan.default_branch.published_at, "2023-01-01T00:00:00Z");
    assert_eq!(plan.default_branch.minimum_zig_version, "0.13.0");
    assert_eq!(plan.default_branch.dependencies.len(), 1);
    assert_eq!(plan.default_branch.dependencies[0].is_lazy, 1);
    assert_eq!(plan.releases.len(), 1);
    assert_eq!(plan.releases[0].version, "v1");
    assert_eq!(plan.releases[0].dependencies[0].is_lazy, 0);
    assert!(plan.is_package);
}

#[test]
fn write_plan_truncates_to_columns() {
    let mut node = sample_node();
    node.description = Some("d".repeat(300));
    node.repository_topics = RepositoryTopics { nodes: vec![topic_node(&"t".repeat(70))], edges: vec![] };
    let data = ReleaseData {
        tag_name: "v".repeat(300),
        is_prerelease: true,
        published_at: "p".to_string(),
        minimum_zig_version: "m".repeat(40),
        readme_url: "r".to_string(),
        dependencies: vec![],
        directory_files: "f".repeat(10050),
    };
    let repo = assemble_repo_data(node, false, None, None, String::new(), Err("e".into()), "d".repeat(10001), vec![data]);
    let plan = repo_write_plan(&repo, String::new());
    assert_eq!(plan.default_branch.directory_files.as_ref().map(|d| d.chars().count()), Some(10000));
    assert_eq!(plan.releases[0].directory_files.as_ref().map(|d| d.chars().count()), Some(10000));
    assert_eq!(plan.repo.description.unwrap().chars().count(), 260);
    assert_eq!(plan.topics, vec!["t".repeat(60)]);
    assert_eq!(plan.releases[0].version.chars().count(), 255);
    assert_eq!(plan.releases[0].minimum_zig_version.chars().count(), 30);
    assert_eq!(plan.default_branch.minimum_zig_version, "unknown");
    assert_eq!(plan.default_branch.readme_url, "404 unable to find readme. ");
    assert!(!plan.is_package);
}

#[test]
fn search_windows() {
    assert_eq!(base_step(0), 1);
    assert_eq!(base_step(50), 50);
    let ok = after_window(50, 50, false);
    assert!(ok.advance && ok.next_step == 50);
    let halved = after_window(50, 50, true);
    assert!(!halved.advance && halved.next_step == 25);
    let skipped = after_window(1, 50, true);
    assert!(skipped.advance && skipped.next_step == 50);
    assert_eq!(
        search_query_text("zig", "stars:>20", "2020-01-01T00:00:00Z", "2020-02-20T00:00:00Z"),
        "topic:zig stars:>20 created:2020-01-01T00:00:00Z..2020-02-20T00:00:00Z"
    );
    assert!(is_empty_reply(EMPTY_REPLY));
    assert!(!is_empty_reply("{}"));
    assert!(after_page(PageOutcome::FetchFailed).window_failed);
    assert!(!after_page(PageOutcome::EmptyReply).fetch_next_page);
    assert!(after_page(PageOutcome::Page { has_next_page: true }).fetch_next_page);
    assert!(!after_page(PageOutcome::Page { has_next_page: false }).fetch_next_page);
}

#[test]
fn search_results() {
    assert_eq!(known_repo_action(None, "a"), KnownRepoAction::CheckBanned);
    assert_eq!(known_repo_action(Some("a"), "a"), KnownRepoAction::UpToDate);
    assert_eq!(known_repo_action(Some("a"), "b"), KnownRepoAction::QueueUpdate);
    assert!(queue_new_repo(false));
    assert!(!queue_new_repo(true));
    assert_eq!(repo_type_label(true), "package");
    assert_eq!(repo_type_label(false), "program");
}

#[test]
fn retries() {
    let state = RetryState::new();
    assert_eq!(state.retry_count(), 0);
    assert_eq!(state.waiting_time(), 2);
    let p = after_failed_attempt(&state, AttemptFailure::BadStatus(502));
    assert!(p.recreate_client);
    assert_eq!(p.sleep_secs, 4);
    let p = after_failed_attempt(&p.next, AttemptFailure::SendFailed);
    assert_eq!(p.next.waiting_time(), 8);
    assert_eq!(p.sleep_secs, 10);
    let p = after_failed_attempt(&p.next, AttemptFailure::BadStatus(500));
    assert_eq!(p.sleep_secs, 8);
    assert!(!p.recreate_client);
    let p = after_failed_attempt(&p.next, AttemptFailure::BodyUnreadable);
    assert_eq!(p.sleep_secs, 16);
    assert!(p.next.exhausted());
    let mut st = RetryState::new();
    for _ in 0..3 {
        st = after_failed_attempt(&st, AttemptFailure::EmptyBody).next;
        assert_eq!(st.waiting_time(), 2);
    }
    assert!(!st.exhausted());
}

#[test]
fn search_reply_page_info_and_nodes() {
    let reply = obj(vec![(
        "data",
        obj(vec![(
            "search",
            obj(vec![
                ("pageInfo", obj(vec![("hasNextPage", JsonValue::Bool(true)), ("endCursor", s("Y3Vy"))])),
                ("nodes", JsonValue::Array(vec![obj(vec![]), obj(vec![])])),
            ]),
        )]),
    )]);
    assert_eq!(search_page_info(&reply), (true, Some("Y3Vy".to_string())));
    assert_eq!(search_nodes(&reply).map(|n| n.len()), Some(2));
    let last = obj(vec![(
        "data",
        obj(vec![(
            "search",
            obj(vec![("pageInfo", obj(vec![("hasNextPage", JsonValue::Bool(false)), ("endCursor", JsonValue::Null)]))]),
        )]),
    )]);
    assert_eq!(search_page_info(&last), (false, None));
    assert!(search_nodes(&last).is_none());
    let odd = obj(vec![("data", obj(vec![("search", obj(vec![("pageInfo", obj(vec![("hasNextPage", s("yes"))]))]))]))]);
    assert_eq!(search_page_info(&odd), (false, None));
}

#[test]
fn readme_download_urls() {
    assert_eq!(
        readme_download_url(&obj(vec![("download_url", s("https://raw/x/README.md"))])),
        Some("https://raw/x/README.md".to_string())
    );
    assert_eq!(readme_download_url(&obj(vec![("download_url", JsonValue::Null)])), None);
    assert_eq!(readme_download_url(&JsonValue::Array(Vec::new())), None);
}

#[test]
fn contents_listing_url() {
    assert_eq!(
        contents_api_url("zigzap", "zap", "v1"),
        "https://api.github.com/repos/zigzap/zap/contents?ref=v1"
    );
}

#[test]
fn window_walk_halves_then_moves_on() {
    let mut walk = WindowWalk::new(4, 5);
    assert!(!walk.finished());
    assert_eq!(walk.window(), (0, 4));
    walk.next_turn(true);
    assert_eq!(walk.window(), (0, 2));
    walk.next_turn(false);
    assert_eq!(walk.window(), (2, 6));
    walk.next_turn(false);
    assert!(walk.finished());

    let mut one_day = WindowWalk::new(0, 1);
    assert_eq!(one_day.window(), (0, 1));
    one_day.next_turn(true);
    assert_eq!(one_day.window(), (1, 2));
    one_day.next_turn(true);
    assert!(one_day.finished());
}
