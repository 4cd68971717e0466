use zigistry::codeberg::codeberg_process_release::{compiled_release, releases_url};
use zigistry::codeberg::helper_functions::{
    backoff_secs, build_zig_zon_url, codeberg_readme_url, directory_listing,
    find_readme_file_name, latest_commit_hash_of, raw_file_base_url, repo_api_url,
    search_retry_wait_secs, zig_in_top_languages,
};
use zigistry::codeberg::types::releases_types::{ArchiveDownloadCount, Author, Root2};
use zigistry::codeberg::types::types::{Daum, Owner};
use zigistry::codeberg::{
    get_repo_data, is_package_repo, last_path_segment, release_data, repo_identity,
    repo_write_plan, search_page_step, search_page_url, zon_data_or_empty, SearchPageStep,
};
use zigistry::custom_types::{Dependency, Release};
use zigistry::json::JsonValue;

fn s(x: &str) -> JsonValue {
    JsonValue::Str(x.to_string())
}

fn num(x: &str) -> JsonValue {
    JsonValue::Number(x.to_string())
}

fn obj(members: Vec<(&str, JsonValue)>) -> JsonValue {
    JsonValue::Object(members.into_iter().map(|(k, v)| (k.to_string(), v)).collect())
}

fn dep(name: &str) -> Dependency {
    Dependency {
        name: name.to_string(),
        hash: "1220ab".to_string(),
        lazy: "true".to_string(),
        url: "https://example.org/x.tar.gz".to_string(),
        path: String::new(),
    }
}

fn sample_release(tag: &str) -> Root2 {
    Root2 {
        id: 7,
        tag_name: tag.to_string(),
        target_commitish: "main".to_string(),
        name: tag.to_string(),
        body: String::new(),
        url: String::new(),
        html_url: String::new(),
        tarball_url: String::new(),
        zipball_url: String::new(),
        hide_archive_links: false,
        upload_url: String::new(),
        draft: false,
        prerelease: true,
        created_at: "2024-05-01T00:00:00Z".to_string(),
        published_at: "2024-05-02T00:00:00Z".to_string(),
        author: Author::default(),
        assets: Vec::new(),
        archive_download_count: ArchiveDownloadCount { zip: 1, tar_gz: 2 },
    }
}

fn sample_repo() -> Daum {
    Daum {
        name: "Zdt".to_string(),
        owner: Owner {
            login: "FObersteiner".to_string(),
            avatar_url: "https://codeberg.org/avatars/abc123".to_string(),
            description: "tz things".to_string(),
        },
        description: "date and time".to_string(),
        default_branch: "main".to_string(),
        language: "Zig".to_string(),
        open_issues_count: 2,
        forks_count: 3,
        stars_count: 4,
        watchers_count: 5,
        updated_at: "2024-06-01T00:00:00Z".to_string(),
        created_at: "2022-01-01T00:00:00Z".to_string(),
        archived: false,
        fork: false,
        topics: vec!["zig".to_string(), "zig-package".to_string(), "zig".to_string()],
    }
}

#[test]
fn codeberg_urls() {
    assert_eq!(
        search_page_url("zig", 3),
        "https://codeberg.org/api/v1/repos/search?q=zig&limit=100&page=3&topic=true"
    );
    assert_eq!(
        raw_file_base_url("o", "r", "v1.0", true),
        "https://codeberg.org/o/r/raw/tag/v1.0/"
    );
    assert_eq!(
        build_zig_zon_url("o", "r", "main", false),
        "https://codeberg.org/o/r/raw/branch/main/build.zig.zon"
    );
    assert_eq!(
        repo_api_url("o", "r", "/languages"),
        "https://codeberg.org/api/v1/repos/o/r/languages"
    );
    assert_eq!(releases_url("o", "r"), "https://codeberg.org/api/v1/repos/o/r/releases");
}

#[test]
fn identities_are_lower_case() {
    let (user, repo) = repo_identity("FObersteiner", "Zdt");
    assert_eq!(user, "cb/fobersteiner");
    assert_eq!(repo, "cb/fobersteiner/zdt");
}

#[test]
fn readme_file_is_found_in_listing() {
    assert_eq!(find_readme_file_name("src\n\nbuild.zig\nREADME.md\n"), Some("README.md".to_string()));
    assert_eq!(find_readme_file_name("docs\r\n\r\nReadMe\r\nLICENSE"), Some("ReadMe".to_string()));
    assert_eq!(find_readme_file_name("src\n\nreadme-old.md\nLICENSE"), None);
    assert_eq!(find_readme_file_name(""), None);
    assert_eq!(
        codeberg_readme_url("o", "r", "main", false, "src\n\nREADME.md"),
        Some("https://codeberg.org/o/r/raw/branch/main/README.md".to_string())
    );
    assert_eq!(codeberg_readme_url("o", "r", "main", false, ""), None);
    assert_eq!(codeberg_readme_url("o", "r", "main", false, "src\n\nLICENSE"), None);
}

#[test]
fn listing_puts_directories_first() {
    let items = vec![
        obj(vec![("name", s("build.zig")), ("type", s("file"))]),
        obj(vec![("name", s("src")), ("type", s("dir"))]),
        obj(vec![("name", s("README.md")), ("type", s("file"))]),
        obj(vec![("name", s("link")), ("type", s("symlink"))]),
        obj(vec![("type", s("file"))]),
        obj(vec![("name", s("docs")), ("type", s("dir"))]),
    ];
    assert_eq!(directory_listing(&items), "src\ndocs\n\nbuild.zig\nREADME.md");
    assert_eq!(directory_listing(&Vec::new()), "\n\n");
}

#[test]
fn newest_commit_hash() {
    let commits = JsonValue::Array(vec![
        obj(vec![("sha", s("  deadbeef  "))]),
        obj(vec![("sha", s("cafe"))]),
    ]);
    assert_eq!(latest_commit_hash_of(&commits), "deadbeef");
    assert_eq!(latest_commit_hash_of(&JsonValue::Array(Vec::new())), "unknown");
    assert_eq!(latest_commit_hash_of(&obj(vec![])), "unknown");
}

#[test]
fn zig_among_top_ten_languages() {
    fn languages(extra: bool) -> JsonValue {
        let mut members = vec![("Zig", num("10"))];
        for (i, l) in ["A", "B", "C", "D", "E", "F", "G", "H", "I"].iter().enumerate() {
            members.push((l, num(&format!("{}", 100 + i))));
        }
        if extra {
            members.push(("J", num("11")));
        }
        obj(members)
    }
    assert!(zig_in_top_languages(&languages(false)));
    assert!(!zig_in_top_languages(&languages(true)));
    // an equal size keeps the record's order
    let tie = vec![("A", num("5")), ("zig", num("5"))];
    assert!(zig_in_top_languages(&obj(tie)));
    assert!(!zig_in_top_languages(&obj(vec![("Zig", num("-1"))])));
    assert!(!zig_in_top_languages(&JsonValue::Array(Vec::new())));
}

#[test]
fn search_retry_waits() {
    assert_eq!(search_retry_wait_secs(true, Some("17"), 3), 17);
    assert_eq!(search_retry_wait_secs(true, Some("soon"), 3), 60);
    assert_eq!(search_retry_wait_secs(true, None, 3), 60);
    assert_eq!(search_retry_wait_secs(false, Some("17"), 3), 8);
    assert_eq!(backoff_secs(0), 1);
    assert_eq!(backoff_secs(10), 1024);
}

#[test]
fn path_segments_and_package_topics() {
    assert_eq!(last_path_segment("https://codeberg.org/avatars/abc123"), "abc123");
    assert_eq!(last_path_segment("plain"), "plain");
    assert_eq!(last_path_segment("ends/"), "");
    assert!(is_package_repo(&vec!["zig".to_string(), "zig-package".to_string()]));
    assert!(!is_package_repo(&vec!["zig-packages".to_string()]));
}

#[test]
fn releases_keep_what_the_zon_gave() {
    let r = sample_release("v0.8.2");
    let ok = release_data(&r, "readme".to_string(), Ok(("0.13.0".to_string(), vec![dep("a")])));
    assert_eq!(ok.tag_name, "v0.8.2");
    assert!(ok.is_prerelease);
    assert_eq!(ok.minimum_zig_version, "0.13.0");
    assert_eq!(ok.dependencies, vec![dep("a")]);
    let failed = release_data(&r, "readme".to_string(), Err("no file".to_string()));
    assert_eq!(failed.minimum_zig_version, "");
    assert!(failed.dependencies.is_empty());
    let (v, d) = zon_data_or_empty(Err("x".to_string()));
    assert_eq!(v, "");
    assert!(d.is_empty());
}

#[test]
fn compiled_release_parses_the_zon() {
    let r = sample_release("v1");
    let zon = ".{ .name = .zdt, .version = \"0.8.2\", .minimum_zig_version = \"0.14.0\", .dependencies = .{ .dep = .{ .url = \"u\", .hash = \"h\" } } }";
    let rel: Release = compiled_release(&r, zon, "https://x/README.md".to_string());
    assert!(rel.is_prerelease);
    assert_eq!(rel.published_at, "2024-05-02T00:00:00Z");
    assert_eq!(rel.minimum_zig_version, "0.14.0");
    assert_eq!(rel.dependencies.len(), 1);
    assert_eq!(rel.dependencies[0].name, "dep");
    assert_eq!(rel.dependencies[0].url, "u");
    assert_eq!(rel.readme_url, "https://x/README.md");
    let broken = compiled_release(&r, ".{ .name = ", String::new());
    assert_eq!(broken.minimum_zig_version, "");
    assert!(broken.dependencies.is_empty());
    let empty = Release::default();
    assert!(!empty.is_prerelease && empty.dependencies.is_empty());
}

#[test]
fn codeberg_write_plan() {
    let releases = vec![release_data(
        &sample_release("v1"),
        "https://r".to_string(),
        Ok(("0.12.0".to_string(), vec![dep("a")])),
    )];
    let data = get_repo_data(
        sample_repo(),
        "https://codeberg.org/FObersteiner/Zdt/raw/branch/main/README.md".to_string(),
        "date time zig".to_string(),
        Ok(("0.14.0".to_string(), vec![dep("b")])),
        releases,
    );
    assert_eq!(data.user_id, "cb/fobersteiner");
    assert_eq!(data.repo_id, "cb/fobersteiner/zdt");
    let plan = repo_write_plan(&data, "2025-01-01 00:00:00".to_string());
    assert_eq!(plan.user.id, "cb/fobersteiner");
    assert_eq!(plan.user.platform, "codeberg");
    assert_eq!(plan.user.avatar_id, "abc123");
    assert_eq!(plan.user.bio, Some("tz things".to_string()));
    assert_eq!(plan.repo.owner, "cb/fobersteiner");
    assert_eq!(plan.repo.license, "-");
    assert_eq!(plan.repo.latest_commit_hash, "unknown");
    assert_eq!(plan.repo.pushed_at, "2024-06-01T00:00:00Z");
    assert!(!plan.repo.is_disabled);
    assert_eq!(plan.repo.stargazer_count, 4);
    assert_eq!(plan.search_keywords, "date time zig");
    assert_eq!(plan.topics, vec!["zig".to_string(), "zig-package".to_string()]);
    assert_eq!(plan.default_branch.version, "__ZIGISTRY__DEFAULT__BRANCH__");
    assert_eq!(plan.default_branch.minimum_zig_version, "0.14.0");
    assert_eq!(plan.default_branch.dependencies.len(), 1);
    assert_eq!(plan.default_branch.dependencies[0].is_lazy, 1);
    assert_eq!(plan.releases.len(), 1);
    assert_eq!(plan.releases[0].version, "v1");
    assert_eq!(plan.releases[0].directory_files, None);
    assert_eq!(plan.default_branch.directory_files, None);
    assert!(plan.is_package);
}

#[test]
fn every_limited_text_fits_its_column() {
    let mut repo = sample_repo();
    repo.owner.login = "o".repeat(80);
    repo.name = "n".repeat(200);
    repo.description = "d".repeat(300);
    repo.default_branch = "b".repeat(300);
    repo.language = "l".repeat(70);
    repo.topics = vec!["t".repeat(90), String::new(), "t".repeat(61)];
    let long_dep = Dependency {
        name: "x".repeat(300),
        hash: "h".repeat(300),
        lazy: " TRUE ".to_string(),
        url: "u".repeat(300),
        path: "p".repeat(300),
    };
    let releases = vec![release_data(
        &sample_release(&"v".repeat(300)),
        String::new(),
        Ok(("9".repeat(40), vec![long_dep.clone()])),
    )];
    let data = get_repo_data(repo, String::new(), String::new(), Ok(("0".repeat(40), vec![long_dep])), releases);
    let plan = repo_write_plan(&data, String::new());
    assert_eq!(plan.user.id.chars().count(), 45);
    assert_eq!(plan.repo.id.chars().count(), 150);
    assert_eq!(plan.repo.owner.chars().count(), 45);
    assert_eq!(plan.repo.description.as_ref().map(|d| d.chars().count()), Some(260));
    assert_eq!(plan.repo.default_branch_name.chars().count(), 260);
    assert_eq!(plan.repo.primary_language.chars().count(), 50);
    assert_eq!(plan.topics, vec!["t".repeat(60)]);
    assert_eq!(plan.default_branch.minimum_zig_version.chars().count(), 30);
    assert_eq!(plan.default_branch.dependencies[0].name.chars().count(), 260);
    assert_eq!(plan.default_branch.dependencies[0].is_lazy, 1);
    assert_eq!(plan.releases[0].version.chars().count(), 255);
    assert_eq!(plan.releases[0].dependencies[0].path.chars().count(), 260);
}

#[test]
fn search_paging_decisions() {
    assert_eq!(search_page_step(None), SearchPageStep::GiveUp);
    assert_eq!(search_page_step(Some(0)), SearchPageStep::Done);
    assert_eq!(search_page_step(Some(100)), SearchPageStep::StoreAndContinue);
}
