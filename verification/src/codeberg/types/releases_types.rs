//! A release as the Codeberg releases API lists it.
use vstd::prelude::*;
use crate::json::JsonValue;

verus! {

/// The account that published a release.
#[derive(Debug, Clone, PartialEq, Default)]
pub struct Author {
    pub id: i64,
    pub login: String,
    pub login_name: String,
    pub source_id: i64,
    pub full_name: String,
    pub email: String,
    pub avatar_url: String,
    pub html_url: String,
    pub language: String,
    pub is_admin: bool,
    pub last_login: String,
    pub created: String,
    pub restricted: bool,
    pub active: bool,
    pub prohibit_login: bool,
    pub location: String,
    pub pronouns: String,
    pub website: String,
    pub description: String,
    pub visibility: String,
    pub followers_count: i64,
    pub following_count: i64,
    pub starred_repos_count: i64,
    pub username: String,
}

/// How often the archives of a release were downloaded.
#[derive(Debug, Clone, Copy, PartialEq, Eq, Default)]
pub struct ArchiveDownloadCount {
    pub zip: i64,
    pub tar_gz: i64,
}

/// One release. `assets` keeps the asset records as raw JSON.
#[derive(Debug)]
pub struct Root2 {
    pub id: i64,
    pub tag_name: String,
    pub target_commitish: String,
    pub name: String,
    pub body: String,
    pub url: String,
    pub html_url: String,
    pub tarball_url: String,
    pub zipball_url: String,
    pub hide_archive_links: bool,
    pub upload_url: String,
    pub draft: bool,
    pub prerelease: bool,
    pub created_at: String,
    pub published_at: String,
    pub author: Author,
    pub assets: Vec<JsonValue>,
    pub archive_download_count: ArchiveDownloadCount,
}

} // verus!
