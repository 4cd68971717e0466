//! What the crawler gathers about a Codeberg repository before it is
//! stored.
use vstd::prelude::*;
use crate::codeberg::types::types::Daum;
use crate::github::github_data::ReleaseData;

verus! {

/// A repository with what its default branch and releases gave.
#[derive(Debug)]
pub struct RepoData {
    pub repository: Daum,
    pub user_id: String,
    pub repo_id: String,
    pub readme_url: String,
    pub readme_keywords: String,
    pub build_zig_zon_version: String,
    pub build_zig_zon_dependencies: Vec<crate::custom_types::Dependency>,
    pub releases: Vec<ReleaseData>,
}

} // verus!
