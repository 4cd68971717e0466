//! What the crawler gathers about a GitHub repository before it is stored.
use vstd::prelude::*;
use crate::custom_types::Dependency;
use crate::github::types::Node;

verus! {

/// A tagged release, with what its `build.zig.zon` and README gave.
#[derive(Debug)]
pub struct ReleaseData {
    pub tag_name: String,
    pub is_prerelease: bool,
    pub published_at: String,
    pub minimum_zig_version: String,
    pub readme_url: String,
    pub dependencies: Vec<Dependency>,
    /// The root directory listing at the tag (empty when it could not be had).
    pub directory_files: String,
}

/// A repository with what its default branch and releases gave.
#[derive(Debug)]
pub struct RepoData {
    pub repository: Node,
    pub is_package: bool,
    pub user_id: String,
    pub repo_id: String,
    pub readme_url: String,
    pub readme_content: String,
    pub build_zig_zon_version: String,
    pub build_zig_zon_dependencies: Vec<Dependency>,
    /// The root directory listing of the default branch (empty when it could
    /// not be had).
    pub default_branch_directory_files: String,
    pub releases: Vec<ReleaseData>,
}

} // verus!
