//! The parts of a GitHub GraphQL repository node that the crawler reads.
use vstd::prelude::*;
use crate::json::JsonValue;

verus! {

#[derive(Debug)]
pub struct Owner {
    pub login: String,
    pub bio: Option<String>,
    pub description: Option<String>,
}

/// The commit at the tip of a branch.
#[derive(Debug)]
pub struct Target {
    pub oid: Option<String>,
}

#[derive(Debug)]
pub struct DefaultBranchRef {
    pub name: String,
    pub target: Option<Target>,
}

#[derive(Debug)]
pub struct LicenseInfo {
    pub spdx_id: String,
}

#[derive(Debug)]
pub struct Language {
    pub name: String,
}

#[derive(Debug)]
pub struct TotalCount {
    pub total_count: u32,
}

#[derive(Debug)]
pub struct Topic {
    pub name: String,
}

#[derive(Debug)]
pub struct TopicNode {
    pub topic: Topic,
}

#[derive(Debug)]
pub struct TopicEdge {
    pub node: TopicNode,
}

#[derive(Debug)]
pub struct RepositoryTopics {
    pub nodes: Vec<TopicNode>,
    pub edges: Vec<TopicEdge>,
}

#[derive(Debug)]
pub struct ReleaseNode {
    pub tag_name: String,
    pub is_prerelease: bool,
    pub published_at: String,
}

#[derive(Debug)]
pub struct Releases {
    pub nodes: Vec<ReleaseNode>,
}

/// A repository as the GitHub GraphQL API describes it. `languages` is the
/// raw `languages` connection.
#[derive(Debug)]
pub struct Node {
    pub name: String,
    pub description: Option<String>,
    pub owner: Owner,
    pub default_branch_ref: Option<DefaultBranchRef>,
    pub license_info: Option<LicenseInfo>,
    pub primary_language: Option<Language>,
    pub issues: TotalCount,
    pub fork_count: u32,
    pub stargazer_count: u32,
    pub watchers: TotalCount,
    pub pushed_at: String,
    pub created_at: String,
    pub is_archived: bool,
    pub is_disabled: bool,
    pub is_fork: bool,
    pub repository_topics: RepositoryTopics,
    pub releases: Releases,
    pub languages: Option<JsonValue>,
}

} // verus!
