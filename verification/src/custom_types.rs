//! The records that the registry keeps about packages, their releases and
//! their owners.
use vstd::prelude::*;
use std::collections::HashMap;

verus! {

/// One entry of the `dependencies` block of a `build.zig.zon` file.
#[derive(Debug, PartialEq, Clone)]
pub struct Dependency {
    pub name: String,
    pub hash: String,
    pub lazy: String,
    pub url: String,
    pub path: String,
}

/// What a [`Dependency`] holds, as character sequences.
pub struct SpecDependency {
    pub name: Seq<char>,
    pub hash: Seq<char>,
    pub lazy: Seq<char>,
    pub url: Seq<char>,
    pub path: Seq<char>,
}

impl View for Dependency {
    type V = SpecDependency;

    open spec fn view(&self) -> SpecDependency {
        SpecDependency {
            name: self.name@,
            hash: self.hash@,
            lazy: self.lazy@,
            url: self.url@,
            path: self.path@,
        }
    }
}

/// The views of a sequence of dependencies.
pub open spec fn dependencies_view(deps: Seq<Dependency>) -> Seq<SpecDependency> {
    deps.map_values(|d: Dependency| d@)
}

/// A release of a package (or the state of its default branch): what its
/// `build.zig.zon` declares and where its README is.
#[derive(Debug)]
pub struct Release {
    pub is_prerelease: bool,
    pub published_at: String,
    pub dependencies: Vec<Dependency>,
    pub minimum_zig_version: String,
    pub readme_url: String,
}

impl Default for Release {
    fn default() -> (res: Release)
        ensures
            !res.is_prerelease,
            res.published_at@.len() == 0,
            res.dependencies@.len() == 0,
            res.minimum_zig_version@.len() == 0,
            res.readme_url@.len() == 0,
    {
        Release {
            is_prerelease: false,
            published_at: String::new(),
            dependencies: Vec::new(),
            minimum_zig_version: String::new(),
            readme_url: String::new(),
        }
    }
}

/// A package or program as the registry lists it.
#[derive(Debug)]
pub struct Repo {
    pub avatar_id: String,
    pub description: Option<String>,
    pub issues_count: u32,
    pub default_branch: String,
    pub fork_count: u32,
    pub stargazer_count: u32,
    pub watchers_count: u32,
    pub pushed_at: String,
    pub created_at: String,
    pub is_archived: bool,
    pub is_disabled: bool,
    pub is_fork: bool,
    pub license: String,
    pub repository_topics: Vec<String>,
    /// The releases, by tag name.
    pub releases: HashMap<String, Release>,
    /// The state of the default (`HEAD`) branch.
    pub default_branch_information: Release,
    pub primary_language: String,
    pub dependents: Vec<String>,
}

/// The owner of packages, as the registry lists it.
#[derive(Debug)]
pub struct User {
    pub avatar_id: String,
    pub bio: Option<String>,
    pub company: Option<String>,
    pub followers: u32,
    pub following: u32,
    pub location: Option<String>,
    pub description: Option<String>,
    pub website_url: Option<String>,
}

} // verus!
