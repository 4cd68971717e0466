//! A repository as the Codeberg search API returns it (the fields that the
//! crawler reads).
use vstd::prelude::*;

verus! {

/// The owner of a repository.
#[derive(Debug)]
pub struct Owner {
    pub login: String,
    pub avatar_url: String,
    pub description: String,
}

/// One repository of a search result page.
#[derive(Debug)]
pub struct Daum {
    pub name: String,
    pub owner: Owner,
    pub description: String,
    pub default_branch: String,
    pub language: String,
    pub open_issues_count: i64,
    pub forks_count: i64,
    pub stars_count: i64,
    pub watchers_count: i64,
    pub updated_at: String,
    pub created_at: String,
    pub archived: bool,
    pub fork: bool,
    pub topics: Vec<String>,
}

/// A page of search results.
#[derive(Debug)]
pub struct Root {
    pub data: Vec<Daum>,
}

} // verus!
