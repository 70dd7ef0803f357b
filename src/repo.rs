//! The repository record held in the collection.
use vstd::prelude::*;

verus! {

/// One repository as listed by the hosting service. `full_name` is the
/// qualified name (`owner/name`) that identifies it when staging.
#[derive(Debug, Clone)]
pub struct Repository {
    pub id: u64,
    pub name: String,
    pub full_name: String,
    pub description: Option<String>,
    pub private: bool,
    pub fork: bool,
    pub archived: bool,
    pub stargazers_count: u32,
    pub language: Option<String>,
    pub created_at: Option<String>,
    pub updated_at: Option<String>,
    pub html_url: String,
}

/// The qualified names of a sequence of repositories.
pub open spec fn full_names(repos: Seq<Repository>) -> Seq<Seq<char>> {
    repos.map_values(|r: Repository| r.full_name@)
}

} // verus!
