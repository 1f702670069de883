//! Filesystem paths, held as text, and where the application keeps its data.
use vstd::prelude::*;

use crate::repos::RepositoryView;

verus! {

/// The text of the path `base` joined with `part` by `std::path::Path::join`.
pub uninterp spec fn joined_path(base: Seq<char>, part: Seq<char>) -> Seq<char>;

/// Calls `std::path::Path::join` on `base` and `part` and returns the joined
/// path as text. The contract only names the result: how the separator is
/// placed, and that an absolute `part` replaces `base`, is not stated. The
/// join of two UTF-8 texts is UTF-8, so the conversion back to text is exact.
#[verifier::external_body]
pub fn join_path(base: &str, part: &str) -> (r: String)
    ensures
        r@ == joined_path(base@, part@),
{
    std::path::Path::new(base).join(part).to_string_lossy().into_owned()
}

/// The directory of a repository under the repositories directory:
/// `repos_dir/host/owner/name`.
pub open spec fn repo_dir_text(repos_dir: Seq<char>, repo: RepositoryView) -> Seq<char> {
    joined_path(joined_path(joined_path(repos_dir, repo.host), repo.owner), repo.name)
}

/// Where the application keeps its data: the data directory, the directory of
/// the repositories under it and the index database.
pub struct SwarmPaths {
    pub data_dir: String,
    pub repos_dir: String,
    pub index_db_path: String,
}

impl SwarmPaths {
    /// The paths under the data directory `data_dir`: `repos` and `index.db`.
    pub fn from_data_dir(data_dir: &str) -> (p: SwarmPaths)
        ensures
            p.data_dir@ == data_dir@,
            p.repos_dir@ == joined_path(data_dir@, "repos"@),
            p.index_db_path@ == joined_path(data_dir@, "index.db"@),
    {
        SwarmPaths {
            data_dir: String::from_str(data_dir),
            repos_dir: join_path(data_dir, "repos"),
            index_db_path: join_path(data_dir, "index.db"),
        }
    }

    /// The directory of `repo`.
    pub fn repo_dir(&self, repo: &crate::repos::Repository) -> (r: String)
        ensures
            r@ == repo_dir_text(self.repos_dir@, repo@),
    {
        let host_dir = join_path(self.repos_dir.as_str(), repo.host.as_str());
        let owner_dir = join_path(host_dir.as_str(), repo.owner.as_str());
        join_path(owner_dir.as_str(), repo.name.as_str())
    }

    /// The database of `repo`: `repo.db` in its directory.
    pub fn repo_db_path(&self, repo: &crate::repos::Repository) -> (r: String)
        ensures
            r@ == joined_path(repo_dir_text(self.repos_dir@, repo@), "repo.db"@),
    {
        join_path(self.repo_dir(repo).as_str(), "repo.db")
    }

    /// The metadata file of `repo`: `meta.toml` in its directory.
    pub fn repo_meta_path(&self, repo: &crate::repos::Repository) -> (r: String)
        ensures
            r@ == joined_path(repo_dir_text(self.repos_dir@, repo@), "meta.toml"@),
    {
        join_path(self.repo_dir(repo).as_str(), "meta.toml")
    }

    /// The workspaces of `repo`: `workspaces` in its directory.
    pub fn workspaces_dir(&self, repo: &crate::repos::Repository) -> (r: String)
        ensures
            r@ == joined_path(repo_dir_text(self.repos_dir@, repo@), "workspaces"@),
    {
        join_path(self.repo_dir(repo).as_str(), "workspaces")
    }

    /// The bare clone of `repo`: `source.git` in its directory.
    pub fn bare_repo_path(&self, repo: &crate::repos::Repository) -> (r: String)
        ensures
            r@ == joined_path(repo_dir_text(self.repos_dir@, repo@), "source.git"@),
    {
        join_path(self.repo_dir(repo).as_str(), "source.git")
    }

    /// The sessions of `repo`: `sessions` in its directory.
    pub fn sessions_dir(&self, repo: &crate::repos::Repository) -> (r: String)
        ensures
            r@ == joined_path(repo_dir_text(self.repos_dir@, repo@), "sessions"@),
    {
        join_path(self.repo_dir(repo).as_str(), "sessions")
    }
}

} // verus!
