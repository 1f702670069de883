//! Parsing and naming of hosted git repositories, and the rules that a
//! repository index applies to them.
use vstd::prelude::*;

pub mod text;
pub mod repos;
pub mod paths;
pub mod laws;
pub mod toolchains;
pub mod prune;

verus! {

/// The errors of the library.
#[derive(Debug)]
pub enum SwarmError {
    /// The data directory of the application could not be found or named.
    PathResolution,
    /// The text does not name a repository; it holds the trimmed text.
    InvalidRepository(String),
    /// The repository, by its canonical name, is already registered.
    DuplicateRepository(String),
    /// The alias is already taken by a registered repository.
    DuplicateAlias(String),
    /// No registered repository matches the reference.
    RepositoryNotFound(String),
    /// Pruning left the given number of workspaces behind.
    PruneIncomplete(usize),
}

} // verus!
