//! Environment variables that toolchains want in the sessions of a workspace.
use vstd::prelude::*;

pub mod cargo;

verus! {

/// An environment variable for a session: its name, its value as bytes and
/// whether it replaces a value already set.
pub struct SessionEnvVar {
    pub key: &'static str,
    pub value: Vec<u8>,
    pub overwrite: bool,
}

/// The variables that all toolchains together want for a session of a
/// workspace whose repository lives in `repo_dir`; `has_cargo_manifest` tells
/// whether the workspace holds a `Cargo.toml`.
pub fn session_env(repo_dir: &str, has_cargo_manifest: bool) -> (vars: Vec<SessionEnvVar>)
    ensures
        vars@.len() == cargo::cargo_vars_len(has_cargo_manifest),
        forall|i: int|
            0 <= i < vars@.len() ==> cargo::is_cargo_var(#[trigger] vars@[i], repo_dir@),
{
    let mut vars: Vec<SessionEnvVar> = Vec::new();
    let mut cargo_vars = cargo::session_env(repo_dir, has_cargo_manifest);
    vars.append(&mut cargo_vars);
    vars
}

} // verus!
