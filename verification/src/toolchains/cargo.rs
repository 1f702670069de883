//! Cargo: sessions share one target directory per repository.
use vstd::prelude::*;

use super::SessionEnvVar;
use crate::paths::{join_path, joined_path};

verus! {

/// How many variables Cargo wants: one in a Cargo workspace, none elsewhere.
pub open spec fn cargo_vars_len(has_cargo_manifest: bool) -> nat {
    if has_cargo_manifest {
        1
    } else {
        0
    }
}

/// The variable Cargo wants: `CARGO_TARGET_DIR` set, where not set yet, to the
/// UTF-8 bytes of the `target` directory of the repository.
pub open spec fn is_cargo_var(var: SessionEnvVar, repo_dir: Seq<char>) -> bool {
    &&& var.key@ == "CARGO_TARGET_DIR"@
    &&& var.value@ == vstd::utf8::encode_utf8(joined_path(repo_dir, "target"@))
    &&& !var.overwrite
}

/// The variables that Cargo wants for a session of a workspace whose repository
/// lives in `repo_dir`; `has_cargo_manifest` tells whether the workspace holds
/// a `Cargo.toml`. Sessions of one repository share its `target` directory.
pub fn session_env(repo_dir: &str, has_cargo_manifest: bool) -> (vars: Vec<SessionEnvVar>)
    ensures
        vars@.len() == cargo_vars_len(has_cargo_manifest),
        forall|i: int| 0 <= i < vars@.len() ==> is_cargo_var(#[trigger] vars@[i], repo_dir@),
{
    if !has_cargo_manifest {
        return Vec::new();
    }
    let target = join_path(repo_dir, "target");
    let value = vstd::slice::slice_to_vec(target.as_str().as_bytes());
    let mut vars: Vec<SessionEnvVar> = Vec::new();
    vars.push(SessionEnvVar { key: "CARGO_TARGET_DIR", value, overwrite: false });
    vars
}

} // verus!
