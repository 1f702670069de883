use swarm::paths::SwarmPaths;
use swarm::prune::prune_outcome;
use swarm::repos::Repository;
use swarm::toolchains;
use swarm::SwarmError;

fn swarm_repo() -> Repository {
    Repository::parse("github.com/penberg/swarm", None).unwrap()
}

#[test]
fn paths_under_the_data_directory() {
    let paths = SwarmPaths::from_data_dir("/data/swarm");
    assert_eq!(paths.data_dir, "/data/swarm");
    assert_eq!(paths.repos_dir, "/data/swarm/repos");
    assert_eq!(paths.index_db_path, "/data/swarm/index.db");
    let repo = swarm_repo();
    assert_eq!(paths.repo_dir(&repo), "/data/swarm/repos/github.com/penberg/swarm");
    assert_eq!(paths.repo_db_path(&repo), "/data/swarm/repos/github.com/penberg/swarm/repo.db");
    assert_eq!(paths.repo_meta_path(&repo), "/data/swarm/repos/github.com/penberg/swarm/meta.toml");
    assert_eq!(paths.workspaces_dir(&repo), "/data/swarm/repos/github.com/penberg/swarm/workspaces");
    assert_eq!(paths.bare_repo_path(&repo), "/data/swarm/repos/github.com/penberg/swarm/source.git");
    assert_eq!(paths.sessions_dir(&repo), "/data/swarm/repos/github.com/penberg/swarm/sessions");
}

#[test]
fn cargo_workspaces_share_the_target_directory() {
    let vars = toolchains::cargo::session_env("/data/repo", true);
    assert_eq!(vars.len(), 1);
    assert_eq!(vars[0].key, "CARGO_TARGET_DIR");
    assert_eq!(vars[0].value, b"/data/repo/target".to_vec());
    assert!(!vars[0].overwrite);

    assert!(toolchains::cargo::session_env("/data/repo", false).is_empty());
}

#[test]
fn all_toolchains_together() {
    let vars = toolchains::session_env("/r/é", true);
    assert_eq!(vars.len(), 1);
    assert_eq!(vars[0].value, "/r/é/target".as_bytes().to_vec());
    assert!(toolchains::session_env("/r", false).is_empty());
}

#[test]
fn prune_outcomes() {
    assert!(prune_outcome(0).is_ok());
    match prune_outcome(3) {
        Err(SwarmError::PruneIncomplete(n)) => assert_eq!(n, 3),
        other => panic!("unexpected {:?}", other),
    }
}
