use talos::config::{commit_changes, init_storage, Backend, BootAction, BootError, Config, GitCommand};

const STORE: &str = "/store";

fn words(list: &[&str]) -> Vec<String> {
    list.iter().map(|s| s.to_string()).collect()
}

fn git(list: &[&str], may_fail: bool) -> BootAction {
    BootAction::Git { command: GitCommand { arguments: words(list), may_fail } }
}

fn backend(kind: &str, url: Option<&str>, key: Option<&str>) -> Config {
    Config {
        backend: Backend {
            kind: kind.to_string(),
            repository_url: url.map(|s| s.to_string()),
            ssh_key_path: key.map(|s| s.to_string()),
        },
    }
}

fn mkdir() -> BootAction {
    BootAction::CreateDirAll { path: STORE.to_string() }
}

fn identity() -> BootAction {
    BootAction::WriteText { path: "/store/.gpg-id".to_string(), content: "me@x".to_string() }
}

fn repository() -> Vec<BootAction> {
    vec![
        git(&["config", "--global", "--add", "safe.directory", STORE], false),
        git(&["init", STORE], false),
        git(&["-C", STORE, "config", "user.email", "talos@system.local"], false),
        git(&["-C", STORE, "config", "user.name", "Talos Storage"], false),
    ]
}

#[test]
fn the_default_backend_is_local() {
    let c = Config::default();
    assert_eq!(c, backend("local", None, None));
}

#[test]
fn a_local_store_commits_nothing() {
    assert_eq!(commit_changes(&Config::default(), STORE, "Update secret: a"), vec![]);
    assert_eq!(commit_changes(&backend("other", None, None), STORE, "m"), vec![]);
}

#[test]
fn a_versioned_store_stages_commits_and_pushes() {
    let plan = commit_changes(&backend("git", None, None), STORE, "Update secret: a");
    let arguments: Vec<Vec<String>> = plan.into_iter().map(|c| c.arguments).collect();
    assert_eq!(
        arguments,
        vec![
            words(&["-C", STORE, "add", "."]),
            words(&["-C", STORE, "commit", "-m", "Update secret: a"]),
            words(&["-C", STORE, "push", "origin", "HEAD"]),
        ]
    );
}

#[test]
fn a_fresh_local_store_gets_its_root_and_identity() {
    let plan = init_storage(&Config::default(), STORE, "me@x", false, false).unwrap();
    assert_eq!(plan, vec![mkdir(), identity()]);
    let plan = init_storage(&Config::default(), STORE, "me@x", true, false).unwrap();
    assert_eq!(plan, vec![mkdir()]);
}

#[test]
fn a_ready_store_is_left_alone() {
    assert_eq!(init_storage(&backend("git", None, None), STORE, "me@x", true, true), Ok(vec![]));
    assert_eq!(init_storage(&Config::default(), STORE, "me@x", true, true), Ok(vec![]));
}

#[test]
fn a_versioned_store_gets_its_repository() {
    let plan = init_storage(&backend("git", None, None), STORE, "me@x", false, false).unwrap();
    let mut expected = vec![mkdir(), identity()];
    expected.extend(repository());
    assert_eq!(plan, expected);
}

#[test]
fn a_remote_is_connected_and_pulled_once() {
    let config = backend("git", Some("git@host:repo.git"), Some("/keys/id"));
    let plan = init_storage(&config, STORE, "me@x", true, false).unwrap();
    let mut expected = vec![mkdir()];
    expected.extend(repository());
    expected.push(git(&["-C", STORE, "remote", "add", "origin", "git@host:repo.git"], false));
    expected.push(git(
        &[
            "-C",
            STORE,
            "config",
            "core.sshCommand",
            "ssh -i /keys/id -o IdentitiesOnly=yes -o StrictHostKeyChecking=no",
        ],
        false,
    ));
    expected.push(git(&["-C", STORE, "pull", "origin", "main", "--rebase"], true));
    assert_eq!(plan, expected);
    let repaired = init_storage(&config, STORE, "me@x", false, true).unwrap();
    assert_eq!(repaired.len(), 5);
    assert_eq!(repaired[1], identity());
}

#[test]
fn a_remote_without_its_key_is_fatal() {
    let config = backend("git", Some("git@host:repo.git"), None);
    assert_eq!(init_storage(&config, STORE, "me@x", false, false), Err(BootError::MissingCredentials));
    assert_eq!(init_storage(&config, STORE, "me@x", true, true), Err(BootError::MissingCredentials));
    let local = backend("local", Some("git@host:repo.git"), None);
    assert!(init_storage(&local, STORE, "me@x", false, false).is_ok());
}
