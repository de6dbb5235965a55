//! The configuration of the store, the steps that make it ready, and the
//! versioning sink that records every change.

use crate::text::same_text;
use vstd::prelude::*;

verus! {

/// The configuration of the store.
#[derive(Debug, PartialEq, Eq)]
pub struct Config {
    pub backend: Backend,
}

/// Where the changes of the store are recorded: `git` for a repository, any
/// other kind for none.
#[derive(Debug, PartialEq, Eq)]
pub struct Backend {
    pub kind: String,
    pub repository_url: Option<String>,
    pub ssh_key_path: Option<String>,
}

/// One run of `git`. A run that need not succeed may fail to start; any other
/// run must start, whatever it reports then.
#[derive(Debug, PartialEq, Eq)]
pub struct GitCommand {
    pub arguments: Vec<String>,
    pub may_fail: bool,
}

/// One step that makes the store ready.
#[derive(Debug, PartialEq, Eq)]
pub enum BootAction {
    /// Create the directory and its missing ancestors.
    CreateDirAll { path: String },
    /// Write the file.
    WriteText { path: String, content: String },
    /// Run `git`.
    Git { command: GitCommand },
}

/// Why the store cannot be made ready.
#[derive(Clone, Copy, Debug, PartialEq, Eq, Structural)]
pub enum BootError {
    /// A remote is configured without the key that reaches it.
    MissingCredentials,
}

/// The mathematical content of a `BootAction`.
pub enum BootView {
    CreateDirAll { path: Seq<char> },
    WriteText { path: Seq<char>, content: Seq<char> },
    Git { arguments: Seq<Seq<char>>, may_fail: bool },
}

/// The texts of a list of strings.
pub open spec fn words(v: Seq<String>) -> Seq<Seq<char>> {
    Seq::new(v.len(), |i: int| v[i]@)
}

/// The arguments of a list of commands.
pub open spec fn command_views(v: Seq<GitCommand>) -> Seq<Seq<Seq<char>>> {
    Seq::new(v.len(), |i: int| words(v[i].arguments@))
}

impl View for BootAction {
    type V = BootView;

    open spec fn view(&self) -> BootView {
        match *self {
            BootAction::CreateDirAll { path } => BootView::CreateDirAll { path: path@ },
            BootAction::WriteText { path, content } => BootView::WriteText {
                path: path@,
                content: content@,
            },
            BootAction::Git { command } => BootView::Git {
                arguments: words(command.arguments@),
                may_fail: command.may_fail,
            },
        }
    }
}

/// The contents of a list of steps.
pub open spec fn boot_views(v: Seq<BootAction>) -> Seq<BootView> {
    Seq::new(v.len(), |i: int| v[i]@)
}

/// Whether the changes are recorded in a repository.
pub open spec fn is_versioned(kind: Seq<char>) -> bool {
    kind == "git"@
}

/// The runs of `git` that record a change: stage everything, commit with the
/// message, push. None where the store is not versioned.
pub open spec fn commit_plan(kind: Seq<char>, store: Seq<char>, message: Seq<char>) -> Seq<
    Seq<Seq<char>>,
> {
    if is_versioned(kind) {
        seq![
            seq!["-C"@, store, "add"@, "."@],
            seq!["-C"@, store, "commit"@, "-m"@, message],
            seq!["-C"@, store, "push"@, "origin"@, "HEAD"@],
        ]
    } else {
        Seq::empty()
    }
}

/// The command through which `git` reaches the remote with the given key.
pub open spec fn ssh_command(key: Seq<char>) -> Seq<char> {
    "ssh -i "@ + key + " -o IdentitiesOnly=yes -o StrictHostKeyChecking=no"@
}

/// The steps that create a repository in the store.
pub open spec fn repository_steps(store: Seq<char>) -> Seq<BootView> {
    seq![
        BootView::Git {
            arguments: seq!["config"@, "--global"@, "--add"@, "safe.directory"@, store],
            may_fail: false,
        },
        BootView::Git { arguments: seq!["init"@, store], may_fail: false },
        BootView::Git {
            arguments: seq!["-C"@, store, "config"@, "user.email"@, "talos@system.local"@],
            may_fail: false,
        },
        BootView::Git {
            arguments: seq!["-C"@, store, "config"@, "user.name"@, "Talos Storage"@],
            may_fail: false,
        },
    ]
}

/// The steps that connect the repository to its remote and pull from it once.
pub open spec fn remote_steps(store: Seq<char>, url: Seq<char>, key: Seq<char>) -> Seq<BootView> {
    seq![
        BootView::Git {
            arguments: seq!["-C"@, store, "remote"@, "add"@, "origin"@, url],
            may_fail: false,
        },
        BootView::Git {
            arguments: seq!["-C"@, store, "config"@, "core.sshCommand"@, ssh_command(key)],
            may_fail: false,
        },
        BootView::Git {
            arguments: seq!["-C"@, store, "pull"@, "origin"@, "main"@, "--rebase"@],
            may_fail: true,
        },
    ]
}

/// The steps that make the store ready: the root exists, the identity is
/// recorded once, and a versioned store has its repository and, where a remote
/// is configured, has pulled from it. A remote without its key is an error.
/// Nothing is done where the identity is recorded and the repository exists.
pub open spec fn boot_plan(
    kind: Seq<char>,
    url: Option<Seq<char>>,
    key: Option<Seq<char>>,
    store: Seq<char>,
    identity: Seq<char>,
    has_identity_file: bool,
    has_repository: bool,
) -> Result<Seq<BootView>, BootError> {
    if is_versioned(kind) && url is Some && key is None {
        Err(BootError::MissingCredentials)
    } else if has_identity_file && has_repository {
        Ok(Seq::empty())
    } else {
        Ok(
            seq![BootView::CreateDirAll { path: store }] + (if has_identity_file {
                Seq::empty()
            } else {
                seq![BootView::WriteText { path: store + "/.gpg-id"@, content: identity }]
            }) + (if is_versioned(kind) {
                (if has_repository {
                    Seq::empty()
                } else {
                    repository_steps(store)
                }) + (match (url, key) {
                    (Some(u), Some(k)) => remote_steps(store, u, k),
                    _ => Seq::empty(),
                })
            } else {
                Seq::empty()
            }),
        )
    }
}

impl Default for Config {
    fn default() -> (c: Config)
        ensures
            c.backend.kind@ == "local"@,
            c.backend.repository_url is None,
            c.backend.ssh_key_path is None,
    {
        Config {
            backend: Backend {
                kind: String::from_str("local"),
                repository_url: None,
                ssh_key_path: None,
            },
        }
    }
}

fn word(out: &mut Vec<String>, text: &str)
    ensures
        words(final(out)@) == words(old(out)@).push(text@),
{
    out.push(String::from_str(text));
    assert(words(out@) =~= words(old(out)@).push(text@));
}

fn step(plan: &mut Vec<BootAction>, arguments: Vec<String>, may_fail: bool)
    ensures
        boot_views(final(plan)@) == boot_views(old(plan)@).push(
            BootView::Git { arguments: words(arguments@), may_fail },
        ),
{
    plan.push(BootAction::Git { command: GitCommand { arguments, may_fail } });
    assert(boot_views(plan@) =~= boot_views(old(plan)@).push(
        BootView::Git { arguments: words(arguments@), may_fail },
    ));
}

fn in_store(store: &str) -> (out: Vec<String>)
    ensures
        words(out@) == seq!["-C"@, store@],
{
    let mut out: Vec<String> = Vec::new();
    assert(words(out@) =~= Seq::<Seq<char>>::empty());
    word(&mut out, "-C");
    word(&mut out, store);
    assert(words(out@) =~= seq!["-C"@, store@]);
    out
}

/// The runs of `git` that record a change of the store. Each of them may fail:
/// whether they succeed does not matter to the operation that made the change.
pub fn commit_changes(config: &Config, store: &str, message: &str) -> (plan: Vec<GitCommand>)
    ensures
        command_views(plan@) == commit_plan(config.backend.kind@, store@, message@),
        forall|i: int| 0 <= i < plan@.len() ==> (#[trigger] plan@[i]).may_fail,
{
    let mut plan: Vec<GitCommand> = Vec::new();
    if same_text(config.backend.kind.as_str(), "git") {
        let mut add = in_store(store);
        word(&mut add, "add");
        word(&mut add, ".");
        let mut commit = in_store(store);
        word(&mut commit, "commit");
        word(&mut commit, "-m");
        word(&mut commit, message);
        let mut push = in_store(store);
        word(&mut push, "push");
        word(&mut push, "origin");
        word(&mut push, "HEAD");
        assert(words(add@) =~= seq!["-C"@, store@, "add"@, "."@]);
        assert(words(commit@) =~= seq!["-C"@, store@, "commit"@, "-m"@, message@]);
        assert(words(push@) =~= seq!["-C"@, store@, "push"@, "origin"@, "HEAD"@]);
        plan.push(GitCommand { arguments: add, may_fail: true });
        plan.push(GitCommand { arguments: commit, may_fail: true });
        plan.push(GitCommand { arguments: push, may_fail: true });
        assert(command_views(plan@) =~= commit_plan(config.backend.kind@, store@, message@));
    } else {
        assert(command_views(plan@) =~= Seq::<Seq<Seq<char>>>::empty());
    }
    plan
}

fn add_repository_steps(plan: &mut Vec<BootAction>, store: &str)
    ensures
        boot_views(final(plan)@) == boot_views(old(plan)@) + repository_steps(store@),
{
    let mut safe: Vec<String> = Vec::new();
    assert(words(safe@) =~= Seq::<Seq<char>>::empty());
    word(&mut safe, "config");
    word(&mut safe, "--global");
    word(&mut safe, "--add");
    word(&mut safe, "safe.directory");
    word(&mut safe, store);
    let mut init: Vec<String> = Vec::new();
    assert(words(init@) =~= Seq::<Seq<char>>::empty());
    word(&mut init, "init");
    word(&mut init, store);
    let mut email = in_store(store);
    word(&mut email, "config");
    word(&mut email, "user.email");
    word(&mut email, "talos@system.local");
    let mut name = in_store(store);
    word(&mut name, "config");
    word(&mut name, "user.name");
    word(&mut name, "Talos Storage");
    assert(words(safe@) =~= seq!["config"@, "--global"@, "--add"@, "safe.directory"@, store@]);
    assert(words(init@) =~= seq!["init"@, store@]);
    assert(words(email@) =~= seq!["-C"@, store@, "config"@, "user.email"@, "talos@system.local"@]);
    assert(words(name@) =~= seq!["-C"@, store@, "config"@, "user.name"@, "Talos Storage"@]);
    step(plan, safe, false);
    step(plan, init, false);
    step(plan, email, false);
    step(plan, name, false);
    assert(boot_views(plan@) =~= boot_views(old(plan)@) + repository_steps(store@));
}

fn add_remote_steps(plan: &mut Vec<BootAction>, store: &str, url: &str, key: &str)
    ensures
        boot_views(final(plan)@) == boot_views(old(plan)@) + remote_steps(store@, url@, key@),
{
    let mut remote = in_store(store);
    word(&mut remote, "remote");
    word(&mut remote, "add");
    word(&mut remote, "origin");
    word(&mut remote, url);
    let mut ssh = String::from_str("ssh -i ");
    ssh.append(key);
    ssh.append(" -o IdentitiesOnly=yes -o StrictHostKeyChecking=no");
    let mut transport = in_store(store);
    word(&mut transport, "config");
    word(&mut transport, "core.sshCommand");
    word(&mut transport, ssh.as_str());
    let mut pull = in_store(store);
    word(&mut pull, "pull");
    word(&mut pull, "origin");
    word(&mut pull, "main");
    word(&mut pull, "--rebase");
    assert(words(remote@) =~= seq!["-C"@, store@, "remote"@, "add"@, "origin"@, url@]);
    assert(words(transport@) =~= seq![
        "-C"@,
        store@,
        "config"@,
        "core.sshCommand"@,
        ssh_command(key@),
    ]);
    assert(words(pull@) =~= seq!["-C"@, store@, "pull"@, "origin"@, "main"@, "--rebase"@]);
    step(plan, remote, false);
    step(plan, transport, false);
    step(plan, pull, true);
    assert(boot_views(plan@) =~= boot_views(old(plan)@) + remote_steps(store@, url@, key@));
}

/// The text of an optional string.
pub open spec fn text_of(s: Option<String>) -> Option<Seq<char>> {
    match s {
        Some(t) => Some(t@),
        None => None,
    }
}

/// Decides the steps that make the store ready, given whether the identity is
/// recorded and whether the repository exists.
pub fn init_storage(
    config: &Config,
    store: &str,
    identity: &str,
    has_identity_file: bool,
    has_repository: bool,
) -> (r: Result<Vec<BootAction>, BootError>)
    ensures
        match r {
            Ok(plan) => boot_plan(
                config.backend.kind@,
                text_of(config.backend.repository_url),
                text_of(config.backend.ssh_key_path),
                store@,
                identity@,
                has_identity_file,
                has_repository,
            ) == Ok::<Seq<BootView>, BootError>(boot_views(plan@)),
            Err(e) => boot_plan(
                config.backend.kind@,
                text_of(config.backend.repository_url),
                text_of(config.backend.ssh_key_path),
                store@,
                identity@,
                has_identity_file,
                has_repository,
            ) == Err::<Seq<BootView>, BootError>(e),
        },
{
    let versioned = same_text(config.backend.kind.as_str(), "git");
    if versioned && config.backend.repository_url.is_some() && config.backend.ssh_key_path.is_none() {
        return Err(BootError::MissingCredentials);
    }
    let mut plan: Vec<BootAction> = Vec::new();
    assert(boot_views(plan@) =~= Seq::<BootView>::empty());
    if has_identity_file && has_repository {
        return Ok(plan);
    }
    plan.push(BootAction::CreateDirAll { path: String::from_str(store) });
    assert(boot_views(plan@) =~= seq![BootView::CreateDirAll { path: store@ }]);
    let ghost first = boot_views(plan@);
    if !has_identity_file {
        let mut file = String::from_str(store);
        file.append("/.gpg-id");
        plan.push(BootAction::WriteText { path: file, content: String::from_str(identity) });
        assert(boot_views(plan@) =~= first + seq![
            BootView::WriteText { path: store@ + "/.gpg-id"@, content: identity@ },
        ]);
    } else {
        assert(boot_views(plan@) =~= first + Seq::<BootView>::empty());
    }
    let ghost second = boot_views(plan@);
    if versioned {
        if !has_repository {
            add_repository_steps(&mut plan, store);
        } else {
            assert(boot_views(plan@) =~= second + Seq::<BootView>::empty());
        }
        let ghost third = boot_views(plan@);
        match (&config.backend.repository_url, &config.backend.ssh_key_path) {
            (Some(url), Some(key)) => {
                add_remote_steps(&mut plan, store, url.as_str(), key.as_str());
            },
            _ => {
                assert(boot_views(plan@) =~= third + Seq::<BootView>::empty());
            },
        }
        assert(boot_views(plan@) =~= second + ((if has_repository {
            Seq::<BootView>::empty()
        } else {
            repository_steps(store@)
        }) + (match (
            text_of(config.backend.repository_url),
            text_of(config.backend.ssh_key_path),
        ) {
            (Some(u), Some(k)) => remote_steps(store@, u, k),
            _ => Seq::<BootView>::empty(),
        })));
    } else {
        assert(boot_views(plan@) =~= second + Seq::<BootView>::empty());
    }
    Ok(plan)
}

} // verus!
