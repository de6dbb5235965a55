//! What the tree engine asks of the outside world, and what comes back.
//!
//! The engine never touches the disk or the network. Each operation is a small
//! machine: it names one effect at a time, the caller performs it and reports the
//! event, and the machine decides what follows until the operation is finished.

use crate::models::BunkerTask;
use vstd::prelude::*;

verus! {

/// One piece of outside work.
#[derive(Debug, PartialEq, Eq)]
pub enum Effect {
    /// Read a file as text. Answered by `Text`, or by `Failed` where it cannot be read.
    ReadText { path: String },
    /// Send a request to the custodian. Answered by `Text` with the result of its
    /// reply, by `Unreadable` where the reply cannot be read, or by `Failed`
    /// where the custodian is unreachable or reports no success.
    AskVault { task: BunkerTask, passphrase: Option<String> },
    /// Create the missing parent directories of a file, then write it, replacing
    /// what was there. Answered by `Done`, by `NoDirectory` where the directories
    /// cannot be created, or by `Failed` where the file cannot be written.
    WriteEntry { path: String, content: String },
    /// Create the missing parent directories of a file, then write the bytes,
    /// replacing what was there. Answered as `WriteEntry` is.
    WriteBytes { path: String, data: Vec<u8> },
    /// Write a file. Answered by `Done` or `Failed`.
    WriteText { path: String, content: String },
    /// Create a directory and its missing ancestors. Answered by `Done` or `Failed`.
    CreateDirAll { path: String },
    /// Remove a file. Answered by `Done` or `Failed`.
    RemoveFile { path: String },
    /// Remove a directory and what is in it. Answered by `Done` or `Failed`.
    RemoveDirAll { path: String },
    /// Look whether `file` is a file and `dir` a directory. Answered by `Kind`.
    Probe { file: String, dir: String },
    /// List the names in a directory. Answered by `Names` or `Failed`.
    ListDir { path: String },
}

/// What an effect gave.
#[derive(Debug, PartialEq, Eq)]
pub enum Event {
    Done,
    Failed,
    NoDirectory,
    Unreadable,
    Text { text: String },
    Kind { is_file: bool, is_dir: bool },
    Names { names: Vec<String> },
}

/// Why an operation of the engine did not succeed.
#[derive(Clone, Copy, Debug, PartialEq, Eq, Structural)]
pub enum TreeError {
    /// The custodian holds no passphrase.
    VaultSealed,
    /// The vault holds an identity already.
    AlreadyInitialized,
    /// The crypto engine failed or gave nothing back.
    CryptoFailure,
    /// The category holds an entry or a sub-category.
    CategoryNotEmpty,
    /// Neither an entry nor a category has that path.
    NotFound,
    /// The snapshot is no archive.
    InvalidArchive,
    /// The archive of a snapshot could not be written.
    SnapshotFailed,
    /// The custodian cannot be reached.
    BackendUnreachable,
    /// A directory could not be created.
    CreateDirectory,
    /// A file could not be written.
    WriteFile,
    /// A file could not be removed.
    RemoveFile,
    /// A directory could not be removed.
    RemoveDirectory,
    /// A directory could not be listed.
    ReadDirectory,
    /// The custodian did not generate the identity.
    InitializationFailed,
    /// The custodian did not import the key.
    ImportFailed,
    /// The key could not be exported.
    ExportFailed,
    /// The custodian could not encrypt the canary under the offered key.
    KeyRejectedEncrypting,
    /// The custodian could not decrypt the canary under the offered key.
    KeyRejectedDecrypting,
    /// The canary did not come back as it went.
    InvalidMasterKey,
}

/// What a finished operation leaves: the text for the caller, and the message of
/// the commit that the versioning sink is asked for, where the store changed.
#[derive(Debug, PartialEq, Eq)]
pub struct Done {
    pub text: String,
    pub commit: Option<String>,
}

/// One turn of an operation whose stages are of type `S`.
#[derive(Debug, PartialEq, Eq)]
pub enum Turn<S> {
    /// Perform the effect and come back with the event, at the given stage.
    Do(Effect, S),
    /// The operation is over.
    Finish(Result<Done, TreeError>),
}

/// The mathematical content of an `Effect`.
pub enum EffectView {
    ReadText { path: Seq<char> },
    AskVault { payload: Seq<char>, mode: Seq<char>, passphrase: Option<Seq<char>> },
    WriteEntry { path: Seq<char>, content: Seq<char> },
    WriteBytes { path: Seq<char>, data: Seq<u8> },
    WriteText { path: Seq<char>, content: Seq<char> },
    CreateDirAll { path: Seq<char> },
    RemoveFile { path: Seq<char> },
    RemoveDirAll { path: Seq<char> },
    Probe { file: Seq<char>, dir: Seq<char> },
    ListDir { path: Seq<char> },
}

/// The mathematical content of an `Event`.
pub enum EventView {
    Done,
    Failed,
    NoDirectory,
    Unreadable,
    Text { text: Seq<char> },
    Kind { is_file: bool, is_dir: bool },
    Names { names: Seq<Seq<char>> },
}

/// The mathematical content of a `Done`.
pub struct DoneView {
    pub text: Seq<char>,
    pub commit: Option<Seq<char>>,
}

/// The mathematical content of a `Turn`.
pub enum TurnView<S> {
    Do(EffectView, S),
    Finish(Result<DoneView, TreeError>),
}

/// The texts of a list of strings.
pub open spec fn names_of(v: Seq<String>) -> Seq<Seq<char>> {
    Seq::new(v.len(), |i: int| v[i]@)
}

impl View for Effect {
    type V = EffectView;

    open spec fn view(&self) -> EffectView {
        match *self {
            Effect::ReadText { path } => EffectView::ReadText { path: path@ },
            Effect::AskVault { task, passphrase } => EffectView::AskVault {
                payload: task.payload@,
                mode: task.mode@,
                passphrase: match passphrase {
                    Some(p) => Some(p@),
                    None => None,
                },
            },
            Effect::WriteEntry { path, content } => EffectView::WriteEntry {
                path: path@,
                content: content@,
            },
            Effect::WriteBytes { path, data } => EffectView::WriteBytes { path: path@, data: data@ },
            Effect::WriteText { path, content } => EffectView::WriteText {
                path: path@,
                content: content@,
            },
            Effect::CreateDirAll { path } => EffectView::CreateDirAll { path: path@ },
            Effect::RemoveFile { path } => EffectView::RemoveFile { path: path@ },
            Effect::RemoveDirAll { path } => EffectView::RemoveDirAll { path: path@ },
            Effect::Probe { file, dir } => EffectView::Probe { file: file@, dir: dir@ },
            Effect::ListDir { path } => EffectView::ListDir { path: path@ },
        }
    }
}

impl View for Event {
    type V = EventView;

    open spec fn view(&self) -> EventView {
        match *self {
            Event::Done => EventView::Done,
            Event::Failed => EventView::Failed,
            Event::NoDirectory => EventView::NoDirectory,
            Event::Unreadable => EventView::Unreadable,
            Event::Text { text } => EventView::Text { text: text@ },
            Event::Kind { is_file, is_dir } => EventView::Kind { is_file, is_dir },
            Event::Names { names } => EventView::Names { names: names_of(names@) },
        }
    }
}

impl View for Done {
    type V = DoneView;

    open spec fn view(&self) -> DoneView {
        DoneView {
            text: self.text@,
            commit: match self.commit {
                Some(m) => Some(m@),
                None => None,
            },
        }
    }
}

impl<S> View for Turn<S> {
    type V = TurnView<S>;

    open spec fn view(&self) -> TurnView<S> {
        match *self {
            Turn::Do(e, s) => TurnView::Do(e@, s),
            Turn::Finish(Ok(d)) => TurnView::Finish(Ok(d@)),
            Turn::Finish(Err(e)) => TurnView::Finish(Err(e)),
        }
    }
}

/// The file that holds the ciphertext of the entry at `path`.
pub open spec fn entry_file(store: Seq<char>, path: Seq<char>) -> Seq<char> {
    store + "/"@ + path + ".gpg"@
}

/// The directory of the category at `path`.
pub open spec fn category_dir(store: Seq<char>, path: Seq<char>) -> Seq<char> {
    store + "/"@ + path
}

/// The request that asks the custodian for `mode` on `payload`.
pub open spec fn ask(payload: Seq<char>, mode: Seq<char>) -> EffectView {
    EffectView::AskVault { payload, mode, passphrase: None }
}

/// The successful end of an operation that changed nothing on disk.
pub open spec fn finished(text: Seq<char>) -> Result<DoneView, TreeError> {
    Ok(DoneView { text, commit: None })
}

/// The successful end of an operation that changed the store.
pub open spec fn committed(text: Seq<char>, message: Seq<char>) -> Result<DoneView, TreeError> {
    Ok(DoneView { text, commit: Some(message) })
}

/// Builds the path of the file that holds the entry at `path`.
pub fn build_entry_file(store: &str, path: &str) -> (file: String)
    ensures
        file@ == entry_file(store@, path@),
{
    let mut file = String::from_str(store);
    file.append("/");
    file.append(path);
    file.append(".gpg");
    file
}

/// Builds the path of the directory of the category at `path`.
pub fn build_category_dir(store: &str, path: &str) -> (dir: String)
    ensures
        dir@ == category_dir(store@, path@),
{
    let mut dir = String::from_str(store);
    dir.append("/");
    dir.append(path);
    dir
}

/// Builds the request that asks the custodian for `mode` on `payload`.
pub fn build_ask(payload: String, mode: &str) -> (e: Effect)
    ensures
        e@ == ask(payload@, mode@),
{
    Effect::AskVault { task: BunkerTask { payload, mode: String::from_str(mode) }, passphrase: None }
}

/// Ends an operation that changed nothing on disk.
pub fn finish<S>(text: String) -> (t: Turn<S>)
    ensures
        t@ == TurnView::<S>::Finish(finished(text@)),
{
    Turn::Finish(Ok(Done { text, commit: None }))
}

/// Ends an operation that changed the store, with the message of its commit.
pub fn finish_with_commit<S>(text: &str, message: String) -> (t: Turn<S>)
    ensures
        t@ == TurnView::<S>::Finish(committed(text@, message@)),
{
    Turn::Finish(Ok(Done { text: String::from_str(text), commit: Some(message) }))
}

/// The text `prefix` followed by `subject`.
pub fn build_message(prefix: &str, subject: &str) -> (m: String)
    ensures
        m@ == prefix@ + subject@,
{
    let mut m = String::from_str(prefix);
    m.append(subject);
    m
}

/// The status with which a failed operation is answered.
pub open spec fn status_of(e: TreeError) -> int {
    match e {
        TreeError::AlreadyInitialized => 403,
        TreeError::CategoryNotEmpty => 409,
        TreeError::NotFound => 404,
        TreeError::InvalidArchive => 400,
        TreeError::VaultSealed | TreeError::BackendUnreachable => 503,
        TreeError::ExportFailed => 502,
        TreeError::KeyRejectedEncrypting
        | TreeError::KeyRejectedDecrypting
        | TreeError::InvalidMasterKey => 401,
        _ => 500,
    }
}

/// The words with which a failed operation is answered.
pub open spec fn message_of(e: TreeError) -> Seq<char> {
    match e {
        TreeError::VaultSealed => "Vault is sealed"@,
        TreeError::AlreadyInitialized => "System already initialized"@,
        TreeError::CryptoFailure => "Encryption or decryption failed"@,
        TreeError::CategoryNotEmpty => "Category is not empty. Please remove all secrets and sub-categories first."@,
        TreeError::NotFound => "Entry not found"@,
        TreeError::InvalidArchive => "Invalid zip file"@,
        TreeError::SnapshotFailed => "Could not write backup"@,
        TreeError::BackendUnreachable => "Bunker unavailable"@,
        TreeError::CreateDirectory => "Could not create directory"@,
        TreeError::WriteFile => "Could not write secret to disk"@,
        TreeError::RemoveFile => "Could not delete file"@,
        TreeError::RemoveDirectory => "Could not delete directory"@,
        TreeError::ReadDirectory => "Could not read directory contents"@,
        TreeError::InitializationFailed => "Bunker initialization failed"@,
        TreeError::ImportFailed => "Import failed"@,
        TreeError::ExportFailed => "Failed to export key"@,
        TreeError::KeyRejectedEncrypting => "Key rejected (Encryption failed)"@,
        TreeError::KeyRejectedDecrypting => "Key rejected (Decryption failed)"@,
        TreeError::InvalidMasterKey => "Invalid Master Key"@,
    }
}

impl TreeError {
    /// The status with which the failure is answered.
    pub fn status(&self) -> (code: u16)
        ensures
            code == status_of(*self),
    {
        match self {
            TreeError::AlreadyInitialized => 403,
            TreeError::CategoryNotEmpty => 409,
            TreeError::NotFound => 404,
            TreeError::InvalidArchive => 400,
            TreeError::VaultSealed | TreeError::BackendUnreachable => 503,
            TreeError::ExportFailed => 502,
            TreeError::KeyRejectedEncrypting
            | TreeError::KeyRejectedDecrypting
            | TreeError::InvalidMasterKey => 401,
            _ => 500,
        }
    }

    /// The words with which the failure is answered.
    pub fn message(&self) -> (words: String)
        ensures
            words@ == message_of(*self),
    {
        let words = match self {
            TreeError::VaultSealed => "Vault is sealed",
            TreeError::AlreadyInitialized => "System already initialized",
            TreeError::CryptoFailure => "Encryption or decryption failed",
            TreeError::CategoryNotEmpty => "Category is not empty. Please remove all secrets and sub-categories first.",
            TreeError::NotFound => "Entry not found",
            TreeError::InvalidArchive => "Invalid zip file",
            TreeError::SnapshotFailed => "Could not write backup",
            TreeError::BackendUnreachable => "Bunker unavailable",
            TreeError::CreateDirectory => "Could not create directory",
            TreeError::WriteFile => "Could not write secret to disk",
            TreeError::RemoveFile => "Could not delete file",
            TreeError::RemoveDirectory => "Could not delete directory",
            TreeError::ReadDirectory => "Could not read directory contents",
            TreeError::InitializationFailed => "Bunker initialization failed",
            TreeError::ImportFailed => "Import failed",
            TreeError::ExportFailed => "Failed to export key",
            TreeError::KeyRejectedEncrypting => "Key rejected (Encryption failed)",
            TreeError::KeyRejectedDecrypting => "Key rejected (Decryption failed)",
            TreeError::InvalidMasterKey => "Invalid Master Key",
        };
        String::from_str(words)
    }
}

} // verus!
