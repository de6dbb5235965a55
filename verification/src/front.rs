//! The decisions of the front door: what it reports of the system, which
//! database it opens, and how a full backup is put together and taken apart.

use crate::archive::{
    accepting, archive_of, finish, member, new_writer, opened, packing_of, read_member,
    start_file, write_all, written, Packing,
};
use crate::effect::TreeError;
use crate::snapshot::all_fit;
use crate::text::{chars_of, find_char, matches_at, occurs_at, position_of, push_range, same_text};
use vstd::prelude::*;

verus! {

/// The request that logs a user in.
#[derive(Debug, PartialEq, Eq)]
pub struct LoginRequest {
    pub key: String,
}

/// What the front door reports of the system and of the session.
#[derive(Debug, PartialEq, Eq)]
pub struct AuthStatus {
    pub initialized: bool,
    pub authenticated: bool,
    pub auth_method: Option<String>,
    pub bunker: bool,
}

/// One line of the audit log.
#[derive(Debug, PartialEq, Eq)]
pub struct AuditLogEntry {
    pub id: i64,
    pub action: String,
    pub target: String,
    pub timestamp: String,
    pub ip_address: Option<String>,
    pub user_agent: Option<String>,
    pub auth_method: Option<String>,
}

/// What the tree engine answered when asked after the custodian.
#[derive(Debug, PartialEq, Eq)]
pub enum StorageHealth {
    /// The engine did not answer, or not readably.
    Unreachable,
    /// The engine answered; `bunker` is what it reports of the custodian, if it
    /// reports anything.
    Reported { bunker: Option<String> },
}

/// What a full backup holds.
#[derive(Debug, PartialEq, Eq)]
pub struct FullBackup {
    /// The database of the front door.
    pub database: Option<Vec<u8>>,
    /// The snapshot of the store.
    pub secrets: Option<Vec<u8>>,
}

/// What the engine reports of the custodian; `OFFLINE` where it reports nothing.
pub open spec fn bunker_status(bunker: Option<String>) -> Seq<char> {
    match bunker {
        Some(s) => s@,
        None => "OFFLINE"@,
    }
}

/// Whether `pat` stands somewhere in `s`.
pub open spec fn contains_text(s: Seq<char>, pat: Seq<char>) -> bool {
    exists|i: int| occurs_at(s, i, pat)
}

/// The address under which the database is opened: it is created where it is
/// missing.
pub open spec fn database_address(url: Seq<char>) -> Seq<char> {
    if contains_text(url, "mode=rwc"@) {
        url
    } else {
        url + "?mode=rwc"@
    }
}

/// The file of the database: what follows `sqlite:` in its address, up to the
/// first question mark. Nothing where the address names no such file.
pub open spec fn database_path(url: Seq<char>) -> Option<Seq<char>> {
    if "sqlite:"@.is_prefix_of(url) {
        let rest = url.skip("sqlite:"@.len() as int);
        Some(rest.take(position_of(rest, '?')))
    } else {
        None
    }
}

/// What of an upload goes on to the tree engine: the snapshot that a full backup
/// holds; else nothing where its database was restored, and the whole upload
/// where it was not, since the upload is then a snapshot itself.
pub open spec fn payload_of(secrets: Option<Seq<u8>>, db_restored: bool, upload: Seq<u8>) -> Seq<u8> {
    match secrets {
        Some(s) => s,
        None => if db_restored {
            Seq::empty()
        } else {
            upload
        },
    }
}

/// The files of a full backup.
pub open spec fn full_backup_files(secrets: Seq<u8>, database: Option<Seq<u8>>) -> Seq<
    (Seq<char>, Seq<u8>),
> {
    match database {
        Some(d) => seq![("secrets.zip"@, secrets), ("talos.db"@, d)],
        None => seq![("secrets.zip"@, secrets)],
    }
}

/// Reports the state of the system and of the session. The system counts as
/// initialized unless the custodian says that it is not, and the custodian as
/// reachable unless it is reported offline; where the engine does not answer,
/// neither holds.
pub fn get_auth_status(authenticated: bool, auth_method: Option<String>, health: &StorageHealth) -> (r:
    AuthStatus)
    ensures
        r.authenticated == authenticated,
        r.auth_method == auth_method,
        match *health {
            StorageHealth::Unreachable => !r.initialized && !r.bunker,
            StorageHealth::Reported { bunker } => r.initialized == (bunker_status(bunker)
                != "UNINITIALIZED"@) && r.bunker == (bunker_status(bunker) != "OFFLINE"@),
        },
{
    let (initialized, bunker) = match health {
        StorageHealth::Unreachable => (false, false),
        StorageHealth::Reported { bunker: None } => (
            !same_text("OFFLINE", "UNINITIALIZED"),
            false,
        ),
        StorageHealth::Reported { bunker: Some(s) } => (
            !same_text(s.as_str(), "UNINITIALIZED"),
            !same_text(s.as_str(), "OFFLINE"),
        ),
    };
    AuthStatus { initialized, authenticated, auth_method, bunker }
}

/// Whether `pat` stands somewhere in `s`.
pub fn contains(s: &str, pat: &str) -> (r: bool)
    ensures
        r == contains_text(s@, pat@),
{
    let v = chars_of(s);
    let p = chars_of(pat);
    let mut i: usize = 0;
    while i < v.len()
        invariant
            i <= v.len(),
            v@ == s@,
            p@ == pat@,
            forall|j: int| 0 <= j < i ==> !occurs_at(v@, j, p@),
        decreases v.len() - i,
    {
        if matches_at(&v, i, &p) {
            assert(occurs_at(s@, i as int, pat@));
            assert(contains_text(s@, pat@));
            return true;
        }
        i += 1;
    }
    let at_end = matches_at(&v, i, &p);
    assert forall|j: int| j != i implies !occurs_at(s@, j, pat@) by {
    }
    if at_end {
        assert(occurs_at(s@, i as int, pat@));
    }
    at_end
}

/// The address under which the database is opened.
pub fn database_url(url: &str) -> (r: String)
    ensures
        r@ == database_address(url@),
{
    let mut r = String::from_str(url);
    if !contains(url, "mode=rwc") {
        r.append("?mode=rwc");
    }
    r
}

/// The file of the database, whose permissions are then restricted.
pub fn database_file(url: &str) -> (r: Option<String>)
    ensures
        match r {
            Some(p) => database_path(url@) == Some(p@),
            None => database_path(url@) is None,
        },
{
    let v = chars_of(url);
    let prefix = chars_of("sqlite:");
    if !matches_at(&v, 0, &prefix) {
        return None;
    }
    let mut rest: Vec<char> = Vec::new();
    let mut i: usize = prefix.len();
    while i < v.len()
        invariant
            prefix.len() <= i <= v.len(),
            rest@ == v@.subrange(prefix.len() as int, i as int),
        decreases v.len() - i,
    {
        rest.push(v[i]);
        i += 1;
    }
    assert(rest@ == v@.skip(prefix.len() as int));
    let end = find_char(&rest, '?');
    let mut path = String::new();
    push_range(&mut path, &rest, 0, end);
    Some(path)
}

/// Takes a full backup apart. An error comes back where the upload is no
/// archive.
pub fn unpack_full_backup(upload: &Vec<u8>) -> (r: Result<FullBackup, TreeError>)
    ensures
        match r {
            Ok(b) => opened(upload@) is Some && (match b.database {
                Some(d) => member(upload@, "talos.db"@) == Some(d@),
                None => member(upload@, "talos.db"@) is None,
            }) && (match b.secrets {
                Some(s) => member(upload@, "secrets.zip"@) == Some(s@),
                None => member(upload@, "secrets.zip"@) is None,
            }),
            Err(e) => opened(upload@) is None && e == TreeError::InvalidArchive,
        },
{
    let database = match read_member(upload, "talos.db") {
        Some(d) => d,
        None => {
            return Err(TreeError::InvalidArchive);
        },
    };
    let secrets = match read_member(upload, "secrets.zip") {
        Some(s) => s,
        None => {
            return Err(TreeError::InvalidArchive);
        },
    };
    Ok(FullBackup { database, secrets })
}

/// Chooses what of an upload goes on to the tree engine; nothing is sent where
/// nothing is left to send.
pub fn restore_payload(secrets: Option<Vec<u8>>, db_restored: bool, upload: Vec<u8>) -> (r: Option<
    Vec<u8>,
>)
    ensures
        match r {
            Some(p) => p@ == payload_of(crate::front::bytes_of(secrets), db_restored, upload@)
                && p@.len() > 0,
            None => payload_of(crate::front::bytes_of(secrets), db_restored, upload@).len() == 0,
        },
{
    let payload = match secrets {
        Some(s) => s,
        None => {
            if db_restored {
                Vec::new()
            } else {
                upload
            }
        },
    };
    if payload.len() == 0 {
        None
    } else {
        Some(payload)
    }
}

/// The bytes of an optional buffer.
pub open spec fn bytes_of(b: Option<Vec<u8>>) -> Option<Seq<u8>> {
    match b {
        Some(v) => Some(v@),
        None => None,
    }
}

/// Puts a full backup together: the snapshot of the store and, where it could
/// be read, the database of the front door, each stored as it is. The archive
/// is written wherever both are within the size that a file of an archive may
/// have, and only there.
pub fn pack_full_backup(secrets: &Vec<u8>, database: &Option<Vec<u8>>) -> (r: Result<
    Vec<u8>,
    TreeError,
>)
    ensures
        r is Ok <==> all_fit(full_backup_files(secrets@, bytes_of(*database))),
        r matches Ok(bytes) ==> bytes@ == archive_of(
            full_backup_files(secrets@, bytes_of(*database)),
        ),
        r matches Err(e) ==> e == TreeError::SnapshotFailed,
{
    let ghost all = full_backup_files(secrets@, bytes_of(*database));
    let mut writer = new_writer(Packing::Stored);
    if start_file(&mut writer, "secrets.zip").is_err() {
        return Err(TreeError::SnapshotFailed);
    }
    assert(written(writer).last() == ("secrets.zip"@, Seq::<u8>::empty()));
    if !write_all(&mut writer, secrets) {
        assert(all[0] == ("secrets.zip"@, secrets@));
        return Err(TreeError::SnapshotFailed);
    }
    proof {
        assert(Seq::<u8>::empty() + secrets@ == secrets@);
        if secrets@.len() == 0 {
            assert(secrets@ =~= Seq::<u8>::empty());
        }
        assert(written(writer) =~= seq![("secrets.zip"@, secrets@)]);
    }
    match database {
        Some(d) => {
            if start_file(&mut writer, "talos.db").is_err() {
                return Err(TreeError::SnapshotFailed);
            }
            assert(written(writer).last() == ("talos.db"@, Seq::<u8>::empty()));
            if !write_all(&mut writer, d) {
                assert(all[1] == ("talos.db"@, d@));
                return Err(TreeError::SnapshotFailed);
            }
            proof {
                assert(Seq::<u8>::empty() + d@ == d@);
                if d@.len() == 0 {
                    assert(d@ =~= Seq::<u8>::empty());
                }
                assert(written(writer) =~= seq![("secrets.zip"@, secrets@), ("talos.db"@, d@)]);
            }
        },
        None => {},
    }
    assert(written(writer) =~= all);
    match finish(writer) {
        Ok(bytes) => Ok(bytes),
        Err(_) => Err(TreeError::SnapshotFailed),
    }
}

} // verus!
