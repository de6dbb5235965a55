use std::io::Write;
use talos::archive::ArchiveFile;
use talos::effect::{Done, Effect, Event, TreeError, Turn};
use talos::snapshot::{
    apply_restore, apply_restore_next, download_backup, is_version_control, path_under,
    resolve_segments, restore_action, restore_backup, split_path, RestoreAction, RestorePlan,
    RESTORE_MESSAGE, RESTORE_REPORT,
};

const STORE: &str = "/store";

fn stored(name: &str, data: &[u8]) -> ArchiveFile {
    ArchiveFile { name: name.to_string(), data: data.to_vec() }
}

fn write(path: &str, data: &[u8]) -> RestoreAction {
    RestoreAction::WriteFile { path: path.to_string(), data: data.to_vec() }
}

fn chars(s: &str) -> Vec<char> {
    s.chars().collect()
}

fn segments(list: &[&str]) -> Vec<Vec<char>> {
    list.iter().map(|s| chars(s)).collect()
}

/// An archive with the given entries, written by the `zip` crate itself.
fn archive(entries: &[(&str, &[u8])]) -> Vec<u8> {
    let mut writer = zip::ZipWriter::new(std::io::Cursor::new(Vec::new()));
    let options = zip::write::FileOptions::default().compression_method(zip::CompressionMethod::Stored);
    for (name, data) in entries {
        if name.ends_with('/') {
            writer.add_directory(*name, options).unwrap();
        } else {
            writer.start_file(*name, options).unwrap();
            writer.write_all(data).unwrap();
        }
    }
    writer.finish().unwrap().into_inner()
}

#[test]
fn a_snapshot_comes_back_as_it_went() {
    let files = vec![
        stored(".gpg-id", b"admin@talos.local"),
        stored("Social/twitter.gpg", b"-----BEGIN PGP MESSAGE-----\nA\n"),
        stored("Social/.gitkeep", b""),
        stored("Bank/Main/account.gpg", &[0, 159, 146, 150, 255]),
        stored(".git/config", b"[core]"),
        stored(".gitignore", b"x"),
        stored(".gitkeep", b""),
        stored(".gitfoo.gpg", b"entry"),
        stored("nested/.git/HEAD", b"ref"),
    ];
    let bytes = download_backup(&files).unwrap();
    let plan = restore_backup(STORE, bytes).unwrap();
    assert_eq!(
        plan,
        RestorePlan {
            actions: vec![
                write("/store/.gpg-id", b"admin@talos.local"),
                write("/store/Social/twitter.gpg", b"-----BEGIN PGP MESSAGE-----\nA\n"),
                write("/store/Social/.gitkeep", b""),
                write("/store/Bank/Main/account.gpg", &[0, 159, 146, 150, 255]),
                write("/store/.gitignore", b"x"),
                write("/store/.gitkeep", b""),
                write("/store/.gitfoo.gpg", b"entry"),
            ],
            complete: true,
        }
    );
}

#[test]
fn an_empty_store_gives_an_archive_without_entries() {
    let bytes = download_backup(&vec![]).unwrap();
    assert!(!bytes.is_empty());
    let plan = restore_backup(STORE, bytes).unwrap();
    assert_eq!(plan, RestorePlan { actions: vec![], complete: true });
}

#[test]
fn the_snapshot_is_stored_without_compression() {
    let data = vec![b'a'; 4000];
    let bytes = download_backup(&vec![stored("big.gpg", &data)]).unwrap();
    assert!(bytes.len() > 4000);
    let mut reader = zip::ZipArchive::new(std::io::Cursor::new(bytes)).unwrap();
    assert_eq!(reader.len(), 1);
    let entry = reader.by_index(0).unwrap();
    assert_eq!(entry.name(), "big.gpg");
    assert_eq!(entry.compression(), zip::CompressionMethod::Stored);
    assert_eq!(entry.size(), 4000);
}

#[test]
fn entries_that_leave_the_root_are_skipped() {
    let bytes = archive(&[
        ("../escape.gpg", b"x"),
        ("ok.gpg", b"1"),
        ("a/../../etc/passwd", b"x"),
        ("/etc/shadow", b"x"),
        ("a/../b.gpg", b"2"),
        ("./c/./d.gpg", b"3"),
        ("..", b"x"),
        ("deep/../../up", b"x"),
    ]);
    let plan = restore_backup(STORE, bytes).unwrap();
    assert_eq!(
        plan,
        RestorePlan {
            actions: vec![
                write("/store/ok.gpg", b"1"),
                write("/store/b.gpg", b"2"),
                write("/store/c/d.gpg", b"3"),
            ],
            complete: true,
        }
    );
    for action in &plan.actions {
        match action {
            RestoreAction::WriteFile { path, .. } | RestoreAction::CreateDir { path } => {
                assert!(path.starts_with("/store/"));
                assert!(!path.split('/').any(|s| s == ".."));
            }
        }
    }
}

#[test]
fn directory_entries_are_created() {
    let bytes = archive(&[("Social/", b""), ("Social/twitter.gpg", b"x"), ("../out/", b"")]);
    let plan = restore_backup(STORE, bytes).unwrap();
    assert_eq!(
        plan.actions,
        vec![
            RestoreAction::CreateDir { path: "/store/Social".to_string() },
            write("/store/Social/twitter.gpg", b"x"),
        ]
    );
}

#[test]
fn what_is_no_archive_is_refused() {
    assert_eq!(restore_backup(STORE, b"not a zip file".to_vec()), Err(TreeError::InvalidArchive));
    assert_eq!(restore_backup(STORE, Vec::new()), Err(TreeError::InvalidArchive));
}

#[test]
fn compressed_archives_are_read() {
    let mut writer = zip::ZipWriter::new(std::io::Cursor::new(Vec::new()));
    let options = zip::write::FileOptions::default().compression_method(zip::CompressionMethod::Deflated);
    writer.start_file("a.gpg", options).unwrap();
    writer.write_all(&vec![b'z'; 1000]).unwrap();
    let bytes = writer.finish().unwrap().into_inner();
    let plan = restore_backup(STORE, bytes).unwrap();
    assert_eq!(plan.actions, vec![write("/store/a.gpg", &vec![b'z'; 1000])]);
}

#[test]
fn one_entry_is_resolved_below_the_root() {
    assert_eq!(restore_action(STORE, stored("a/b.gpg", b"x")), Some(write("/store/a/b.gpg", b"x")));
    assert_eq!(restore_action(STORE, stored("../b.gpg", b"x")), None);
    assert_eq!(restore_action(STORE, stored("/b.gpg", b"x")), None);
    assert_eq!(restore_action(STORE, stored("", b"x")), None);
    assert_eq!(restore_action(STORE, stored("a/..", b"x")), None);
    assert_eq!(
        restore_action(STORE, stored("a//b/", b"")),
        Some(RestoreAction::CreateDir { path: "/store/a/b".to_string() })
    );
    assert_eq!(
        restore_action(STORE, stored("./", b"")),
        Some(RestoreAction::CreateDir { path: "/store".to_string() })
    );
}

#[test]
fn paths_are_split_and_walked() {
    assert_eq!(split_path(&chars("a/b/c")), segments(&["a", "b", "c"]));
    assert_eq!(split_path(&chars("")), segments(&[""]));
    assert_eq!(split_path(&chars("/a/")), segments(&["", "a", ""]));
    assert_eq!(split_path(&chars("a//b")), segments(&["a", "", "b"]));
    assert_eq!(resolve_segments(&segments(&["a", "..", "b"])), Some(segments(&["b"])));
    assert_eq!(resolve_segments(&segments(&["a", ".", "", "b"])), Some(segments(&["a", "b"])));
    assert_eq!(resolve_segments(&segments(&[".."])), None);
    assert_eq!(resolve_segments(&segments(&["a", "..", ".."])), None);
    assert_eq!(resolve_segments(&segments(&["..."])), Some(segments(&["..."])));
    assert_eq!(resolve_segments(&segments(&[])), Some(segments(&[])));
    assert_eq!(path_under("/s", &segments(&["a", "b"])), "/s/a/b");
    assert_eq!(path_under("/s", &segments(&[])), "/s");
}

#[test]
fn version_control_metadata_is_the_metadata_directory() {
    assert!(is_version_control(".git/config"));
    assert!(is_version_control(".git"));
    assert!(is_version_control(".git/objects/ab/cdef"));
    assert!(is_version_control("nested/.git/HEAD"));
    assert!(!is_version_control(".gitignore"));
    assert!(!is_version_control(".gitkeep"));
    assert!(!is_version_control(".gitfoo.gpg"));
    assert!(!is_version_control("Social/.gitkeep"));
    assert!(!is_version_control(".gpg-id"));
    assert!(!is_version_control("git"));
    assert!(!is_version_control("a.git/b"));
    assert_eq!(RESTORE_MESSAGE, "Restored from backup");
}

#[test]
fn a_name_with_the_character_zero_is_skipped() {
    assert_eq!(restore_action(STORE, stored("a\0b.gpg", b"x")), None);
    assert_eq!(restore_action(STORE, stored("a/b\0/", b"")), None);
    let bytes = archive(&[("bad\0name", b"x"), ("good.gpg", b"1")]);
    let plan = restore_backup(STORE, bytes).unwrap();
    assert_eq!(plan, RestorePlan { actions: vec![write("/store/good.gpg", b"1")], complete: true });
}

#[test]
fn an_entry_that_cannot_be_read_ends_the_plan() {
    let mut writer = zip::ZipWriter::new(std::io::Cursor::new(Vec::new()));
    let options = zip::write::FileOptions::default().compression_method(zip::CompressionMethod::Stored);
    writer.start_file("first.gpg", options).unwrap();
    writer.write_all(b"1").unwrap();
    writer.start_file_with_extra_data("locked.gpg", options).unwrap();
    writer.write_all(&[0xfe, 0xca, 7, 0, 2, 0, 0x41, 0x45, 1, 0, 0]).unwrap();
    writer.end_extra_data().unwrap();
    writer.write_all(b"x").unwrap();
    writer.start_file("last.gpg", options).unwrap();
    writer.write_all(b"3").unwrap();
    let mut bytes = writer.finish().unwrap().into_inner();
    let mut marked = 0;
    for i in 0..bytes.len() - 3 {
        if bytes[i..i + 4] == [0xfe, 0xca, 7, 0] {
            bytes[i] = 0x01;
            bytes[i + 1] = 0x99;
            marked += 1;
        }
    }
    assert_eq!(marked, 2);
    let plan = restore_backup(STORE, bytes).unwrap();
    assert_eq!(plan, RestorePlan { actions: vec![write("/store/first.gpg", b"1")], complete: false });
    assert_eq!(
        apply_restore_next(&plan, 0, Event::Done),
        Turn::Finish(Err(TreeError::InvalidArchive))
    );
}

#[test]
fn a_restore_goes_through_its_plan_and_commits_once() {
    let plan = RestorePlan {
        actions: vec![
            RestoreAction::CreateDir { path: "/store/Social".to_string() },
            write("/store/Social/twitter.gpg", b"x"),
            write("/store/b.gpg", &[0, 255]),
        ],
        complete: true,
    };
    assert_eq!(
        apply_restore(&plan),
        Turn::Do(Effect::CreateDirAll { path: "/store/Social".to_string() }, 0)
    );
    let second = Effect::WriteBytes { path: "/store/Social/twitter.gpg".to_string(), data: vec![b'x'] };
    assert_eq!(apply_restore_next(&plan, 0, Event::Done), Turn::Do(second, 1));
    let third = Effect::WriteBytes { path: "/store/b.gpg".to_string(), data: vec![0, 255] };
    assert_eq!(apply_restore_next(&plan, 1, Event::Done), Turn::Do(third, 2));
    let end = Turn::Finish(Ok(Done {
        text: "Restored successfully".to_string(),
        commit: Some("Restored from backup".to_string()),
    }));
    assert_eq!(apply_restore_next(&plan, 2, Event::Done), end);
    assert_eq!(apply_restore_next(&plan, 3, Event::Done), end);
    assert_eq!(RESTORE_REPORT, "Restored successfully");
    let empty = RestorePlan { actions: vec![], complete: true };
    assert_eq!(apply_restore(&empty), end);
}

#[test]
fn a_write_that_fails_ends_the_restore() {
    let plan = RestorePlan {
        actions: vec![
            RestoreAction::CreateDir { path: "/store/Social".to_string() },
            write("/store/Social/twitter.gpg", b"x"),
            write("/store/b.gpg", b"y"),
        ],
        complete: true,
    };
    assert_eq!(
        apply_restore_next(&plan, 1, Event::Failed),
        Turn::Finish(Err(TreeError::WriteFile))
    );
    assert_eq!(
        apply_restore_next(&plan, 2, Event::NoDirectory),
        Turn::Finish(Err(TreeError::CreateDirectory))
    );
    let second = Effect::WriteBytes { path: "/store/Social/twitter.gpg".to_string(), data: vec![b'x'] };
    assert_eq!(apply_restore_next(&plan, 0, Event::Failed), Turn::Do(second, 1));
    let cut = RestorePlan { actions: vec![write("/store/a.gpg", b"x")], complete: false };
    assert_eq!(apply_restore_next(&cut, 0, Event::Done), Turn::Finish(Err(TreeError::InvalidArchive)));
    assert_eq!(apply_restore_next(&cut, 0, Event::Failed), Turn::Finish(Err(TreeError::WriteFile)));
}
