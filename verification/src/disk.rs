//! A model of the disk under the store, and what removal and creation leave on it.
//!
//! The disk is outside this library. The model says what each effect does to the
//! files and directories, as far as the operations on categories depend on it;
//! the laws below are proved of the operations run against the model.

use crate::category::{
    create_first, create_then, delete_first, delete_then, only_placeholders, placeholder_file,
    CategoryStage, DeleteStage, PLACEHOLDER,
};
use crate::effect::{
    category_dir, committed, entry_file, DoneView, EffectView, EventView, TreeError, TurnView,
};
use vstd::prelude::*;

verus! {

/// The files, each with its content, and the directories, all by their paths.
pub struct Disk {
    pub files: Map<Seq<char>, Seq<char>>,
    pub dirs: Set<Seq<char>>,
}

/// Whether `dir` is a directory above `path`.
pub open spec fn is_above(dir: Seq<char>, path: Seq<char>) -> bool {
    &&& dir.len() < path.len()
    &&& path.subrange(0, dir.len() as int) == dir
    &&& path[dir.len() as int] == '/'
}

/// Whether `name` can be the name of a file or a directory.
pub open spec fn is_name(name: Seq<char>) -> bool {
    name.len() > 0 && !name.contains('/')
}

/// Whether the directory `dir` holds something of the name `name`.
pub open spec fn holds(disk: Disk, dir: Seq<char>, name: Seq<char>) -> bool {
    &&& is_name(name)
    &&& (disk.files.contains_key(dir + "/"@ + name) || disk.dirs.contains(dir + "/"@ + name))
}

/// Whether `names` is a listing of the directory `dir`: every name that it
/// holds, in any order.
pub open spec fn lists(disk: Disk, dir: Seq<char>, names: Seq<Seq<char>>) -> bool {
    forall|n: Seq<char>| names.contains(n) <==> holds(disk, dir, n)
}

/// Whether a directory can stand at `path`: no file is in its place or above it.
pub open spec fn admits_dir(disk: Disk, path: Seq<char>) -> bool {
    &&& !disk.files.contains_key(path)
    &&& forall|a: Seq<char>| is_above(a, path) ==> !disk.files.contains_key(a)
}

/// The disk with the directory at `path` and those above it.
pub open spec fn with_dir(disk: Disk, path: Seq<char>) -> Disk {
    Disk {
        files: disk.files,
        dirs: disk.dirs.union(Set::new(|d: Seq<char>| d == path || is_above(d, path))),
    }
}

/// The disk without what stands at `path` or below it.
pub open spec fn without_tree(disk: Disk, path: Seq<char>) -> Disk {
    Disk {
        files: disk.files.remove_keys(Set::new(|f: Seq<char>| is_above(path, f))),
        dirs: disk.dirs.difference(Set::new(|d: Seq<char>| d == path || is_above(path, d))),
    }
}

/// What an effect leaves on the disk and what it reports. A listing reports
/// `listing`. The disk holds text: the custodian is not part of it, nor is a
/// file of bytes, and a request for either fails.
pub open spec fn answer(disk: Disk, effect: EffectView, listing: Seq<Seq<char>>) -> (
    Disk,
    EventView,
) {
    match effect {
        EffectView::ReadText { path } => if disk.files.contains_key(path) {
            (disk, EventView::Text { text: disk.files[path] })
        } else {
            (disk, EventView::Failed)
        },
        EffectView::AskVault { .. } => (disk, EventView::Failed),
        EffectView::WriteBytes { .. } => (disk, EventView::Failed),
        EffectView::WriteEntry { path, content } => if disk.dirs.contains(path) {
            (disk, EventView::Failed)
        } else if exists|a: Seq<char>| is_above(a, path) && disk.files.contains_key(a) {
            (disk, EventView::NoDirectory)
        } else {
            (
                Disk {
                    files: disk.files.insert(path, content),
                    dirs: disk.dirs.union(Set::new(|d: Seq<char>| is_above(d, path))),
                },
                EventView::Done,
            )
        },
        EffectView::WriteText { path, content } => if disk.dirs.contains(path) {
            (disk, EventView::Failed)
        } else {
            (Disk { files: disk.files.insert(path, content), dirs: disk.dirs }, EventView::Done)
        },
        EffectView::CreateDirAll { path } => if admits_dir(disk, path) {
            (with_dir(disk, path), EventView::Done)
        } else {
            (disk, EventView::Failed)
        },
        EffectView::RemoveFile { path } => if disk.files.contains_key(path) {
            (Disk { files: disk.files.remove(path), dirs: disk.dirs }, EventView::Done)
        } else {
            (disk, EventView::Failed)
        },
        EffectView::RemoveDirAll { path } => if disk.dirs.contains(path) {
            (without_tree(disk, path), EventView::Done)
        } else {
            (disk, EventView::Failed)
        },
        EffectView::Probe { file, dir } => (
            disk,
            EventView::Kind { is_file: disk.files.contains_key(file), is_dir: disk.dirs.contains(dir) },
        ),
        EffectView::ListDir { path } => if disk.dirs.contains(path) {
            (disk, EventView::Names { names: listing })
        } else {
            (disk, EventView::Failed)
        },
    }
}

/// A removal run to its end from `turn`, on a disk that lists the directory as
/// `listing`: the disk after it, and how it ended.
pub open spec fn delete_from(
    disk: Disk,
    store: Seq<char>,
    path: Seq<char>,
    listing: Seq<Seq<char>>,
    turn: TurnView<DeleteStage>,
    turns: nat,
) -> (Disk, Result<DoneView, TreeError>)
    decreases turns,
{
    match turn {
        TurnView::Finish(r) => (disk, r),
        TurnView::Do(effect, stage) => if turns == 0 {
            (disk, Err(TreeError::NotFound))
        } else {
            let (next, event) = answer(disk, effect, listing);
            delete_from(
                next,
                store,
                path,
                listing,
                delete_then(store, path, stage, event),
                (turns - 1) as nat,
            )
        },
    }
}

/// The removal of what `path` names, run on the disk. It takes three effects at
/// most.
pub open spec fn delete_on(disk: Disk, store: Seq<char>, path: Seq<char>, listing: Seq<Seq<char>>) -> (
    Disk,
    Result<DoneView, TreeError>,
) {
    delete_from(disk, store, path, listing, delete_first(store, path), 3)
}

/// The creation of a category run to its end from `turn`.
pub open spec fn create_from(
    disk: Disk,
    store: Seq<char>,
    path: Seq<char>,
    turn: TurnView<CategoryStage>,
    turns: nat,
) -> (Disk, Result<DoneView, TreeError>)
    decreases turns,
{
    match turn {
        TurnView::Finish(r) => (disk, r),
        TurnView::Do(effect, stage) => if turns == 0 {
            (disk, Err(TreeError::CreateDirectory))
        } else {
            let (next, event) = answer(disk, effect, Seq::empty());
            create_from(next, store, path, create_then(store, path, stage, event), (turns - 1) as nat)
        },
    }
}

/// The creation of the category at `path`, run on the disk. It takes two effects.
pub open spec fn create_on(disk: Disk, store: Seq<char>, path: Seq<char>) -> (
    Disk,
    Result<DoneView, TreeError>,
) {
    create_from(disk, store, path, create_first(store, path), 2)
}

/// Creating a category succeeds wherever no file stands in its place or above
/// it, and leaves its directory with the placeholder in it; creating it again
/// succeeds too and leaves the disk as it is.
pub proof fn law_create_category_idempotent(disk: Disk, store: Seq<char>, path: Seq<char>)
    requires
        admits_dir(disk, category_dir(store, path)),
        !disk.dirs.contains(placeholder_file(store, path)),
    ensures
        ({
            let (once, first) = create_on(disk, store, path);
            let (twice, second) = create_on(once, store, path);
            &&& first == committed("OK"@, "Add category: "@ + path)
            &&& second == first
            &&& once.dirs.contains(category_dir(store, path))
            &&& once.files.contains_key(placeholder_file(store, path))
            &&& twice == once
        }),
{
    reveal_with_fuel(create_from, 3);
    reveal_strlit("/.gitkeep");
    let dir = category_dir(store, path);
    let file = placeholder_file(store, path);
    let d1 = with_dir(disk, dir);
    let d2 = Disk { files: d1.files.insert(file, Seq::empty()), dirs: d1.dirs };
    assert(!is_above(file, dir));
    assert(file != dir);
    assert(!d1.dirs.contains(file));
    assert(create_on(disk, store, path).0 == d2);
    assert(admits_dir(d2, dir)) by {
        assert(file.len() > dir.len());
        assert forall|a: Seq<char>| is_above(a, dir) implies !d2.files.contains_key(a) by {
            assert(a.len() < dir.len());
        }
    }
    let d3 = with_dir(d2, dir);
    assert(d3.dirs =~= d2.dirs);
    assert(d3 == d2);
    let d4 = Disk { files: d3.files.insert(file, Seq::empty()), dirs: d3.dirs };
    assert(d4.files =~= d2.files);
    assert(d4 == d2);
}

/// The file of an entry in a category is the file of that name in the
/// directory of the category.
pub proof fn lemma_entry_in_category(store: Seq<char>, category: Seq<char>, name: Seq<char>)
    ensures
        entry_file(store, category + "/"@ + name) == category_dir(store, category) + "/"@ + (name
            + ".gpg"@),
{
    assert(entry_file(store, category + "/"@ + name) =~= category_dir(store, category) + "/"@ + (
    name + ".gpg"@));
}

/// A category that holds one entry is not removed: the removal ends with
/// `CategoryNotEmpty` and leaves the disk as it is. Once that entry is removed,
/// the removal of the category succeeds and its directory is gone.
pub proof fn law_deletion_guard(
    disk: Disk,
    store: Seq<char>,
    category: Seq<char>,
    name: Seq<char>,
    before: Seq<Seq<char>>,
    after: Seq<Seq<char>>,
)
    requires
        is_name(name),
        disk.dirs.contains(category_dir(store, category)),
        !disk.files.contains_key(entry_file(store, category)),
        disk.files.contains_key(entry_file(store, category + "/"@ + name)),
        !disk.dirs.contains(entry_file(store, category + "/"@ + name)),
        forall|n: Seq<char>| #[trigger]
            holds(disk, category_dir(store, category), n) ==> n == PLACEHOLDER@ || n == name
                + ".gpg"@,
        lists(disk, category_dir(store, category), before),
        lists(delete_on(disk, store, category + "/"@ + name, Seq::empty()).0, category_dir(store, category), after),
    ensures
        delete_on(disk, store, category, before) == (
            disk,
            Err::<DoneView, TreeError>(TreeError::CategoryNotEmpty),
        ),
        ({
            let entry = category + "/"@ + name;
            let (without_entry, first) = delete_on(disk, store, entry, Seq::empty());
            let (without_category, second) = delete_on(without_entry, store, category, after);
            &&& first == committed("OK"@, "Delete secret: "@ + entry)
            &&& !without_entry.files.contains_key(entry_file(store, entry))
            &&& second == committed("OK"@, "Delete category: "@ + category)
            &&& !without_category.dirs.contains(category_dir(store, category))
        }),
{
    reveal_with_fuel(delete_from, 4);
    reveal_strlit(".gitkeep");
    reveal_strlit(".gpg");
    let dir = category_dir(store, category);
    let entry = category + "/"@ + name;
    let file = entry_file(store, entry);
    let blob = name + ".gpg"@;
    lemma_entry_in_category(store, category, name);
    assert(is_name(blob)) by {
        assert forall|i: int| 0 <= i < blob.len() implies blob[i] != '/' by {
            if i < name.len() {
                assert(name.contains(blob[i]));
            }
        }
    }
    assert(holds(disk, dir, blob));
    assert(before.contains(blob));
    assert(blob != PLACEHOLDER@) by {
        assert(blob.last() == 'g');
        assert(PLACEHOLDER@.last() == 'p');
    }
    assert(!only_placeholders(before)) by {
        let i = choose|i: int| 0 <= i < before.len() && before[i] == blob;
        assert(before[i] != PLACEHOLDER@);
    }
    let d1 = Disk { files: disk.files.remove(file), dirs: disk.dirs };
    assert(delete_on(disk, store, entry, Seq::empty()).0 == d1);
    assert(!d1.files.contains_key(entry_file(store, category)));
    assert(only_placeholders(after)) by {
        assert forall|i: int| 0 <= i < after.len() implies after[i] == PLACEHOLDER@ by {
            let n = after[i];
            assert(after.contains(n));
            assert(holds(d1, dir, n));
            if n == blob {
                assert(dir + "/"@ + n == file);
            } else {
                assert(holds(disk, dir, n));
            }
        }
    }
}

} // verus!
