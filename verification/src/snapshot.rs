//! Snapshots: the whole store as one archive, and its way back.
//!
//! A snapshot holds every file of the store but the version-control metadata.
//! On the way back each entry is resolved below the store root, and an entry
//! whose path would leave the root is passed over.

use crate::archive::{
    accepting, archive_len, archive_of, entries_of, finish, new_writer, open_archive, opened,
    packing_of, read_entry, start_file, write_all, written, ArchiveFile, Packing, MAX_FILE_SIZE,
};
use crate::effect::{
    committed, finish_with_commit, Effect, EffectView, Event, EventView, TreeError, Turn, TurnView,
};
use crate::text::{
    chars_of, find_char, lemma_position_is, lemma_position_of, position_of, push_range,
    same_chars,
};
use vstd::prelude::*;

verus! {

/// The message of the commit that follows a restore.
pub const RESTORE_MESSAGE: &'static str = "Restored from backup";

/// What the caller is told after a restore.
pub const RESTORE_REPORT: &'static str = "Restored successfully";

/// The name of the directory that holds the version-control metadata.
pub const METADATA_DIR: &'static str = ".git";

/// What a restore does for one entry of the archive.
#[derive(Debug, PartialEq, Eq)]
pub enum RestoreAction {
    /// Create the directory and its missing ancestors.
    CreateDir { path: String },
    /// Create the missing parent directories, then write the file, replacing
    /// what was there.
    WriteFile { path: String, data: Vec<u8> },
}

/// What a restore does: the actions in the order of the archive. Where an entry
/// could not be read the plan ends before it and is not complete; the actions
/// before it are still applied, and no commit follows.
#[derive(Debug, PartialEq, Eq)]
pub struct RestorePlan {
    pub actions: Vec<RestoreAction>,
    pub complete: bool,
}

/// The mathematical content of a `RestoreAction`.
pub enum ActionView {
    CreateDir { path: Seq<char> },
    WriteFile { path: Seq<char>, data: Seq<u8> },
}

/// The mathematical content of a `RestorePlan`.
pub struct PlanView {
    pub actions: Seq<ActionView>,
    pub complete: bool,
}

impl View for RestoreAction {
    type V = ActionView;

    open spec fn view(&self) -> ActionView {
        match *self {
            RestoreAction::CreateDir { path } => ActionView::CreateDir { path: path@ },
            RestoreAction::WriteFile { path, data } => ActionView::WriteFile {
                path: path@,
                data: data@,
            },
        }
    }
}

impl View for RestorePlan {
    type V = PlanView;

    open spec fn view(&self) -> PlanView {
        PlanView {
            actions: Seq::new(self.actions@.len(), |i: int| self.actions@[i]@),
            complete: self.complete,
        }
    }
}

/// The names and bytes of a list of files.
pub open spec fn files_view(files: Seq<ArchiveFile>) -> Seq<(Seq<char>, Seq<u8>)> {
    Seq::new(files.len(), |i: int| (files[i].name@, files[i].data@))
}

/// The texts of a list of segments.
pub open spec fn segments_of(v: Seq<Vec<char>>) -> Seq<Seq<char>> {
    Seq::new(v.len(), |i: int| v[i]@)
}

/// Whether a file of the store is version-control metadata: a segment of its
/// path from the root is the metadata directory. A file whose name only begins
/// like that directory, a placeholder among them, is none.
pub open spec fn is_metadata(name: Seq<char>) -> bool {
    split(name, '/').contains(METADATA_DIR@)
}

/// Whether each of the files is within the size that a file of an archive may
/// have.
pub open spec fn all_fit(files: Seq<(Seq<char>, Seq<u8>)>) -> bool {
    forall|i: int| 0 <= i < files.len() ==> (#[trigger] files[i]).1.len() <= MAX_FILE_SIZE
}

/// The files that a snapshot holds, out of the files of the store.
pub open spec fn exported(files: Seq<(Seq<char>, Seq<u8>)>) -> Seq<(Seq<char>, Seq<u8>)>
    decreases files.len(),
{
    if files.len() == 0 {
        Seq::empty()
    } else if is_metadata(files.last().0) {
        exported(files.drop_last())
    } else {
        exported(files.drop_last()).push(files.last())
    }
}

/// The parts of `s` between the separators.
pub open spec fn split(s: Seq<char>, sep: char) -> Seq<Seq<char>>
    decreases s.len(),
{
    let i = position_of(s, sep);
    if 0 <= i < s.len() {
        seq![s.take(i)] + split(s.skip(i + 1), sep)
    } else {
        seq![s]
    }
}

/// The segments with a slash between each two.
pub open spec fn joined(segments: Seq<Seq<char>>) -> Seq<char>
    decreases segments.len(),
{
    if segments.len() == 0 {
        Seq::empty()
    } else if segments.len() == 1 {
        segments[0]
    } else {
        segments[0] + seq!['/'] + joined(segments.drop_first())
    }
}

/// Whether a segment names a file or a directory: it is not empty, it is
/// neither `.` nor `..`, and it holds neither a slash nor the character zero.
pub open spec fn is_plain(segment: Seq<char>) -> bool {
    &&& segment.len() > 0
    &&& segment != seq!['.']
    &&& segment != seq!['.', '.']
    &&& !segment.contains('/')
    &&& !segment.contains('\0')
}

/// Whether every segment names a file or a directory.
pub open spec fn all_plain(segments: Seq<Seq<char>>) -> bool {
    forall|i: int| 0 <= i < segments.len() ==> is_plain(#[trigger] segments[i])
}

/// Walks the segments from the directory that `stack` names: an empty segment
/// and `.` stay, `..` goes up, any other segment goes down. Nothing comes back
/// where the walk would go above the start.
pub open spec fn resolve(segments: Seq<Seq<char>>, stack: Seq<Seq<char>>) -> Option<
    Seq<Seq<char>>,
>
    decreases segments.len(),
{
    if segments.len() == 0 {
        Some(stack)
    } else if segments[0].len() == 0 || segments[0] == seq!['.'] {
        resolve(segments.drop_first(), stack)
    } else if segments[0] == seq!['.', '.'] {
        if stack.len() == 0 {
            None
        } else {
            resolve(segments.drop_first(), stack.drop_last())
        }
    } else {
        resolve(segments.drop_first(), stack.push(segments[0]))
    }
}

/// Where the name of an archive entry leads, from the store root down; nothing
/// where the name is absolute, leads out of the root, or holds the character
/// zero, which no path can hold.
pub open spec fn target(name: Seq<char>) -> Option<Seq<Seq<char>>> {
    if (name.len() > 0 && name[0] == '/') || name.contains('\0') {
        None
    } else {
        resolve(split(name, '/'), Seq::empty())
    }
}

/// The path below the store root that the segments name; the root itself where
/// there are none.
pub open spec fn under(store: Seq<char>, segments: Seq<Seq<char>>) -> Seq<char> {
    if segments.len() == 0 {
        store
    } else {
        store + seq!['/'] + joined(segments)
    }
}

/// Whether the name of an archive entry is that of a directory.
pub open spec fn names_directory(name: Seq<char>) -> bool {
    name.len() > 0 && name.last() == '/'
}

/// What a restore does for the entry of the given name and bytes: nothing where
/// the name leads nowhere below the store root, or names the root itself as a
/// file.
pub open spec fn action_for(store: Seq<char>, name: Seq<char>, data: Seq<u8>) -> Option<
    ActionView,
> {
    match target(name) {
        None => None,
        Some(segments) => if names_directory(name) {
            Some(ActionView::CreateDir { path: under(store, segments) })
        } else if segments.len() == 0 {
            None
        } else {
            Some(ActionView::WriteFile { path: under(store, segments), data })
        },
    }
}

/// What a restore does for the entries of an archive.
pub open spec fn restore_plan(store: Seq<char>, entries: Seq<Option<(Seq<char>, Seq<u8>)>>) -> PlanView
    decreases entries.len(),
{
    if entries.len() == 0 {
        PlanView { actions: Seq::empty(), complete: true }
    } else {
        let before = restore_plan(store, entries.drop_last());
        if !before.complete {
            before
        } else {
            match entries.last() {
                None => PlanView { actions: before.actions, complete: false },
                Some((name, data)) => match action_for(store, name, data) {
                    Some(a) => PlanView { actions: before.actions.push(a), complete: true },
                    None => before,
                },
            }
        }
    }
}

/// Whether a file of the store is version-control metadata.
pub fn is_version_control(name: &str) -> (r: bool)
    ensures
        r == is_metadata(name@),
{
    let v = chars_of(name);
    let parts = split_path(&v);
    let dir = chars_of(METADATA_DIR);
    let mut i: usize = 0;
    while i < parts.len()
        invariant
            i <= parts.len(),
            dir@ == METADATA_DIR@,
            segments_of(parts@) == split(name@, '/'),
            forall|j: int| 0 <= j < i ==> (#[trigger] segments_of(parts@)[j]) != METADATA_DIR@,
        decreases parts.len() - i,
    {
        if same_chars(&parts[i], &dir) {
            assert(segments_of(parts@)[i as int] == METADATA_DIR@);
            return true;
        }
        i += 1;
    }
    false
}

/// The position of the first `c` in `v` at or behind `start`, or `v.len()`.
fn find_from(v: &Vec<char>, start: usize, c: char) -> (i: usize)
    requires
        start <= v.len(),
    ensures
        start <= i <= v.len(),
        i - start == position_of(v@.skip(start as int), c),
{
    let mut i: usize = start;
    while i < v.len() && v[i] != c
        invariant
            start <= i <= v.len(),
            forall|j: int| start <= j < i ==> v@[j] != c,
        decreases v.len() - i,
    {
        i += 1;
    }
    proof {
        lemma_position_is(v@.skip(start as int), c, i - start);
    }
    i
}

/// The characters `v[from..to]`.
fn slice_of(v: &Vec<char>, from: usize, to: usize) -> (r: Vec<char>)
    requires
        from <= to <= v.len(),
    ensures
        r@ == v@.subrange(from as int, to as int),
{
    let mut r: Vec<char> = Vec::new();
    let mut i: usize = from;
    while i < to
        invariant
            from <= i <= to <= v.len(),
            r@ == v@.subrange(from as int, i as int),
        decreases to - i,
    {
        r.push(v[i]);
        i += 1;
    }
    r
}

/// Splits a path at its slashes.
pub fn split_path(v: &Vec<char>) -> (out: Vec<Vec<char>>)
    ensures
        segments_of(out@) == split(v@, '/'),
{
    let mut out: Vec<Vec<char>> = Vec::new();
    let mut start: usize = 0;
    assert(v@.skip(0) == v@);
    assert(segments_of(out@) + split(v@, '/') == split(v@, '/'));
    loop
        invariant
            start <= v.len(),
            segments_of(out@) + split(v@.skip(start as int), '/') == split(v@, '/'),
        decreases v.len() - start,
    {
        let ghost rest = v@.skip(start as int);
        let ghost before = segments_of(out@);
        let i = find_from(v, start, '/');
        let segment = slice_of(v, start, i);
        out.push(segment);
        proof {
            lemma_position_of(rest, '/');
            assert(segments_of(out@) == before.push(segment@));
            assert(segment@ == rest.take(i - start));
        }
        if i == v.len() {
            proof {
                assert(rest.take(i - start) == rest);
                assert(before + seq![rest] == before.push(rest));
            }
            return out;
        }
        proof {
            assert(rest.skip(i - start + 1) == v@.skip(i + 1));
            assert(before + (seq![segment@] + split(v@.skip(i + 1), '/')) == before.push(segment@)
                + split(v@.skip(i + 1), '/'));
        }
        start = i + 1;
    }
}

/// Whether the segment is `.`.
fn is_dot(segment: &Vec<char>) -> (r: bool)
    ensures
        r == (segment@ == seq!['.']),
{
    if segment.len() == 1 && segment[0] == '.' {
        assert(segment@ =~= seq!['.']);
        true
    } else {
        if segment.len() == 1 {
            assert(segment@[0] != seq!['.'][0]);
        }
        false
    }
}

/// Whether the segment is `..`.
fn is_dot_dot(segment: &Vec<char>) -> (r: bool)
    ensures
        r == (segment@ == seq!['.', '.']),
{
    if segment.len() == 2 && segment[0] == '.' && segment[1] == '.' {
        assert(segment@ =~= seq!['.', '.']);
        true
    } else {
        if segment.len() == 2 {
            assert(segment@[0] != seq!['.', '.'][0] || segment@[1] != seq!['.', '.'][1]);
        }
        false
    }
}

/// Walks the segments from the store root.
pub fn resolve_segments(segments: &Vec<Vec<char>>) -> (r: Option<Vec<Vec<char>>>)
    ensures
        match r {
            Some(stack) => resolve(segments_of(segments@), Seq::empty()) == Some(
                segments_of(stack@),
            ),
            None => resolve(segments_of(segments@), Seq::empty()) is None,
        },
{
    let ghost all = segments_of(segments@);
    let mut stack: Vec<Vec<char>> = Vec::new();
    let mut i: usize = 0;
    assert(all.skip(0) == all);
    assert(segments_of(stack@) =~= Seq::<Seq<char>>::empty());
    while i < segments.len()
        invariant
            i <= segments.len(),
            all == segments_of(segments@),
            resolve(all.skip(i as int), segments_of(stack@)) == resolve(all, Seq::empty()),
        decreases segments.len() - i,
    {
        let ghost rest = all.skip(i as int);
        let ghost held = segments_of(stack@);
        let segment = &segments[i];
        proof {
            assert(rest[0] == segment@);
            assert(rest.drop_first() == all.skip(i + 1));
        }
        if segment.len() == 0 || is_dot(segment) {
        } else if is_dot_dot(segment) {
            if stack.len() == 0 {
                return None;
            }
            stack.pop();
            assert(segments_of(stack@) =~= held.drop_last());
        } else {
            let copy = slice_of(segment, 0, segment.len());
            assert(copy@ == segment@);
            stack.push(copy);
            assert(segments_of(stack@) =~= held.push(segment@));
        }
        i += 1;
    }
    assert(all.skip(segments.len() as int) =~= Seq::<Seq<char>>::empty());
    Some(stack)
}

/// `joined` of a list with one more segment at its end.
pub proof fn lemma_joined_push(segments: Seq<Seq<char>>, last: Seq<char>)
    requires
        segments.len() > 0,
    ensures
        joined(segments.push(last)) == joined(segments) + seq!['/'] + last,
    decreases segments.len(),
{
    let all = segments.push(last);
    assert(all.drop_first() =~= segments.drop_first().push(last));
    if segments.len() == 1 {
        assert(all.drop_first() =~= seq![last]);
        assert(joined(all.drop_first()) == last);
    } else {
        lemma_joined_push(segments.drop_first(), last);
        assert(segments[0] + seq!['/'] + (joined(segments.drop_first()) + seq!['/'] + last)
            =~= (segments[0] + seq!['/'] + joined(segments.drop_first())) + seq!['/'] + last);
    }
}

/// Builds the path below the store root that the segments name.
pub fn path_under(store: &str, segments: &Vec<Vec<char>>) -> (path: String)
    ensures
        path@ == under(store@, segments_of(segments@)),
{
    let ghost all = segments_of(segments@);
    let mut path = String::from_str(store);
    let mut i: usize = 0;
    while i < segments.len()
        invariant
            i <= segments.len(),
            all == segments_of(segments@),
            path@ == under(store@, all.take(i as int)),
        decreases segments.len() - i,
    {
        let ghost before = path@;
        path.push('/');
        push_range(&mut path, &segments[i], 0, segments[i].len());
        proof {
            let taken = all.take(i as int);
            assert(segments@[i as int]@.subrange(0, segments@[i as int]@.len() as int)
                == segments@[i as int]@);
            assert(all.take(i + 1) =~= taken.push(all[i as int]));
            assert(before.push('/') =~= before + seq!['/']);
            if i > 0 {
                lemma_joined_push(taken, all[i as int]);
                assert(path@ =~= store@ + seq!['/'] + (joined(taken) + seq!['/'] + all[i as int]));
            } else {
                assert(all.take(1)[0] == all[0]);
                assert(joined(all.take(1)) == all[0]);
            }
        }
        i += 1;
    }
    assert(all.take(segments.len() as int) == all);
    path
}

/// Decides what a restore does for one entry of the archive.
pub fn restore_action(store: &str, entry: ArchiveFile) -> (r: Option<RestoreAction>)
    ensures
        match r {
            Some(a) => action_for(store@, entry.name@, entry.data@) == Some(a@),
            None => action_for(store@, entry.name@, entry.data@) is None,
        },
{
    let name = chars_of(entry.name.as_str());
    if name.len() > 0 && name[0] == '/' {
        return None;
    }
    let zero = find_char(&name, '\0');
    proof {
        lemma_position_of(name@, '\0');
    }
    if zero < name.len() {
        return None;
    }
    let segments = split_path(&name);
    match resolve_segments(&segments) {
        None => None,
        Some(stack) => {
            if name.len() > 0 && name[name.len() - 1] == '/' {
                Some(RestoreAction::CreateDir { path: path_under(store, &stack) })
            } else if stack.len() == 0 {
                None
            } else {
                Some(RestoreAction::WriteFile { path: path_under(store, &stack), data: entry.data })
            }
        },
    }
}

/// Chooses the files of a snapshot out of the files of the store and writes the
/// archive that holds them, each stored as it is. The names are the paths from
/// the store root. The archive is written wherever each chosen file is within
/// the size that a file of an archive may have, and only there.
pub fn download_backup(files: &Vec<ArchiveFile>) -> (r: Result<Vec<u8>, TreeError>)
    ensures
        r is Ok <==> all_fit(exported(files_view(files@))),
        r matches Ok(bytes) ==> bytes@ == archive_of(exported(files_view(files@))),
        r matches Err(e) ==> e == TreeError::SnapshotFailed,
{
    let ghost all = files_view(files@);
    let mut writer = new_writer(Packing::Stored);
    let mut i: usize = 0;
    assert(all.take(0) =~= Seq::<(Seq<char>, Seq<u8>)>::empty());
    while i < files.len()
        invariant
            i <= files.len(),
            all == files_view(files@),
            accepting(writer),
            packing_of(writer) == Packing::Stored,
            written(writer) == exported(all.take(i as int)),
            all_fit(exported(all.take(i as int))),
        decreases files.len() - i,
    {
        let file = &files[i];
        proof {
            assert(all.take(i + 1).drop_last() == all.take(i as int));
            assert(all.take(i + 1).last() == (file.name@, file.data@));
        }
        if !is_version_control(file.name.as_str()) {
            let ghost before = written(writer);
            if start_file(&mut writer, file.name.as_str()).is_err() {
                return Err(TreeError::SnapshotFailed);
            }
            assert(written(writer).last() == (file.name@, Seq::<u8>::empty()));
            if !write_all(&mut writer, &file.data) {
                proof {
                    law_snapshot_content(all);
                    assert(all[i as int] == (file.name@, file.data@));
                    assert(exported(all).contains(all[i as int]));
                }
                return Err(TreeError::SnapshotFailed);
            }
            proof {
                assert(Seq::<u8>::empty() + file.data@ == file.data@);
                if file.data@.len() == 0 {
                    assert(file.data@ =~= Seq::<u8>::empty());
                }
                assert(written(writer) =~= before.push((file.name@, file.data@)));
            }
        }
        i += 1;
    }
    assert(all.take(files.len() as int) == all);
    match finish(writer) {
        Ok(bytes) => Ok(bytes),
        Err(_) => Err(TreeError::SnapshotFailed),
    }
}

/// Opens a snapshot and decides what its restore does, entry by entry.
pub fn restore_backup(store: &str, data: Vec<u8>) -> (r: Result<RestorePlan, TreeError>)
    ensures
        match opened(data@) {
            None => r == Err::<RestorePlan, TreeError>(TreeError::InvalidArchive),
            Some(entries) => r is Ok && r->Ok_0@ == restore_plan(store@, entries),
        },
{
    let mut archive = match open_archive(data) {
        Ok(a) => a,
        Err(_) => {
            return Err(TreeError::InvalidArchive);
        },
    };
    let ghost entries = entries_of(archive);
    let n = archive_len(&archive);
    let mut plan = RestorePlan { actions: Vec::new(), complete: true };
    let mut i: usize = 0;
    assert(entries.take(0) =~= Seq::<Option<(Seq<char>, Seq<u8>)>>::empty());
    assert(plan@.actions =~= Seq::<ActionView>::empty());
    while i < n
        invariant
            i <= n,
            n == entries.len(),
            entries_of(archive) == entries,
            plan@ == restore_plan(store@, entries.take(i as int)),
        decreases n - i,
    {
        proof {
            assert(entries.take(i + 1).drop_last() == entries.take(i as int));
            assert(entries.take(i + 1).last() == entries[i as int]);
        }
        if plan.complete {
            let ghost before = plan@.actions;
            match read_entry(&mut archive, i) {
                None => {
                    plan.complete = false;
                    assert(plan@.actions =~= before);
                },
                Some(entry) => match restore_action(store, entry) {
                    Some(action) => {
                        plan.actions.push(action);
                        assert(plan@.actions =~= before.push(action@));
                    },
                    None => {},
                },
            }
        }
        i += 1;
    }
    assert(entries.take(n as int) == entries);
    Ok(plan)
}

/// The effect that performs an action of a restore.
pub open spec fn effect_of(action: ActionView) -> EffectView {
    match action {
        ActionView::CreateDir { path } => EffectView::CreateDirAll { path },
        ActionView::WriteFile { path, data } => EffectView::WriteBytes { path, data },
    }
}

/// The turn of a restore at which the actions before `index` are done: the
/// action at `index` where there is one; behind the last action the end, with
/// the one commit of the restore where the plan is complete, and the failure
/// where an entry of the archive could not be read.
pub open spec fn restore_at(plan: PlanView, index: int) -> TurnView<usize> {
    if 0 <= index < plan.actions.len() {
        TurnView::Do(effect_of(plan.actions[index]), index as usize)
    } else if plan.complete {
        TurnView::Finish(committed(RESTORE_REPORT@, RESTORE_MESSAGE@))
    } else {
        TurnView::Finish(Err(TreeError::InvalidArchive))
    }
}

/// The turn that follows `event` on the action at `stage`. A directory that
/// could not be created is passed over. A file that could not be written ends
/// the restore with the failure; what was written before stays.
pub open spec fn restore_then(plan: PlanView, stage: usize, event: EventView) -> TurnView<usize> {
    if stage >= plan.actions.len() {
        restore_at(plan, plan.actions.len() as int)
    } else {
        match (plan.actions[stage as int], event) {
            (ActionView::CreateDir { .. }, _) => restore_at(plan, stage + 1),
            (ActionView::WriteFile { .. }, EventView::Done) => restore_at(plan, stage + 1),
            (ActionView::WriteFile { .. }, EventView::NoDirectory) => TurnView::Finish(
                Err(TreeError::CreateDirectory),
            ),
            (ActionView::WriteFile { .. }, _) => TurnView::Finish(Err(TreeError::WriteFile)),
        }
    }
}

/// A copy of the bytes.
fn copy_bytes(v: &Vec<u8>) -> (r: Vec<u8>)
    ensures
        r@ == v@,
{
    let mut r: Vec<u8> = Vec::new();
    let mut i: usize = 0;
    while i < v.len()
        invariant
            i <= v.len(),
            r@ == v@.take(i as int),
        decreases v.len() - i,
    {
        r.push(v[i]);
        assert(v@.take(i + 1) == v@.take(i as int).push(v@[i as int]));
        i += 1;
    }
    assert(v@.take(v.len() as int) == v@);
    r
}

fn restore_turn(plan: &RestorePlan, index: usize) -> (turn: Turn<usize>)
    ensures
        turn@ == restore_at(plan@, index as int),
{
    if index < plan.actions.len() {
        let effect = match &plan.actions[index] {
            RestoreAction::CreateDir { path } => Effect::CreateDirAll { path: path.clone() },
            RestoreAction::WriteFile { path, data } => Effect::WriteBytes {
                path: path.clone(),
                data: copy_bytes(data),
            },
        };
        Turn::Do(effect, index)
    } else if plan.complete {
        finish_with_commit(RESTORE_REPORT, String::from_str(RESTORE_MESSAGE))
    } else {
        Turn::Finish(Err(TreeError::InvalidArchive))
    }
}

/// Begins to apply the plan of a restore.
pub fn apply_restore(plan: &RestorePlan) -> (turn: Turn<usize>)
    ensures
        turn@ == restore_at(plan@, 0),
{
    restore_turn(plan, 0)
}

/// Goes on with a restore after the effect of the action at `stage`.
pub fn apply_restore_next(plan: &RestorePlan, stage: usize, event: Event) -> (turn: Turn<usize>)
    ensures
        turn@ == restore_then(plan@, stage, event@),
{
    if stage >= plan.actions.len() {
        return restore_turn(plan, plan.actions.len());
    }
    match (&plan.actions[stage], event) {
        (RestoreAction::CreateDir { .. }, _) => restore_turn(plan, stage + 1),
        (RestoreAction::WriteFile { .. }, Event::Done) => restore_turn(plan, stage + 1),
        (RestoreAction::WriteFile { .. }, Event::NoDirectory) => Turn::Finish(
            Err(TreeError::CreateDirectory),
        ),
        (RestoreAction::WriteFile { .. }, _) => Turn::Finish(Err(TreeError::WriteFile)),
    }
}

/// A restore asks for a commit only at its end, with the message of a restore,
/// and only where the plan is complete and its last action is done. It removes
/// nothing, it goes through the actions in their order, and a file that could
/// not be written ends it with a failure.
pub proof fn law_restore_commits_once(plan: PlanView, stage: usize, event: EventView)
    requires
        stage < plan.actions.len() <= usize::MAX,
    ensures
        restore_then(plan, stage, event) matches TurnView::Finish(Ok(done)) ==> plan.complete && stage
            + 1 == plan.actions.len() && done.commit == Some(RESTORE_MESSAGE@),
        restore_then(plan, stage, event) matches TurnView::Do(effect, next) ==> next == stage + 1
            && effect == effect_of(plan.actions[stage + 1]) && !(effect is RemoveFile) && !(effect is RemoveDirAll),
        plan.actions[stage as int] is WriteFile && event != EventView::Done ==> restore_then(
            plan,
            stage,
            event,
        ) matches TurnView::Finish(Err(_)),
        restore_at(plan, plan.actions.len() as int) matches TurnView::Finish(r) && (r is Ok
            <==> plan.complete),
{
}

/// No part of a split text holds the separator.
pub proof fn lemma_split_parts(s: Seq<char>, sep: char)
    ensures
        split(s, sep).len() > 0,
        forall|k: int| 0 <= k < split(s, sep).len() ==> !(#[trigger] split(s, sep)[k]).contains(sep),
    decreases s.len(),
{
    lemma_position_of(s, sep);
    let i = position_of(s, sep);
    if 0 <= i < s.len() {
        lemma_split_parts(s.skip(i + 1), sep);
        let rest = split(s.skip(i + 1), sep);
        assert forall|k: int| 0 <= k < split(s, sep).len() implies !(#[trigger] split(
            s,
            sep,
        )[k]).contains(sep) by {
            if k == 0 {
                assert(split(s, sep)[0] == s.take(i));
            } else {
                assert(split(s, sep)[k] == rest[k - 1]);
            }
        }
    }
}

/// A character that a text does not hold, none of its parts holds.
pub proof fn lemma_split_within(s: Seq<char>, sep: char, c: char)
    requires
        !s.contains(c),
    ensures
        forall|k: int| 0 <= k < split(s, sep).len() ==> !(#[trigger] split(s, sep)[k]).contains(c),
    decreases s.len(),
{
    lemma_position_of(s, sep);
    let i = position_of(s, sep);
    if 0 <= i < s.len() {
        let rest = s.skip(i + 1);
        assert(!rest.contains(c)) by {
            if rest.contains(c) {
                let j = choose|j: int| 0 <= j < rest.len() && rest[j] == c;
                assert(s[i + 1 + j] == c);
            }
        }
        lemma_split_within(rest, sep, c);
        assert forall|k: int| 0 <= k < split(s, sep).len() implies !(#[trigger] split(
            s,
            sep,
        )[k]).contains(c) by {
            if k == 0 {
                assert(split(s, sep)[0] == s.take(i));
                if s.take(i).contains(c) {
                    let j = choose|j: int| 0 <= j < s.take(i).len() && s.take(i)[j] == c;
                    assert(s[j] == c);
                }
            } else {
                assert(split(s, sep)[k] == split(rest, sep)[k - 1]);
            }
        }
    }
}

/// A character that a text holds, and that is not the separator, one of its
/// parts holds.
pub proof fn lemma_split_covers(s: Seq<char>, sep: char, c: char)
    requires
        c != sep,
        s.contains(c),
    ensures
        exists|k: int| 0 <= k < split(s, sep).len() && (#[trigger] split(s, sep)[k]).contains(c),
    decreases s.len(),
{
    lemma_position_of(s, sep);
    let i = position_of(s, sep);
    if 0 <= i < s.len() {
        let rest = s.skip(i + 1);
        let j = choose|j: int| 0 <= j < s.len() && s[j] == c;
        if j < i {
            assert(s.take(i)[j] == c);
            assert(split(s, sep)[0] == s.take(i));
            assert(split(s, sep)[0].contains(c));
        } else {
            assert(rest[j - i - 1] == c);
            lemma_split_covers(rest, sep, c);
            let k = choose|k: int| 0 <= k < split(rest, sep).len() && (#[trigger] split(
                rest,
                sep,
            )[k]).contains(c);
            assert(split(s, sep)[k + 1] == split(rest, sep)[k]);
            assert(split(s, sep)[k + 1].contains(c));
        }
    } else {
        assert(split(s, sep)[0] == s);
    }
}

/// The parts of a path, joined again, are the path.
pub proof fn lemma_joined_split(s: Seq<char>)
    ensures
        joined(split(s, '/')) == s,
    decreases s.len(),
{
    lemma_position_of(s, '/');
    let i = position_of(s, '/');
    if 0 <= i < s.len() {
        let rest = split(s.skip(i + 1), '/');
        lemma_joined_split(s.skip(i + 1));
        lemma_split_parts(s.skip(i + 1), '/');
        let all = split(s, '/');
        assert(all.drop_first() =~= rest);
        assert(all[0] == s.take(i));
        assert(s.take(i) + seq!['/'] + s.skip(i + 1) =~= s);
    }
}

/// A walk over segments that all name a file or a directory goes down by each.
pub proof fn lemma_resolve_plain(segments: Seq<Seq<char>>, stack: Seq<Seq<char>>)
    requires
        all_plain(segments),
    ensures
        resolve(segments, stack) == Some(stack + segments),
    decreases segments.len(),
{
    if segments.len() == 0 {
        assert(stack + segments =~= stack);
    } else {
        assert(is_plain(segments[0]));
        let rest = segments.drop_first();
        assert forall|i: int| 0 <= i < rest.len() implies is_plain(#[trigger] rest[i]) by {
            assert(rest[i] == segments[i + 1]);
        }
        lemma_resolve_plain(rest, stack.push(segments[0]));
        assert(stack.push(segments[0]) + rest =~= stack + segments);
    }
}

/// Where a walk ends, every segment of the way names a file or a directory.
pub proof fn lemma_resolve_is_plain(segments: Seq<Seq<char>>, stack: Seq<Seq<char>>)
    requires
        all_plain(stack),
        forall|k: int|
            0 <= k < segments.len() ==> !(#[trigger] segments[k]).contains('/')
                && !segments[k].contains('\0'),
    ensures
        resolve(segments, stack) matches Some(out) ==> all_plain(out),
    decreases segments.len(),
{
    if segments.len() > 0 {
        let rest = segments.drop_first();
        assert forall|k: int| 0 <= k < rest.len() implies !(#[trigger] rest[k]).contains('/')
            && !rest[k].contains('\0') by {
            assert(rest[k] == segments[k + 1]);
        }
        if segments[0].len() == 0 || segments[0] == seq!['.'] {
            lemma_resolve_is_plain(rest, stack);
        } else if segments[0] == seq!['.', '.'] {
            if stack.len() > 0 {
                let up = stack.drop_last();
                assert forall|i: int| 0 <= i < up.len() implies is_plain(#[trigger] up[i]) by {
                    assert(up[i] == stack[i]);
                }
                lemma_resolve_is_plain(rest, up);
            }
        } else {
            let down = stack.push(segments[0]);
            assert forall|i: int| 0 <= i < down.len() implies is_plain(#[trigger] down[i]) by {
                if i < stack.len() {
                    assert(down[i] == stack[i]);
                }
            }
            lemma_resolve_is_plain(rest, down);
        }
    }
}

/// Whatever an archive entry is named, a restore touches only what lies below
/// the store root: the path of its action is the root followed by segments that
/// each name a file or a directory, none of them `..`. An entry whose name is
/// absolute, leads above the root, or holds the character zero gets no action.
pub proof fn law_no_escape(store: Seq<char>, name: Seq<char>, data: Seq<u8>)
    ensures
        action_for(store, name, data) matches Some(ActionView::CreateDir { path }) ==> target(name) is Some
            && all_plain(target(name)->0) && path == under(store, target(name)->0),
        action_for(store, name, data) matches Some(ActionView::WriteFile { path, data: written }) ==> target(
            name,
        ) is Some && all_plain(target(name)->0) && target(name)->0.len() > 0 && path == under(
            store,
            target(name)->0,
        ) && written == data,
        target(name) is None ==> action_for(store, name, data) is None,
        name.len() > 0 && name[0] == '/' ==> action_for(store, name, data) is None,
        split(name, '/')[0] == seq!['.', '.'] ==> action_for(store, name, data) is None,
        name.contains('\0') ==> action_for(store, name, data) is None,
{
    lemma_split_parts(name, '/');
    if !name.contains('\0') {
        lemma_split_within(name, '/', '\0');
        lemma_resolve_is_plain(split(name, '/'), Seq::empty());
    }
    assert(seq!['.', '.'].len() == 2);
    assert(seq!['.', '.'][0] == '.');
    assert(seq!['.'].len() == 1);
    if split(name, '/')[0] == seq!['.', '.'] {
        assert(split(name, '/')[0] != seq!['.']);
    }
}

/// The files of a snapshot hold no version-control metadata, and every other
/// file of the store is among them.
pub proof fn law_snapshot_content(files: Seq<(Seq<char>, Seq<u8>)>)
    ensures
        forall|k: int| 0 <= k < exported(files).len() ==> !is_metadata(
            (#[trigger] exported(files)[k]).0,
        ) && files.contains(exported(files)[k]),
        forall|i: int| 0 <= i < files.len() && !is_metadata((#[trigger] files[i]).0) ==> exported(
            files,
        ).contains(files[i]),
    decreases files.len(),
{
    if files.len() > 0 {
        let front = files.drop_last();
        law_snapshot_content(front);
        let all = exported(files);
        let sub = exported(front);
        assert forall|k: int| 0 <= k < all.len() implies !is_metadata((#[trigger] all[k]).0)
            && files.contains(all[k]) by {
            if k < sub.len() {
                assert(all[k] == sub[k]);
                let j = choose|j: int| 0 <= j < front.len() && front[j] == sub[k];
                assert(files[j] == sub[k]);
            } else {
                assert(all[k] == files[files.len() - 1]);
            }
        }
        assert forall|i: int| 0 <= i < files.len() && !is_metadata(
            (#[trigger] files[i]).0,
        ) implies all.contains(files[i]) by {
            if i < front.len() {
                assert(front[i] == files[i]);
                let k = choose|k: int| 0 <= k < sub.len() && sub[k] == front[i];
                assert(all[k] == files[i]);
            } else {
                assert(all[all.len() - 1] == files[i]);
            }
        }
    }
}

/// Restoring an archive whose entries are files with plain paths writes each
/// of them below the store root, under its own path and with its own bytes, in
/// their order, and does nothing else.
pub proof fn lemma_restore_plain(store: Seq<char>, files: Seq<(Seq<char>, Seq<u8>)>)
    requires
        forall|i: int| 0 <= i < files.len() ==> all_plain(split((#[trigger] files[i]).0, '/')),
    ensures
        restore_plan(store, Seq::new(files.len(), |i: int| Some(files[i]))) == (PlanView {
            actions: Seq::new(
                files.len(),
                |i: int|
                    ActionView::WriteFile {
                        path: store + seq!['/'] + files[i].0,
                        data: files[i].1,
                    },
            ),
            complete: true,
        }),
    decreases files.len(),
{
    let entries = Seq::new(files.len(), |i: int| Some(files[i]));
    let actions = Seq::new(
        files.len(),
        |i: int| ActionView::WriteFile { path: store + seq!['/'] + files[i].0, data: files[i].1 },
    );
    if files.len() == 0 {
        assert(actions =~= Seq::<ActionView>::empty());
    } else {
        let front = files.drop_last();
        assert forall|i: int| 0 <= i < front.len() implies all_plain(
            split((#[trigger] front[i]).0, '/'),
        ) by {
            assert(front[i] == files[i]);
        }
        lemma_restore_plain(store, front);
        assert(entries.drop_last() =~= Seq::new(front.len(), |i: int| Some(front[i])));
        let (name, data) = files.last();
        assert(entries.last() == Some((name, data)));
        let parts = split(name, '/');
        assert(all_plain(parts));
        lemma_split_parts(name, '/');
        lemma_resolve_plain(parts, Seq::empty());
        assert(Seq::<Seq<char>>::empty() + parts =~= parts);
        lemma_joined_split(name);
        lemma_position_of(name, '/');
        assert(is_plain(parts[0]));
        assert(name.len() > 0 && name[0] != '/') by {
            if position_of(name, '/') < name.len() {
                assert(parts[0] == name.take(position_of(name, '/')));
            } else {
                assert(parts[0] == name);
                assert(name.contains(name[0]));
            }
        }
        assert(!names_directory(name)) by {
            if names_directory(name) {
                lemma_last_part(name);
                assert(is_plain(parts[parts.len() - 1]));
            }
        }
        assert(!name.contains('\0')) by {
            if name.contains('\0') {
                lemma_split_covers(name, '/', '\0');
                let k = choose|k: int| 0 <= k < parts.len() && (#[trigger] parts[k]).contains('\0');
                assert(is_plain(parts[k]));
            }
        }
        assert(action_for(store, name, data) == Some(
            ActionView::WriteFile { path: store + seq!['/'] + name, data },
        ));
        let before = Seq::new(
            front.len(),
            |i: int|
                ActionView::WriteFile { path: store + seq!['/'] + front[i].0, data: front[i].1 },
        );
        assert(before.push(ActionView::WriteFile { path: store + seq!['/'] + name, data })
            =~= actions);
    }
}

/// A path that ends in a slash has an empty last part.
pub proof fn lemma_last_part(s: Seq<char>)
    requires
        s.len() > 0,
        s.last() == '/',
    ensures
        split(s, '/').last().len() == 0,
    decreases s.len(),
{
    lemma_position_of(s, '/');
    let i = position_of(s, '/');
    assert(i < s.len()) by {
        if i >= s.len() {
            assert(s[s.len() - 1] != '/');
        }
    }
    let rest = s.skip(i + 1);
    lemma_split_parts(rest, '/');
    assert(split(s, '/').last() == split(rest, '/').last());
    if rest.len() > 0 {
        assert(rest.last() == s.last());
        lemma_last_part(rest);
    } else {
        lemma_position_of(rest, '/');
    }
}

/// A snapshot of the store, restored, writes back every file of the store but
/// the version-control metadata, each under its own path below the root and
/// with its own bytes, and nothing else; a placeholder, or any other file whose
/// name only begins like the metadata directory, is among them. The paths are
/// those that a walk of the store gives: every segment names a file or a
/// directory.
pub proof fn law_snapshot_round_trip(store: Seq<char>, files: Seq<(Seq<char>, Seq<u8>)>)
    requires
        forall|i: int| 0 <= i < files.len() ==> all_plain(split((#[trigger] files[i]).0, '/')),
    ensures
        restore_plan(
            store,
            Seq::new(exported(files).len(), |i: int| Some(exported(files)[i])),
        ) == (PlanView {
            actions: Seq::new(
                exported(files).len(),
                |i: int|
                    ActionView::WriteFile {
                        path: store + seq!['/'] + exported(files)[i].0,
                        data: exported(files)[i].1,
                    },
            ),
            complete: true,
        }),
        forall|i: int|
            0 <= i < files.len() && !is_metadata((#[trigger] files[i]).0) ==> restore_plan(
                store,
                Seq::new(exported(files).len(), |i: int| Some(exported(files)[i])),
            ).actions.contains(
                ActionView::WriteFile { path: store + seq!['/'] + files[i].0, data: files[i].1 },
            ),
{
    law_snapshot_content(files);
    let kept = exported(files);
    assert forall|k: int| 0 <= k < kept.len() implies all_plain(split((#[trigger] kept[k]).0, '/')) by {
        let i = choose|i: int| 0 <= i < files.len() && files[i] == kept[k];
        assert(all_plain(split(files[i].0, '/')));
    }
    lemma_restore_plain(store, kept);
    let plan = restore_plan(store, Seq::new(kept.len(), |i: int| Some(kept[i])));
    assert forall|i: int| 0 <= i < files.len() && !is_metadata(
        (#[trigger] files[i]).0,
    ) implies plan.actions.contains(
        ActionView::WriteFile { path: store + seq!['/'] + files[i].0, data: files[i].1 },
    ) by {
        assert(kept.contains(files[i]));
        let k = choose|k: int| 0 <= k < kept.len() && kept[k] == files[i];
        assert(plan.actions[k] == ActionView::WriteFile {
            path: store + seq!['/'] + files[i].0,
            data: files[i].1,
        });
    }
}

/// What lies in the metadata directory at the root is metadata. A file at the
/// root is none unless its whole name is that of the directory: a placeholder
/// is none, nor is an entry whose name only begins like the directory.
pub proof fn law_metadata_is_a_directory(rest: Seq<char>, name: Seq<char>)
    ensures
        is_metadata(METADATA_DIR@ + seq!['/'] + rest),
        !name.contains('/') && name != METADATA_DIR@ ==> !is_metadata(name),
{
    reveal_strlit(".git");
    let dir = METADATA_DIR@;
    let inside = dir + seq!['/'] + rest;
    assert forall|j: int| 0 <= j < 4 implies inside[j] != '/' by {
        assert(inside[j] == dir[j]);
    }
    assert(inside[4] == '/');
    lemma_position_is(inside, '/', 4);
    assert(inside.take(4) =~= dir);
    assert(split(inside, '/')[0] == dir);
    if !name.contains('/') && name != dir {
        assert forall|j: int| 0 <= j < name.len() implies name[j] != '/' by {
            if name[j] == '/' {
                assert(name.contains('/'));
            }
        }
        lemma_position_is(name, '/', name.len() as int);
        assert(split(name, '/') =~= seq![name]);
        if split(name, '/').contains(dir) {
            let k = choose|k: int| 0 <= k < split(name, '/').len() && split(name, '/')[k] == dir;
            assert(k == 0);
        }
    }
}

} // verus!
