//! What pushes that work on one disk leave of each other's backups.
use vstd::prelude::*;

use crate::path::law_file_lies_in_one_directory;
use crate::push::PushView;
use crate::push_laws::{
    has_backup, is_backup_file, is_start, law_backup_is_left_in_place,
    law_backup_lies_in_a_new_directory, push_after, was_created,
};
use crate::task::{ArgView, EventView, LocalPathView, TaskView};

verus! {

/// The directories and files of this machine.
pub struct Disk {
    pub dirs: Set<LocalPathView>,
    pub files: Map<LocalPathView, Seq<u8>>,
}

/// The file that carrying out a task can change: the one that a program copies to, which is its
/// last argument, and the one that is appended to, written or removed.
pub open spec fn file_changed_by(task: TaskView) -> Option<LocalPathView> {
    match task {
        TaskView::Run(program) => match program.args.last() {
            ArgView::File(path) => Some(path),
            _ => None,
        },
        TaskView::Append { path, text, mode, context } => Some(path),
        TaskView::WriteText { path, text } => Some(path),
        TaskView::Discard(path) => Some(path),
        _ => None,
    }
}

/// Whether `path` is the same file with the same contents on both disks, or on neither.
pub open spec fn is_same_file(a: Disk, b: Disk, path: LocalPathView) -> bool {
    &&& a.files.contains_key(path) == b.files.contains_key(path)
    &&& a.files.contains_key(path) ==> a.files[path] == b.files[path]
}

/// Whether carrying out a task, with this answer, can take a disk from `before` to `after`. A
/// directory that is created anew was not there before. No directory is removed, and no file but
/// the task's own is changed.
pub open spec fn is_performed(before: Disk, task: TaskView, event: EventView, after: Disk) -> bool {
    &&& before.dirs.subset_of(after.dirs)
    &&& task matches TaskView::NewDir(path) ==> event is Done ==> !before.dirs.contains(path)
        && after.dirs.contains(path)
    &&& forall|path: LocalPathView|
        #![trigger is_same_file(before, after, path)]
        file_changed_by(task) != Some(path) ==> is_same_file(before, after, path)
}

/// Whether a push goes through `events` on a disk that has the states `disks`, its tasks being
/// carried out at `times`. What happens at other times is left open.
pub open spec fn takes_place(
    start: PushView,
    events: Seq<EventView>,
    times: Seq<int>,
    disks: Seq<Disk>,
) -> bool {
    &&& times.len() == events.len()
    &&& forall|i: int|
        #![trigger times[i]]
        0 <= i < times.len() ==> 0 <= times[i] < disks.len() - 1 && is_performed(
            disks[times[i]],
            push_after(start, events.take(i)).task(),
            events[i],
            disks[times[i] + 1],
        )
}

/// Whether every directory stays once it is there.
pub open spec fn keeps_directories(disks: Seq<Disk>) -> bool {
    forall|i: int, j: int|
        #![trigger disks[i], disks[j]]
        0 <= i <= j < disks.len() ==> disks[i].dirs.subset_of(disks[j].dirs)
}

/// Whether no two tasks are carried out at one time.
pub open spec fn are_apart(a_times: Seq<int>, b_times: Seq<int>) -> bool {
    forall|i: int, j: int|
        #![trigger a_times[i], b_times[j]]
        0 <= i < a_times.len() && 0 <= j < b_times.len() ==> a_times[i] != b_times[j]
}

/// A directory that a push created anew appeared in one of its tasks.
proof fn lemma_creation(
    start: PushView,
    events: Seq<EventView>,
    times: Seq<int>,
    disks: Seq<Disk>,
    dir: LocalPathView,
) -> (i: int)
    requires
        takes_place(start, events, times, disks),
        was_created(start, events, dir),
    ensures
        0 <= i < times.len(),
        0 <= times[i] < disks.len() - 1,
        !disks[times[i]].dirs.contains(dir),
        disks[times[i] + 1].dirs.contains(dir),
{
    reveal(was_created);
    let i = choose|i: int|
        0 <= i < events.len() && #[trigger] push_after(start, events.take(i)).task()
            == TaskView::NewDir(dir) && events[i] is Done;
    assert(0 <= times[i] < disks.len() - 1);
    i
}

proof fn lemma_directory_is_created_once(
    a: PushView,
    a_events: Seq<EventView>,
    a_times: Seq<int>,
    b: PushView,
    b_events: Seq<EventView>,
    b_times: Seq<int>,
    disks: Seq<Disk>,
    dir: LocalPathView,
)
    requires
        takes_place(a, a_events, a_times, disks),
        takes_place(b, b_events, b_times, disks),
        keeps_directories(disks),
        are_apart(a_times, b_times),
        was_created(a, a_events, dir),
    ensures
        !was_created(b, b_events, dir),
{
    if was_created(b, b_events, dir) {
        let i = lemma_creation(a, a_events, a_times, disks, dir);
        let j = lemma_creation(b, b_events, b_times, disks, dir);
        let s = a_times[i];
        let t = b_times[j];
        assert(s != t);
        if s < t {
            assert(disks[s + 1].dirs.subset_of(disks[t].dirs));
        } else {
            assert(disks[t + 1].dirs.subset_of(disks[s].dirs));
        }
    }
}

/// Two pushes on one disk write different files, however their tasks are mixed, and though they
/// begin in one second: a backup is one push's own.
pub proof fn law_two_pushes_share_no_backup_file(
    a: PushView,
    a_events: Seq<EventView>,
    a_times: Seq<int>,
    a_path: LocalPathView,
    b: PushView,
    b_events: Seq<EventView>,
    b_times: Seq<int>,
    b_path: LocalPathView,
    disks: Seq<Disk>,
)
    requires
        is_start(a),
        is_start(b),
        takes_place(a, a_events, a_times, disks),
        takes_place(b, b_events, b_times, disks),
        keeps_directories(disks),
        are_apart(a_times, b_times),
        has_backup(push_after(a, a_events)),
        has_backup(push_after(b, b_events)),
        is_backup_file(push_after(a, a_events), a_path),
        is_backup_file(push_after(b, b_events), b_path),
    ensures
        a_path != b_path,
{
    law_backup_lies_in_a_new_directory(a, a_events, a_path);
    law_backup_lies_in_a_new_directory(b, b_events, b_path);
    let a_dir = push_after(a, a_events).backup();
    let b_dir = push_after(b, b_events).backup();
    lemma_directory_is_created_once(
        a,
        a_events,
        a_times,
        b,
        b_events,
        b_times,
        disks,
        a_dir,
    );
    if a_path == b_path {
        law_file_lies_in_one_directory(a_path->Home_0, a_dir->Home_0, b_dir->Home_0);
        assert(a_dir == b_dir);
    }
}

/// A push changes no file but those of its backup.
pub proof fn law_push_changes_its_backup_only(push: PushView)
    ensures
        file_changed_by(push.task()) matches Some(path) ==> has_backup(push) && is_backup_file(
            push,
            path,
        ),
{
    if push.task() is Run {
        let program = push.task()->Run_0;
        let last = program.args.last();
        assert(last == program.args[3]);
    }
}

/// A file that a push saved is not touched again by that push.
pub proof fn law_saved_files_are_left_alone(push: PushView)
    ensures
        !(push.phase is SaveMetadata) ==> file_changed_by(push.task()) != Some(
            push.saved_metadata(),
        ),
        !(push.phase is SaveContent) ==> file_changed_by(push.task()) != Some(
            push.saved_content(),
        ),
        !(push.phase is SavePage) ==> file_changed_by(push.task()) != Some(push.saved_page()),
{
    law_backup_is_left_in_place(push);
    if push.task() is Run {
        let program = push.task()->Run_0;
        assert(program.args.last() == program.args[3]);
    }
}

/// No task of a push overwrites or removes a file of another push's backup, however the tasks of
/// the two are mixed.
pub proof fn law_no_push_changes_another_backup(
    a: PushView,
    a_events: Seq<EventView>,
    a_times: Seq<int>,
    path: LocalPathView,
    b: PushView,
    b_events: Seq<EventView>,
    b_times: Seq<int>,
    k: int,
    disks: Seq<Disk>,
)
    requires
        is_start(a),
        is_start(b),
        takes_place(a, a_events, a_times, disks),
        takes_place(b, b_events, b_times, disks),
        keeps_directories(disks),
        are_apart(a_times, b_times),
        has_backup(push_after(a, a_events)),
        is_backup_file(push_after(a, a_events), path),
        0 <= k < b_events.len(),
    ensures
        is_same_file(disks[b_times[k]], disks[b_times[k] + 1], path),
{
    let events = b_events.take(k);
    let times = b_times.take(k);
    let push = push_after(b, events);
    law_push_changes_its_backup_only(push);
    assert(takes_place(b, events, times, disks)) by {
        assert forall|i: int| 0 <= i < times.len() implies 0 <= #[trigger] times[i] < disks.len() - 1
            && is_performed(
            disks[times[i]],
            push_after(b, events.take(i)).task(),
            events[i],
            disks[times[i] + 1],
        ) by {
            assert(times[i] == b_times[i]);
            assert(events.take(i) =~= b_events.take(i));
        }
    }
    assert(are_apart(a_times, times)) by {
        assert forall|i: int, j: int|
            0 <= i < a_times.len() && 0 <= j < times.len() implies #[trigger] a_times[i]
            != #[trigger] times[j] by {
            assert(times[j] == b_times[j]);
        }
    }
    if file_changed_by(push.task()) == Some(path) {
        law_two_pushes_share_no_backup_file(
            a,
            a_events,
            a_times,
            path,
            b,
            events,
            times,
            path,
            disks,
        );
    }
    assert(b_times[k] == b_times[k]);
}

/// `len` times in a row from `first` on.
pub open spec fn times_from(first: int, len: nat) -> Seq<int> {
    Seq::new(len, |i: int| first + i)
}

proof fn lemma_directories_stay(disks: Seq<Disk>, i: int, j: int)
    requires
        0 <= i <= j < disks.len(),
        forall|k: int|
            #![trigger disks[k]]
            0 <= k < disks.len() - 1 ==> disks[k].dirs.subset_of(disks[k + 1].dirs),
    ensures
        disks[i].dirs.subset_of(disks[j].dirs),
    decreases j,
{
    if i < j {
        lemma_directories_stay(disks, i, j - 1);
        assert(disks[j - 1].dirs.subset_of(disks[j].dirs));
    }
}

proof fn lemma_file_stays(disks: Seq<Disk>, first: int, last: int, path: LocalPathView)
    requires
        0 <= first <= last < disks.len(),
        forall|k: int|
            #![trigger disks[k]]
            first <= k < last ==> is_same_file(disks[k], disks[k + 1], path),
    ensures
        is_same_file(disks[first], disks[last], path),
    decreases last,
{
    if first < last {
        lemma_file_stays(disks, first, last - 1, path);
        assert(is_same_file(disks[last - 1], disks[last], path));
    }
}

/// A push that begins when another one has ended, be it within the same second, leaves every file
/// of the earlier push's backup as it is.
pub proof fn law_later_push_keeps_the_backup(
    a: PushView,
    a_events: Seq<EventView>,
    path: LocalPathView,
    b: PushView,
    b_events: Seq<EventView>,
    disks: Seq<Disk>,
)
    requires
        is_start(a),
        is_start(b),
        disks.len() == a_events.len() + b_events.len() + 1,
        takes_place(a, a_events, times_from(0, a_events.len()), disks),
        takes_place(b, b_events, times_from(a_events.len() as int, b_events.len()), disks),
        has_backup(push_after(a, a_events)),
        is_backup_file(push_after(a, a_events), path),
    ensures
        is_same_file(disks[a_events.len() as int], disks.last(), path),
{
    let n = a_events.len() as int;
    let a_times = times_from(0, a_events.len());
    let b_times = times_from(n, b_events.len());
    assert forall|k: int| 0 <= k < disks.len() - 1 implies (#[trigger] disks[k]).dirs.subset_of(
        disks[k + 1].dirs,
    ) by {
        if k < n {
            assert(a_times[k] == k);
        } else {
            assert(b_times[k - n] == k);
        }
    }
    assert(keeps_directories(disks)) by {
        assert forall|i: int, j: int|
            #![trigger disks[i], disks[j]]
            0 <= i <= j < disks.len() implies disks[i].dirs.subset_of(disks[j].dirs) by {
            lemma_directories_stay(disks, i, j);
        }
    }
    assert forall|k: int| n <= k < disks.len() - 1 implies is_same_file(
        #[trigger] disks[k],
        disks[k + 1],
        path,
    ) by {
        assert(b_times[k - n] == k);
        law_no_push_changes_another_backup(
            a,
            a_events,
            a_times,
            path,
            b,
            b_events,
            b_times,
            k - n,
            disks,
        );
    }
    lemma_file_stays(disks, n, disks.len() - 1, path);
}

} // verus!
