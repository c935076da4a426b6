//! What holds of every push, whatever its tasks are answered.
use vstd::prelude::*;
use vstd::string::*;

use crate::lookup::{law_listed_notebook_is_one_part, listed_notebook};
use crate::outside::{lossy_of, sha256_of};
use crate::path::{joined, lies_in};
use crate::push::{backup_dir_of, page_part_of, PushPhase, PushView};
use crate::remote::{
    content_path_of, date_of, law_probe_asks_for_the_file, list_command_of, metadata_path_of,
    probe_of, scp_down_of, scp_up_of, ssh_of, ProbeView,
};
use crate::shell::read_word;
use crate::task::{EventView, LocalPathView, TaskView};
use crate::text::lemma_replaced_is_gone;
use crate::uuid::is_uuid;

verus! {

/// A push after a series of events.
pub open spec fn push_after(start: PushView, events: Seq<EventView>) -> PushView
    decreases events.len(),
{
    if events.len() == 0 {
        start
    } else {
        push_after(start, events.drop_last()).next(events.last())
    }
}

/// Whether a push is at its beginning.
pub open spec fn is_start(push: PushView) -> bool {
    push == PushView::start(push.host, push.notebook, push.page, push.file)
}

/// How many answers a push can still take at most, unless it has to read the clock again.
pub open spec fn push_steps_left(phase: PushPhase) -> nat {
    match phase {
        PushPhase::Listing | PushPhase::Wait => 13,
        PushPhase::Clock => 12,
        PushPhase::Home => 11,
        PushPhase::Directory => 10,
        PushPhase::SaveMetadata => 9,
        PushPhase::SaveContent => 8,
        PushPhase::Probe => 7,
        PushPhase::SavePage => 6,
        PushPhase::Upload => 5,
        PushPhase::Rename => 4,
        PushPhase::ReadBack => 3,
        PushPhase::Compare => 2,
        PushPhase::Discard => 1,
        _ => 0,
    }
}

/// Every answer brings a push closer to its end, but for the one that its backup directory exists,
/// upon which it reads the clock again. It asks for something until it is there.
pub proof fn law_push_goes_towards_its_end(push: PushView, event: EventView)
    ensures
        push.task().is_end() == (push_steps_left(push.phase) == 0),
        push.task().is_answered_by(event) && !(event is Exists) ==> push_steps_left(
            push.next(event).phase,
        ) < push_steps_left(push.phase),
        push.task().is_answered_by(event) && event is Exists ==> push.phase is Directory
            && push.next(event) == push.at(PushPhase::Wait),
        !push.task().is_answered_by(event) ==> push.next(event) == push,
{
}

/// How many of `events` answer the task of their time.
pub open spec fn answers(start: PushView, events: Seq<EventView>) -> nat
    decreases events.len(),
{
    if events.len() == 0 {
        0
    } else {
        answers(start, events.drop_last()) + if push_after(
            start,
            events.drop_last(),
        ).task().is_answered_by(events.last()) {
            1nat
        } else {
            0nat
        }
    }
}

/// How many of `events` say that a directory exists.
pub open spec fn refusals(events: Seq<EventView>) -> nat
    decreases events.len(),
{
    if events.len() == 0 {
        0
    } else {
        refusals(events.drop_last()) + if events.last() is Exists {
            1nat
        } else {
            0nat
        }
    }
}

/// A push is over after thirteen answers, and four more for each time that its backup directory
/// turned out to exist.
pub proof fn law_push_ends(start: PushView, events: Seq<EventView>)
    requires
        is_start(start),
    ensures
        answers(start, events) + push_steps_left(push_after(start, events).phase) <= 13 + 4
            * refusals(events),
    decreases events.len(),
{
    if events.len() > 0 {
        law_push_ends(start, events.drop_last());
        law_push_goes_towards_its_end(push_after(start, events.drop_last()), events.last());
    }
}

/// Whether, in a push through `events`, `task` was asked for and a program that did it ended with
/// success.
#[verifier::opaque]
pub open spec fn was_done(start: PushView, events: Seq<EventView>, task: TaskView) -> bool {
    exists|i: int|
        0 <= i < events.len() && #[trigger] push_after(start, events.take(i)).task() == task
            && events[i] == (EventView::Exited { success: true })
}

/// Whether, in a push through `events`, the file that was sent and the one that came back were
/// read and had the same digest.
#[verifier::opaque]
pub open spec fn was_verified(start: PushView, events: Seq<EventView>, task: TaskView) -> bool {
    exists|i: int|
        0 <= i < events.len() && #[trigger] push_after(start, events.take(i)).task() == task
            && events[i] is Contents && sha256_of(events[i]->sent) == sha256_of(events[i]->returned)
}

/// What a probe finds of a file that is there or not.
pub open spec fn finding(exists: bool) -> ProbeView {
    if exists {
        ProbeView::Exists
    } else {
        ProbeView::Missing
    }
}

/// Whether, in a push through `events`, `host` was asked by `command` for a file, and it was found
/// that the file `exists` or does not.
#[verifier::opaque]
pub open spec fn was_probed(
    start: PushView,
    events: Seq<EventView>,
    host: Seq<char>,
    command: Seq<char>,
    exists: bool,
) -> bool {
    exists|i: int|
        0 <= i < events.len() && #[trigger] push_after(start, events.take(i)).task()
            == TaskView::Capture(ssh_of(host, command)) && probe_of(command, events[i]) == finding(
            exists,
        )
}

/// Whether, in a push through `events`, the directory `path` was created anew.
#[verifier::opaque]
pub open spec fn was_created(
    start: PushView,
    events: Seq<EventView>,
    path: LocalPathView,
) -> bool {
    exists|i: int|
        0 <= i < events.len() && #[trigger] push_after(start, events.take(i)).task()
            == TaskView::NewDir(path) && events[i] is Done
}

/// What a push has done by the time it is in its phase.
spec fn has_done(start: PushView, events: Seq<EventView>, push: PushView) -> bool {
    let left = push_steps_left(push.phase);
    let going = !(push.phase is Raised || push.phase is Failed);
    &&& push.host == start.host && push.page == start.page
    &&& going && !(push.phase is Listing) ==> push.uuid.len() > 0 && !push.uuid.contains('/')
    &&& going && left < 10 ==> was_created(start, events, push.backup())
    &&& going && left < 9 ==> was_done(start, events, push.at(PushPhase::SaveMetadata).task())
    &&& going && left < 8 ==> was_done(start, events, push.at(PushPhase::SaveContent).task())
    &&& going && left < 7 ==> was_probed(
        start,
        events,
        push.host,
        push.page_probe(),
        push.existed,
    )
    &&& going && left < 6 && push.existed ==> was_done(
        start,
        events,
        push.at(PushPhase::SavePage).task(),
    )
    &&& going && left < 5 ==> was_done(start, events, push.at(PushPhase::Upload).task())
    &&& going && left < 4 ==> was_done(start, events, push.at(PushPhase::Rename).task())
    &&& going && left < 3 ==> was_done(start, events, push.at(PushPhase::ReadBack).task())
    &&& going && left < 2 ==> was_verified(start, events, push.at(PushPhase::Compare).task())
}

proof fn lemma_earlier_events(events: Seq<EventView>)
    requires
        events.len() > 0,
    ensures
        forall|i: int|
            0 <= i < events.drop_last().len() ==> #[trigger] events.drop_last().take(i)
                == events.take(i) && events.drop_last()[i] == events[i],
{
    let before = events.drop_last();
    assert forall|i: int| 0 <= i < before.len() implies #[trigger] before.take(i) == events.take(i)
        && before[i] == events[i] by {
        assert(before.take(i) =~= events.take(i));
    }
}

proof fn lemma_done_stays(start: PushView, events: Seq<EventView>, task: TaskView)
    requires
        events.len() > 0,
    ensures
        was_done(start, events.drop_last(), task) ==> was_done(start, events, task),
        was_verified(start, events.drop_last(), task) ==> was_verified(start, events, task),
{
    reveal(was_done);
    reveal(was_verified);
    lemma_earlier_events(events);
    let before = events.drop_last();
    if was_done(start, before, task) {
        let i = choose|i: int|
            0 <= i < before.len() && #[trigger] push_after(start, before.take(i)).task() == task
                && before[i] == (EventView::Exited { success: true });
        assert(push_after(start, events.take(i)).task() == task);
    }
    if was_verified(start, before, task) {
        let i = choose|i: int|
            0 <= i < before.len() && #[trigger] push_after(start, before.take(i)).task() == task
                && before[i] is Contents && sha256_of(before[i]->sent) == sha256_of(
                before[i]->returned,
            );
        assert(push_after(start, events.take(i)).task() == task);
    }
}

proof fn lemma_probed_stays(
    start: PushView,
    events: Seq<EventView>,
    host: Seq<char>,
    command: Seq<char>,
    exists: bool,
)
    requires
        events.len() > 0,
        was_probed(start, events.drop_last(), host, command, exists),
    ensures
        was_probed(start, events, host, command, exists),
{
    reveal(was_probed);
    lemma_earlier_events(events);
    let before = events.drop_last();
    let i = choose|i: int|
        0 <= i < before.len() && #[trigger] push_after(start, before.take(i)).task()
            == TaskView::Capture(ssh_of(host, command)) && probe_of(command, before[i]) == finding(
            exists,
        );
    assert(push_after(start, events.take(i)).task() == TaskView::Capture(ssh_of(host, command)));
}

proof fn lemma_created_stays(start: PushView, events: Seq<EventView>, path: LocalPathView)
    requires
        events.len() > 0,
        was_created(start, events.drop_last(), path),
    ensures
        was_created(start, events, path),
{
    reveal(was_created);
    lemma_earlier_events(events);
    let before = events.drop_last();
    let i = choose|i: int|
        0 <= i < before.len() && #[trigger] push_after(start, before.take(i)).task()
            == TaskView::NewDir(path) && before[i] is Done;
    assert(push_after(start, events.take(i)).task() == TaskView::NewDir(path));
}

proof fn lemma_last_event_counts(start: PushView, events: Seq<EventView>)
    requires
        events.len() > 0,
    ensures
        ({
            let old = push_after(start, events.drop_last());
            let last = events.last();
            &&& last == (EventView::Exited { success: true }) ==> was_done(
                start,
                events,
                old.task(),
            )
            &&& last is Contents && sha256_of(last->sent) == sha256_of(last->returned)
                ==> was_verified(start, events, old.task())
            &&& old.phase is Directory && last is Done ==> was_created(start, events, old.backup())
            &&& old.phase is Probe ==> forall|exists: bool|
                probe_of(old.page_probe(), last) == #[trigger] finding(exists) ==> was_probed(
                    start,
                    events,
                    old.host,
                    old.page_probe(),
                    exists,
                )
        }),
{
    reveal(was_done);
    reveal(was_verified);
    reveal(was_created);
    reveal(was_probed);
    let at = events.len() - 1;
    assert(events.take(at) =~= events.drop_last());
    assert(events[at] == events.last());
    assert(push_after(start, events.take(at)).task() == push_after(
        start,
        events.drop_last(),
    ).task());
}

proof fn lemma_uuid_is_one_part(notebook: Seq<char>)
    requires
        is_uuid(notebook),
    ensures
        notebook.len() > 0,
        !notebook.contains('/'),
{
    if notebook.contains('/') {
        let k = choose|k: int| 0 <= k < notebook.len() && notebook[k] == '/';
        assert(notebook[k] == '/');
    }
}

/// A step past the lookup and the clock changes nothing but the phase and what is known of the page.
proof fn lemma_step_keeps(old: PushView, event: EventView)
    ensures
        ({
            let new = old.next(event);
            &&& new.host == old.host && new.page == old.page && new.notebook == old.notebook
            &&& push_steps_left(old.phase) <= 10 ==> new.uuid == old.uuid && new.stamp == old.stamp
            &&& push_steps_left(old.phase) < 7 ==> new.existed == old.existed
            &&& !(old.phase is Listing) ==> new.uuid == old.uuid
            &&& !(new.phase is Raised || new.phase is Failed) && push_steps_left(new.phase) < 10
                ==> push_steps_left(old.phase) <= 10
            &&& new.phase is Listing ==> old.phase is Listing
            &&& old.phase is Raised || old.phase is Failed ==> new.phase == old.phase
        }),
{
}

/// A step into another phase comes from a success in the phase before.
proof fn lemma_step_succeeds(old: PushView, event: EventView)
    ensures
        ({
            let new = old.next(event);
            let moved = new.phase != old.phase;
            let done = event == (EventView::Exited { success: true });
            &&& moved && new.phase is SaveMetadata ==> old.phase is Directory && event is Done
            &&& moved && new.phase is SaveContent ==> old.phase is SaveMetadata && done
            &&& moved && new.phase is Probe ==> old.phase is SaveContent && done
            &&& moved && new.phase is SavePage ==> old.phase is Probe && new.existed && probe_of(
                old.page_probe(),
                event,
            ) == finding(true)
            &&& moved && new.phase is Upload ==> {
                ||| old.phase is SavePage && done
                ||| old.phase is Probe && !new.existed && probe_of(old.page_probe(), event)
                    == finding(false)
            }
            &&& moved && new.phase is Rename ==> old.phase is Upload && done
            &&& moved && new.phase is ReadBack ==> old.phase is Rename && done
            &&& moved && new.phase is Compare ==> old.phase is ReadBack && done
            &&& moved && new.phase is Discard ==> old.phase is Compare && event is Contents
                && sha256_of(event->sent) == sha256_of(event->returned)
            &&& moved && new.phase is Done ==> old.phase is Discard
        }),
{
}

proof fn lemma_same_tasks(old: PushView, new: PushView, phase: PushPhase)
    requires
        new.host == old.host,
        new.page == old.page,
        new.uuid == old.uuid,
        new.stamp == old.stamp,
        phase is SaveMetadata || phase is SaveContent || phase is SavePage || phase is Upload
            || phase is Rename || phase is ReadBack || phase is Compare,
    ensures
        new.at(phase).task() == old.at(phase).task(),
{
}

proof fn lemma_push_step(start: PushView, events: Seq<EventView>)
    requires
        events.len() > 0,
        has_done(start, events.drop_last(), push_after(start, events.drop_last())),
        push_steps_left(push_after(start, events.drop_last()).phase) <= 10,
    ensures
        has_done(start, events, push_after(start, events)),
{
    let before = events.drop_last();
    let old = push_after(start, before);
    let new = push_after(start, events);
    let event = events.last();
    lemma_step_keeps(old, event);
    lemma_step_succeeds(old, event);
    lemma_last_event_counts(start, events);
    lemma_same_tasks(old, new, PushPhase::SaveMetadata);
    lemma_same_tasks(old, new, PushPhase::SaveContent);
    lemma_same_tasks(old, new, PushPhase::SavePage);
    lemma_same_tasks(old, new, PushPhase::Upload);
    lemma_same_tasks(old, new, PushPhase::Rename);
    lemma_same_tasks(old, new, PushPhase::ReadBack);
    lemma_same_tasks(old, new, PushPhase::Compare);
    lemma_done_stays(start, events, old.at(PushPhase::SaveMetadata).task());
    lemma_done_stays(start, events, old.at(PushPhase::SaveContent).task());
    lemma_done_stays(start, events, old.at(PushPhase::SavePage).task());
    lemma_done_stays(start, events, old.at(PushPhase::Upload).task());
    lemma_done_stays(start, events, old.at(PushPhase::Rename).task());
    lemma_done_stays(start, events, old.at(PushPhase::ReadBack).task());
    lemma_done_stays(start, events, old.at(PushPhase::Compare).task());
    if was_created(start, before, old.backup()) {
        lemma_created_stays(start, events, old.backup());
    }
    if was_probed(start, before, old.host, old.page_probe(), old.existed) {
        lemma_probed_stays(start, events, old.host, old.page_probe(), old.existed);
    }
    assert(old.task() == old.at(old.phase).task());
    assert(new.backup() == old.backup() && new.page_probe() == old.page_probe());
}

proof fn lemma_push_history(start: PushView, events: Seq<EventView>)
    requires
        is_start(start),
    ensures
        has_done(start, events, push_after(start, events)),
    decreases events.len(),
{
    if events.len() == 0 {
        if is_uuid(start.notebook) {
            lemma_uuid_is_one_part(start.notebook);
        }
    } else {
        let old = push_after(start, events.drop_last());
        let event = events.last();
        lemma_push_history(start, events.drop_last());
        if push_steps_left(old.phase) <= 10 {
            lemma_push_step(start, events);
        } else {
            lemma_step_keeps(old, event);
            if old.phase is Listing && event is Output {
                law_listed_notebook_is_one_part(old.notebook, lossy_of(event->Output_stdout));
            }
        }
    }
}

/// By the time a push changes anything on the tablet, the notebook's metadata and content have been
/// saved in a directory that the push created anew, the tablet has told whether the page is there,
/// and where it is there it has been saved too.
pub proof fn law_backup_comes_before_upload(start: PushView, events: Seq<EventView>)
    requires
        is_start(start),
        ({
            let push = push_after(start, events);
            ||| push.task() == TaskView::Run(
                scp_up_of(push.host, LocalPathView::Source, push.remote_upload()),
            )
            ||| push.task() == TaskView::Run(ssh_of(push.host, push.rename_command()))
        }),
    ensures
        ({
            let push = push_after(start, events);
            &&& was_done(
                start,
                events,
                TaskView::Run(
                    scp_down_of(push.host, metadata_path_of(push.uuid), push.saved_metadata()),
                ),
            )
            &&& was_done(
                start,
                events,
                TaskView::Run(
                    scp_down_of(push.host, content_path_of(push.uuid), push.saved_content()),
                ),
            )
            &&& was_created(start, events, push.backup())
            &&& was_probed(start, events, push.host, push.page_probe(), push.existed)
            &&& push.existed ==> was_done(
                start,
                events,
                TaskView::Run(scp_down_of(push.host, push.remote_page(), push.saved_page())),
            )
        }),
{
    lemma_push_history(start, events);
    lemma_programs_differ(push_after(start, events));
}

/// Only an upload and a rename have the form of the upload and of the rename.
proof fn lemma_programs_differ(push: PushView)
    ensures
        push.task() == TaskView::Run(
            scp_up_of(push.host, LocalPathView::Source, push.remote_upload()),
        ) ==> push.phase is Upload,
        push.task() == TaskView::Run(ssh_of(push.host, push.rename_command()))
            ==> push.phase is Rename,
{
    reveal_strlit("ssh");
    reveal_strlit("scp");
    let up = scp_up_of(push.host, LocalPathView::Source, push.remote_upload());
    let rename = ssh_of(push.host, push.rename_command());
    assert(up.program[1] == 'c' && rename.program[1] == 's');
    assert(up.args[2] is File);
    if push.task() is Run {
        let program = push.task()->Run_0;
        if push.phase is SaveMetadata || push.phase is SaveContent || push.phase is SavePage
            || push.phase is ReadBack {
            assert(program.args[2] is Text);
            assert(program.program[1] == 'c');
        }
    }
}

/// All that a push does on the tablet is to list the notebooks, to ask for the page's file, to copy
/// files to this machine, to upload the file beside the page and to rename it into place.
pub proof fn law_push_reaches_the_tablet_in_these_ways_only(push: PushView)
    ensures
        push.task() matches TaskView::Capture(program) ==> {
            ||| program == ssh_of(push.host, list_command_of(push.notebook))
            ||| program == ssh_of(push.host, push.page_probe())
        },
        push.task() matches TaskView::Run(program) ==> {
            ||| program == scp_down_of(
                push.host,
                metadata_path_of(push.uuid),
                push.saved_metadata(),
            )
            ||| program == scp_down_of(push.host, content_path_of(push.uuid), push.saved_content())
            ||| program == scp_down_of(push.host, push.remote_page(), push.saved_page())
            ||| program == scp_down_of(push.host, push.remote_page(), push.read_back())
            ||| program == scp_up_of(push.host, LocalPathView::Source, push.remote_upload())
            ||| program == ssh_of(push.host, push.rename_command())
        },
        push.task() matches TaskView::Clock(program) ==> program == date_of(),
{
}

/// The page is renamed into place only after the whole upload beside it has succeeded, and the
/// rename takes the uploaded file to the page's place.
pub proof fn law_page_is_replaced_only_by_a_whole_upload(start: PushView, events: Seq<EventView>)
    requires
        is_start(start),
        push_after(start, events).phase is Rename,
    ensures
        ({
            let push = push_after(start, events);
            &&& push.task() == TaskView::Run(ssh_of(push.host, push.rename_command()))
            &&& push.remote_upload() != push.remote_page()
            &&& was_done(
                start,
                events,
                TaskView::Run(scp_up_of(push.host, LocalPathView::Source, push.remote_upload())),
            )
        }),
{
    lemma_push_history(start, events);
    let push = push_after(start, events);
    reveal_strlit(".new");
    assert(push.remote_upload().len() == push.remote_page().len() + 4);
}

/// A push that ends well has uploaded the file, renamed it into place, copied it back, and found
/// that what came back has the digest of what was sent.
pub proof fn law_finished_push_was_verified(start: PushView, events: Seq<EventView>)
    requires
        is_start(start),
        push_after(start, events).task() is Finish,
    ensures
        ({
            let push = push_after(start, events);
            &&& was_done(
                start,
                events,
                TaskView::Run(scp_up_of(push.host, LocalPathView::Source, push.remote_upload())),
            )
            &&& was_done(start, events, TaskView::Run(ssh_of(push.host, push.rename_command())))
            &&& was_done(
                start,
                events,
                TaskView::Run(scp_down_of(push.host, push.remote_page(), push.read_back())),
            )
            &&& was_verified(
                start,
                events,
                TaskView::ReadBoth { sent: LocalPathView::Source, returned: push.read_back() },
            )
        }),
{
    lemma_push_history(start, events);
}

/// Contents that are the same always pass the check.
pub proof fn law_same_contents_pass(push: PushView, contents: Seq<u8>)
    requires
        push.phase is Compare,
    ensures
        push.next(EventView::Contents { sent: contents, returned: contents }).phase is Discard,
{
}

/// The shell on the tablet reads the page's file in the probe as one word, whatever characters the
/// page holds.
pub proof fn law_push_asks_for_the_page(push: PushView)
    ensures
        read_word(push.page_probe().skip("test -e "@.len() as int), false) == Some(
            (push.remote_page(), " && echo yes"@),
        ),
{
    law_probe_asks_for_the_file(push.remote_page());
}

/// A page counts as new only where the tablet said so: a push whose probe could not be made ends
/// there, with nothing uploaded.
pub proof fn law_failed_probe_ends_push(push: PushView, event: EventView)
    requires
        push.phase is Probe,
        ({
            ||| event is Failed
            ||| event matches EventView::Output { status, stdout, stderr } && status != Some(0i32)
                && status != Some(1i32)
        }),
    ensures
        push.next(event).task() is Raise || push.next(event).task() is Fail,
{
}

/// Whether `event` reports that the task of `push` went well: the notebook was found, the directory
/// was created or the clock is read again, the tablet told whether the page is there, the
/// program ended with success, the contents agree.
pub open spec fn is_success(push: PushView, event: EventView) -> bool {
    &&& push.task().is_answered_by(event)
    &&& match push.phase {
        PushPhase::Listing => event matches EventView::Output { status, stdout, stderr } && status
            == Some(0i32) && listed_notebook(push.notebook, lossy_of(stdout)) is Ok,
        PushPhase::Home => event matches EventView::Home(home) && home is Some,
        PushPhase::Directory => event is Done || event is Exists,
        PushPhase::Probe => probe_of(push.page_probe(), event) is Exists || probe_of(
            push.page_probe(),
            event,
        ) is Missing,
        PushPhase::SaveMetadata | PushPhase::SaveContent | PushPhase::SavePage | PushPhase::Upload
        | PushPhase::Rename | PushPhase::ReadBack => event == (EventView::Exited {
            success: true,
        }),
        PushPhase::Compare => event matches EventView::Contents { sent, returned } && sha256_of(
            sent,
        ) == sha256_of(returned),
        _ => true,
    }
}

/// A push goes on exactly as long as its tasks go well. The clock and the removal of the copy that
/// was read back never end it.
pub proof fn law_push_goes_on_with_success(push: PushView, event: EventView)
    requires
        push.task().is_answered_by(event),
    ensures
        is_success(push, event) == !(push.next(event).phase is Raised || push.next(event).phase
            is Failed),
{
}

proof fn lemma_joined_last(base: Seq<char>, name: Seq<char>)
    requires
        name.len() > 0,
    ensures
        joined(base, name).last() == name.last(),
{
}

/// The four files that a push writes on this machine are four different files, and the only one
/// it ever removes is the copy that was read back. So a backup stays as it was made.
pub proof fn law_backup_is_left_in_place(push: PushView)
    ensures
        push.saved_metadata() != push.saved_content(),
        push.saved_metadata() != push.saved_page(),
        push.saved_content() != push.saved_page(),
        push.read_back() != push.saved_metadata(),
        push.read_back() != push.saved_content(),
        push.read_back() != push.saved_page(),
        push.task() matches TaskView::Discard(path) ==> path == push.read_back(),
{
    reveal_strlit(".metadata");
    reveal_strlit(".content");
    reveal_strlit(".rm");
    reveal_strlit(".rm.pushed-verify");
    let dir = backup_dir_of(push.stamp, push.uuid);
    lemma_joined_last(dir, push.uuid + ".metadata"@);
    lemma_joined_last(dir, push.uuid + ".content"@);
    lemma_joined_last(dir, page_part_of(push.page) + ".rm"@);
    lemma_joined_last(dir, page_part_of(push.page) + ".rm.pushed-verify"@);
}

/// Whether a push has its backup directory.
pub open spec fn has_backup(push: PushView) -> bool {
    0 < push_steps_left(push.phase) < 10 || push.phase is Done
}

/// Whether `path` is one of the files that a push writes on this machine.
pub open spec fn is_backup_file(push: PushView, path: LocalPathView) -> bool {
    ||| path == push.saved_metadata()
    ||| path == push.saved_content()
    ||| path == push.saved_page()
    ||| path == push.read_back()
}

/// Whether `path` is a file right inside the directory `dir`.
pub open spec fn is_file_in(path: LocalPathView, dir: LocalPathView) -> bool {
    path is Home && dir is Home && lies_in(path->Home_0, dir->Home_0)
}

proof fn lemma_backup_file(push: PushView, name: Seq<char>)
    requires
        push.uuid.len() > 0,
        !push.uuid.contains('/'),
        name.len() > 0,
        !name.contains('/'),
    ensures
        is_file_in(push.backup_file(name), push.backup()),
{
    let dir = backup_dir_of(push.stamp, push.uuid);
    assert(push.uuid.contains(push.uuid.last()));
    assert(push.uuid.contains(push.uuid[0]));
    assert(name.contains(name[0]));
    lemma_joined_last(joined("remarkable-backups"@, push.stamp), push.uuid);
    assert(joined(dir, name) == dir.push('/') + name);
}

proof fn lemma_add_is_one_part(a: Seq<char>, b: Seq<char>)
    requires
        !a.contains('/'),
        !b.contains('/'),
    ensures
        !(a + b).contains('/'),
{
    if (a + b).contains('/') {
        let k = choose|k: int| 0 <= k < (a + b).len() && (a + b)[k] == '/';
        if k < a.len() {
            assert(a.contains(a[k]));
        } else {
            assert(b.contains(b[k - a.len()]));
        }
    }
}

/// Every file that a push writes on this machine lies right inside a directory that this push
/// created anew.
pub proof fn law_backup_lies_in_a_new_directory(
    start: PushView,
    events: Seq<EventView>,
    path: LocalPathView,
)
    requires
        is_start(start),
        has_backup(push_after(start, events)),
        is_backup_file(push_after(start, events), path),
    ensures
        was_created(start, events, push_after(start, events).backup()),
        is_file_in(path, push_after(start, events).backup()),
{
    lemma_push_history(start, events);
    let push = push_after(start, events);
    reveal_strlit("_");
    reveal_strlit(".metadata");
    reveal_strlit(".content");
    reveal_strlit(".rm");
    reveal_strlit(".rm.pushed-verify");
    lemma_replaced_is_gone(push.page, '/', "_"@);
    let part = page_part_of(push.page);
    lemma_add_is_one_part(push.uuid, ".metadata"@);
    lemma_add_is_one_part(push.uuid, ".content"@);
    lemma_add_is_one_part(part, ".rm"@);
    lemma_add_is_one_part(part, ".rm.pushed-verify"@);
    lemma_backup_file(push, push.uuid + ".metadata"@);
    lemma_backup_file(push, push.uuid + ".content"@);
    lemma_backup_file(push, part + ".rm"@);
    lemma_backup_file(push, part + ".rm.pushed-verify"@);
}

/// A push that is told that its backup directory exists writes nothing there: it waits and reads
/// the clock again.
pub proof fn law_existing_backup_is_not_used(push: PushView)
    requires
        push.phase is Directory,
    ensures
        push.next(EventView::Exists).task() is Wait,
        push.next(EventView::Exists).next(EventView::Done).task() is Clock,
{
}

} // verus!
