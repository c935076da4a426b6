//! What a push does from beginning to end, and what each of its failures says.
use vstd::prelude::*;
use vstd::string::*;
use vstd::utf8::{encode_utf8, encode_utf8_decode_utf8, encode_utf8_valid_utf8};

use crate::lookup::listed_notebook;
use crate::outside::{lossy_of, sha256_of};
use crate::path::joined;
use crate::push::{backup_dir_of, page_part_of, PushPhase, PushView, CLOCK_PAUSE};
use crate::push_laws::push_after;
use crate::remote::{
    content_path_of, date_of, list_command_of, metadata_path_of, move_command_of, page_path_of,
    probe_command_of, probe_of, scp_down_of, scp_up_of, ssh_of, upload_path_of, ProbeView,
};
use crate::task::{EventView, FailureView, LocalPathView, TaskView};
use crate::text::trim_of;
use crate::text_laws::{
    has_firm_ends, is_blank, law_nothing_to_replace, law_replacing_by_one_character,
    law_trim_takes_the_ends,
};
use crate::uuid::is_uuid;

verus! {

/// A backup lies in `remarkable-backups`, in a directory for the time and one for the notebook in
/// it.
pub proof fn law_backup_directory(stamp: Seq<char>, uuid: Seq<char>)
    requires
        stamp.len() > 0,
        stamp[0] != '/',
        stamp.last() != '/',
        uuid.len() == 0 || uuid[0] != '/',
    ensures
        backup_dir_of(stamp, uuid) == "remarkable-backups/"@ + stamp + "/"@ + uuid,
{
    reveal_strlit("remarkable-backups");
    reveal_strlit("remarkable-backups/");
    reveal_strlit("/");
    assert(backup_dir_of(stamp, uuid) =~= "remarkable-backups/"@ + stamp + "/"@ + uuid);
}

/// A page keeps its name on this machine, but for separators, which become `_`.
pub proof fn law_page_keeps_its_name(page: Seq<char>)
    ensures
        page_part_of(page).len() == page.len(),
        forall|i: int|
            #![trigger page[i]]
            0 <= i < page.len() ==> page_part_of(page)[i] == if page[i] == '/' {
                '_'
            } else {
                page[i]
            },
        !page.contains('/') ==> page_part_of(page) == page,
{
    reveal_strlit("_");
    assert("_"@ =~= seq!['_']);
    law_replacing_by_one_character(page, '/', '_');
    if !page.contains('/') {
        law_nothing_to_replace(page, '/', "_"@);
    }
}

/// A file in the backup directory of a push.
pub open spec fn in_backup(push: PushView, name: Seq<char>) -> LocalPathView {
    LocalPathView::Home(backup_dir_of(push.stamp, push.uuid) + "/"@ + name)
}

/// The files of a backup lie in the backup directory: the notebook's two under their names on the
/// tablet, the page as `.rm`, and the copy that is read back beside it.
pub proof fn law_backup_files(push: PushView)
    requires
        push.uuid.len() > 0,
        !push.uuid.contains('/'),
    ensures
        push.backup() == LocalPathView::Home(backup_dir_of(push.stamp, push.uuid)),
        push.saved_metadata() == in_backup(push, push.uuid + ".metadata"@),
        push.saved_content() == in_backup(push, push.uuid + ".content"@),
        push.saved_page() == in_backup(push, page_part_of(push.page) + ".rm"@),
        push.read_back() == in_backup(push, page_part_of(push.page) + ".rm.pushed-verify"@),
{
    reveal_strlit("/");
    reveal_strlit(".rm");
    reveal_strlit(".rm.pushed-verify");
    law_page_keeps_its_name(push.page);
    let dir = backup_dir_of(push.stamp, push.uuid);
    let part = page_part_of(push.page);
    assert(push.uuid.contains(push.uuid[0]));
    assert(push.uuid.contains(push.uuid.last()));
    assert(dir.len() > 0 && dir.last() == push.uuid.last());
    if part.len() > 0 {
        assert(part[0] != '/') by {
            assert(part[0] == if push.page[0] == '/' {
                '_'
            } else {
                push.page[0]
            });
        }
    }
    lemma_in_backup(push, push.uuid + ".metadata"@);
    lemma_in_backup(push, push.uuid + ".content"@);
    assert((part + ".rm"@)[0] != '/');
    lemma_in_backup(push, part + ".rm"@);
    assert((part + ".rm.pushed-verify"@)[0] != '/');
    lemma_in_backup(push, part + ".rm.pushed-verify"@);
}

proof fn lemma_in_backup(push: PushView, name: Seq<char>)
    requires
        backup_dir_of(push.stamp, push.uuid).len() > 0,
        backup_dir_of(push.stamp, push.uuid).last() != '/',
        name.len() > 0,
        name[0] != '/',
    ensures
        push.backup_file(name) == in_backup(push, name),
{
    reveal_strlit("/");
    let dir = backup_dir_of(push.stamp, push.uuid);
    assert(dir.push('/') + name =~= dir + "/"@ + name);
}

/// A UUID is taken as it is, and any other name is looked up with the listing of that name.
pub proof fn law_push_starts_with_its_notebook(
    host: Seq<char>,
    notebook: Seq<char>,
    page: Seq<char>,
    file: Seq<char>,
)
    ensures
        ({
            let start = PushView::start(host, notebook, page, file);
            &&& start.host == host && start.notebook == notebook && start.page == page
            &&& start.file == file && start.failure is None
            &&& is_uuid(notebook) ==> start.uuid == notebook && start.task() == TaskView::Clock(
                date_of(),
            )
            &&& !is_uuid(notebook) ==> start.task() == TaskView::Capture(
                ssh_of(host, list_command_of(notebook)),
            )
        }),
{
}

/// The notebook that the listing stands for is the one that is pushed to. A listing that failed, or
/// that stands for none, ends the push.
pub proof fn law_push_takes_the_listed_notebook(
    push: PushView,
    status: Option<i32>,
    stdout: Seq<u8>,
    stderr: Seq<u8>,
)
    requires
        push.phase is Listing,
    ensures
        ({
            let next = push.next(EventView::Output { status, stdout, stderr });
            let failure = FailureView::CommandFailed {
                command: list_command_of(push.notebook),
                stderr: lossy_of(stderr),
            };
            &&& status == Some(0i32) ==> match listed_notebook(push.notebook, lossy_of(stdout)) {
                Ok(uuid) => next == (PushView { uuid, ..push.at(PushPhase::Clock) }),
                Err(failure) => next == push.failed(failure),
            }
            &&& status != Some(0i32) ==> next == push.failed(failure)
        }),
        push.next(EventView::Failed).task() is Raise,
{
}

/// What a push is about stays the same all through it: the host, the notebook's name, the page and
/// the file, and the notebook itself where it was given by its UUID.
pub proof fn law_push_keeps_its_subject(start: PushView, events: Seq<EventView>)
    ensures
        push_after(start, events).host == start.host,
        push_after(start, events).notebook == start.notebook,
        push_after(start, events).page == start.page,
        push_after(start, events).file == start.file,
        !(start.phase is Listing) ==> push_after(start, events).uuid == start.uuid && !(push_after(
            start,
            events,
        ).phase is Listing),
    decreases events.len(),
{
    if events.len() > 0 {
        law_push_keeps_its_subject(start, events.drop_last());
    }
}

/// The time of a push is what the clock printed, without the white space around it.
pub proof fn law_stamp_is_what_the_clock_printed(
    push: PushView,
    before: Seq<char>,
    stamp: Seq<char>,
    after: Seq<char>,
    status: Option<i32>,
    stderr: Seq<u8>,
)
    requires
        push.phase is Clock,
        is_blank(before),
        is_blank(after),
        stamp.len() == 0 || has_firm_ends(stamp),
    ensures
        push.next(
            EventView::Output { status, stdout: encode_utf8(before + stamp + after), stderr },
        ) == (PushView { stamp, ..push.at(PushPhase::Home) }),
{
    let text = before + stamp + after;
    encode_utf8_valid_utf8(text);
    encode_utf8_decode_utf8(text);
    law_trim_takes_the_ends(before, stamp, after);
}

/// The tasks of a push up to the probe: its backup directory, created anew in the home directory,
/// and copies of the notebook's metadata and content there.
pub proof fn law_push_saves_the_notebook(push: PushView, home: Seq<char>)
    requires
        push.phase is Home,
    ensures
        ({
            let done = EventView::Exited { success: true };
            let making = push.next(EventView::Home(Some(home)));
            let saving = making.next(EventView::Done);
            let saving_more = saving.next(done);
            let asking = saving_more.next(done);
            &&& push.task() is FindHome
            &&& making.home == home
            &&& making.task() == TaskView::NewDir(push.backup())
            &&& making.next(EventView::Exists).task() == TaskView::Wait(CLOCK_PAUSE)
            &&& making.next(EventView::Exists).next(EventView::Done).task() == TaskView::Clock(
                date_of(),
            )
            &&& saving.task() == TaskView::Run(
                scp_down_of(push.host, metadata_path_of(push.uuid), push.saved_metadata()),
            )
            &&& saving_more.task() == TaskView::Run(
                scp_down_of(push.host, content_path_of(push.uuid), push.saved_content()),
            )
            &&& asking.task() == TaskView::Capture(
                ssh_of(push.host, probe_command_of(page_path_of(push.uuid, push.page))),
            )
            &&& asking == (PushView { home, ..push.at(PushPhase::Probe) })
        }),
        push.next(EventView::Home(None)).failure == Some(FailureView::NoHomeForBackup),
        push.next(EventView::Home(None)).task() is Fail,
{
}

/// A page that is there is copied to the backup before the upload, and one that is missing is
/// uploaded at once.
pub proof fn law_push_saves_the_page(push: PushView, answer: EventView)
    requires
        push.phase is Probe,
    ensures
        ({
            let remote = page_path_of(push.uuid, push.page);
            let found = probe_of(probe_command_of(remote), answer);
            let next = push.next(answer);
            &&& found is Exists ==> next.task() == TaskView::Run(
                scp_down_of(push.host, remote, push.saved_page()),
            ) && next.next(EventView::Exited { success: true }) == (PushView {
                existed: true,
                ..push.at(PushPhase::Upload)
            })
            &&& found is Missing ==> next == (PushView {
                existed: false,
                ..push.at(PushPhase::Upload)
            })
            &&& found matches ProbeView::Failed(failure) ==> next == push.failed(failure)
            &&& found is Raised ==> next.task() is Raise
        }),
{
}

/// The tasks of a push from the upload on: the upload beside the page, the rename into its place,
/// the copy that is read back, and the check.
pub proof fn law_push_replaces_the_page(push: PushView, sent: Seq<u8>, returned: Seq<u8>)
    requires
        push.phase is Upload,
        sha256_of(sent) == sha256_of(returned),
    ensures
        ({
            let remote = page_path_of(push.uuid, push.page);
            let beside = upload_path_of(push.uuid, push.page);
            let done = EventView::Exited { success: true };
            let renaming = push.next(done);
            let reading = renaming.next(done);
            let comparing = reading.next(done);
            let discarding = comparing.next(EventView::Contents { sent, returned });
            &&& push.task() == TaskView::Run(scp_up_of(push.host, LocalPathView::Source, beside))
            &&& renaming.task() == TaskView::Run(ssh_of(push.host, move_command_of(beside, remote)))
            &&& reading.task() == TaskView::Run(scp_down_of(push.host, remote, push.read_back()))
            &&& comparing.task() == (TaskView::ReadBoth {
                sent: LocalPathView::Source,
                returned: push.read_back(),
            })
            &&& discarding.task() == TaskView::Discard(push.read_back())
            &&& discarding.next(EventView::Done).task() is Finish
            &&& discarding.next(EventView::Failed).task() is Finish
        }),
{
}

/// Contents with different digests are a failure that names the backup directory.
pub proof fn law_different_digests_fail(push: PushView, sent: Seq<u8>, returned: Seq<u8>)
    requires
        push.phase is Compare,
        sha256_of(sent) != sha256_of(returned),
    ensures
        push.next(EventView::Contents { sent, returned }).task() is Fail,
        push.next(EventView::Contents { sent, returned }).failure == Some(
            FailureView::VerifyFailed(push.shown_backup()),
        ),
        push.next(EventView::Failed).task() is Raise,
{
}

/// A backup is shown by its path in the home directory.
pub proof fn law_shown_backup(push: PushView)
    requires
        push.home.len() > 0,
        push.home.last() != '/',
        push.stamp.len() > 0,
        push.stamp[0] != '/',
        push.stamp.last() != '/',
        push.uuid.len() == 0 || push.uuid[0] != '/',
    ensures
        push.shown_backup() == push.home + "/"@ + backup_dir_of(push.stamp, push.uuid),
{
    law_backup_directory(push.stamp, push.uuid);
    reveal_strlit("remarkable-backups/");
    reveal_strlit("/");
    let dir = backup_dir_of(push.stamp, push.uuid);
    assert(dir[0] == 'r');
    assert(push.home.push('/') + dir =~= push.home + "/"@ + dir);
}

/// Each program that fails ends the push with a failure that names the file or the command.
pub proof fn law_push_failures_name_their_subject(push: PushView)
    ensures
        ({
            let next = push.next(EventView::Exited { success: false });
            let remote = page_path_of(push.uuid, push.page);
            let beside = upload_path_of(push.uuid, push.page);
            let of_file = |path: Seq<char>| Some(FailureView::DownloadFailed(path));
            &&& push.phase is SaveMetadata ==> next.failure == of_file(metadata_path_of(push.uuid))
            &&& push.phase is SaveContent ==> next.failure == of_file(content_path_of(push.uuid))
            &&& push.phase is SavePage ==> next.failure == of_file(remote)
            &&& push.phase is ReadBack ==> next.failure == of_file(remote)
            &&& push.phase is Upload ==> next.failure == Some(FailureView::UploadFailed(beside))
            &&& push.phase is Rename ==> next.failure == Some(
                FailureView::RunFailed(move_command_of(beside, remote)),
            )
            &&& push.phase is SaveMetadata || push.phase is SaveContent || push.phase is SavePage
                || push.phase is ReadBack || push.phase is Upload || push.phase is Rename
                ==> next.task() is Fail && push.next(EventView::Failed).task() is Raise
        }),
{
}

/// What a push says, and when.
pub proof fn law_push_says(push: PushView)
    ensures
        push.phase is SaveMetadata ==> push.notes() == seq![
            "Backing up current state to "@ + push.shown_backup(),
        ],
        push.phase is Upload && push.existed ==> push.notes() == seq![
            "Pushing "@ + push.file + " -> "@ + page_path_of(push.uuid, push.page),
        ],
        push.phase is Upload && !push.existed ==> push.notes() == seq![
            "  (page "@ + push.page
                + " does not exist yet on the device -- this will create it)"@,
            "Pushing "@ + push.file + " -> "@ + page_path_of(push.uuid, push.page),
        ],
        push.phase is ReadBack ==> push.notes() == seq!["Verifying..."@],
        push.phase is Done ==> push.notes() == seq![
            "Done. Hash-verified on device. Open (or close and reopen) the notebook on the tablet to see the change -- xochitl only re-parses a page's file when its document is opened, so nothing further needs to be sent."@,
        ],
        !(push.phase is SaveMetadata || push.phase is Upload || push.phase is ReadBack || push.phase
            is Done) ==> push.notes().len() == 0,
{
}

/// The pause before the clock is read again is no longer than the second that the clock counts.
pub proof fn law_pause_is_short()
    ensures
        0 < CLOCK_PAUSE <= 1000,
{
}

/// The paths of a backup are joined part by part, whatever the parts are.
pub proof fn law_backup_paths_are_joined(push: PushView, name: Seq<char>)
    ensures
        backup_dir_of(push.stamp, push.uuid) == joined(
            joined("remarkable-backups"@, push.stamp),
            push.uuid,
        ),
        push.backup_file(name) == LocalPathView::Home(
            joined(backup_dir_of(push.stamp, push.uuid), name),
        ),
        push.shown_backup() == joined(push.home, backup_dir_of(push.stamp, push.uuid)),
{
}

/// The time is read from all that the clock printed.
pub proof fn law_clock_output_is_read_whole(
    push: PushView,
    status: Option<i32>,
    stdout: Seq<u8>,
    stderr: Seq<u8>,
)
    requires
        push.phase is Clock,
    ensures
        push.next(EventView::Output { status, stdout, stderr }) == (PushView {
            stamp: trim_of(lossy_of(stdout)),
            ..push.at(PushPhase::Home)
        }),
{
}

/// A failure ends a push and is kept, and a new phase changes nothing else.
pub proof fn law_push_failure_is_kept(push: PushView, failure: FailureView, phase: PushPhase)
    ensures
        push.failed(failure).task() is Fail,
        push.failed(failure).failure == Some(failure),
        push.at(phase).phase == phase,
        ({
            let next = push.at(phase);
            &&& next.host == push.host && next.notebook == push.notebook && next.page == push.page
            &&& next.file == push.file && next.uuid == push.uuid && next.stamp == push.stamp
            &&& next.home == push.home && next.existed == push.existed && next.failure
                == push.failure
        }),
{
}

} // verus!
