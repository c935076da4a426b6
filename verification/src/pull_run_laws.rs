//! What a pull does from beginning to end, and what each of its failures says.
use vstd::prelude::*;
use vstd::string::*;

use crate::content::{law_every_entry_is_a_page, lists_entries, page_ids_of};
use crate::lookup::listed_notebook;
use crate::outside::{json_parsed, json_pretty, lossy_of, Json};
use crate::path::joined;
use crate::pull::{PullNews, PullPhase, PullView};
use crate::pull_laws::{
    is_dealt_with, is_start, law_finished_pull_dealt_with_every_page, pull_after,
};
use crate::remote::{
    cairosvg_of, content_command_of, list_command_of, page_path_of, probe_command_of, probe_of,
    rmc_of, scp_down_of, ssh_of, ProbeView,
};
use crate::task::{EventView, FailureView, LocalPathView, TaskView};
use crate::text::decimal_of;
use crate::uuid::is_uuid;

verus! {

/// A UUID is taken as it is, and any other name is looked up with the listing of that name.
pub proof fn law_pull_starts_with_its_notebook(
    host: Seq<char>,
    notebook: Seq<char>,
    output: Seq<char>,
)
    ensures
        ({
            let start = PullView::start(host, notebook, output);
            &&& start.host == host && start.notebook == notebook && start.output == output
            &&& start.failure is None && start.note() is None
            &&& is_uuid(notebook) ==> start.uuid == notebook && start.task() == TaskView::Capture(
                ssh_of(host, content_command_of(notebook)),
            )
            &&& !is_uuid(notebook) ==> start.task() == TaskView::Capture(
                ssh_of(host, list_command_of(notebook)),
            )
        }),
{
}

/// The notebook that the listing stands for is the one whose content is read. A listing that failed,
/// or that stands for none, ends the pull.
pub proof fn law_pull_takes_the_listed_notebook(
    pull: PullView,
    status: Option<i32>,
    stdout: Seq<u8>,
    stderr: Seq<u8>,
)
    requires
        pull.phase is Listing,
    ensures
        ({
            let next = pull.next(EventView::Output { status, stdout, stderr });
            let failure = FailureView::CommandFailed {
                command: list_command_of(pull.notebook),
                stderr: lossy_of(stderr),
            };
            &&& status == Some(0i32) ==> match listed_notebook(pull.notebook, lossy_of(stdout)) {
                Ok(uuid) => next == (PullView { uuid, ..pull.at(PullPhase::Fetch) })
                    && next.task() == TaskView::Capture(
                    ssh_of(pull.host, content_command_of(uuid)),
                ),
                Err(failure) => next == pull.failed(failure),
            }
            &&& status != Some(0i32) ==> next == pull.failed(failure)
        }),
        pull.next(EventView::Failed).task() is Raise,
{
}

/// What a pull is about stays the same all through it.
pub proof fn law_pull_keeps_its_subject(start: PullView, events: Seq<EventView>)
    ensures
        pull_after(start, events).host == start.host,
        pull_after(start, events).notebook == start.notebook,
        pull_after(start, events).output == start.output,
        !(start.phase is Listing) ==> pull_after(start, events).uuid == start.uuid && !(pull_after(
            start,
            events,
        ).phase is Listing),
    decreases events.len(),
{
    if events.len() > 0 {
        law_pull_keeps_its_subject(start, events.drop_last());
    }
}

/// The pages of a pull are those that the content lists, which is read from what `cat` printed, all
/// of it. It is a failure where `cat` failed, where that is no JSON, or where it lists no pages.
pub proof fn law_pull_takes_the_listed_pages(
    pull: PullView,
    status: Option<i32>,
    stdout: Seq<u8>,
    stderr: Seq<u8>,
)
    requires
        pull.phase is Fetch,
    ensures
        ({
            let next = pull.next(EventView::Output { status, stdout, stderr });
            let failure = FailureView::CommandFailed {
                command: content_command_of(pull.uuid),
                stderr: lossy_of(stderr),
            };
            &&& status == Some(0i32) ==> match json_parsed(lossy_of(stdout)) {
                Ok(content) => match page_ids_of(content) {
                    Some(pages) => next.content == Some(content) && next.pages == pages && next.index
                        == 0 && next.task() == TaskView::MakeDir(LocalPathView::OutputDir),
                    None => next == pull.failed(FailureView::NoPages),
                },
                Err(error) => next == pull.failed(FailureView::BadContent(error)),
            }
            &&& status != Some(0i32) ==> next == pull.failed(failure)
        }),
        pull.next(EventView::Failed).task() is Raise,
{
}

/// A pull has as many pages as the content has entries, each with the identifier of its entry, and
/// by the time it ends well it has dealt with all of them.
pub proof fn law_finished_pull_dealt_with_every_entry(
    start: PullView,
    events: Seq<EventView>,
    entries: Seq<Json>,
    k: int,
)
    requires
        is_start(start),
        pull_after(start, events).task() is Finish,
        pull_after(start, events).content is Some,
        lists_entries(pull_after(start, events).content->0, entries),
        0 <= k < entries.len(),
    ensures
        ({
            let pull = pull_after(start, events);
            &&& pull.pages.len() == entries.len()
            &&& is_dealt_with(start, events, pull, k)
            &&& entries[k] matches Json::Object(members) && members.contains_key("id"@)
                && members["id"@] == Json::Text(pull.pages[k]->0)
        }),
{
    law_finished_pull_dealt_with_every_page(start, events, k);
    law_every_entry_is_a_page(pull_after(start, events).content->0, entries, k);
}

/// The tasks for one page: its file is asked for, and where it is there it is copied under the
/// page's identifier, drawn as SVG and from that as PNG.
pub proof fn law_pull_fetches_and_draws_a_page(pull: PullView, answer: EventView)
    requires
        pull.phase is Probe,
        pull.index < pull.pages.len(),
        pull.pages[pull.index as int] is Some,
    ensures
        ({
            let id = pull.pages[pull.index as int]->0;
            let remote = page_path_of(pull.uuid, id);
            let found = probe_of(probe_command_of(remote), answer);
            let done = EventView::Exited { success: true };
            let copying = pull.next(answer);
            let drawing = copying.next(done);
            let painting = drawing.next(done);
            let rm = LocalPathView::Output(id + ".rm"@);
            let svg = LocalPathView::Output(id + ".svg"@);
            let png = LocalPathView::Output(id + ".png"@);
            &&& pull.task() == TaskView::Capture(ssh_of(pull.host, probe_command_of(remote)))
            &&& found is Exists ==> {
                &&& copying.task() == TaskView::Run(scp_down_of(pull.host, remote, rm))
                &&& drawing.task() == TaskView::Run(rmc_of(rm, svg))
                &&& painting.task() == TaskView::Run(cairosvg_of(svg, png))
                &&& painting.next(done) == pull.at_page(pull.index + 1, PullNews::Rendered)
            }
            &&& found is Missing ==> copying == pull.at_page(pull.index + 1, PullNews::Skipped)
            &&& found matches ProbeView::Failed(failure) ==> copying == pull.failed(failure)
            &&& found is Raised ==> copying.task() is Raise
        }),
{
}

/// After a page comes the next one of the list, and after the last one the content is written, as it
/// was read. A page without an identifier is a failure when its turn comes.
pub proof fn law_pages_come_in_order(pull: PullView, index: nat, news: PullNews)
    ensures
        ({
            let next = pull.at_page(index, news);
            &&& next.index == index && next.news == news && next.pages == pull.pages
            &&& next.content == pull.content && next.uuid == pull.uuid && next.host == pull.host
            &&& index < pull.pages.len() && pull.pages[index as int] is Some ==> next.phase is Probe
            &&& index < pull.pages.len() && pull.pages[index as int] is None ==> next.task() is Fail
                && next.failure == Some(FailureView::PageWithoutId)
            &&& index >= pull.pages.len() ==> match json_pretty(pull.content->0) {
                Ok(text) => next.task() == (TaskView::WriteText {
                    path: LocalPathView::Output("content.json"@),
                    text,
                }),
                Err(error) => next.task() is Fail && next.failure == Some(
                    FailureView::UnprintableContent(error),
                ),
            }
        }),
        pull.phase is Directory ==> pull.next(EventView::Done) == pull.at_page(0, PullNews::Opened),
        pull.phase is Directory ==> pull.next(EventView::Failed).task() is Raise,
        pull.phase is Write ==> pull.next(EventView::Done).task() is Finish,
        pull.phase is Write ==> pull.next(EventView::Failed).task() is Raise,
{
}

/// A file of a page is shown by its path in the output directory.
pub proof fn law_shown_file(pull: PullView, page: Seq<char>, extension: Seq<char>)
    ensures
        pull.shown_file(page, extension) == joined(pull.output, page + extension),
        pull.output.len() > 0 && pull.output.last() != '/' && page.len() > 0 && page[0] != '/'
            ==> pull.shown_file(page, extension) == pull.output + "/"@ + page + extension,
{
    reveal_strlit("/");
    if page.len() > 0 {
        assert((page + extension)[0] == page[0]);
        assert(pull.output.push('/') + (page + extension) =~= pull.output + "/"@ + page
            + extension);
    }
}

/// Each program that fails ends the pull with a failure that names the file.
pub proof fn law_pull_failures_name_their_subject(pull: PullView)
    ensures
        ({
            let next = pull.next(EventView::Exited { success: false });
            let id = pull.pages[pull.index as int]->0;
            &&& pull.phase is Download ==> next.failure == Some(
                FailureView::DownloadFailed(page_path_of(pull.uuid, id)),
            )
            &&& pull.phase is Svg ==> next.failure == Some(
                FailureView::SvgFailed(pull.shown_file(id, ".rm"@)),
            )
            &&& pull.phase is Png ==> next.failure == Some(
                FailureView::PngFailed(pull.shown_file(id, ".svg"@)),
            )
            &&& pull.phase is Download || pull.phase is Svg || pull.phase is Png ==> next.task()
                is Fail && pull.next(EventView::Failed).task() is Raise
        }),
{
}

/// What a pull says of the notebook, of a page that was passed over and of one that was drawn.
pub proof fn law_pull_says(pull: PullView)
    ensures
        pull.news is Nothing ==> pull.note() is None,
        pull.news is Opened ==> pull.note() == Some(
            "Notebook '"@ + pull.notebook + "' ("@ + pull.uuid + ") -- "@ + decimal_of(
                pull.pages.len(),
            ) + " page(s)"@,
        ),
        pull.news is Skipped ==> pull.note() == Some(
            "  page "@ + decimal_of(pull.index) + ": "@ + pull.pages[pull.index - 1]->0
                + " -- SKIPPED (no .rm file on device)"@,
        ),
        pull.news is Rendered ==> pull.note() == Some(
            "  page "@ + decimal_of(pull.index) + ": "@ + pull.shown_file(
                pull.pages[pull.index - 1]->0,
                ".png"@,
            ),
        ),
{
}

/// A failure ends a pull and is kept, and a new phase changes nothing else but that nothing is left to
/// tell.
pub proof fn law_pull_failure_is_kept(pull: PullView, failure: FailureView, phase: PullPhase)
    ensures
        pull.failed(failure).task() is Fail,
        pull.failed(failure).failure == Some(failure),
        pull.failed(failure).note() is None,
        pull.at(phase).phase == phase,
        pull.at(phase).note() is None,
        ({
            let next = pull.at(phase);
            &&& next.host == pull.host && next.notebook == pull.notebook && next.output
                == pull.output
            &&& next.uuid == pull.uuid && next.content == pull.content && next.pages == pull.pages
            &&& next.index == pull.index && next.saved == pull.saved && next.failure
                == pull.failure
        }),
{
}

} // verus!
