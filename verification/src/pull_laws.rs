//! What holds of every pull, whatever its tasks are answered.
use vstd::prelude::*;

use crate::content::page_ids_of;
use crate::outside::{json_parsed, json_pretty, lossy_of, Json};
use crate::pull::{PullPhase, PullView};
use crate::remote::{
    cairosvg_of, content_command_of, law_probe_asks_for_the_file, list_command_of, page_path_of,
    probe_command_of, probe_of, rmc_of, scp_down_of, ssh_of,
};
use crate::shell::read_word;
use crate::task::{EventView, LocalPathView, TaskView};

verus! {

/// A pull after a series of events.
pub open spec fn pull_after(start: PullView, events: Seq<EventView>) -> PullView
    decreases events.len(),
{
    if events.len() == 0 {
        start
    } else {
        pull_after(start, events.drop_last()).next(events.last())
    }
}

/// Whether a pull is at its beginning.
pub open spec fn is_start(pull: PullView) -> bool {
    pull == PullView::start(pull.host, pull.notebook, pull.output)
}

/// A pull fits together at its beginning, and every event leaves it so.
pub proof fn law_pull_stays_valid(pull: PullView, event: EventView)
    ensures
        is_start(pull) ==> pull.is_valid(),
        pull.is_valid() ==> pull.next(event).is_valid(),
{
}

/// How many stages of a pull are left: looking up, fetching, opening, and the pages.
pub open spec fn stages_left(phase: PullPhase) -> nat {
    match phase {
        PullPhase::Listing => 4,
        PullPhase::Fetch => 3,
        PullPhase::Directory => 2,
        PullPhase::Probe | PullPhase::Download | PullPhase::Svg | PullPhase::Png
        | PullPhase::Write => 1,
        _ => 0,
    }
}

/// How many answers the pages and the content file can still take at most.
pub open spec fn page_steps_left(pull: PullView) -> int {
    let pages = pull.pages.len() - pull.index;
    match pull.phase {
        PullPhase::Probe => 4 * pages + 4,
        PullPhase::Download => 4 * pages + 3,
        PullPhase::Svg => 4 * pages + 2,
        PullPhase::Png => 4 * pages + 1,
        PullPhase::Write => 1,
        _ => 0,
    }
}

/// Every answer brings a pull closer to its end, and it asks for something until it is there.
pub proof fn law_pull_ends(pull: PullView, event: EventView)
    requires
        pull.is_valid(),
    ensures
        page_steps_left(pull) >= 0,
        pull.task().is_end() == (stages_left(pull.phase) == 0),
        pull.task().is_answered_by(event) ==> {
            let next = pull.next(event);
            ||| stages_left(next.phase) < stages_left(pull.phase)
            ||| stages_left(next.phase) == stages_left(pull.phase) && page_steps_left(next)
                < page_steps_left(pull)
        },
        !pull.task().is_answered_by(event) ==> pull.next(event) == pull,
{
}

/// Every line is told once: an answer leaves nothing to tell, or it brings the line on the notebook
/// or the line on one more page.
pub proof fn law_every_line_is_told_once(pull: PullView, event: EventView)
    requires
        pull.task().is_answered_by(event),
    ensures
        ({
            let next = pull.next(event);
            ||| next.note() is None
            ||| next.news is Opened && pull.phase is Directory
            ||| (next.news is Skipped || next.news is Rendered) && next.index == pull.index + 1
        }),
{
}

/// Whether, in a pull through `events`, `task` was asked for and a program that did it ended with
/// success.
#[verifier::opaque]
pub open spec fn was_done(start: PullView, events: Seq<EventView>, task: TaskView) -> bool {
    exists|i: int|
        0 <= i < events.len() && #[trigger] pull_after(start, events.take(i)).task() == task
            && events[i] == (EventView::Exited { success: true })
}

/// Whether, in a pull through `events`, `task` was asked for and carried out.
#[verifier::opaque]
pub open spec fn was_carried_out(start: PullView, events: Seq<EventView>, task: TaskView) -> bool {
    exists|i: int|
        0 <= i < events.len() && #[trigger] pull_after(start, events.take(i)).task() == task
            && events[i] is Done
}

/// Whether, in a pull through `events`, `host` was asked by `command` for a file and said that it
/// is missing.
#[verifier::opaque]
pub open spec fn was_missing(
    start: PullView,
    events: Seq<EventView>,
    host: Seq<char>,
    command: Seq<char>,
) -> bool {
    exists|i: int|
        0 <= i < events.len() && #[trigger] pull_after(start, events.take(i)).task()
            == TaskView::Capture(ssh_of(host, command)) && probe_of(command, events[i]) is Missing
}

/// Whether, in a pull through `events`, `task` was asked for and brought a text that parses as
/// `content`.
#[verifier::opaque]
pub open spec fn was_fetched(
    start: PullView,
    events: Seq<EventView>,
    task: TaskView,
    content: Json,
) -> bool {
    exists|i: int|
        0 <= i < events.len() && #[trigger] pull_after(start, events.take(i)).task() == task
            && brings_content(events[i], content)
}

/// Whether an event brings a text that parses as `content`.
pub open spec fn brings_content(event: EventView, content: Json) -> bool {
    event matches EventView::Output { status, stdout, stderr } && status == Some(0i32)
        && json_parsed(lossy_of(stdout)) == Ok::<Json, serde_json::Error>(content)
}

/// The task that prints the content file of the notebook.
pub open spec fn fetch_task(pull: PullView) -> TaskView {
    TaskView::Capture(ssh_of(pull.host, content_command_of(pull.uuid)))
}

/// The command that asks for the file of page `id`.
pub open spec fn page_probe(pull: PullView, id: Seq<char>) -> Seq<char> {
    probe_command_of(page_path_of(pull.uuid, id))
}

/// The task that copies the file of page `id`.
pub open spec fn download_task(pull: PullView, id: Seq<char>) -> TaskView {
    TaskView::Run(
        scp_down_of(pull.host, page_path_of(pull.uuid, id), LocalPathView::Output(id + ".rm"@)),
    )
}

/// The task that writes the content file.
pub open spec fn write_task(text: Seq<char>) -> TaskView {
    TaskView::WriteText { path: LocalPathView::Output("content.json"@), text }
}

/// The task that draws page `id` as SVG.
pub open spec fn svg_task(id: Seq<char>) -> TaskView {
    TaskView::Run(rmc_of(LocalPathView::Output(id + ".rm"@), LocalPathView::Output(id + ".svg"@)))
}

/// The task that draws page `id` as PNG.
pub open spec fn png_task(id: Seq<char>) -> TaskView {
    TaskView::Run(
        cairosvg_of(LocalPathView::Output(id + ".svg"@), LocalPathView::Output(id + ".png"@)),
    )
}

/// Whether page `k` has been dealt with: the tablet said that its file is missing, or it was copied and
/// drawn as SVG and as PNG.
pub open spec fn is_dealt_with(
    start: PullView,
    events: Seq<EventView>,
    pull: PullView,
    k: int,
) -> bool {
    let id = pull.pages[k]->0;
    &&& pull.pages[k] is Some
    &&& {
        ||| was_missing(start, events, pull.host, page_probe(pull, id))
        ||| was_done(start, events, download_task(pull, id)) && was_done(
            start,
            events,
            svg_task(id),
        ) && was_done(start, events, png_task(id))
    }
}

/// What a pull has done by the time it is in its phase.
spec fn has_done(start: PullView, events: Seq<EventView>, pull: PullView) -> bool {
    &&& pull.is_valid()
    &&& pull.host == start.host
    &&& stages_left(pull.phase) >= 2 ==> pull.index == 0
    &&& pull.content matches Some(content) ==> {
        &&& page_ids_of(content) == Some(pull.pages)
        &&& was_fetched(start, events, fetch_task(pull), content)
    }
    &&& pull.content is None ==> pull.index == 0
    &&& pull.phase is Listing || pull.phase is Fetch ==> pull.content is None
    &&& forall|k: int| 0 <= k < pull.index ==> #[trigger] is_dealt_with(start, events, pull, k)
    &&& pull.phase is Svg || pull.phase is Png ==> was_done(
        start,
        events,
        download_task(pull, pull.page()),
    )
    &&& pull.phase is Png ==> was_done(start, events, svg_task(pull.page()))
    &&& pull.phase is Write || pull.phase is Done ==> {
        &&& pull.index == pull.pages.len()
        &&& pull.content is Some
        &&& json_pretty(pull.content->0) == Ok::<Seq<char>, serde_json::Error>(pull.saved)
    }
    &&& pull.phase is Done ==> was_carried_out(start, events, write_task(pull.saved))
}

proof fn lemma_history_grows(start: PullView, events: Seq<EventView>, task: TaskView)
    requires
        events.len() > 0,
    ensures
        was_done(start, events.drop_last(), task) ==> was_done(start, events, task),
        was_carried_out(start, events.drop_last(), task) ==> was_carried_out(start, events, task),
        forall|content: Json|
            #![trigger was_fetched(start, events, task, content)]
            was_fetched(start, events.drop_last(), task, content) ==> was_fetched(
                start,
                events,
                task,
                content,
            ),
{
    reveal(was_fetched);
    reveal(was_done);
    reveal(was_carried_out);
    let before = events.drop_last();
    assert forall|i: int| 0 <= i < before.len() implies before.take(i) == #[trigger] events.take(
        i,
    ) && before[i] == events[i] by {
        assert(before.take(i) =~= events.take(i));
    }
    if was_done(start, before, task) {
        let i = choose|i: int|
            0 <= i < before.len() && #[trigger] pull_after(start, before.take(i)).task() == task
                && before[i] == (EventView::Exited { success: true });
        assert(before.take(i) == events.take(i));
        assert(pull_after(start, events.take(i)).task() == task);
    }
    if was_carried_out(start, before, task) {
        let i = choose|i: int|
            0 <= i < before.len() && #[trigger] pull_after(start, before.take(i)).task() == task
                && before[i] is Done;
        assert(before.take(i) == events.take(i));
        assert(pull_after(start, events.take(i)).task() == task);
    }
    assert forall|content: Json| was_fetched(start, before, task, content) implies was_fetched(
        start,
        events,
        task,
        content,
    ) by {
        let i = choose|i: int|
            0 <= i < before.len() && #[trigger] pull_after(start, before.take(i)).task() == task
                && brings_content(before[i], content);
        assert(before.take(i) == events.take(i));
        assert(pull_after(start, events.take(i)).task() == task);
    }
}

proof fn lemma_missing_stays(
    start: PullView,
    events: Seq<EventView>,
    host: Seq<char>,
    command: Seq<char>,
)
    requires
        events.len() > 0,
    ensures
        was_missing(start, events.drop_last(), host, command) ==> was_missing(
            start,
            events,
            host,
            command,
        ),
{
    reveal(was_missing);
    let before = events.drop_last();
    if was_missing(start, before, host, command) {
        let task = TaskView::Capture(ssh_of(host, command));
        let i = choose|i: int|
            0 <= i < before.len() && #[trigger] pull_after(start, before.take(i)).task()
                == TaskView::Capture(ssh_of(host, command)) && probe_of(
                command,
                before[i],
            ) is Missing;
        assert(before.take(i) =~= events.take(i));
        assert(pull_after(start, events.take(i)).task() == task);
    }
}

proof fn lemma_last_event_counts(start: PullView, events: Seq<EventView>)
    requires
        events.len() > 0,
    ensures
        ({
            let old = pull_after(start, events.drop_last());
            let task = old.task();
            let last = events.last();
            &&& last == (EventView::Exited { success: true }) ==> was_done(start, events, task)
            &&& last is Done ==> was_carried_out(start, events, task)
            &&& old.phase is Probe && probe_of(old.probe_command(), last) is Missing
                ==> was_missing(start, events, old.host, old.probe_command())
            &&& forall|content: Json|
                #![trigger was_fetched(start, events, task, content)]
                brings_content(last, content) ==> was_fetched(start, events, task, content)
        }),
{
    reveal(was_fetched);
    reveal(was_done);
    reveal(was_carried_out);
    reveal(was_missing);
    let at = events.len() - 1;
    assert(events.take(at) =~= events.drop_last());
    assert(events[at] == events.last());
    assert(pull_after(start, events.take(at)).task() == pull_after(
        start,
        events.drop_last(),
    ).task());
}

proof fn lemma_pull_history(start: PullView, events: Seq<EventView>)
    requires
        is_start(start),
    ensures
        has_done(start, events, pull_after(start, events)),
    decreases events.len(),
{
    if events.len() > 0 {
        let before = events.drop_last();
        let old = pull_after(start, before);
        let new = pull_after(start, events);
        lemma_pull_history(start, before);
        lemma_last_event_counts(start, events);
        law_pull_stays_valid(old, events.last());
        lemma_history_grows(start, events, fetch_task(old));
        lemma_history_grows(start, events, download_task(old, old.page()));
        lemma_history_grows(start, events, svg_task(old.page()));
        lemma_history_grows(start, events, write_task(old.saved));
        assert forall|k: int| 0 <= k < new.index implies #[trigger] is_dealt_with(
            start,
            events,
            new,
            k,
        ) by {
            if k < old.index {
                assert(is_dealt_with(start, before, old, k));
                let id = old.pages[k]->0;
                lemma_missing_stays(start, events, old.host, page_probe(old, id));
                lemma_history_grows(start, events, download_task(old, id));
                lemma_history_grows(start, events, svg_task(id));
                lemma_history_grows(start, events, png_task(id));
            }
        }
    }
}

/// A pull writes the notebook's content last: by then it has dealt with every page that the content
/// lists. Each was copied and drawn as SVG and as PNG, unless the tablet said that its file is
/// missing.
pub proof fn law_content_is_written_last(start: PullView, events: Seq<EventView>, k: int)
    requires
        is_start(start),
        pull_after(start, events).task() is WriteText,
    ensures
        ({
            let pull = pull_after(start, events);
            &&& pull.content is Some && was_fetched(
                start,
                events,
                fetch_task(pull),
                pull.content->0,
            )
            &&& page_ids_of(pull.content->0) == Some(pull.pages)
            &&& 0 <= k < pull.pages.len() ==> is_dealt_with(start, events, pull, k)
            &&& json_pretty(pull.content->0) is Ok
            &&& pull.task() == write_task(json_pretty(pull.content->0)->Ok_0)
        }),
{
    lemma_pull_history(start, events);
}

/// A pull that ends well has dealt with every page that the notebook's content lists: each was
/// copied and drawn as SVG and as PNG, unless the tablet said that its file is missing. And it has
/// written the notebook's content beside them.
pub proof fn law_finished_pull_dealt_with_every_page(
    start: PullView,
    events: Seq<EventView>,
    k: int,
)
    requires
        is_start(start),
        pull_after(start, events).task() is Finish,
    ensures
        ({
            let pull = pull_after(start, events);
            &&& pull.content is Some && was_fetched(
                start,
                events,
                fetch_task(pull),
                pull.content->0,
            )
            &&& page_ids_of(pull.content->0) == Some(pull.pages)
            &&& 0 <= k < pull.pages.len() ==> is_dealt_with(start, events, pull, k)
            &&& json_pretty(pull.content->0) is Ok
            &&& was_carried_out(start, events, write_task(json_pretty(pull.content->0)->Ok_0))
        }),
{
    lemma_pull_history(start, events);
}

/// Once a pull has come to write the content, it can only end well or with an error of that task.
proof fn lemma_nothing_fails_after_the_pages(start: PullView, events: Seq<EventView>, n: int)
    requires
        0 <= n <= events.len(),
    ensures
        ({
            let then = pull_after(start, events.take(n)).phase;
            let now = pull_after(start, events).phase;
            &&& then is Write ==> now is Write || now is Done || now is Raised
            &&& then is Done ==> now is Done
            &&& then is Raised ==> now is Raised
        }),
    decreases events.len(),
{
    if n == events.len() {
        assert(events.take(n) =~= events);
    } else {
        lemma_nothing_fails_after_the_pages(start, events.drop_last(), n);
        assert(events.drop_last().take(n) =~= events.take(n));
    }
}

/// A pull that fails, because the notebook cannot be found or fetched, a page has no identifier, or
/// a page cannot be asked for, copied or drawn, has at no time asked to write the content.
pub proof fn law_failed_pull_writes_no_content(start: PullView, events: Seq<EventView>, n: int)
    requires
        pull_after(start, events).task() is Fail,
        0 <= n <= events.len(),
    ensures
        !(pull_after(start, events.take(n)).task() is WriteText),
{
    lemma_nothing_fails_after_the_pages(start, events, n);
}

/// The content has been written only in a pull that ended well.
pub proof fn law_content_is_written_by_finished_pulls_only(
    start: PullView,
    events: Seq<EventView>,
    text: Seq<char>,
)
    requires
        was_carried_out(start, events, write_task(text)),
    ensures
        pull_after(start, events).task() is Finish,
{
    reveal(was_carried_out);
    let task = write_task(text);
    let i = choose|i: int|
        0 <= i < events.len() && #[trigger] pull_after(start, events.take(i)).task() == task
            && events[i] is Done;
    let then = events.take(i + 1);
    assert(then.drop_last() =~= events.take(i));
    assert(then.last() == events[i]);
    assert(pull_after(start, then).phase is Done);
    lemma_nothing_fails_after_the_pages(start, events, i + 1);
}

/// A page whose file the tablet said to be missing is passed over: where every page has an
/// identifier, the pull goes on with the page behind it.
pub proof fn law_missing_page_is_skipped(pull: PullView, event: EventView)
    requires
        pull.phase is Probe,
        probe_of(pull.probe_command(), event) is Missing,
        pull.index + 1 < pull.pages.len(),
        pull.pages[pull.index as int + 1] is Some,
    ensures
        ({
            let next = pull.next(event);
            &&& next.phase is Probe
            &&& next.index == pull.index + 1
            &&& next.news is Skipped
            &&& next.pages == pull.pages
        }),
{
}

/// A page is passed over only where the tablet said that its file is missing: a pull whose probe
/// could not be made ends there.
pub proof fn law_failed_probe_ends_pull(pull: PullView, event: EventView)
    requires
        pull.phase is Probe,
        ({
            ||| event is Failed
            ||| event matches EventView::Output { status, stdout, stderr } && status != Some(0i32)
                && status != Some(1i32)
        }),
    ensures
        pull.next(event).task() is Raise || pull.next(event).task() is Fail,
{
}

/// All that a pull does on the tablet is to run these commands: to list the notebooks, to print a
/// content file, to ask for a page's file, and to copy a file to this machine.
pub proof fn law_pull_reaches_the_tablet_in_these_ways_only(pull: PullView)
    ensures
        pull.task() matches TaskView::Capture(program) ==> {
            ||| program == ssh_of(pull.host, list_command_of(pull.notebook))
            ||| program == ssh_of(pull.host, content_command_of(pull.uuid))
            ||| program == ssh_of(pull.host, pull.probe_command())
        },
        pull.task() matches TaskView::Run(program) ==> {
            ||| program == scp_down_of(pull.host, pull.remote_page(), pull.page_file(".rm"@))
            ||| program == rmc_of(pull.page_file(".rm"@), pull.page_file(".svg"@))
            ||| program == cairosvg_of(pull.page_file(".svg"@), pull.page_file(".png"@))
        },
        !(pull.task() is Clock),
{
}

/// The shell on the tablet reads the page's path in the probe as one word, whatever the page's
/// identifier holds.
pub proof fn law_probe_asks_for_the_page(pull: PullView)
    ensures
        read_word(pull.probe_command().skip("test -e "@.len() as int), false) == Some(
            (pull.remote_page(), " && echo yes"@),
        ),
{
    law_probe_asks_for_the_file(pull.remote_page());
}

} // verus!
