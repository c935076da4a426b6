//! Pulling a notebook: find it, read its list of pages, then fetch and render each page.
use vstd::prelude::*;
use vstd::string::*;

use crate::content::{
    law_like_contents_list_the_same_pages, optional_texts, page_ids_of, Content,
};
use crate::lookup::{listed_notebook, notebook_from_listing};
use crate::outside::{json_parsed, json_pretty, Json};
use crate::path::{join_path, joined};
use crate::remote::{
    cairosvg, cairosvg_of, content_command, content_command_of, list_command, list_command_of,
    output_of, page_path, page_path_of, probe_command, probe_command_of, probe_of, probe_result,
    rmc, rmc_of, scp_down, scp_down_of, ssh, ssh_of, ssh_output, Probe, ProbeView, Reply, ReplyView,
};
use crate::task::{
    optional_failure, optional_text, Event, EventView, Failure, FailureView, LocalPath,
    LocalPathView, Task, TaskView,
};
use crate::text::{concat2, concat3, decimal, decimal_of};
use crate::uuid::{is_uuid, looks_like_uuid};

verus! {

/// How far a pull has come.
#[derive(Clone, Copy, PartialEq, Eq, Structural)]
pub enum PullPhase {
    /// Listing the notebooks with the name.
    Listing,
    /// Reading the notebook's content file.
    Fetch,
    /// Creating the output directory.
    Directory,
    /// Asking whether the page's file exists.
    Probe,
    /// Copying the page.
    Download,
    /// Drawing the page as SVG.
    Svg,
    /// Drawing the page as PNG.
    Png,
    /// Writing the content file.
    Write,
    /// The pull is over and went well.
    Done,
    /// A task ended with an error.
    Raised,
    /// The pull failed.
    Failed,
}

/// What the last answer brought.
#[derive(Clone, Copy, PartialEq, Eq, Structural)]
pub enum PullNews {
    /// Nothing to tell.
    Nothing,
    /// The output directory is there.
    Opened,
    /// The tablet said that a page has no file.
    Skipped,
    /// A page has been rendered.
    Rendered,
}

/// A pull that is under way or over.
pub struct Pull {
    host: String,
    notebook: String,
    output: String,
    uuid: String,
    content: Option<Content>,
    pages: Vec<Option<String>>,
    index: usize,
    saved: String,
    news: PullNews,
    phase: PullPhase,
    failure: Option<Failure>,
}

pub struct PullView {
    pub host: Seq<char>,
    /// The name or UUID that was given.
    pub notebook: Seq<char>,
    /// The output directory as it is shown.
    pub output: Seq<char>,
    pub uuid: Seq<char>,
    /// What the content file holds, once it has been read.
    pub content: Option<Json>,
    /// The identifiers of the pages.
    pub pages: Seq<Option<Seq<char>>>,
    /// How many pages have been dealt with.
    pub index: nat,
    /// The content file to write.
    pub saved: Seq<char>,
    pub news: PullNews,
    pub phase: PullPhase,
    pub failure: Option<FailureView>,
}

/// What a content file holds, once it has been read.
pub open spec fn optional_content(content: Option<Content>) -> Option<Json> {
    match content {
        Some(found) => Some(found@),
        None => None,
    }
}

impl View for Pull {
    type V = PullView;

    closed spec fn view(&self) -> PullView {
        PullView {
            host: self.host@,
            notebook: self.notebook@,
            output: self.output@,
            uuid: self.uuid@,
            content: optional_content(self.content),
            pages: optional_texts(self.pages@),
            index: self.index as nat,
            saved: self.saved@,
            news: self.news,
            phase: self.phase,
            failure: optional_failure(self.failure),
        }
    }
}

/// Whether a phase deals with one page.
pub open spec fn is_page_phase(phase: PullPhase) -> bool {
    phase is Probe || phase is Download || phase is Svg || phase is Png
}

impl PullView {
    /// A pull before its first task. A UUID needs no lookup.
    pub open spec fn start(host: Seq<char>, notebook: Seq<char>, output: Seq<char>) -> PullView {
        PullView {
            host,
            notebook,
            output,
            uuid: if is_uuid(notebook) {
                notebook
            } else {
                Seq::empty()
            },
            content: None,
            pages: Seq::empty(),
            index: 0,
            saved: Seq::empty(),
            news: PullNews::Nothing,
            phase: if is_uuid(notebook) {
                PullPhase::Fetch
            } else {
                PullPhase::Listing
            },
            failure: None,
        }
    }

    /// Whether the parts of a pull fit together: no more pages are dealt with than there are, a
    /// phase that deals with a page has one, with an identifier, the content is there once the
    /// pages are, and what was skipped or rendered is a page with an identifier.
    pub open spec fn is_valid(self) -> bool {
        &&& self.index <= self.pages.len()
        &&& self.phase is Directory || is_page_phase(self.phase) ==> self.content is Some
        &&& is_page_phase(self.phase) ==> self.index < self.pages.len()
            && self.pages[self.index as int] is Some
        &&& self.news is Skipped || self.news is Rendered ==> 0 < self.index
            && self.pages[self.index - 1] is Some
    }

    /// The pull in another phase, with nothing to tell.
    pub open spec fn at(self, phase: PullPhase) -> PullView {
        PullView { phase, news: PullNews::Nothing, ..self }
    }

    /// The pull after a failure, with nothing else to tell.
    pub open spec fn failed(self, failure: FailureView) -> PullView {
        PullView { failure: Some(failure), ..self.at(PullPhase::Failed) }
    }

    /// The identifier of the page that is dealt with.
    pub open spec fn page(self) -> Seq<char> {
        self.pages[self.index as int]->0
    }

    /// The page's file on the tablet.
    pub open spec fn remote_page(self) -> Seq<char> {
        page_path_of(self.uuid, self.page())
    }

    /// The command that asks for the page's file.
    pub open spec fn probe_command(self) -> Seq<char> {
        probe_command_of(self.remote_page())
    }

    /// A file of the page in the output directory.
    pub open spec fn page_file(self, extension: Seq<char>) -> LocalPathView {
        LocalPathView::Output(self.page() + extension)
    }

    /// A file of page `page` in the output directory, as it is shown.
    pub open spec fn shown_file(self, page: Seq<char>, extension: Seq<char>) -> Seq<char> {
        joined(self.output, page + extension)
    }

    /// The pull with the page at `index` next, or the content file where no page is left.
    pub open spec fn at_page(self, index: nat, news: PullNews) -> PullView {
        let pull = PullView { index, news, ..self };
        if index < self.pages.len() {
            if self.pages[index as int] is Some {
                PullView { phase: PullPhase::Probe, ..pull }
            } else {
                PullView { news, ..pull.failed(FailureView::PageWithoutId) }
            }
        } else {
            match json_pretty(self.content->0) {
                Ok(text) => PullView { saved: text, phase: PullPhase::Write, ..pull },
                Err(error) => PullView {
                    news,
                    ..pull.failed(FailureView::UnprintableContent(error))
                },
            }
        }
    }

    /// The pull after the notebooks have been listed.
    pub open spec fn with_listing(self, reply: ReplyView) -> PullView {
        match reply {
            ReplyView::Pending => self,
            ReplyView::Raised => self.at(PullPhase::Raised),
            ReplyView::Failed(failure) => self.failed(failure),
            ReplyView::Text(listing) => match listed_notebook(self.notebook, listing) {
                Ok(uuid) => PullView { uuid, ..self.at(PullPhase::Fetch) },
                Err(failure) => self.failed(failure),
            },
        }
    }

    /// The pull after the content file has been parsed, or could not be.
    pub open spec fn with_content(self, parsed: Result<Json, serde_json::Error>) -> PullView {
        match parsed {
            Ok(content) => match page_ids_of(content) {
                Some(pages) => PullView {
                    content: Some(content),
                    pages,
                    index: 0,
                    ..self.at(PullPhase::Directory)
                },
                None => self.failed(FailureView::NoPages),
            },
            Err(error) => self.failed(FailureView::BadContent(error)),
        }
    }

    /// The pull after the content file has been read.
    pub open spec fn with_raw_content(self, reply: ReplyView) -> PullView {
        match reply {
            ReplyView::Pending => self,
            ReplyView::Raised => self.at(PullPhase::Raised),
            ReplyView::Failed(failure) => self.failed(failure),
            ReplyView::Text(raw) => self.with_content(json_parsed(raw)),
        }
    }

    /// The pull after the page's file has been asked for: it is copied where it is there, and
    /// passed over where the tablet said that it is not.
    pub open spec fn with_probe(self, probe: ProbeView) -> PullView {
        match probe {
            ProbeView::Pending => self,
            ProbeView::Raised => self.at(PullPhase::Raised),
            ProbeView::Failed(failure) => self.failed(failure),
            ProbeView::Exists => self.at(PullPhase::Download),
            ProbeView::Missing => self.at_page(self.index + 1, PullNews::Skipped),
        }
    }

    /// The pull after a program that leads to `next` where it succeeds.
    pub open spec fn after_run(
        self,
        event: EventView,
        next: PullView,
        failure: FailureView,
    ) -> PullView {
        match event {
            EventView::Exited { success } => if success {
                next
            } else {
                self.failed(failure)
            },
            EventView::Failed => self.at(PullPhase::Raised),
            _ => self,
        }
    }

    /// The pull after `event`. An event that does not answer the task changes nothing.
    pub open spec fn next(self, event: EventView) -> PullView {
        match self.phase {
            PullPhase::Listing => self.with_listing(
                output_of(list_command_of(self.notebook), event),
            ),
            PullPhase::Fetch => self.with_raw_content(
                output_of(content_command_of(self.uuid), event),
            ),
            PullPhase::Directory => match event {
                EventView::Done => self.at_page(0, PullNews::Opened),
                EventView::Failed => self.at(PullPhase::Raised),
                _ => self,
            },
            PullPhase::Probe => self.with_probe(probe_of(self.probe_command(), event)),
            PullPhase::Download => self.after_run(
                event,
                self.at(PullPhase::Svg),
                FailureView::DownloadFailed(self.remote_page()),
            ),
            PullPhase::Svg => self.after_run(
                event,
                self.at(PullPhase::Png),
                FailureView::SvgFailed(self.shown_file(self.page(), ".rm"@)),
            ),
            PullPhase::Png => self.after_run(
                event,
                self.at_page(self.index + 1, PullNews::Rendered),
                FailureView::PngFailed(self.shown_file(self.page(), ".svg"@)),
            ),
            PullPhase::Write => match event {
                EventView::Done => self.at(PullPhase::Done),
                EventView::Failed => self.at(PullPhase::Raised),
                _ => self,
            },
            _ => self,
        }
    }

    /// What the pull asks for.
    pub open spec fn task(self) -> TaskView {
        match self.phase {
            PullPhase::Listing => TaskView::Capture(
                ssh_of(self.host, list_command_of(self.notebook)),
            ),
            PullPhase::Fetch => TaskView::Capture(ssh_of(self.host, content_command_of(self.uuid))),
            PullPhase::Directory => TaskView::MakeDir(LocalPathView::OutputDir),
            PullPhase::Probe => TaskView::Capture(ssh_of(self.host, self.probe_command())),
            PullPhase::Download => TaskView::Run(
                scp_down_of(self.host, self.remote_page(), self.page_file(".rm"@)),
            ),
            PullPhase::Svg => TaskView::Run(
                rmc_of(self.page_file(".rm"@), self.page_file(".svg"@)),
            ),
            PullPhase::Png => TaskView::Run(
                cairosvg_of(self.page_file(".svg"@), self.page_file(".png"@)),
            ),
            PullPhase::Write => TaskView::WriteText {
                path: LocalPathView::Output("content.json"@),
                text: self.saved,
            },
            PullPhase::Done => TaskView::Finish,
            PullPhase::Raised => TaskView::Raise,
            PullPhase::Failed => TaskView::Fail,
        }
    }

    /// What is said before the task, if anything.
    pub open spec fn note(self) -> Option<Seq<char>> {
        let last = self.pages[self.index - 1]->0;
        match self.news {
            PullNews::Nothing => None,
            PullNews::Opened => Some(
                "Notebook '"@ + self.notebook + "' ("@ + self.uuid + ") -- "@ + decimal_of(
                    self.pages.len(),
                ) + " page(s)"@,
            ),
            PullNews::Skipped => Some(
                "  page "@ + decimal_of(self.index) + ": "@ + last
                    + " -- SKIPPED (no .rm file on device)"@,
            ),
            PullNews::Rendered => Some(
                "  page "@ + decimal_of(self.index) + ": "@ + self.shown_file(last, ".png"@),
            ),
        }
    }
}

/// Whether `text` is what is printed for `content`. Content without fractions and exponents is then
/// read back from it, and of other content nothing but such numbers can be read otherwise.
pub open spec fn stands_for(text: Seq<char>, content: Json) -> bool {
    &&& json_pretty(content) == Ok::<Seq<char>, serde_json::Error>(text)
    &&& content.is_whole() ==> json_parsed(text) == Ok::<Json, serde_json::Error>(content)
    &&& json_parsed(text) matches Ok(found) ==> content.is_like(found)
}

/// What is read from the text that stands for a notebook's content lists the notebook's pages, those
/// that were skipped among them.
pub proof fn law_written_content_lists_every_page(text: Seq<char>, content: Json)
    requires
        stands_for(text, content),
    ensures
        json_parsed(text) matches Ok(found) ==> page_ids_of(found) == page_ids_of(content),
        content.is_whole() ==> json_parsed(text) is Ok,
{
    if json_parsed(text) is Ok {
        law_like_contents_list_the_same_pages(content, json_parsed(text)->Ok_0);
    }
}

impl Pull {
    #[verifier::type_invariant]
    spec fn fits_together(self) -> bool {
        &&& self@.is_valid()
        &&& self@.phase is Write || self@.phase is Done ==> self@.content is Some && stands_for(
            self@.saved,
            self@.content->0,
        )
    }

    /// Starts a pull into the directory that is shown as `output`.
    pub fn new(host: &str, notebook: &str, output: &str) -> (r: Pull)
        ensures
            r@ == PullView::start(host@, notebook@, output@),
    {
        let known = looks_like_uuid(notebook);
        let pages: Vec<Option<String>> = Vec::new();
        assert(optional_texts(pages@) =~= Seq::empty());
        Pull {
            host: host.to_owned(),
            notebook: notebook.to_owned(),
            output: output.to_owned(),
            uuid: if known {
                notebook.to_owned()
            } else {
                String::new()
            },
            content: None,
            pages,
            index: 0,
            saved: String::new(),
            news: PullNews::Nothing,
            phase: if known {
                PullPhase::Fetch
            } else {
                PullPhase::Listing
            },
            failure: None,
        }
    }

    fn enter(self, phase: PullPhase) -> (r: Pull)
        requires
            self@.at(phase).is_valid(),
            !(phase is Write),
            phase is Done ==> self@.phase is Write,
        ensures
            r@ == self@.at(phase),
    {
        proof {
            use_type_invariant(&self);
        }
        Pull { phase, news: PullNews::Nothing, ..self }
    }

    fn fail(self, failure: Failure) -> (r: Pull)
        ensures
            r@ == self@.failed(failure@),
    {
        proof {
            use_type_invariant(&self);
        }
        Pull {
            phase: PullPhase::Failed,
            news: PullNews::Nothing,
            failure: Some(failure),
            ..self
        }
    }

    fn page(&self) -> (r: &str)
        requires
            is_page_phase(self@.phase),
        ensures
            r@ == self@.page(),
    {
        proof {
            use_type_invariant(self);
        }
        assert(self@.pages[self.index as int] == optional_text(self.pages@[self.index as int]));
        match &self.pages[self.index] {
            Some(id) => id.as_str(),
            None => "",
        }
    }

    fn remote_page(&self) -> (r: String)
        requires
            is_page_phase(self@.phase),
        ensures
            r@ == self@.remote_page(),
    {
        page_path(&self.uuid, self.page())
    }

    fn page_file(&self, extension: &str) -> (r: LocalPath)
        requires
            is_page_phase(self@.phase),
        ensures
            r@ == self@.page_file(extension@),
    {
        LocalPath::Output(concat2(self.page(), extension))
    }

    fn shown_file(&self, page: &str, extension: &str) -> (r: String)
        ensures
            r@ == self@.shown_file(page@, extension@),
    {
        join_path(&self.output, &concat2(page, extension))
    }

    fn enter_page(self, index: usize, news: PullNews) -> (r: Pull)
        requires
            index <= self@.pages.len(),
            self@.content is Some,
            news is Skipped || news is Rendered ==> 0 < index && self@.pages[index - 1] is Some,
        ensures
            r@ == self@.at_page(index as nat, news),
    {
        if index < self.pages.len() {
            assert(self@.pages[index as int] == optional_text(self.pages@[index as int]));
            if self.pages[index].is_some() {
                Pull { index, news, phase: PullPhase::Probe, ..self }
            } else {
                Pull {
                    index,
                    news,
                    phase: PullPhase::Failed,
                    failure: Some(Failure::PageWithoutId),
                    ..self
                }
            }
        } else {
            let printed = match &self.content {
                Some(content) => content.to_pretty(),
                None => Ok(String::new()),
            };
            match printed {
                Ok(saved) => Pull { index, news, saved, phase: PullPhase::Write, ..self },
                Err(failure) => Pull {
                    index,
                    news,
                    phase: PullPhase::Failed,
                    failure: Some(failure),
                    ..self
                },
            }
        }
    }

    fn take_listing(self, reply: Reply) -> (r: Pull)
        requires
            self@.phase is Listing,
        ensures
            r@ == self@.with_listing(reply@),
    {
        proof {
            use_type_invariant(&self);
        }
        match reply {
            Reply::Pending => self,
            Reply::Raised => self.enter(PullPhase::Raised),
            Reply::Failed(failure) => self.fail(failure),
            Reply::Text(listing) => match notebook_from_listing(&self.notebook, &listing) {
                Ok(uuid) => Pull { uuid, phase: PullPhase::Fetch, news: PullNews::Nothing, ..self },
                Err(failure) => self.fail(failure),
            },
        }
    }

    /// Takes the notebook's content, or why there is none.
    pub fn take_content(self, parsed: Result<Content, Failure>) -> (r: Pull)
        ensures
            r@ == match parsed {
                Ok(content) => self@.with_content(Ok(content@)),
                Err(failure) => self@.failed(failure@),
            },
    {
        proof {
            use_type_invariant(&self);
        }
        match parsed {
            Ok(content) => match content.page_ids() {
                Ok(pages) => Pull {
                    content: Some(content),
                    pages,
                    index: 0,
                    phase: PullPhase::Directory,
                    news: PullNews::Nothing,
                    ..self
                },
                Err(failure) => self.fail(failure),
            },
            Err(failure) => self.fail(failure),
        }
    }

    fn take_raw_content(self, reply: Reply) -> (r: Pull)
        requires
            self@.phase is Fetch,
        ensures
            r@ == self@.with_raw_content(reply@),
    {
        proof {
            use_type_invariant(&self);
        }
        match reply {
            Reply::Pending => self,
            Reply::Raised => self.enter(PullPhase::Raised),
            Reply::Failed(failure) => self.fail(failure),
            Reply::Text(raw) => self.take_content(Content::parse(&raw)),
        }
    }

    fn take_probe(self, probe: Probe) -> (r: Pull)
        requires
            self@.phase is Probe,
        ensures
            r@ == self@.with_probe(probe@),
    {
        proof {
            use_type_invariant(&self);
        }
        assert(self@.pages.len() == self.pages.len());
        let index: usize = self.index;
        match probe {
            Probe::Pending => self,
            Probe::Raised => self.enter(PullPhase::Raised),
            Probe::Failed(failure) => self.fail(failure),
            Probe::Exists => self.enter(PullPhase::Download),
            Probe::Missing => self.enter_page(index + 1, PullNews::Skipped),
        }
    }

    /// Takes the answer to the task. What is saved in the end is the notebook's content.
    pub fn step(self, event: Event) -> (r: Pull)
        ensures
            r@ == self@.next(event@),
            r@.phase is Write || r@.phase is Done ==> r@.content is Some && stands_for(
                r@.saved,
                r@.content->0,
            ),
    {
        let r = self.advance(event);
        proof {
            use_type_invariant(&r);
        }
        r
    }

    fn advance(self, event: Event) -> (r: Pull)
        ensures
            r@ == self@.next(event@),
    {
        proof {
            use_type_invariant(&self);
        }
        assert(self@.pages.len() == self.pages.len());
        let index: usize = self.index;
        match self.phase {
            PullPhase::Listing => {
                let reply = ssh_output(&list_command(&self.notebook), &event);
                self.take_listing(reply)
            },
            PullPhase::Fetch => {
                let reply = ssh_output(&content_command(&self.uuid), &event);
                self.take_raw_content(reply)
            },
            PullPhase::Directory => match event {
                Event::Done => self.enter_page(0, PullNews::Opened),
                Event::Failed => self.enter(PullPhase::Raised),
                _ => self,
            },
            PullPhase::Probe => {
                let probe = probe_result(&probe_command(&self.remote_page()), &event);
                self.take_probe(probe)
            },
            PullPhase::Download => match event {
                Event::Exited { success } => if success {
                    self.enter(PullPhase::Svg)
                } else {
                    let failure = Failure::DownloadFailed(self.remote_page());
                    self.fail(failure)
                },
                Event::Failed => self.enter(PullPhase::Raised),
                _ => self,
            },
            PullPhase::Svg => match event {
                Event::Exited { success } => if success {
                    self.enter(PullPhase::Png)
                } else {
                    let failure = Failure::SvgFailed(self.shown_file(self.page(), ".rm"));
                    self.fail(failure)
                },
                Event::Failed => self.enter(PullPhase::Raised),
                _ => self,
            },
            PullPhase::Png => match event {
                Event::Exited { success } => if success {
                    self.enter_page(index + 1, PullNews::Rendered)
                } else {
                    let failure = Failure::PngFailed(self.shown_file(self.page(), ".svg"));
                    self.fail(failure)
                },
                Event::Failed => self.enter(PullPhase::Raised),
                _ => self,
            },
            PullPhase::Write => match event {
                Event::Done => self.enter(PullPhase::Done),
                Event::Failed => self.enter(PullPhase::Raised),
                _ => self,
            },
            _ => self,
        }
    }

    /// What the pull asks for. The text that is written is the notebook's content.
    pub fn task(&self) -> (r: Task)
        ensures
            r@ == self@.task(),
            r@ matches TaskView::WriteText { path, text } ==> self@.content is Some && stands_for(
                text,
                self@.content->0,
            ),
    {
        proof {
            use_type_invariant(self);
        }
        match self.phase {
            PullPhase::Listing => Task::Capture(ssh(&self.host, &list_command(&self.notebook))),
            PullPhase::Fetch => Task::Capture(ssh(&self.host, &content_command(&self.uuid))),
            PullPhase::Directory => Task::MakeDir(LocalPath::OutputDir),
            PullPhase::Probe => {
                let command = probe_command(&self.remote_page());
                Task::Capture(ssh(&self.host, &command))
            },
            PullPhase::Download => Task::Run(
                scp_down(&self.host, &self.remote_page(), self.page_file(".rm")),
            ),
            PullPhase::Svg => Task::Run(rmc(self.page_file(".rm"), self.page_file(".svg"))),
            PullPhase::Png => Task::Run(cairosvg(self.page_file(".svg"), self.page_file(".png"))),
            PullPhase::Write => Task::WriteText {
                path: LocalPath::Output("content.json".to_owned()),
                text: self.saved.clone(),
            },
            PullPhase::Done => Task::Finish,
            PullPhase::Raised => Task::Raise,
            PullPhase::Failed => Task::Fail,
        }
    }

    fn last_page(&self) -> (r: &str)
        requires
            self@.news is Skipped || self@.news is Rendered,
        ensures
            r@ == self@.pages[self@.index - 1]->0,
    {
        proof {
            use_type_invariant(self);
        }
        assert(self@.pages[self.index - 1] == optional_text(self.pages@[self.index - 1]));
        match &self.pages[self.index - 1] {
            Some(id) => id.as_str(),
            None => "",
        }
    }

    /// What is said before the task, if anything.
    pub fn note(&self) -> (r: Option<String>)
        ensures
            optional_text(r) == self@.note(),
    {
        match self.news {
            PullNews::Nothing => None,
            PullNews::Opened => {
                let mut out = concat3("Notebook '", &self.notebook, "' (");
                out.append(&self.uuid);
                out.append(") -- ");
                out.append(&decimal(self.pages.len()));
                out.append(" page(s)");
                Some(out)
            },
            PullNews::Skipped => {
                let mut out = concat3("  page ", &decimal(self.index), ": ");
                out.append(self.last_page());
                out.append(" -- SKIPPED (no .rm file on device)");
                Some(out)
            },
            PullNews::Rendered => {
                let mut out = concat3("  page ", &decimal(self.index), ": ");
                out.append(&self.shown_file(self.last_page(), ".png"));
                Some(out)
            },
        }
    }

    /// Why the pull failed, if it did.
    pub fn into_failure(self) -> (r: Option<Failure>)
        ensures
            optional_failure(r) == self@.failure,
    {
        self.failure
    }
}

} // verus!
