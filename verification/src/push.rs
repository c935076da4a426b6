//! Pushing one page: back up, upload beside the page, rename into place, read back and check.
use vstd::prelude::*;
use vstd::string::*;

use crate::digest::same_digest;
use crate::lookup::{listed_notebook, notebook_from_listing};
use crate::outside::{lossy_of, lossy_text, sha256_of};
use crate::path::{join_path, joined};
use crate::remote::{
    content_path, content_path_of, date, date_of, list_command, list_command_of, metadata_path,
    metadata_path_of, move_command, move_command_of, output_of, page_path, page_path_of,
    probe_command, probe_command_of, probe_of, probe_result, scp_down, scp_down_of, scp_up,
    scp_up_of, ssh, ssh_of, ssh_output, upload_path, upload_path_of, Probe, ProbeView, Reply,
    ReplyView,
};
use crate::task::{
    optional_failure, Event, EventView, Failure, FailureView, LocalPath, LocalPathView, Task,
    TaskView,
};
use crate::text::{concat2, concat3, replace_char, replaced, texts, trim, trim_of};
use crate::uuid::{is_uuid, looks_like_uuid};

verus! {

/// How many milliseconds a push waits before it reads the clock again, where its backup directory
/// exists already.
pub const CLOCK_PAUSE: u64 = 100;

/// How far a push has come.
#[derive(Clone, Copy, PartialEq, Eq, Structural)]
pub enum PushPhase {
    /// Listing the notebooks with the name.
    Listing,
    /// Reading the clock.
    Clock,
    /// Finding the home directory.
    Home,
    /// Creating the backup directory anew.
    Directory,
    /// Waiting until the clock tells another time.
    Wait,
    /// Saving the notebook's metadata.
    SaveMetadata,
    /// Saving the notebook's content.
    SaveContent,
    /// Asking whether the page exists.
    Probe,
    /// Saving the page.
    SavePage,
    /// Uploading the file beside the page.
    Upload,
    /// Renaming the uploaded file to the page.
    Rename,
    /// Copying the page back.
    ReadBack,
    /// Reading both files.
    Compare,
    /// Removing the copy that was read back.
    Discard,
    /// The push is over and went well.
    Done,
    /// A task ended with an error.
    Raised,
    /// The push failed.
    Failed,
}

/// A push that is under way or over.
pub struct Push {
    host: String,
    notebook: String,
    page: String,
    file: String,
    uuid: String,
    stamp: String,
    home: String,
    existed: bool,
    phase: PushPhase,
    failure: Option<Failure>,
}

pub struct PushView {
    pub host: Seq<char>,
    /// The name or UUID that was given.
    pub notebook: Seq<char>,
    pub page: Seq<char>,
    /// The file that is pushed, as it is shown.
    pub file: Seq<char>,
    pub uuid: Seq<char>,
    /// When the push began.
    pub stamp: Seq<char>,
    pub home: Seq<char>,
    /// Whether the page was there before.
    pub existed: bool,
    pub phase: PushPhase,
    pub failure: Option<FailureView>,
}

impl View for Push {
    type V = PushView;

    closed spec fn view(&self) -> PushView {
        PushView {
            host: self.host@,
            notebook: self.notebook@,
            page: self.page@,
            file: self.file@,
            uuid: self.uuid@,
            stamp: self.stamp@,
            home: self.home@,
            existed: self.existed,
            phase: self.phase,
            failure: optional_failure(self.failure),
        }
    }
}

/// The directory of a backup, relative to the home directory.
pub open spec fn backup_dir_of(stamp: Seq<char>, uuid: Seq<char>) -> Seq<char> {
    joined(joined("remarkable-backups"@, stamp), uuid)
}

/// The directory of a backup, relative to the home directory.
pub fn backup_dir(stamp: &str, uuid: &str) -> (r: String)
    ensures
        r@ == backup_dir_of(stamp@, uuid@),
{
    join_path(&join_path("remarkable-backups", stamp), uuid)
}

/// A page as one part of a path on this machine.
pub open spec fn page_part_of(page: Seq<char>) -> Seq<char> {
    replaced(page, '/', "_"@)
}

/// A page as one part of a path on this machine.
pub fn page_part(page: &str) -> (r: String)
    ensures
        r@ == page_part_of(page@),
{
    replace_char(page, '/', "_")
}

impl PushView {
    /// A push before its first task. A UUID needs no lookup.
    pub open spec fn start(
        host: Seq<char>,
        notebook: Seq<char>,
        page: Seq<char>,
        file: Seq<char>,
    ) -> PushView {
        PushView {
            host,
            notebook,
            page,
            file,
            uuid: if is_uuid(notebook) {
                notebook
            } else {
                Seq::empty()
            },
            stamp: Seq::empty(),
            home: Seq::empty(),
            existed: false,
            phase: if is_uuid(notebook) {
                PushPhase::Clock
            } else {
                PushPhase::Listing
            },
            failure: None,
        }
    }

    /// The push in another phase.
    pub open spec fn at(self, phase: PushPhase) -> PushView {
        PushView { phase, ..self }
    }

    /// The push after a failure.
    pub open spec fn failed(self, failure: FailureView) -> PushView {
        PushView { phase: PushPhase::Failed, failure: Some(failure), ..self }
    }

    /// The page's file on the tablet.
    pub open spec fn remote_page(self) -> Seq<char> {
        page_path_of(self.uuid, self.page)
    }

    /// Where the page is uploaded to.
    pub open spec fn remote_upload(self) -> Seq<char> {
        upload_path_of(self.uuid, self.page)
    }

    /// The command that puts the uploaded file in the page's place.
    pub open spec fn rename_command(self) -> Seq<char> {
        move_command_of(self.remote_upload(), self.remote_page())
    }

    /// A file in the backup directory.
    pub open spec fn backup_file(self, name: Seq<char>) -> LocalPathView {
        LocalPathView::Home(joined(backup_dir_of(self.stamp, self.uuid), name))
    }

    /// Where the notebook's metadata is saved.
    pub open spec fn saved_metadata(self) -> LocalPathView {
        self.backup_file(self.uuid + ".metadata"@)
    }

    /// Where the notebook's content is saved.
    pub open spec fn saved_content(self) -> LocalPathView {
        self.backup_file(self.uuid + ".content"@)
    }

    /// Where the page is saved.
    pub open spec fn saved_page(self) -> LocalPathView {
        self.backup_file(page_part_of(self.page) + ".rm"@)
    }

    /// Where the pushed page is copied back to.
    pub open spec fn read_back(self) -> LocalPathView {
        self.backup_file(page_part_of(self.page) + ".rm.pushed-verify"@)
    }

    /// The backup directory.
    pub open spec fn backup(self) -> LocalPathView {
        LocalPathView::Home(backup_dir_of(self.stamp, self.uuid))
    }

    /// The command that asks whether the page exists.
    pub open spec fn page_probe(self) -> Seq<char> {
        probe_command_of(self.remote_page())
    }

    /// The backup directory as it is shown.
    pub open spec fn shown_backup(self) -> Seq<char> {
        joined(self.home, backup_dir_of(self.stamp, self.uuid))
    }

    /// The push after the notebooks have been listed.
    pub open spec fn with_listing(self, reply: ReplyView) -> PushView {
        match reply {
            ReplyView::Pending => self,
            ReplyView::Raised => self.at(PushPhase::Raised),
            ReplyView::Failed(failure) => self.failed(failure),
            ReplyView::Text(listing) => match listed_notebook(self.notebook, listing) {
                Ok(uuid) => PushView { uuid, ..self.at(PushPhase::Clock) },
                Err(failure) => self.failed(failure),
            },
        }
    }

    /// The push after the page has been asked for.
    pub open spec fn with_probe(self, probe: ProbeView) -> PushView {
        match probe {
            ProbeView::Pending => self,
            ProbeView::Raised => self.at(PushPhase::Raised),
            ProbeView::Failed(failure) => self.failed(failure),
            ProbeView::Exists => PushView { existed: true, ..self.at(PushPhase::SavePage) },
            ProbeView::Missing => PushView { existed: false, ..self.at(PushPhase::Upload) },
        }
    }

    /// The push after a program that leads to `next` where it succeeds.
    pub open spec fn after_run(
        self,
        event: EventView,
        next: PushPhase,
        failure: FailureView,
    ) -> PushView {
        match event {
            EventView::Exited { success } => if success {
                self.at(next)
            } else {
                self.failed(failure)
            },
            EventView::Failed => self.at(PushPhase::Raised),
            _ => self,
        }
    }

    /// The push after the digests of the two files have been compared.
    pub open spec fn with_verdict(self, same: bool) -> PushView {
        if same {
            self.at(PushPhase::Discard)
        } else {
            self.failed(FailureView::VerifyFailed(self.shown_backup()))
        }
    }

    /// The push after both files have been read.
    pub open spec fn with_contents(self, sent: Seq<u8>, returned: Seq<u8>) -> PushView {
        self.with_verdict(sha256_of(sent) == sha256_of(returned))
    }

    /// The push after `event`. An event that does not answer the task changes nothing.
    pub open spec fn next(self, event: EventView) -> PushView {
        match self.phase {
            PushPhase::Listing => self.with_listing(
                output_of(list_command_of(self.notebook), event),
            ),
            PushPhase::Clock => match event {
                EventView::Output { status, stdout, stderr } => PushView {
                    stamp: trim_of(lossy_of(stdout)),
                    ..self.at(PushPhase::Home)
                },
                _ => self,
            },
            PushPhase::Home => match event {
                EventView::Home(Some(home)) => PushView { home, ..self.at(PushPhase::Directory) },
                EventView::Home(None) => self.failed(FailureView::NoHomeForBackup),
                _ => self,
            },
            PushPhase::Directory => match event {
                EventView::Done => self.at(PushPhase::SaveMetadata),
                EventView::Exists => self.at(PushPhase::Wait),
                EventView::Failed => self.at(PushPhase::Raised),
                _ => self,
            },
            PushPhase::Wait => match event {
                EventView::Done => self.at(PushPhase::Clock),
                _ => self,
            },
            PushPhase::SaveMetadata => self.after_run(
                event,
                PushPhase::SaveContent,
                FailureView::DownloadFailed(metadata_path_of(self.uuid)),
            ),
            PushPhase::SaveContent => self.after_run(
                event,
                PushPhase::Probe,
                FailureView::DownloadFailed(content_path_of(self.uuid)),
            ),
            PushPhase::Probe => self.with_probe(probe_of(self.page_probe(), event)),
            PushPhase::SavePage => self.after_run(
                event,
                PushPhase::Upload,
                FailureView::DownloadFailed(self.remote_page()),
            ),
            PushPhase::Upload => self.after_run(
                event,
                PushPhase::Rename,
                FailureView::UploadFailed(self.remote_upload()),
            ),
            PushPhase::Rename => self.after_run(
                event,
                PushPhase::ReadBack,
                FailureView::RunFailed(self.rename_command()),
            ),
            PushPhase::ReadBack => self.after_run(
                event,
                PushPhase::Compare,
                FailureView::DownloadFailed(self.remote_page()),
            ),
            PushPhase::Compare => match event {
                EventView::Contents { sent, returned } => self.with_contents(sent, returned),
                EventView::Failed => self.at(PushPhase::Raised),
                _ => self,
            },
            PushPhase::Discard => match event {
                EventView::Done | EventView::Failed => self.at(PushPhase::Done),
                _ => self,
            },
            _ => self,
        }
    }

    /// What the push asks for.
    pub open spec fn task(self) -> TaskView {
        match self.phase {
            PushPhase::Listing => TaskView::Capture(
                ssh_of(self.host, list_command_of(self.notebook)),
            ),
            PushPhase::Clock => TaskView::Clock(date_of()),
            PushPhase::Home => TaskView::FindHome,
            PushPhase::Directory => TaskView::NewDir(self.backup()),
            PushPhase::Wait => TaskView::Wait(CLOCK_PAUSE),
            PushPhase::SaveMetadata => TaskView::Run(
                scp_down_of(self.host, metadata_path_of(self.uuid), self.saved_metadata()),
            ),
            PushPhase::SaveContent => TaskView::Run(
                scp_down_of(self.host, content_path_of(self.uuid), self.saved_content()),
            ),
            PushPhase::Probe => TaskView::Capture(ssh_of(self.host, self.page_probe())),
            PushPhase::SavePage => TaskView::Run(
                scp_down_of(self.host, self.remote_page(), self.saved_page()),
            ),
            PushPhase::Upload => TaskView::Run(
                scp_up_of(self.host, LocalPathView::Source, self.remote_upload()),
            ),
            PushPhase::Rename => TaskView::Run(ssh_of(self.host, self.rename_command())),
            PushPhase::ReadBack => TaskView::Run(
                scp_down_of(self.host, self.remote_page(), self.read_back()),
            ),
            PushPhase::Compare => TaskView::ReadBoth {
                sent: LocalPathView::Source,
                returned: self.read_back(),
            },
            PushPhase::Discard => TaskView::Discard(self.read_back()),
            PushPhase::Done => TaskView::Finish,
            PushPhase::Raised => TaskView::Raise,
            PushPhase::Failed => TaskView::Fail,
        }
    }

    /// What is said before the task.
    pub open spec fn notes(self) -> Seq<Seq<char>> {
        match self.phase {
            PushPhase::SaveMetadata => seq!["Backing up current state to "@ + self.shown_backup()],
            PushPhase::Upload => {
                let pushing = "Pushing "@ + self.file + " -> "@ + self.remote_page();
                if self.existed {
                    seq![pushing]
                } else {
                    seq![
                        "  (page "@ + self.page
                            + " does not exist yet on the device -- this will create it)"@,
                        pushing,
                    ]
                }
            },
            PushPhase::ReadBack => seq!["Verifying..."@],
            PushPhase::Done => seq![
                "Done. Hash-verified on device. Open (or close and reopen) the notebook on the tablet to see the change -- xochitl only re-parses a page's file when its document is opened, so nothing further needs to be sent."@,
            ],
            _ => Seq::empty(),
        }
    }
}

impl Push {
    /// Starts a push of the file that is shown as `file`.
    pub fn new(host: &str, notebook: &str, page: &str, file: &str) -> (r: Push)
        ensures
            r@ == PushView::start(host@, notebook@, page@, file@),
    {
        let known = looks_like_uuid(notebook);
        Push {
            host: host.to_owned(),
            notebook: notebook.to_owned(),
            page: page.to_owned(),
            file: file.to_owned(),
            uuid: if known {
                notebook.to_owned()
            } else {
                String::new()
            },
            stamp: String::new(),
            home: String::new(),
            existed: false,
            phase: if known {
                PushPhase::Clock
            } else {
                PushPhase::Listing
            },
            failure: None,
        }
    }

    fn enter(self, phase: PushPhase) -> (r: Push)
        ensures
            r@ == self@.at(phase),
    {
        Push { phase, ..self }
    }

    fn fail(self, failure: Failure) -> (r: Push)
        ensures
            r@ == self@.failed(failure@),
    {
        Push { phase: PushPhase::Failed, failure: Some(failure), ..self }
    }

    fn remote_page(&self) -> (r: String)
        ensures
            r@ == self@.remote_page(),
    {
        page_path(&self.uuid, &self.page)
    }

    fn remote_upload(&self) -> (r: String)
        ensures
            r@ == self@.remote_upload(),
    {
        upload_path(&self.uuid, &self.page)
    }

    fn rename_command(&self) -> (r: String)
        ensures
            r@ == self@.rename_command(),
    {
        move_command(&self.remote_upload(), &self.remote_page())
    }

    fn backup_file(&self, name: &str) -> (r: LocalPath)
        ensures
            r@ == self@.backup_file(name@),
    {
        LocalPath::Home(join_path(&backup_dir(&self.stamp, &self.uuid), name))
    }

    fn read_back(&self) -> (r: LocalPath)
        ensures
            r@ == self@.read_back(),
    {
        self.backup_file(&concat2(&page_part(&self.page), ".rm.pushed-verify"))
    }

    fn page_probe(&self) -> (r: String)
        ensures
            r@ == self@.page_probe(),
    {
        probe_command(&self.remote_page())
    }

    fn shown_backup(&self) -> (r: String)
        ensures
            r@ == self@.shown_backup(),
    {
        join_path(&self.home, &backup_dir(&self.stamp, &self.uuid))
    }

    fn take_listing(self, reply: Reply) -> (r: Push)
        ensures
            r@ == self@.with_listing(reply@),
    {
        match reply {
            Reply::Pending => self,
            Reply::Raised => self.enter(PushPhase::Raised),
            Reply::Failed(failure) => self.fail(failure),
            Reply::Text(listing) => match notebook_from_listing(&self.notebook, &listing) {
                Ok(uuid) => Push { uuid, phase: PushPhase::Clock, ..self },
                Err(failure) => self.fail(failure),
            },
        }
    }

    fn take_probe(self, probe: Probe) -> (r: Push)
        ensures
            r@ == self@.with_probe(probe@),
    {
        match probe {
            Probe::Pending => self,
            Probe::Raised => self.enter(PushPhase::Raised),
            Probe::Failed(failure) => self.fail(failure),
            Probe::Exists => Push { existed: true, phase: PushPhase::SavePage, ..self },
            Probe::Missing => Push { existed: false, phase: PushPhase::Upload, ..self },
        }
    }

    fn finish_run(self, event: Event, next: PushPhase, failure: Failure) -> (r: Push)
        ensures
            r@ == self@.after_run(event@, next, failure@),
    {
        match event {
            Event::Exited { success } => if success {
                self.enter(next)
            } else {
                self.fail(failure)
            },
            Event::Failed => self.enter(PushPhase::Raised),
            _ => self,
        }
    }

    /// Takes the outcome of comparing the digests of what was sent and what came back.
    pub fn take_verdict(self, same: bool) -> (r: Push)
        ensures
            r@ == self@.with_verdict(same),
    {
        if same {
            self.enter(PushPhase::Discard)
        } else {
            let shown = self.shown_backup();
            self.fail(Failure::VerifyFailed(shown))
        }
    }

    /// Takes the answer to the task.
    pub fn step(self, event: Event) -> (r: Push)
        ensures
            r@ == self@.next(event@),
    {
        match self.phase {
            PushPhase::Listing => {
                let reply = ssh_output(&list_command(&self.notebook), &event);
                self.take_listing(reply)
            },
            PushPhase::Clock => match event {
                Event::Output { status, stdout, stderr } => {
                    let told = lossy_text(stdout.as_slice());
                    Push { stamp: trim(&told).to_owned(), phase: PushPhase::Home, ..self }
                },
                _ => self,
            },
            PushPhase::Home => match event {
                Event::Home(Some(home)) => Push { home, phase: PushPhase::Directory, ..self },
                Event::Home(None) => self.fail(Failure::NoHomeForBackup),
                _ => self,
            },
            PushPhase::Directory => match event {
                Event::Done => self.enter(PushPhase::SaveMetadata),
                Event::Exists => self.enter(PushPhase::Wait),
                Event::Failed => self.enter(PushPhase::Raised),
                _ => self,
            },
            PushPhase::Wait => match event {
                Event::Done => self.enter(PushPhase::Clock),
                _ => self,
            },
            PushPhase::SaveMetadata => {
                let failure = Failure::DownloadFailed(metadata_path(&self.uuid));
                self.finish_run(event, PushPhase::SaveContent, failure)
            },
            PushPhase::SaveContent => {
                let failure = Failure::DownloadFailed(content_path(&self.uuid));
                self.finish_run(event, PushPhase::Probe, failure)
            },
            PushPhase::Probe => {
                let probe = probe_result(&self.page_probe(), &event);
                self.take_probe(probe)
            },
            PushPhase::SavePage => {
                let failure = Failure::DownloadFailed(self.remote_page());
                self.finish_run(event, PushPhase::Upload, failure)
            },
            PushPhase::Upload => {
                let failure = Failure::UploadFailed(self.remote_upload());
                self.finish_run(event, PushPhase::Rename, failure)
            },
            PushPhase::Rename => {
                let failure = Failure::RunFailed(self.rename_command());
                self.finish_run(event, PushPhase::ReadBack, failure)
            },
            PushPhase::ReadBack => {
                let failure = Failure::DownloadFailed(self.remote_page());
                self.finish_run(event, PushPhase::Compare, failure)
            },
            PushPhase::Compare => match event {
                Event::Contents { sent, returned } => self.take_verdict(
                    same_digest(sent.as_slice(), returned.as_slice()),
                ),
                Event::Failed => self.enter(PushPhase::Raised),
                _ => self,
            },
            PushPhase::Discard => match event {
                Event::Done | Event::Failed => self.enter(PushPhase::Done),
                _ => self,
            },
            _ => self,
        }
    }

    /// What the push asks for.
    pub fn task(&self) -> (r: Task)
        ensures
            r@ == self@.task(),
    {
        match self.phase {
            PushPhase::Listing => Task::Capture(ssh(&self.host, &list_command(&self.notebook))),
            PushPhase::Clock => Task::Clock(date()),
            PushPhase::Home => Task::FindHome,
            PushPhase::Directory => Task::NewDir(
                LocalPath::Home(backup_dir(&self.stamp, &self.uuid)),
            ),
            PushPhase::Wait => Task::Wait(CLOCK_PAUSE),
            PushPhase::SaveMetadata => {
                let local = self.backup_file(&concat2(&self.uuid, ".metadata"));
                Task::Run(scp_down(&self.host, &metadata_path(&self.uuid), local))
            },
            PushPhase::SaveContent => {
                let local = self.backup_file(&concat2(&self.uuid, ".content"));
                Task::Run(scp_down(&self.host, &content_path(&self.uuid), local))
            },
            PushPhase::Probe => Task::Capture(ssh(&self.host, &self.page_probe())),
            PushPhase::SavePage => {
                let local = self.backup_file(&concat2(&page_part(&self.page), ".rm"));
                Task::Run(scp_down(&self.host, &self.remote_page(), local))
            },
            PushPhase::Upload => Task::Run(
                scp_up(&self.host, LocalPath::Source, &self.remote_upload()),
            ),
            PushPhase::Rename => Task::Run(ssh(&self.host, &self.rename_command())),
            PushPhase::ReadBack => Task::Run(
                scp_down(&self.host, &self.remote_page(), self.read_back()),
            ),
            PushPhase::Compare => Task::ReadBoth {
                sent: LocalPath::Source,
                returned: self.read_back(),
            },
            PushPhase::Discard => Task::Discard(self.read_back()),
            PushPhase::Done => Task::Finish,
            PushPhase::Raised => Task::Raise,
            PushPhase::Failed => Task::Fail,
        }
    }

    /// What is said before the task.
    pub fn notes(&self) -> (r: Vec<String>)
        ensures
            texts(r@) == self@.notes(),
    {
        let mut out: Vec<String> = Vec::new();
        match self.phase {
            PushPhase::SaveMetadata => {
                out.push(concat2("Backing up current state to ", &self.shown_backup()));
            },
            PushPhase::Upload => {
                if !self.existed {
                    out.push(
                        concat3(
                            "  (page ",
                            &self.page,
                            " does not exist yet on the device -- this will create it)",
                        ),
                    );
                }
                let mut pushing = concat3("Pushing ", &self.file, " -> ");
                pushing.append(&self.remote_page());
                out.push(pushing);
            },
            PushPhase::ReadBack => {
                out.push("Verifying...".to_owned());
            },
            PushPhase::Done => {
                out.push(
                    "Done. Hash-verified on device. Open (or close and reopen) the notebook on the tablet to see the change -- xochitl only re-parses a page's file when its document is opened, so nothing further needs to be sent.".to_owned(),
                );
            },
            _ => {},
        }
        assert(texts(out@) =~= self@.notes());
        out
    }

    /// Why the push failed, if it did.
    pub fn into_failure(self) -> (r: Option<Failure>)
        ensures
            optional_failure(r) == self@.failure,
    {
        self.failure
    }
}

} // verus!
