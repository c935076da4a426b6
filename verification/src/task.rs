//! What a run asks its caller to do, what the caller answers, and how a run can fail.
use vstd::prelude::*;
use vstd::string::*;

use crate::text::{concat2, concat3, decimal, decimal_of};

verus! {

/// The text of an optional string.
pub open spec fn optional_text(s: Option<String>) -> Option<Seq<char>> {
    match s {
        Some(text) => Some(text@),
        None => None,
    }
}

/// A file or directory on this machine.
#[derive(Debug, PartialEq, Eq)]
pub enum LocalPath {
    /// A path relative to the home directory.
    Home(String),
    /// The output directory.
    OutputDir,
    /// A path relative to the output directory.
    Output(String),
    /// The file that is pushed.
    Source,
}

pub enum LocalPathView {
    Home(Seq<char>),
    OutputDir,
    Output(Seq<char>),
    Source,
}

impl View for LocalPath {
    type V = LocalPathView;

    open spec fn view(&self) -> LocalPathView {
        match self {
            LocalPath::Home(path) => LocalPathView::Home(path@),
            LocalPath::OutputDir => LocalPathView::OutputDir,
            LocalPath::Output(path) => LocalPathView::Output(path@),
            LocalPath::Source => LocalPathView::Source,
        }
    }
}

/// One argument of a program.
#[derive(Debug, PartialEq, Eq)]
pub enum Arg {
    Text(String),
    /// The path of a local file.
    File(LocalPath),
    /// The Python script that renders one local file into another.
    PngScript { svg: LocalPath, png: LocalPath },
}

pub enum ArgView {
    Text(Seq<char>),
    File(LocalPathView),
    PngScript { svg: LocalPathView, png: LocalPathView },
}

impl View for Arg {
    type V = ArgView;

    open spec fn view(&self) -> ArgView {
        match self {
            Arg::Text(text) => ArgView::Text(text@),
            Arg::File(path) => ArgView::File(path@),
            Arg::PngScript { svg, png } => ArgView::PngScript { svg: svg@, png: png@ },
        }
    }
}

/// A program to start, its arguments, and what an error says was going on where it cannot be
/// started.
#[derive(Debug, PartialEq, Eq)]
pub struct Invocation {
    pub program: String,
    pub args: Vec<Arg>,
    pub context: String,
}

pub struct InvocationView {
    pub program: Seq<char>,
    pub args: Seq<ArgView>,
    pub context: Seq<char>,
}

impl View for Invocation {
    type V = InvocationView;

    open spec fn view(&self) -> InvocationView {
        InvocationView {
            program: self.program@,
            args: self.args@.map_values(|arg: Arg| arg@),
            context: self.context@,
        }
    }
}

/// What a run asks for next.
#[derive(Debug, PartialEq, Eq)]
pub enum Task {
    /// Find the home directory.
    FindHome,
    /// Read a file.
    ReadFile(LocalPath),
    /// Show a prompt and read one line.
    Ask(String),
    /// Create a directory with its parents and set its mode, which may fail without harm.
    PrivateDir { path: LocalPath, mode: u32, context: String },
    /// Append a text to a file. Where that creates the file, set its mode, which may fail without
    /// harm.
    Append { path: LocalPath, text: String, mode: u32, context: String },
    /// Create a directory with its parents.
    MakeDir(LocalPath),
    /// Create a directory anew, with its parents. It is an answer of its own that it exists.
    NewDir(LocalPath),
    /// Wait for so many milliseconds.
    Wait(u64),
    /// Run a program and capture its output.
    Capture(Invocation),
    /// Run a program that writes to the terminal itself.
    Run(Invocation),
    /// Run the program that tells the time and capture its output. It is always available.
    Clock(Invocation),
    /// Read two files, in this order.
    ReadBoth { sent: LocalPath, returned: LocalPath },
    /// Remove a file, which may fail without harm.
    Discard(LocalPath),
    /// Write a text file.
    WriteText { path: LocalPath, text: String },
    /// Nothing more: the run is over and went well.
    Finish,
    /// Nothing more: leave the program, with success.
    Exit,
    /// Nothing more: report the error that the last task ended with.
    Raise,
    /// Nothing more: report the run's failure.
    Fail,
}

pub enum TaskView {
    FindHome,
    ReadFile(LocalPathView),
    Ask(Seq<char>),
    PrivateDir { path: LocalPathView, mode: u32, context: Seq<char> },
    Append { path: LocalPathView, text: Seq<char>, mode: u32, context: Seq<char> },
    MakeDir(LocalPathView),
    NewDir(LocalPathView),
    Wait(u64),
    Capture(InvocationView),
    Run(InvocationView),
    Clock(InvocationView),
    ReadBoth { sent: LocalPathView, returned: LocalPathView },
    Discard(LocalPathView),
    WriteText { path: LocalPathView, text: Seq<char> },
    Finish,
    Exit,
    Raise,
    Fail,
}

impl View for Task {
    type V = TaskView;

    open spec fn view(&self) -> TaskView {
        match self {
            Task::FindHome => TaskView::FindHome,
            Task::ReadFile(path) => TaskView::ReadFile(path@),
            Task::Ask(prompt) => TaskView::Ask(prompt@),
            Task::PrivateDir { path, mode, context } => TaskView::PrivateDir {
                path: path@,
                mode: *mode,
                context: context@,
            },
            Task::Append { path, text, mode, context } => TaskView::Append {
                path: path@,
                text: text@,
                mode: *mode,
                context: context@,
            },
            Task::MakeDir(path) => TaskView::MakeDir(path@),
            Task::NewDir(path) => TaskView::NewDir(path@),
            Task::Wait(millis) => TaskView::Wait(*millis),
            Task::Capture(program) => TaskView::Capture(program@),
            Task::Run(program) => TaskView::Run(program@),
            Task::Clock(program) => TaskView::Clock(program@),
            Task::ReadBoth { sent, returned } => TaskView::ReadBoth {
                sent: sent@,
                returned: returned@,
            },
            Task::Discard(path) => TaskView::Discard(path@),
            Task::WriteText { path, text } => TaskView::WriteText { path: path@, text: text@ },
            Task::Finish => TaskView::Finish,
            Task::Exit => TaskView::Exit,
            Task::Raise => TaskView::Raise,
            Task::Fail => TaskView::Fail,
        }
    }
}

impl TaskView {
    /// Whether the run is over.
    pub open spec fn is_end(self) -> bool {
        self is Finish || self is Exit || self is Raise || self is Fail
    }

    /// Whether `event` answers the task.
    pub open spec fn is_answered_by(self, event: EventView) -> bool {
        match self {
            TaskView::FindHome => event is Home,
            TaskView::ReadFile(_) => event is File || event is Failed,
            TaskView::Ask(_) => event is Text || event is Failed,
            TaskView::NewDir(_) => event is Done || event is Exists || event is Failed,
            TaskView::Wait(_) => event is Done,
            TaskView::Capture(_) => event is Output || event is Failed,
            TaskView::Clock(_) => event is Output,
            TaskView::Run(_) => event is Exited || event is Failed,
            TaskView::ReadBoth { .. } => event is Contents || event is Failed,
            TaskView::PrivateDir { .. } | TaskView::Append { .. } | TaskView::MakeDir(_)
            | TaskView::Discard(_) | TaskView::WriteText { .. } => event is Done || event is Failed,
            TaskView::Finish | TaskView::Exit | TaskView::Raise | TaskView::Fail => false,
        }
    }
}

/// The answer to a task.
#[derive(Debug)]
pub enum Event {
    /// The task could not be carried out; the caller keeps the error.
    Failed,
    /// The task was carried out and there is nothing to tell.
    Done,
    /// The home directory, where there is one.
    Home(Option<String>),
    /// The line that was read.
    Text(String),
    /// What the file holds.
    File(Vec<u8>),
    /// The directory exists already.
    Exists,
    /// A program came to its end, with its exit status, where it has one, and what it wrote.
    Output { status: Option<i32>, stdout: Vec<u8>, stderr: Vec<u8> },
    /// A program came to its end.
    Exited { success: bool },
    /// What the two files hold.
    Contents { sent: Vec<u8>, returned: Vec<u8> },
}

pub enum EventView {
    Failed,
    Done,
    Home(Option<Seq<char>>),
    Text(Seq<char>),
    File(Seq<u8>),
    Exists,
    Output { status: Option<i32>, stdout: Seq<u8>, stderr: Seq<u8> },
    Exited { success: bool },
    Contents { sent: Seq<u8>, returned: Seq<u8> },
}

impl View for Event {
    type V = EventView;

    open spec fn view(&self) -> EventView {
        match self {
            Event::Failed => EventView::Failed,
            Event::Done => EventView::Done,
            Event::Home(path) => EventView::Home(optional_text(*path)),
            Event::Text(text) => EventView::Text(text@),
            Event::File(contents) => EventView::File(contents@),
            Event::Exists => EventView::Exists,
            Event::Output { status, stdout, stderr } => EventView::Output {
                status: *status,
                stdout: stdout@,
                stderr: stderr@,
            },
            Event::Exited { success } => EventView::Exited { success: *success },
            Event::Contents { sent, returned } => EventView::Contents {
                sent: sent@,
                returned: returned@,
            },
        }
    }
}

/// Why a run failed.
#[derive(Debug)]
pub enum Failure {
    NoHomeForSetup,
    NoHomeForBackup,
    HostnameRequired,
    NoNotebook(String),
    ManyNotebooks(String, usize),
    UnexpectedMetadataPath(String),
    CommandFailed { command: String, stderr: String },
    RunFailed(String),
    DownloadFailed(String),
    UploadFailed(String),
    BadContent(serde_json::Error),
    NoPages,
    PageWithoutId,
    SvgFailed(String),
    PngFailed(String),
    UnprintableContent(serde_json::Error),
    VerifyFailed(String),
}

pub enum FailureView {
    NoHomeForSetup,
    NoHomeForBackup,
    HostnameRequired,
    NoNotebook(Seq<char>),
    ManyNotebooks(Seq<char>, nat),
    UnexpectedMetadataPath(Seq<char>),
    CommandFailed { command: Seq<char>, stderr: Seq<char> },
    RunFailed(Seq<char>),
    DownloadFailed(Seq<char>),
    UploadFailed(Seq<char>),
    BadContent(serde_json::Error),
    NoPages,
    PageWithoutId,
    SvgFailed(Seq<char>),
    PngFailed(Seq<char>),
    UnprintableContent(serde_json::Error),
    VerifyFailed(Seq<char>),
}

impl View for Failure {
    type V = FailureView;

    open spec fn view(&self) -> FailureView {
        match self {
            Failure::NoHomeForSetup => FailureView::NoHomeForSetup,
            Failure::NoHomeForBackup => FailureView::NoHomeForBackup,
            Failure::HostnameRequired => FailureView::HostnameRequired,
            Failure::NoNotebook(name) => FailureView::NoNotebook(name@),
            Failure::ManyNotebooks(name, count) => FailureView::ManyNotebooks(name@, *count as nat),
            Failure::UnexpectedMetadataPath(path) => FailureView::UnexpectedMetadataPath(path@),
            Failure::CommandFailed { command, stderr } => FailureView::CommandFailed {
                command: command@,
                stderr: stderr@,
            },
            Failure::RunFailed(command) => FailureView::RunFailed(command@),
            Failure::DownloadFailed(path) => FailureView::DownloadFailed(path@),
            Failure::UploadFailed(path) => FailureView::UploadFailed(path@),
            Failure::BadContent(error) => FailureView::BadContent(*error),
            Failure::NoPages => FailureView::NoPages,
            Failure::PageWithoutId => FailureView::PageWithoutId,
            Failure::SvgFailed(path) => FailureView::SvgFailed(path@),
            Failure::PngFailed(path) => FailureView::PngFailed(path@),
            Failure::UnprintableContent(error) => FailureView::UnprintableContent(*error),
            Failure::VerifyFailed(backup) => FailureView::VerifyFailed(backup@),
        }
    }
}

/// An optional failure.
pub open spec fn optional_failure(failure: Option<Failure>) -> Option<FailureView> {
    match failure {
        Some(found) => Some(found@),
        None => None,
    }
}

impl FailureView {
    /// What is said of the failure. Nothing is said of content that cannot be printed: the error
    /// that comes with it speaks for itself.
    pub open spec fn message(self) -> Option<Seq<char>> {
        match self {
            FailureView::NoHomeForSetup => Some("cannot determine home directory"@),
            FailureView::NoHomeForBackup => Some("no home dir"@),
            FailureView::HostnameRequired => Some("hostname/IP is required"@),
            FailureView::NoNotebook(name) => Some(
                "no notebook named '"@ + name + "' found on the device"@,
            ),
            FailureView::ManyNotebooks(name, count) => Some(
                "multiple notebooks named '"@ + name + "' found ("@ + decimal_of(count)
                    + " matches) -- use the UUID instead"@,
            ),
            FailureView::UnexpectedMetadataPath(path) => Some("unexpected metadata path: "@ + path),
            FailureView::CommandFailed { command, stderr } => Some(
                "ssh command failed ("@ + command + "): "@ + stderr,
            ),
            FailureView::RunFailed(command) => Some("ssh command failed: "@ + command),
            FailureView::DownloadFailed(path) => Some("scp download failed: "@ + path),
            FailureView::UploadFailed(path) => Some("scp upload failed: "@ + path),
            FailureView::BadContent(_) => Some("parsing .content JSON"@),
            FailureView::NoPages => Some("unexpected .content shape: no cPages.pages array"@),
            FailureView::PageWithoutId => Some("page entry missing id"@),
            FailureView::SvgFailed(path) => Some("rmc conversion failed for "@ + path),
            FailureView::PngFailed(path) => Some("PNG render failed for "@ + path),
            FailureView::UnprintableContent(_) => None,
            FailureView::VerifyFailed(backup) => Some(
                "VERIFY FAILED: hash mismatch after push. Backup is in "@ + backup
                    + ". The device file may be corrupt -- restore from backup before opening the notebook."@,
            ),
        }
    }
}

impl Failure {
    /// What is said of the failure.
    pub fn message(&self) -> (r: Option<String>)
        ensures
            optional_text(r) == self@.message(),
    {
        match self {
            Failure::NoHomeForSetup => Some("cannot determine home directory".to_owned()),
            Failure::NoHomeForBackup => Some("no home dir".to_owned()),
            Failure::HostnameRequired => Some("hostname/IP is required".to_owned()),
            Failure::NoNotebook(name) => Some(
                concat3("no notebook named '", name, "' found on the device"),
            ),
            Failure::ManyNotebooks(name, count) => {
                let mut out = concat3("multiple notebooks named '", name, "' found (");
                out.append(&decimal(*count));
                out.append(" matches) -- use the UUID instead");
                Some(out)
            },
            Failure::UnexpectedMetadataPath(path) => Some(
                concat2("unexpected metadata path: ", path),
            ),
            Failure::CommandFailed { command, stderr } => {
                let mut out = concat3("ssh command failed (", command, "): ");
                out.append(stderr);
                Some(out)
            },
            Failure::RunFailed(command) => Some(concat2("ssh command failed: ", command)),
            Failure::DownloadFailed(path) => Some(concat2("scp download failed: ", path)),
            Failure::UploadFailed(path) => Some(concat2("scp upload failed: ", path)),
            Failure::BadContent(_) => Some("parsing .content JSON".to_owned()),
            Failure::NoPages => Some(
                "unexpected .content shape: no cPages.pages array".to_owned(),
            ),
            Failure::PageWithoutId => Some("page entry missing id".to_owned()),
            Failure::SvgFailed(path) => Some(concat2("rmc conversion failed for ", path)),
            Failure::PngFailed(path) => Some(concat2("PNG render failed for ", path)),
            Failure::UnprintableContent(_) => None,
            Failure::VerifyFailed(backup) => Some(
                concat3(
                    "VERIFY FAILED: hash mismatch after push. Backup is in ",
                    backup,
                    ". The device file may be corrupt -- restore from backup before opening the notebook.",
                ),
            ),
        }
    }
}

/// Every failure is told in words that hold what it is about, as it is.
pub proof fn law_failures_are_told(name: Seq<char>, count: nat, other: Seq<char>)
    ensures
        FailureView::NoNotebook(name).message() == Some(
            "no notebook named '"@ + name + "' found on the device"@,
        ),
        FailureView::ManyNotebooks(name, count).message() == Some(
            "multiple notebooks named '"@ + name + "' found ("@ + decimal_of(count)
                + " matches) -- use the UUID instead"@,
        ),
        FailureView::UnexpectedMetadataPath(name).message() == Some(
            "unexpected metadata path: "@ + name,
        ),
        (FailureView::CommandFailed { command: name, stderr: other }).message() == Some(
            "ssh command failed ("@ + name + "): "@ + other,
        ),
        FailureView::RunFailed(name).message() == Some("ssh command failed: "@ + name),
        FailureView::DownloadFailed(name).message() == Some("scp download failed: "@ + name),
        FailureView::UploadFailed(name).message() == Some("scp upload failed: "@ + name),
        FailureView::SvgFailed(name).message() == Some("rmc conversion failed for "@ + name),
        FailureView::PngFailed(name).message() == Some("PNG render failed for "@ + name),
        FailureView::VerifyFailed(name).message() == Some(
            "VERIFY FAILED: hash mismatch after push. Backup is in "@ + name
                + ". The device file may be corrupt -- restore from backup before opening the notebook."@,
        ),
{
}

/// What holds of an optional text, a failure and a path holds of the string in it.
pub proof fn law_views_keep_their_texts(
    text: String,
    other: String,
    svg: LocalPath,
    png: LocalPath,
    failure: Failure,
)
    ensures
        optional_text(Some(text)) == Some(text@),
        optional_text(None) is None,
        optional_failure(Some(failure)) == Some(failure@),
        optional_failure(None) is None,
        LocalPath::Home(text)@ == LocalPathView::Home(text@),
        LocalPath::Output(text)@ == LocalPathView::Output(text@),
        LocalPath::OutputDir@ == LocalPathView::OutputDir,
        LocalPath::Source@ == LocalPathView::Source,
        Arg::Text(text)@ == ArgView::Text(text@),
        Arg::File(svg)@ == ArgView::File(svg@),
        (Arg::PngScript { svg, png })@ == (ArgView::PngScript { svg: svg@, png: png@ }),
        Failure::NoHomeForSetup@ is NoHomeForSetup,
        Failure::NoHomeForBackup@ is NoHomeForBackup,
        Failure::HostnameRequired@ is HostnameRequired,
        Failure::NoPages@ is NoPages,
        Failure::PageWithoutId@ is PageWithoutId,
        Failure::NoNotebook(text)@ == FailureView::NoNotebook(text@),
        Failure::UnexpectedMetadataPath(text)@ == FailureView::UnexpectedMetadataPath(text@),
        (Failure::CommandFailed { command: text, stderr: other })@
            == (FailureView::CommandFailed { command: text@, stderr: other@ }),
        Failure::RunFailed(text)@ == FailureView::RunFailed(text@),
        Failure::DownloadFailed(text)@ == FailureView::DownloadFailed(text@),
        Failure::UploadFailed(text)@ == FailureView::UploadFailed(text@),
        Failure::SvgFailed(text)@ == FailureView::SvgFailed(text@),
        Failure::PngFailed(text)@ == FailureView::PngFailed(text@),
        Failure::VerifyFailed(text)@ == FailureView::VerifyFailed(text@),
{
}

/// A failure keeps the number and the error it comes with.
pub proof fn law_failures_keep_their_cause(text: String, count: usize, error: serde_json::Error)
    ensures
        Failure::ManyNotebooks(text, count)@ == FailureView::ManyNotebooks(text@, count as nat),
        Failure::BadContent(error)@ == FailureView::BadContent(error),
        Failure::UnprintableContent(error)@ == FailureView::UnprintableContent(error),
{
}

/// An event says what it holds: a status that is missing is no status, and no byte is left out.
pub proof fn law_events_say_what_they_hold(
    text: String,
    status: Option<i32>,
    a: Vec<u8>,
    b: Vec<u8>,
    success: bool,
)
    ensures
        Event::Failed@ is Failed,
        Event::Done@ is Done,
        Event::Exists@ is Exists,
        Event::Home(Some(text))@ == EventView::Home(Some(text@)),
        Event::Home(None)@ == EventView::Home(None),
        Event::Text(text)@ == EventView::Text(text@),
        Event::File(a)@ == EventView::File(a@),
        (Event::Output { status, stdout: a, stderr: b })@ == (EventView::Output {
            status,
            stdout: a@,
            stderr: b@,
        }),
        (Event::Exited { success })@ == (EventView::Exited { success }),
        (Event::Contents { sent: a, returned: b })@ == (EventView::Contents {
            sent: a@,
            returned: b@,
        }),
{
}

/// A program is started with the arguments it has, in order.
pub proof fn law_programs_keep_their_arguments(program: Invocation, i: int)
    requires
        0 <= i < program.args@.len(),
    ensures
        program@.program == program.program@,
        program@.context == program.context@,
        program@.args.len() == program.args@.len(),
        program@.args[i] == program.args@[i]@,
{
}

/// A task asks for what it holds.
pub proof fn law_tasks_ask_for_what_they_hold(
    path: LocalPath,
    other: LocalPath,
    text: String,
    context: String,
    mode: u32,
    millis: u64,
    program: Invocation,
)
    ensures
        Task::FindHome@ is FindHome,
        Task::ReadFile(path)@ == TaskView::ReadFile(path@),
        Task::Ask(text)@ == TaskView::Ask(text@),
        (Task::PrivateDir { path, mode, context })@ == (TaskView::PrivateDir {
            path: path@,
            mode,
            context: context@,
        }),
        (Task::Append { path, text, mode, context })@ == (TaskView::Append {
            path: path@,
            text: text@,
            mode,
            context: context@,
        }),
        Task::MakeDir(path)@ == TaskView::MakeDir(path@),
        Task::NewDir(path)@ == TaskView::NewDir(path@),
        Task::Wait(millis)@ == TaskView::Wait(millis),
        Task::Capture(program)@ == TaskView::Capture(program@),
        Task::Run(program)@ == TaskView::Run(program@),
        Task::Clock(program)@ == TaskView::Clock(program@),
        (Task::ReadBoth { sent: path, returned: other })@ == (TaskView::ReadBoth {
            sent: path@,
            returned: other@,
        }),
        Task::Discard(path)@ == TaskView::Discard(path@),
        (Task::WriteText { path, text })@ == (TaskView::WriteText { path: path@, text: text@ }),
        Task::Finish@ is Finish,
        Task::Exit@ is Exit,
        Task::Raise@ is Raise,
        Task::Fail@ is Fail,
{
}

} // verus!
