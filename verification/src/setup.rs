//! The first run: making sure that the tablet's host alias is configured.
use vstd::prelude::*;
use vstd::string::*;
use vstd::utf8::encode_utf8;

use crate::path::{join_path, joined};
use crate::ssh_config::{
    expanded, file_has_host, file_lists_host, is_alias, law_block_adds_its_host_to_file,
    managed_block, managed_block_of, shellexpand_tilde,
};
use crate::task::{
    optional_failure, optional_text, Event, EventView, Failure, FailureView, LocalPath,
    LocalPathView, Task, TaskView,
};
use crate::text::{concat3, line_content, strip_line_end, trim, trim_of};

verus! {

/// How far a setup has come.
#[derive(Clone, Copy, PartialEq, Eq, Structural)]
pub enum SetupPhase {
    /// Finding the home directory.
    Home,
    /// Reading the configuration.
    Config,
    /// Asking for the tablet's address.
    Hostname,
    /// Asking for the private key.
    Key,
    /// Creating the directory of the configuration.
    Directory,
    /// Appending the block.
    Append,
    /// The alias was there already.
    Ready,
    /// The alias has been added.
    Written,
    /// A task ended with an error.
    Raised,
    /// The setup failed.
    Failed,
}

/// A setup that is under way or over.
pub struct Setup {
    host: String,
    home: String,
    hostname: String,
    key: String,
    phase: SetupPhase,
    failure: Option<Failure>,
}

pub struct SetupView {
    pub host: Seq<char>,
    /// The home directory.
    pub home: Seq<char>,
    /// The address that was given.
    pub hostname: Seq<char>,
    /// The private key that was chosen.
    pub key: Seq<char>,
    pub phase: SetupPhase,
    pub failure: Option<FailureView>,
}

impl View for Setup {
    type V = SetupView;

    closed spec fn view(&self) -> SetupView {
        SetupView {
            host: self.host@,
            home: self.home@,
            hostname: self.hostname@,
            key: self.key@,
            phase: self.phase,
            failure: optional_failure(self.failure),
        }
    }
}

/// The private key that is offered.
pub open spec fn default_key_of(home: Seq<char>) -> Seq<char> {
    joined(home, ".ssh/id_ed25519"@)
}

/// What was typed in a line.
pub open spec fn typed(line: Seq<char>) -> Seq<char> {
    trim_of(line_content(line))
}

/// The private key that a line chooses: the one that is offered where the line is blank.
pub open spec fn chosen_key(line: Seq<char>, home: Seq<char>) -> Seq<char> {
    if typed(line).len() == 0 {
        default_key_of(home)
    } else {
        expanded(typed(line), home)
    }
}

impl SetupView {
    /// A setup for `host` before its first task.
    pub open spec fn start(host: Seq<char>) -> SetupView {
        SetupView {
            host,
            home: Seq::empty(),
            hostname: Seq::empty(),
            key: Seq::empty(),
            phase: SetupPhase::Home,
            failure: None,
        }
    }

    /// The setup in another phase.
    pub open spec fn at(self, phase: SetupPhase) -> SetupView {
        SetupView { phase, ..self }
    }

    /// The setup after a failure.
    pub open spec fn failed(self, failure: FailureView) -> SetupView {
        SetupView { phase: SetupPhase::Failed, failure: Some(failure), ..self }
    }

    /// The setup after the configuration has been read.
    pub open spec fn with_config(self, config: Seq<u8>) -> SetupView {
        if file_has_host(config, self.host) {
            self.at(SetupPhase::Ready)
        } else {
            self.at(SetupPhase::Hostname)
        }
    }

    /// The setup after a task that leads to `next` where it succeeds.
    pub open spec fn after_done(self, event: EventView, next: SetupPhase) -> SetupView {
        match event {
            EventView::Done => self.at(next),
            EventView::Failed => self.at(SetupPhase::Raised),
            _ => self,
        }
    }

    /// The setup after `event`. An event that does not answer the task changes nothing.
    pub open spec fn next(self, event: EventView) -> SetupView {
        match self.phase {
            SetupPhase::Home => match event {
                EventView::Home(Some(home)) => SetupView { home, ..self.at(SetupPhase::Config) },
                EventView::Home(None) => self.failed(FailureView::NoHomeForSetup),
                _ => self,
            },
            SetupPhase::Config => match event {
                EventView::File(config) => self.with_config(config),
                EventView::Failed => self.at(SetupPhase::Hostname),
                _ => self,
            },
            SetupPhase::Hostname => match event {
                EventView::Text(line) => if typed(line).len() == 0 {
                    self.failed(FailureView::HostnameRequired)
                } else {
                    SetupView { hostname: typed(line), ..self.at(SetupPhase::Key) }
                },
                EventView::Failed => self.at(SetupPhase::Raised),
                _ => self,
            },
            SetupPhase::Key => match event {
                EventView::Text(line) => SetupView {
                    key: chosen_key(line, self.home),
                    ..self.at(SetupPhase::Directory)
                },
                EventView::Failed => self.at(SetupPhase::Raised),
                _ => self,
            },
            SetupPhase::Directory => self.after_done(event, SetupPhase::Append),
            SetupPhase::Append => self.after_done(event, SetupPhase::Written),
            _ => self,
        }
    }

    /// What the setup asks for.
    pub open spec fn task(self) -> TaskView {
        match self.phase {
            SetupPhase::Home => TaskView::FindHome,
            SetupPhase::Config => TaskView::ReadFile(LocalPathView::Home(".ssh/config"@)),
            SetupPhase::Hostname => TaskView::Ask("reMarkable hostname or IP: "@),
            SetupPhase::Key => TaskView::Ask(
                "Path to SSH private key ["@ + default_key_of(self.home) + "]: "@,
            ),
            SetupPhase::Directory => TaskView::PrivateDir {
                path: LocalPathView::Home(".ssh"@),
                mode: 0o700,
                context: "creating ~/.ssh"@,
            },
            SetupPhase::Append => TaskView::Append {
                path: LocalPathView::Home(".ssh/config"@),
                text: managed_block_of(self.host, self.hostname, self.key),
                mode: 0o600,
                context: "opening ~/.ssh/config"@,
            },
            SetupPhase::Ready => TaskView::Finish,
            SetupPhase::Written => TaskView::Exit,
            SetupPhase::Raised => TaskView::Raise,
            SetupPhase::Failed => TaskView::Fail,
        }
    }

    /// What is said before the task, if anything.
    pub open spec fn note(self) -> Option<Seq<char>> {
        match self.phase {
            SetupPhase::Hostname => Some(
                "No '"@ + self.host
                    + "' entry found in ~/.ssh/config -- first-time setup for syncbook.\nSee README.md for how to enable SSH on the reMarkable and install your key first."@,
            ),
            SetupPhase::Written => Some(
                "Wrote Host '"@ + self.host
                    + "' to ~/.ssh/config. Re-run your command to continue."@,
            ),
            _ => None,
        }
    }
}

/// The private key that is offered.
pub fn default_key(home: &str) -> (r: String)
    ensures
        r@ == default_key_of(home@),
{
    join_path(home, ".ssh/id_ed25519")
}

/// The private key that a line chooses.
pub fn choose_key(line: &str, home: &str) -> (r: String)
    ensures
        r@ == chosen_key(line@, home@),
{
    let input = trim(strip_line_end(line));
    if input.is_empty() {
        default_key(home)
    } else {
        shellexpand_tilde(input, home)
    }
}

impl Setup {
    /// Starts the setup of `host`.
    pub fn new(host: &str) -> (r: Setup)
        ensures
            r@ == SetupView::start(host@),
    {
        Setup {
            host: host.to_owned(),
            home: String::new(),
            hostname: String::new(),
            key: String::new(),
            phase: SetupPhase::Home,
            failure: None,
        }
    }

    fn fail(self, failure: Failure) -> (r: Setup)
        ensures
            r@ == self@.failed(failure@),
    {
        Setup { phase: SetupPhase::Failed, failure: Some(failure), ..self }
    }

    fn enter(self, phase: SetupPhase) -> (r: Setup)
        ensures
            r@ == self@.at(phase),
    {
        Setup { phase, ..self }
    }

    fn take_config(self, config: &[u8]) -> (r: Setup)
        ensures
            r@ == self@.with_config(config@),
    {
        if file_lists_host(config, &self.host) {
            self.enter(SetupPhase::Ready)
        } else {
            self.enter(SetupPhase::Hostname)
        }
    }

    fn finish_step(self, event: Event, next: SetupPhase) -> (r: Setup)
        ensures
            r@ == self@.after_done(event@, next),
    {
        match event {
            Event::Done => self.enter(next),
            Event::Failed => self.enter(SetupPhase::Raised),
            _ => self,
        }
    }

    /// Takes the answer to the task.
    pub fn step(self, event: Event) -> (r: Setup)
        ensures
            r@ == self@.next(event@),
    {
        match self.phase {
            SetupPhase::Home => match event {
                Event::Home(Some(home)) => Setup { home, phase: SetupPhase::Config, ..self },
                Event::Home(None) => self.fail(Failure::NoHomeForSetup),
                _ => self,
            },
            SetupPhase::Config => match event {
                Event::File(config) => self.take_config(config.as_slice()),
                Event::Failed => self.enter(SetupPhase::Hostname),
                _ => self,
            },
            SetupPhase::Hostname => match event {
                Event::Text(line) => {
                    let hostname = trim(strip_line_end(&line));
                    if hostname.is_empty() {
                        self.fail(Failure::HostnameRequired)
                    } else {
                        Setup { hostname: hostname.to_owned(), phase: SetupPhase::Key, ..self }
                    }
                },
                Event::Failed => self.enter(SetupPhase::Raised),
                _ => self,
            },
            SetupPhase::Key => match event {
                Event::Text(line) => {
                    let key = choose_key(&line, &self.home);
                    Setup { key, phase: SetupPhase::Directory, ..self }
                },
                Event::Failed => self.enter(SetupPhase::Raised),
                _ => self,
            },
            SetupPhase::Directory => self.finish_step(event, SetupPhase::Append),
            SetupPhase::Append => self.finish_step(event, SetupPhase::Written),
            _ => self,
        }
    }

    /// What the setup asks for.
    pub fn task(&self) -> (r: Task)
        ensures
            r@ == self@.task(),
    {
        match self.phase {
            SetupPhase::Home => Task::FindHome,
            SetupPhase::Config => Task::ReadFile(LocalPath::Home(".ssh/config".to_owned())),
            SetupPhase::Hostname => Task::Ask("reMarkable hostname or IP: ".to_owned()),
            SetupPhase::Key => Task::Ask(
                concat3("Path to SSH private key [", &default_key(&self.home), "]: "),
            ),
            SetupPhase::Directory => Task::PrivateDir {
                path: LocalPath::Home(".ssh".to_owned()),
                mode: 0o700,
                context: "creating ~/.ssh".to_owned(),
            },
            SetupPhase::Append => Task::Append {
                path: LocalPath::Home(".ssh/config".to_owned()),
                text: managed_block(&self.host, &self.hostname, &self.key),
                mode: 0o600,
                context: "opening ~/.ssh/config".to_owned(),
            },
            SetupPhase::Ready => Task::Finish,
            SetupPhase::Written => Task::Exit,
            SetupPhase::Raised => Task::Raise,
            SetupPhase::Failed => Task::Fail,
        }
    }

    /// What is said before the task, if anything.
    pub fn note(&self) -> (r: Option<String>)
        ensures
            optional_text(r) == self@.note(),
    {
        match self.phase {
            SetupPhase::Hostname => Some(
                concat3(
                    "No '",
                    &self.host,
                    "' entry found in ~/.ssh/config -- first-time setup for syncbook.\nSee README.md for how to enable SSH on the reMarkable and install your key first.",
                ),
            ),
            SetupPhase::Written => Some(
                concat3(
                    "Wrote Host '",
                    &self.host,
                    "' to ~/.ssh/config. Re-run your command to continue.",
                ),
            ),
            _ => None,
        }
    }

    /// Why the setup failed, if it did.
    pub fn into_failure(self) -> (r: Option<Failure>)
        ensures
            optional_failure(r) == self@.failure,
    {
        self.failure
    }
}

/// The setup of `host` after a series of events.
pub open spec fn setup_after(host: Seq<char>, events: Seq<EventView>) -> SetupView
    decreases events.len(),
{
    if events.len() == 0 {
        SetupView::start(host)
    } else {
        setup_after(host, events.drop_last()).next(events.last())
    }
}

/// How many answers a setup can still take at most.
pub open spec fn setup_steps_left(phase: SetupPhase) -> nat {
    match phase {
        SetupPhase::Home => 6,
        SetupPhase::Config => 5,
        SetupPhase::Hostname => 4,
        SetupPhase::Key => 3,
        SetupPhase::Directory => 2,
        SetupPhase::Append => 1,
        _ => 0,
    }
}

/// Every answer brings the setup closer to its end, and it asks for something until it is there.
pub proof fn law_setup_ends(setup: SetupView, event: EventView)
    ensures
        setup.task().is_end() == (setup_steps_left(setup.phase) == 0),
        setup.task().is_answered_by(event) ==> setup_steps_left(setup.next(event).phase)
            < setup_steps_left(setup.phase),
        !setup.task().is_answered_by(event) ==> setup.next(event) == setup,
{
}

/// Whether the answer to reading the configuration shows no entry for `host`. A file that does not
/// exist, or that cannot be read, configures nothing.
pub open spec fn shows_no_entry(event: EventView, host: Seq<char>) -> bool {
    match event {
        EventView::File(config) => !file_has_host(config, host),
        EventView::Failed => true,
        _ => false,
    }
}

/// Whether, in a setup through `events`, the configuration was read and showed no entry for `host`.
pub open spec fn was_found_missing(host: Seq<char>, events: Seq<EventView>) -> bool {
    exists|i: int|
        0 <= i < events.len() && #[trigger] setup_after(host, events.take(i)).task() is ReadFile
            && shows_no_entry(events[i], host)
}

proof fn lemma_setup_history(host: Seq<char>, events: Seq<EventView>)
    ensures
        ({
            let setup = setup_after(host, events);
            let asked = setup.phase is Key || setup.phase is Directory || setup.phase is Append
                || setup.phase is Written;
            &&& setup.host == host
            &&& asked ==> setup.hostname.len() > 0
            &&& asked || setup.phase is Hostname ==> was_found_missing(host, events)
        }),
    decreases events.len(),
{
    if events.len() > 0 {
        let before = events.drop_last();
        lemma_setup_history(host, before);
        let at = events.len() - 1;
        assert(events.take(at) =~= before);
        assert(events.last() == events[at]);
        if setup_after(host, before).phase is Config && shows_no_entry(events[at], host) {
            assert(setup_after(host, events.take(at)).task() is ReadFile);
        }
        if was_found_missing(host, before) {
            let i = choose|i: int|
                0 <= i < before.len() && #[trigger] setup_after(
                    host,
                    before.take(i),
                ).task() is ReadFile && shows_no_entry(before[i], host);
            assert(before.take(i) =~= events.take(i));
            assert(setup_after(host, events.take(i)).task() is ReadFile);
        }
    }
}

/// A setup appends to the configuration only after it has read it and found no entry for the host
/// there, and only with an address.
pub proof fn law_setup_appends_only_where_entry_is_missing(host: Seq<char>, events: Seq<EventView>)
    requires
        setup_after(host, events).task() is Append,
    ensures
        setup_after(host, events).host == host,
        setup_after(host, events).hostname.len() > 0,
        was_found_missing(host, events),
{
    lemma_setup_history(host, events);
}

/// A setup that ends because the entry is there has at no time asked to append anything.
pub proof fn law_ready_setup_appends_nothing(host: Seq<char>, events: Seq<EventView>, n: int)
    requires
        setup_after(host, events).task() is Finish,
        0 <= n <= events.len(),
    ensures
        !(setup_after(host, events.take(n)).task() is Append),
{
    lemma_early_phases(host, events, n);
}

proof fn lemma_early_phases(host: Seq<char>, events: Seq<EventView>, n: int)
    requires
        ({
            let setup = setup_after(host, events);
            setup.phase is Home || setup.phase is Config || setup.phase is Ready
        }),
        0 <= n <= events.len(),
    ensures
        ({
            let setup = setup_after(host, events.take(n));
            setup.phase is Home || setup.phase is Config || setup.phase is Ready
        }),
    decreases events.len(),
{
    if n == events.len() {
        assert(events.take(n) =~= events);
    } else {
        lemma_early_phases(host, events.drop_last(), n);
        assert(events.drop_last().take(n) =~= events.take(n));
    }
}

/// A setup that has been told the home directory and what the configuration holds.
proof fn lemma_setup_with_config(host: Seq<char>, home: Seq<char>, config: EventView)
    ensures
        setup_after(host, seq![EventView::Home(Some(home)), config]) == SetupView::start(host).next(
            EventView::Home(Some(home)),
        ).next(config),
{
    let events = seq![EventView::Home(Some(home)), config];
    let first = events.drop_last();
    assert(first.drop_last() =~= Seq::<EventView>::empty());
    assert(setup_after(host, first.drop_last()) == SetupView::start(host));
    assert(first.last() == EventView::Home(Some(home)));
    assert(setup_after(host, first) == SetupView::start(host).next(first.last()));
    assert(events.last() == config);
}

/// A setup ends after reading the configuration exactly where the entry is there, and without a
/// prompt; where the file has no entry, or cannot be read, it asks for the address.
pub proof fn law_setup_asks_only_where_entry_is_missing(
    host: Seq<char>,
    home: Seq<char>,
    answer: EventView,
)
    requires
        answer is File || answer is Failed,
    ensures
        ({
            let setup = setup_after(host, seq![EventView::Home(Some(home)), answer]);
            &&& setup.task() is Ask == shows_no_entry(answer, host)
            &&& setup.task() is Finish == !shows_no_entry(answer, host)
        }),
{
    lemma_setup_with_config(host, home, answer);
}

/// Once a setup has appended its text to a configuration, whatever that held, a later setup of the
/// same alias finds the entry there and asks for nothing but that configuration.
pub proof fn law_setup_writes_once(setup: SetupView, config: Seq<u8>, home: Seq<char>)
    requires
        setup.task() is Append,
        is_alias(setup.host),
    ensures
        setup_after(
            setup.host,
            seq![
                EventView::Home(Some(home)),
                EventView::File(config + encode_utf8(setup.task()->Append_text)),
            ],
        ).task() is Finish,
{
    let bytes = config + encode_utf8(setup.task()->Append_text);
    law_block_adds_its_host_to_file(config, setup.host, setup.hostname, setup.key);
    lemma_setup_with_config(setup.host, home, EventView::File(bytes));
}

} // verus!
