//! What a setup asks and writes, from beginning to end.
use vstd::prelude::*;
use vstd::string::*;

use crate::setup::{
    chosen_key, default_key_of, shows_no_entry, typed, SetupPhase, SetupView,
};
use crate::ssh_config::{expanded, file_has_host, managed_block_of};
use crate::task::{EventView, FailureView, LocalPathView, TaskView};
use crate::text::{is_space, line_content};
use crate::text_laws::{has_firm_ends, is_blank, law_trim_takes_the_ends};

verus! {

proof fn lemma_line_content_part(line: Seq<char>) -> (end: int)
    ensures
        0 <= end <= line.len(),
        line_content(line) == line.take(end),
        forall|i: int| end <= i < line.len() ==> #[trigger] line[i] == '\n' || line[i] == '\r',
    decreases line.len(),
{
    if line.len() > 0 && (line.last() == '\n' || line.last() == '\r') {
        let end = lemma_line_content_part(line.drop_last());
        assert(line.drop_last().take(end) =~= line.take(end));
        assert forall|i: int| end <= i < line.len() implies #[trigger] line[i] == '\n' || line[i]
            == '\r' by {
            if i < line.len() - 1 {
                assert(line.drop_last()[i] == line[i]);
            }
        }
        end
    } else {
        assert(line.take(line.len() as int) =~= line);
        line.len() as int
    }
}

/// What was typed is the line without the white space around it, its end among that.
pub proof fn law_typed_text_is_kept(before: Seq<char>, text: Seq<char>, after: Seq<char>)
    requires
        is_blank(before),
        is_blank(after),
        text.len() == 0 || has_firm_ends(text),
    ensures
        typed(before + text + after) == text,
{
    let line = before + text + after;
    let end = lemma_line_content_part(line);
    if text.len() == 0 {
        let kept = line.take(end);
        let none = Seq::<char>::empty();
        assert forall|i: int| 0 <= i < kept.len() implies is_space(#[trigger] kept[i]) by {
            if i < before.len() {
                assert(kept[i] == before[i]);
            } else {
                assert(kept[i] == after[i - before.len()]);
            }
        }
        law_trim_takes_the_ends(kept, none, none);
        assert(kept + none + none =~= kept);
        assert(text =~= none);
    } else {
        let last = before.len() + text.len() - 1;
        if end <= last {
            assert(line[last as int] == text.last());
            assert(is_space(text.last()));
        }
        let rest = after.take(end - last - 1);
        assert forall|i: int| 0 <= i < rest.len() implies is_space(#[trigger] rest[i]) by {
            assert(rest[i] == after[i]);
        }
        assert(line.take(end) =~= before + text + rest);
        law_trim_takes_the_ends(before, text, rest);
    }
}

/// The key that is offered is `.ssh/id_ed25519` in the home directory.
pub proof fn law_offered_key_is_in_the_home_directory(home: Seq<char>)
    ensures
        home.len() > 0 && home.last() != '/' ==> default_key_of(home) == home
            + "/.ssh/id_ed25519"@,
        home.len() == 0 || home.last() == '/' ==> default_key_of(home) == home
            + ".ssh/id_ed25519"@,
{
    reveal_strlit(".ssh/id_ed25519");
    reveal_strlit("/.ssh/id_ed25519");
    if home.len() > 0 && home.last() != '/' {
        assert(default_key_of(home) =~= home + "/.ssh/id_ed25519"@);
    }
}

/// A blank line chooses the key that is offered, and any other line the path that was typed.
pub proof fn law_key_is_the_one_typed(
    before: Seq<char>,
    text: Seq<char>,
    after: Seq<char>,
    home: Seq<char>,
)
    requires
        is_blank(before),
        is_blank(after),
        text.len() == 0 || has_firm_ends(text),
    ensures
        text.len() == 0 ==> chosen_key(before + text + after, home) == default_key_of(home),
        text.len() > 0 ==> chosen_key(before + text + after, home) == expanded(text, home),
{
    law_typed_text_is_kept(before, text, after);
}

/// A setup reads `~/.ssh/config` of the home directory that it is told.
pub proof fn law_setup_reads_the_configuration(host: Seq<char>, home: Seq<char>)
    ensures
        SetupView::start(host).task() is FindHome,
        SetupView::start(host).next(EventView::Home(Some(home))).task() == TaskView::ReadFile(
            LocalPathView::Home(".ssh/config"@),
        ),
        forall|config: Seq<u8>|
            (#[trigger] SetupView::start(host).next(EventView::Home(Some(home))).next(
                EventView::File(config),
            )).task() is Finish == file_has_host(config, host),
        SetupView::start(host).next(EventView::Home(Some(home))).next(
            EventView::Failed,
        ).task() is Ask,
        SetupView::start(host).next(EventView::Home(None)).task() is Fail,
        SetupView::start(host).next(EventView::Home(None)).failure == Some(
            FailureView::NoHomeForSetup,
        ),
{
}

/// Where the entry is missing, a setup asks for the address and the key, and appends one block to
/// the configuration, with the alias, the address as it was typed, and the key that was chosen.
pub proof fn law_setup_appends_what_was_typed(
    host: Seq<char>,
    home: Seq<char>,
    config: EventView,
    address: Seq<char>,
    before: Seq<char>,
    after: Seq<char>,
    key_line: Seq<char>,
)
    requires
        config is File || config is Failed,
        shows_no_entry(config, host),
        has_firm_ends(address),
        is_blank(before),
        is_blank(after),
    ensures
        ({
            let asking = SetupView::start(host).next(EventView::Home(Some(home))).next(config);
            let asking_key = asking.next(EventView::Text(before + address + after));
            let preparing = asking_key.next(EventView::Text(key_line));
            let appending = preparing.next(EventView::Done);
            &&& asking.task() == TaskView::Ask("reMarkable hostname or IP: "@)
            &&& asking_key.task() == TaskView::Ask(
                "Path to SSH private key ["@ + default_key_of(home) + "]: "@,
            )
            &&& preparing.task() == (TaskView::PrivateDir {
                path: LocalPathView::Home(".ssh"@),
                mode: 0o700,
                context: "creating ~/.ssh"@,
            })
            &&& appending.task() == (TaskView::Append {
                path: LocalPathView::Home(".ssh/config"@),
                text: managed_block_of(host, address, chosen_key(key_line, home)),
                mode: 0o600,
                context: "opening ~/.ssh/config"@,
            })
            &&& appending.next(EventView::Done).task() is Exit
            &&& asking.note() == Some(
                "No '"@ + host
                    + "' entry found in ~/.ssh/config -- first-time setup for syncbook.\nSee README.md for how to enable SSH on the reMarkable and install your key first."@,
            )
            &&& asking_key.note() is None && preparing.note() is None && appending.note() is None
            &&& appending.next(EventView::Done).note() == Some(
                "Wrote Host '"@ + host + "' to ~/.ssh/config. Re-run your command to continue."@,
            )
        }),
{
    law_typed_text_is_kept(before, address, after);
    let found = SetupView::start(host).next(EventView::Home(Some(home)));
    let asking = found.next(config);
    assert(asking.phase is Hostname && asking.home == home && asking.host == host);
}

/// A blank address is a failure, and a task that could not be carried out raises.
pub proof fn law_setup_needs_an_address(setup: SetupView, blank: Seq<char>)
    requires
        setup.phase is Hostname,
        is_blank(blank),
    ensures
        setup.next(EventView::Text(blank)).task() is Fail,
        setup.next(EventView::Text(blank)).failure == Some(FailureView::HostnameRequired),
        setup.next(EventView::Failed).task() is Raise,
        setup.at(SetupPhase::Key).next(EventView::Failed).task() is Raise,
        setup.at(SetupPhase::Directory).next(EventView::Failed).task() is Raise,
        setup.at(SetupPhase::Append).next(EventView::Failed).task() is Raise,
{
    let none = Seq::<char>::empty();
    law_typed_text_is_kept(blank, none, none);
    assert(blank + none + none =~= blank);
}

/// A setup says nothing but where it begins to ask and where it is done.
pub proof fn law_setup_says_nothing_else(setup: SetupView)
    requires
        !(setup.phase is Hostname),
        !(setup.phase is Written),
    ensures
        setup.note() is None,
{
}

} // verus!
