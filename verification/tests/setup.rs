use syncbook::setup::{choose_key, default_key, Setup};
use syncbook::ssh_config::{
    file_lists_host, host_block_exists, line_lists_host, managed_block, shellexpand_tilde,
    strip_separators,
};
use syncbook::task::{Event, Failure, LocalPath, Task};

const BLOCK: &str = "\n# BEGIN SYNCBOOK MANAGED (remarkable)\nHost remarkable\n    HostName 10.11.99.1\n    User root\n    IdentityFile /home/you/.ssh/id_ed25519\n    StrictHostKeyChecking accept-new\n# END SYNCBOOK MANAGED (remarkable)\n";

fn text(s: &str) -> Event {
    Event::Text(s.to_string())
}

fn file(s: &str) -> Event {
    Event::File(s.as_bytes().to_vec())
}

fn home() -> Event {
    Event::Home(Some("/home/you".to_string()))
}

#[test]
fn hosts_are_found_among_the_patterns_of_a_line() {
    assert!(host_block_exists("Host foo bar\n  User root\n", "bar"));
    assert!(host_block_exists("x\r\n  Host\u{20} foo\t bar\r\n", "foo"));
    assert!(!host_block_exists("Host foobar\n", "foo"));
    assert!(!host_block_exists("host foo\n", "foo"));
    assert!(!host_block_exists("Host\tfoo\n", "foo"));
    assert!(!host_block_exists("# Host foo\nHostName foo\n", "foo"));
    assert!(!host_block_exists("", "foo"));
    assert!(!host_block_exists("Host foo\n", ""));
}

#[test]
fn one_line_lists_its_hosts() {
    assert!(line_lists_host("Host a b", "b"));
    assert!(!line_lists_host("Host", "Host"));
    assert!(line_lists_host("Host Host", "Host"));
}

#[test]
fn tilde_is_expanded_at_the_start_only() {
    assert_eq!(shellexpand_tilde("~/keys/rm", "/home/you"), "/home/you/keys/rm");
    assert_eq!(shellexpand_tilde("~/keys/rm ", "/home/you"), "/home/you/keys/rm ");
    assert_eq!(shellexpand_tilde("/abs/key", "/home/you"), "/abs/key");
    assert_eq!(shellexpand_tilde("~", "/home/you"), "~");
    assert_eq!(shellexpand_tilde("~other/key", "/home/you"), "~other/key");
    assert_eq!(shellexpand_tilde("a~/b", "/home/you"), "a~/b");
    assert_eq!(shellexpand_tilde(" ~/b", "/home/you"), " ~/b");
    assert_eq!(shellexpand_tilde("  /keys/rm ", "/home/you"), "  /keys/rm ");
    assert_eq!(shellexpand_tilde("", "/home/you"), "");
}

#[test]
fn expanded_path_stays_under_the_home_directory() {
    assert_eq!(shellexpand_tilde("~//etc/key", "/home/you"), "/home/you/etc/key");
    assert_eq!(shellexpand_tilde("~////etc//key", "/home/you/"), "/home/you/etc//key");
    assert_eq!(shellexpand_tilde("~/", "/home/you"), "/home/you/");
    assert_eq!(strip_separators("//a//b"), "a//b");
    assert_eq!(strip_separators("///"), "");
    assert_eq!(strip_separators("a/"), "a/");
}

#[test]
fn files_are_read_line_by_line() {
    assert!(file_lists_host(b"# caf\xe9\nHost remarkable\n", "remarkable"));
    assert!(file_lists_host(b"Host a\xff b\r\n", "b"));
    assert!(file_lists_host(b"\xff\xfe\n\n  Host x", "x"));
    assert!(!file_lists_host(b"# caf\xe9\nHost other\n", "remarkable"));
    assert!(!file_lists_host(b"# caf\xe9 Host remarkable", "remarkable"));
    assert!(!file_lists_host(b"", "remarkable"));
    assert!(file_lists_host(b"Host a\xff", "a\u{fffd}"));
}

#[test]
fn text_files_list_the_hosts_of_their_text() {
    for config in [
        "", "\n", "Host a", "Host a\n", "Host a\r\nHost b", "x\nHost é ü\r", "Host\nHost a\n\n",
    ] {
        for host in ["a", "b", "é", "ü", "", "Host"] {
            assert_eq!(
                file_lists_host(config.as_bytes(), host),
                host_block_exists(config, host),
                "{config:?} {host:?}"
            );
        }
    }
}

#[test]
fn block_has_the_documented_form() {
    assert_eq!(managed_block("remarkable", "10.11.99.1", "/home/you/.ssh/id_ed25519"), BLOCK);
}

#[test]
fn block_adds_its_host_and_no_other() {
    for before in ["", "Host a\n  User x", "Host a\n  User x\n", "Host a\r"] {
        let after = format!("{before}{BLOCK}");
        assert!(host_block_exists(&after, "remarkable"));
        assert!(!host_block_exists(&after, "10.11.99.1"));
        assert!(!host_block_exists(&after, "root"));
        assert_eq!(host_block_exists(&after, "a"), host_block_exists(before, "a"));
    }
}

#[test]
fn blank_key_means_the_default() {
    assert_eq!(default_key("/home/you"), "/home/you/.ssh/id_ed25519");
    assert_eq!(choose_key(" \n", "/home/you"), "/home/you/.ssh/id_ed25519");
    assert_eq!(choose_key("~/k\n", "/home/you"), "/home/you/k");
    assert_eq!(choose_key("k\r\n", "/home/you"), "k");
    assert_eq!(choose_key("  ~/k \n", "/home/you"), "/home/you/k");
    assert_eq!(choose_key(" /keys/rm \n", "/home/you"), "/keys/rm");
}

#[test]
fn configured_host_ends_the_setup_at_once() {
    let setup = Setup::new("remarkable");
    assert_eq!(setup.task(), Task::FindHome);
    let setup = setup.step(home());
    assert_eq!(setup.task(), Task::ReadFile(LocalPath::Home(".ssh/config".to_string())));
    let setup = setup.step(file("Host remarkable\n"));
    assert_eq!(setup.task(), Task::Finish);
    assert_eq!(setup.note(), None);
    assert!(setup.into_failure().is_none());
}

#[test]
fn configuration_need_not_be_utf8() {
    let config = b"# caf\xe9\nHost remarkable\n".to_vec();
    let setup = Setup::new("remarkable").step(home()).step(Event::File(config));
    assert_eq!(setup.task(), Task::Finish);
    assert_eq!(setup.note(), None);
    let config = b"# caf\xe9\nHost other\n".to_vec();
    let setup = Setup::new("remarkable").step(home()).step(Event::File(config));
    assert_eq!(setup.task(), Task::Ask("reMarkable hostname or IP: ".to_string()));
}

#[test]
fn configuration_that_cannot_be_read_has_no_entry() {
    let unread = Setup::new("remarkable").step(home()).step(Event::Failed);
    let empty = Setup::new("remarkable").step(home()).step(file(""));
    assert_eq!(unread.task(), empty.task());
    assert_eq!(unread.note(), empty.note());
    assert_eq!(unread.task(), Task::Ask("reMarkable hostname or IP: ".to_string()));
}

#[test]
fn first_run_asks_and_appends_a_block() {
    let setup = Setup::new("remarkable").step(home()).step(Event::Failed);
    assert_eq!(
        setup.note().unwrap(),
        "No 'remarkable' entry found in ~/.ssh/config -- first-time setup for syncbook.\nSee README.md for how to enable SSH on the reMarkable and install your key first."
    );
    assert_eq!(setup.task(), Task::Ask("reMarkable hostname or IP: ".to_string()));
    let setup = setup.step(text(" 10.11.99.1 \n"));
    assert_eq!(setup.note(), None);
    assert_eq!(
        setup.task(),
        Task::Ask("Path to SSH private key [/home/you/.ssh/id_ed25519]: ".to_string())
    );
    let setup = setup.step(text("\n"));
    assert_eq!(
        setup.task(),
        Task::PrivateDir {
            path: LocalPath::Home(".ssh".to_string()),
            mode: 0o700,
            context: "creating ~/.ssh".to_string(),
        }
    );
    let setup = setup.step(Event::Done);
    assert_eq!(
        setup.task(),
        Task::Append {
            path: LocalPath::Home(".ssh/config".to_string()),
            text: BLOCK.to_string(),
            mode: 0o600,
            context: "opening ~/.ssh/config".to_string(),
        }
    );
    let setup = setup.step(Event::Done);
    assert_eq!(setup.task(), Task::Exit);
    assert_eq!(
        setup.note().unwrap(),
        "Wrote Host 'remarkable' to ~/.ssh/config. Re-run your command to continue."
    );
}

#[test]
fn second_run_finds_what_the_first_wrote() {
    let setup = Setup::new("tab").step(home()).step(file("Host other"));
    let setup = setup.step(text("h\n")).step(text("~/k\n")).step(Event::Done);
    let appended = match setup.task() {
        Task::Append { text, .. } => text,
        task => panic!("{task:?}"),
    };
    for before in [&b"Host other"[..], b"", b"\xff", b"# caf\xe9\n", b"\xe2\x82"] {
        let mut config = before.to_vec();
        config.extend_from_slice(appended.as_bytes());
        assert!(!file_lists_host(&config, "other") || before == b"Host other");
        let again = Setup::new("tab").step(home()).step(Event::File(config));
        assert_eq!(again.task(), Task::Finish);
    }
}

#[test]
fn setup_without_a_home_fails() {
    let setup = Setup::new("h").step(Event::Home(None));
    assert_eq!(setup.task(), Task::Fail);
    let failure = setup.into_failure().unwrap();
    assert!(matches!(failure, Failure::NoHomeForSetup));
    assert_eq!(failure.message().unwrap(), "cannot determine home directory");
}

#[test]
fn setup_without_an_address_fails() {
    let setup = Setup::new("h").step(home()).step(file("")).step(text("  \r\n"));
    assert_eq!(setup.task(), Task::Fail);
    let failure = setup.into_failure().unwrap();
    assert!(matches!(failure, Failure::HostnameRequired));
    assert_eq!(failure.message().unwrap(), "hostname/IP is required");
}

#[test]
fn setup_raises_what_its_tasks_raise() {
    let ask = || Setup::new("h").step(home()).step(file(""));
    assert_eq!(ask().step(Event::Failed).task(), Task::Raise);
    assert_eq!(ask().step(text("a\n")).step(Event::Failed).task(), Task::Raise);
    let directory = || ask().step(text("a\n")).step(text("\n"));
    assert_eq!(directory().step(Event::Failed).task(), Task::Raise);
    assert_eq!(directory().step(Event::Done).step(Event::Failed).task(), Task::Raise);
}

#[test]
fn setup_ignores_what_does_not_answer() {
    let setup = Setup::new("h").step(Event::Done).step(text("x"));
    assert_eq!(setup.task(), Task::FindHome);
}
