use syncbook::digest::{digests_agree, hex_lower, same_digest, sha256_hex};
use syncbook::lookup::{filled_lines, notebook_from_listing};
use syncbook::push::{backup_dir, page_part, Push, CLOCK_PAUSE};
use syncbook::remote::{
    content_command, content_path, list_command, metadata_path, move_command, page_path,
    probe_command, probe_result, says_yes, ssh_output, upload_path, Probe, Reply,
};
use syncbook::search::{escape_pattern, json_escape, name_pattern};
use syncbook::task::{Arg, Event, Failure, Invocation, LocalPath, Task};

const STORE: &str = "/home/root/.local/share/remarkable/xochitl";
const UUID: &str = "01234567-89ab-cdef-0123-456789abcdef";
const DIR: &str = "remarkable-backups/20260102T030405Z/01234567-89ab-cdef-0123-456789abcdef";

fn text(s: &str) -> Arg {
    Arg::Text(s.to_string())
}

fn ssh(command: &str) -> Invocation {
    Invocation {
        program: "ssh".to_string(),
        args: vec![text("-o"), text("ConnectTimeout=8"), text("tab"), text(command)],
        context: "running ssh".to_string(),
    }
}

fn down(remote: &str, local: &str) -> Task {
    Task::Run(Invocation {
        program: "scp".to_string(),
        args: vec![
            text("-o"),
            text("ConnectTimeout=8"),
            text(&format!("tab:{remote}")),
            Arg::File(LocalPath::Home(format!("{DIR}/{local}"))),
        ],
        context: "running scp (download)".to_string(),
    })
}

fn output(status: i32, stdout: &str, stderr: &str) -> Event {
    Event::Output {
        status: Some(status),
        stdout: stdout.as_bytes().to_vec(),
        stderr: stderr.as_bytes().to_vec(),
    }
}

fn exited(success: bool) -> Event {
    Event::Exited { success }
}

fn contents(sent: &[u8], returned: &[u8]) -> Event {
    Event::Contents { sent: sent.to_vec(), returned: returned.to_vec() }
}

fn at_directory() -> Push {
    Push::new("tab", UUID, "p1", "./m.rm")
        .step(output(0, " 20260102T030405Z\n", ""))
        .step(Event::Home(Some("/home/you".to_string())))
}

fn at_probe() -> Push {
    at_directory().step(Event::Done).step(exited(true)).step(exited(true))
}

fn at_upload() -> Push {
    at_probe().step(output(0, "yes\n", "")).step(exited(true))
}

fn at_compare() -> Push {
    at_upload().step(exited(true)).step(exited(true)).step(exited(true))
}

fn failure_of(push: Push) -> (Failure, String) {
    assert_eq!(push.task(), Task::Fail);
    let failure = push.into_failure().unwrap();
    let message = failure.message().unwrap();
    (failure, message)
}

#[test]
fn paths_on_the_tablet() {
    assert_eq!(metadata_path("u"), format!("{STORE}/u.metadata"));
    assert_eq!(content_path("u"), format!("{STORE}/u.content"));
    assert_eq!(page_path("u", "p"), format!("{STORE}/u/p.rm"));
    assert_eq!(upload_path("u", "p"), format!("{STORE}/u/p.rm.new"));
    assert_eq!(backup_dir("20260102T030405Z", UUID), DIR);
}

#[test]
fn commands_on_the_tablet() {
    assert_eq!(
        list_command("It's \"x\""),
        format!("grep -l '\"visibleName\": \"It'\\''s \\\\\"x\\\\\"\"' {STORE}/*.metadata 2>/dev/null")
    );
    assert_eq!(content_command("u"), format!("cat {STORE}/u.content"));
    assert_eq!(
        list_command("My Notebook"),
        format!("grep -l '\"visibleName\": \"My Notebook\"' {STORE}/*.metadata 2>/dev/null")
    );
    assert_eq!(probe_command("f"), "test -e 'f' && echo yes");
    assert_eq!(probe_command("a b'c"), r"test -e 'a b'\''c' && echo yes");
    assert_eq!(move_command("a b", "c'd"), r"mv 'a b' 'c'\''d'");
}

#[test]
fn command_output_is_read_leniently() {
    match ssh_output("c", &output(0, "hé\n", "warning")) {
        Reply::Text(found) => assert_eq!(found, "hé\n"),
        _ => panic!("no text"),
    }
    let bytes = Event::Output { status: Some(0), stdout: vec![b'a', 0xff, b'b'], stderr: vec![] };
    match ssh_output("c", &bytes) {
        Reply::Text(found) => assert_eq!(found, "a\u{fffd}b"),
        _ => panic!("no text"),
    }
    match ssh_output("c", &output(1, "x", "denied")) {
        Reply::Failed(failure) => {
            assert!(matches!(failure, Failure::CommandFailed { .. }));
            assert_eq!(failure.message().unwrap(), "ssh command failed (c): denied");
        }
        _ => panic!("no failure"),
    }
    let killed = Event::Output { status: None, stdout: vec![], stderr: vec![] };
    assert!(matches!(ssh_output("c", &killed), Reply::Failed(_)));
    assert!(matches!(ssh_output("c", &Event::Failed), Reply::Raised));
    assert!(matches!(ssh_output("c", &Event::Done), Reply::Pending));
}

#[test]
fn probes_are_answered_with_yes() {
    assert!(says_yes(" yes\n"));
    assert!(!says_yes("yes!"));
    assert!(matches!(probe_result("c", &output(0, "yes\n", "")), Probe::Exists));
    assert!(matches!(probe_result("c", &output(1, "", "")), Probe::Missing));
    assert!(matches!(probe_result("c", &output(0, "", "")), Probe::Missing));
    assert!(matches!(probe_result("c", &Event::Done), Probe::Pending));
}

#[test]
fn probes_that_could_not_be_made_say_nothing_of_the_file() {
    assert!(matches!(probe_result("c", &Event::Failed), Probe::Raised));
    for event in [output(255, "", "no route"), output(2, "", "no route"), output(255, "yes", "no route")] {
        match probe_result("c", &event) {
            Probe::Failed(failure) => {
                assert_eq!(failure.message().unwrap(), "ssh command failed (c): no route")
            }
            _ => panic!("no failure"),
        }
    }
    let killed = Event::Output { status: None, stdout: vec![], stderr: vec![] };
    assert!(matches!(probe_result("c", &killed), Probe::Failed(_)));
}

#[test]
fn names_are_searched_for_as_they_are() {
    assert_eq!(escape_pattern("v1.0 [a]*^$\\"), r"v1\.0 \[a]\*\^\$\\");
    assert_eq!(escape_pattern("plain"), "plain");
    assert_eq!(name_pattern("v1.0"), "\"visibleName\": \"v1\\.0\"");
    assert_eq!(
        list_command("v1.*"),
        format!("grep -l '\"visibleName\": \"v1\\.\\*\"' {STORE}/*.metadata 2>/dev/null")
    );
}

#[test]
fn names_are_written_as_in_the_metadata() {
    assert_eq!(json_escape("a\"b\\c"), r#"a\"b\\c"#);
    assert_eq!(json_escape("\n\t\r\u{8}\u{c}\u{1}"), r"\n\t\r\b\f\u0001");
    for name in ["é漢/", "a\"b\\c", "\n\u{1f}\u{7f}", "plain"] {
        assert_eq!(
            format!("\"{}\"", json_escape(name)),
            serde_json::to_string(name).unwrap(),
            "{name:?}"
        );
    }
}

#[test]
fn digests_have_the_known_values() {
    assert_eq!(
        sha256_hex(b""),
        "e3b0c44298fc1c149afbf4c8996fb92427ae41e4649b934ca495991b7852b855"
    );
    assert_eq!(
        sha256_hex(b"abc"),
        "ba7816bf8f01cfea414140de5dae2223b00361a396177a9cb410ff61f20015ad"
    );
    assert_eq!(hex_lower(&[0x0a, 0x14, 0xff, 0x00]), "0a14ff00");
    assert_eq!(hex_lower(&[]), "");
    assert_eq!(sha256_hex(b"page").len(), 64);
}

#[test]
fn digests_tell_contents_apart() {
    assert!(same_digest(b"page", b"page"));
    assert!(!same_digest(b"page", b"pagf"));
    assert!(!same_digest(b"", b"\0"));
    assert!(digests_agree(&[1, 2], &[1, 2]));
    assert!(!digests_agree(&[0x12], &[0x21]));
    assert!(!digests_agree(&[], &[0]));
}

#[test]
fn one_listed_path_names_the_notebook() {
    let listing = format!("\n{STORE}/{UUID}.metadata\n  \n");
    assert_eq!(filled_lines(&listing), vec![format!("{STORE}/{UUID}.metadata")]);
    assert_eq!(notebook_from_listing("n", &listing).unwrap(), UUID);
    assert_eq!(notebook_from_listing("n", &format!("{}\n", metadata_path("u.v"))).unwrap(), "u.v");
}

#[test]
fn other_listings_are_failures() {
    let none = notebook_from_listing("My Notes", " \n").unwrap_err();
    assert!(matches!(none, Failure::NoNotebook(_)));
    assert_eq!(none.message().unwrap(), "no notebook named 'My Notes' found on the device");
    let many = notebook_from_listing("n", "/a.metadata\n/b.metadata\n/c.metadata\n").unwrap_err();
    assert!(matches!(many, Failure::ManyNotebooks(_, 3)));
    assert_eq!(
        many.message().unwrap(),
        "multiple notebooks named 'n' found (3 matches) -- use the UUID instead"
    );
    let odd = notebook_from_listing("n", "/x/..\n").unwrap_err();
    assert!(matches!(odd, Failure::UnexpectedMetadataPath(_)));
    assert_eq!(odd.message().unwrap(), "unexpected metadata path: /x/..");
}

#[test]
fn push_of_an_existing_page() {
    let page = format!("{STORE}/{UUID}/p1.rm");
    let push = Push::new("tab", UUID, "p1", "./m.rm");
    assert_eq!(
        push.task(),
        Task::Clock(Invocation {
            program: "date".to_string(),
            args: vec![text("-u"), text("+%Y%m%dT%H%M%SZ")],
            context: "date command should always be available".to_string(),
        })
    );
    let push = push.step(output(0, "20260102T030405Z\n", ""));
    assert_eq!(push.task(), Task::FindHome);
    let push = push.step(Event::Home(Some("/home/you".to_string())));
    assert_eq!(push.task(), Task::NewDir(LocalPath::Home(DIR.to_string())));
    assert!(push.notes().is_empty());
    let push = push.step(Event::Done);
    assert_eq!(push.notes(), vec![format!("Backing up current state to /home/you/{DIR}")]);
    assert_eq!(
        push.task(),
        down(&format!("{STORE}/{UUID}.metadata"), &format!("{UUID}.metadata"))
    );
    let push = push.step(exited(true));
    assert_eq!(push.task(), down(&format!("{STORE}/{UUID}.content"), &format!("{UUID}.content")));
    let push = push.step(exited(true));
    assert_eq!(push.task(), Task::Capture(ssh(&format!("test -e '{page}' && echo yes"))));
    let push = push.step(output(0, "yes\n", ""));
    assert_eq!(push.task(), down(&page, "p1.rm"));
    let push = push.step(exited(true));
    assert_eq!(push.notes(), vec![format!("Pushing ./m.rm -> {page}")]);
    assert_eq!(
        push.task(),
        Task::Run(Invocation {
            program: "scp".to_string(),
            args: vec![
                text("-o"),
                text("ConnectTimeout=8"),
                Arg::File(LocalPath::Source),
                text(&format!("tab:{page}.new")),
            ],
            context: "running scp (upload)".to_string(),
        })
    );
    let push = push.step(exited(true));
    assert_eq!(push.task(), Task::Run(ssh(&format!("mv '{page}.new' '{page}'"))));
    let push = push.step(exited(true));
    assert_eq!(push.notes(), vec!["Verifying..."]);
    assert_eq!(push.task(), down(&page, "p1.rm.pushed-verify"));
    let push = push.step(exited(true));
    let copy = || LocalPath::Home(format!("{DIR}/p1.rm.pushed-verify"));
    assert_eq!(push.task(), Task::ReadBoth { sent: LocalPath::Source, returned: copy() });
    let push = push.step(contents(b"page", b"page"));
    assert_eq!(push.task(), Task::Discard(copy()));
    let push = push.step(Event::Failed);
    assert_eq!(push.task(), Task::Finish);
    assert_eq!(
        push.notes(),
        vec!["Done. Hash-verified on device. Open (or close and reopen) the notebook on the tablet to see the change -- xochitl only re-parses a page's file when its document is opened, so nothing further needs to be sent."]
    );
    assert!(push.into_failure().is_none());
}

#[test]
fn push_of_a_new_page_has_no_page_to_save() {
    let push = at_probe().step(output(1, "", ""));
    assert_eq!(
        push.notes(),
        vec![
            "  (page p1 does not exist yet on the device -- this will create it)".to_string(),
            format!("Pushing ./m.rm -> {STORE}/{UUID}/p1.rm"),
        ]
    );
    let same = at_upload();
    assert_eq!(push.task(), same.task());
}

#[test]
fn probe_that_could_not_be_made_ends_the_push() {
    assert_eq!(at_probe().step(Event::Failed).task(), Task::Raise);
    let (failure, message) = failure_of(at_probe().step(output(255, "", "no route")));
    assert!(matches!(failure, Failure::CommandFailed { .. }));
    assert_eq!(
        message,
        format!("ssh command failed (test -e '{STORE}/{UUID}/p1.rm' && echo yes): no route")
    );
}

#[test]
fn page_is_asked_for_in_quotes() {
    let push = Push::new("tab", UUID, "it's a/page", "m.rm")
        .step(output(0, "20260102T030405Z", ""))
        .step(Event::Home(Some("/home/you".to_string())))
        .step(Event::Done)
        .step(exited(true))
        .step(exited(true));
    assert_eq!(
        push.task(),
        Task::Capture(ssh(&format!("test -e '{STORE}/{UUID}/it'\\''s a/page.rm' && echo yes")))
    );
    let push = push.step(output(0, "yes", ""));
    assert_eq!(push.task(), down(&format!("{STORE}/{UUID}/it's a/page.rm"), "it's a_page.rm"));
    assert_eq!(page_part("/a/../b"), "_a_.._b");
}

#[test]
fn backups_of_one_second_do_not_share_a_directory() {
    let first = at_directory().step(Event::Done);
    let second = at_directory().step(Event::Exists);
    assert_eq!(second.task(), Task::Wait(CLOCK_PAUSE));
    assert!(second.notes().is_empty());
    let second = second.step(Event::Done);
    assert!(matches!(second.task(), Task::Clock(_)));
    let second = second
        .step(output(0, "20260102T030406Z\n", ""))
        .step(Event::Home(Some("/home/you".to_string())));
    let dir = DIR.replace("05Z", "06Z");
    assert_eq!(second.task(), Task::NewDir(LocalPath::Home(dir)));
    let second = second.step(Event::Done);
    assert_ne!(first.task(), second.task());
}

#[test]
fn push_waits_until_its_backup_directory_is_new() {
    let mut push = at_directory();
    for _ in 0..200 {
        push = push
            .step(Event::Exists)
            .step(Event::Done)
            .step(output(0, "20260102T030405Z", ""))
            .step(Event::Home(Some("/home/you".to_string())));
        assert_eq!(push.task(), Task::NewDir(LocalPath::Home(DIR.to_string())));
    }
    let push = push.step(Event::Done);
    assert_eq!(push.task(), at_directory().step(Event::Done).task());
}

#[test]
fn push_looks_a_name_up_first() {
    let push = Push::new("tab", "My Notes", "p1", "m.rm");
    assert_eq!(push.task(), Task::Capture(ssh(&list_command("My Notes"))));
    let found = push.step(output(0, &format!("{STORE}/{UUID}.metadata\n"), ""));
    assert!(matches!(found.task(), Task::Clock(_)));
    let found = found
        .step(output(0, "20260102T030405Z", ""))
        .step(Event::Home(Some("/home/you".to_string())));
    assert_eq!(found.task(), Task::NewDir(LocalPath::Home(DIR.to_string())));
}

#[test]
fn push_fails_where_the_notebook_is_not_found() {
    let push = || Push::new("tab", "n", "p1", "m.rm");
    let (failure, _) = failure_of(push().step(output(0, "", "")));
    assert!(matches!(failure, Failure::NoNotebook(_)));
    let (failure, message) = failure_of(push().step(output(1, "", "no route")));
    assert!(matches!(failure, Failure::CommandFailed { .. }));
    assert_eq!(message, format!("ssh command failed ({}): no route", list_command("n")));
    assert_eq!(push().step(Event::Failed).task(), Task::Raise);
}

#[test]
fn push_without_a_home_fails() {
    let push = Push::new("tab", UUID, "p1", "m.rm").step(output(0, "t", ""));
    let (failure, message) = failure_of(push.step(Event::Home(None)));
    assert!(matches!(failure, Failure::NoHomeForBackup));
    assert_eq!(message, "no home dir");
}

#[test]
fn nothing_is_uploaded_without_a_backup() {
    assert_eq!(at_directory().step(Event::Failed).task(), Task::Raise);
    let (_, message) = failure_of(at_directory().step(Event::Done).step(exited(false)));
    assert_eq!(message, format!("scp download failed: {STORE}/{UUID}.metadata"));
    let push = at_directory().step(Event::Done).step(exited(true)).step(exited(false));
    let (failure, message) = failure_of(push);
    assert!(matches!(failure, Failure::DownloadFailed(_)));
    assert_eq!(message, format!("scp download failed: {STORE}/{UUID}.content"));
    let (_, message) = failure_of(at_probe().step(output(0, "yes", "")).step(exited(false)));
    assert_eq!(message, format!("scp download failed: {STORE}/{UUID}/p1.rm"));
    assert_eq!(
        at_probe().step(output(0, "yes", "")).step(Event::Failed).task(),
        Task::Raise
    );
}

#[test]
fn failed_upload_and_rename_end_the_push() {
    let (failure, message) = failure_of(at_upload().step(exited(false)));
    assert!(matches!(failure, Failure::UploadFailed(_)));
    assert_eq!(message, format!("scp upload failed: {STORE}/{UUID}/p1.rm.new"));
    let (failure, message) = failure_of(at_upload().step(exited(true)).step(exited(false)));
    assert!(matches!(failure, Failure::RunFailed(_)));
    assert_eq!(
        message,
        format!("ssh command failed: mv '{STORE}/{UUID}/p1.rm.new' '{STORE}/{UUID}/p1.rm'")
    );
}

#[test]
fn mismatch_fails_and_points_to_the_backup() {
    let (failure, message) = failure_of(at_compare().step(contents(b"page", b"pag")));
    assert!(matches!(failure, Failure::VerifyFailed(_)));
    assert_eq!(
        message,
        format!("VERIFY FAILED: hash mismatch after push. Backup is in /home/you/{DIR}. The device file may be corrupt -- restore from backup before opening the notebook.")
    );
    assert_eq!(at_compare().step(Event::Failed).task(), Task::Raise);
}

#[test]
fn verdict_decides_the_push() {
    assert!(matches!(at_compare().take_verdict(true).task(), Task::Discard(_)));
    assert_eq!(at_compare().take_verdict(false).task(), Task::Fail);
}

#[test]
fn push_ignores_what_does_not_answer() {
    let push = at_upload().step(Event::Done).step(output(0, "", ""));
    assert_eq!(push.task(), at_upload().task());
}
