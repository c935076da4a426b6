use syncbook::content::Content;
use syncbook::pull::Pull;
use syncbook::remote::{list_command, png_script, png_script_for};
use syncbook::task::{Arg, Event, Failure, Invocation, LocalPath, Task};

const STORE: &str = "/home/root/.local/share/remarkable/xochitl";
const UUID: &str = "01234567-89ab-cdef-0123-456789abcdef";
const CONTENT: &str = r#"{"z": 1.50, "cPages": {"pages": [{"id": "p1"}, {"id": "p'2"}]}}"#;

fn text(s: &str) -> Arg {
    Arg::Text(s.to_string())
}

fn out(s: &str) -> LocalPath {
    LocalPath::Output(s.to_string())
}

fn ssh(command: &str) -> Task {
    Task::Capture(Invocation {
        program: "ssh".to_string(),
        args: vec![text("-o"), text("ConnectTimeout=8"), text("tab"), text(command)],
        context: "running ssh".to_string(),
    })
}

fn output(status: i32, stdout: &str) -> Event {
    Event::Output { status: Some(status), stdout: stdout.as_bytes().to_vec(), stderr: b"err".to_vec() }
}

fn exited(success: bool) -> Event {
    Event::Exited { success }
}

fn opened(content: &str) -> Pull {
    Pull::new("tab", UUID, "out/dir").step(output(0, content)).step(Event::Done)
}

fn failure_of(pull: Pull) -> Failure {
    assert_eq!(pull.task(), Task::Fail);
    pull.into_failure().unwrap()
}

#[test]
fn content_lists_its_pages_in_order() {
    let content = Content::parse(CONTENT).unwrap();
    assert_eq!(
        content.page_ids().unwrap(),
        vec![Some("p1".to_string()), Some("p'2".to_string())]
    );
    let odd = Content::parse(r#"{"cPages": {"pages": [{"id": 3}, 4, {"id": "x"}, {}]}}"#).unwrap();
    assert_eq!(odd.page_ids().unwrap(), vec![None, None, Some("x".to_string()), None]);
}

#[test]
fn content_without_pages_is_a_failure() {
    for raw in ["{}", "[]", "null", r#"{"cPages": 1}"#, r#"{"cPages": {"pages": {}}}"#, r#""x""#] {
        let failure = Content::parse(raw).unwrap().page_ids().unwrap_err();
        assert!(matches!(failure, Failure::NoPages));
        assert_eq!(
            failure.message().unwrap(),
            "unexpected .content shape: no cPages.pages array"
        );
    }
}

#[test]
fn content_must_be_json() {
    let failure = Content::parse("{oops").unwrap_err();
    assert_eq!(failure.message().unwrap(), "parsing .content JSON");
    let expected = serde_json::from_str::<serde_json::Value>("{oops").unwrap_err();
    match failure {
        Failure::BadContent(error) => assert_eq!(error.to_string(), expected.to_string()),
        failure => panic!("{failure:?}"),
    }
}

#[test]
fn content_is_written_indented() {
    let pretty = Content::parse(r#"{"b":[1,"x"],"a":null}"#).unwrap().to_pretty().unwrap();
    assert_eq!(pretty, "{\n  \"a\": null,\n  \"b\": [\n    1,\n    \"x\"\n  ]\n}");
}

#[test]
fn unprintable_content_has_no_message_of_its_own() {
    let error = match Content::parse("{") {
        Err(Failure::BadContent(error)) => error,
        _ => panic!("parsed"),
    };
    assert_eq!(Failure::UnprintableContent(error).message(), None);
}

#[test]
fn script_renders_at_the_tablet_size() {
    assert_eq!(
        png_script("A", "B"),
        "import cairosvg; cairosvg.svg2png(url=A, write_to=B, output_width=1404, output_height=1872, background_color='white')"
    );
    assert_eq!(
        png_script_for("a \"b.svg", "c.png"),
        "import cairosvg; cairosvg.svg2png(url=\"a \\\"b.svg\", write_to=\"c.png\", output_width=1404, output_height=1872, background_color='white')"
    );
}

#[test]
fn pull_of_two_pages() {
    let pull = Pull::new("tab", UUID, "out/dir");
    assert_eq!(pull.task(), ssh(&format!("cat {STORE}/{UUID}.content")));
    let pull = pull.step(output(0, CONTENT));
    assert_eq!(pull.task(), Task::MakeDir(LocalPath::OutputDir));
    assert_eq!(pull.note(), None);
    let pull = pull.step(Event::Done);
    assert_eq!(pull.note().unwrap(), format!("Notebook '{UUID}' ({UUID}) -- 2 page(s)"));
    assert_eq!(pull.task(), ssh(&format!("test -e '{STORE}/{UUID}/p1.rm' && echo yes")));
    let pull = pull.step(output(0, "yes\n"));
    assert_eq!(pull.note(), None);
    assert_eq!(
        pull.task(),
        Task::Run(Invocation {
            program: "scp".to_string(),
            args: vec![
                text("-o"),
                text("ConnectTimeout=8"),
                text(&format!("tab:{STORE}/{UUID}/p1.rm")),
                Arg::File(out("p1.rm")),
            ],
            context: "running scp (download)".to_string(),
        })
    );
    let pull = pull.step(exited(true));
    assert_eq!(
        pull.task(),
        Task::Run(Invocation {
            program: "uv".to_string(),
            args: vec![
                text("run"),
                text("--with"),
                text("rmc"),
                text("rmc"),
                Arg::File(out("p1.rm")),
                text("-t"),
                text("svg"),
                text("-o"),
                Arg::File(out("p1.svg")),
            ],
            context: "running `uv run rmc` -- is uv installed? see README prerequisites"
                .to_string(),
        })
    );
    let pull = pull.step(exited(true));
    assert_eq!(
        pull.task(),
        Task::Run(Invocation {
            program: "uv".to_string(),
            args: vec![
                text("run"),
                text("--with"),
                text("cairosvg"),
                text("python3"),
                text("-c"),
                Arg::PngScript { svg: out("p1.svg"), png: out("p1.png") },
            ],
            context: "running `uv run cairosvg`".to_string(),
        })
    );
    let pull = pull.step(exited(true));
    assert_eq!(pull.note().unwrap(), "  page 1: out/dir/p1.png");
    assert_eq!(pull.task(), ssh(&format!("test -e '{STORE}/{UUID}/p'\\''2.rm' && echo yes")));
    let pull = pull.step(output(1, ""));
    assert_eq!(pull.note().unwrap(), "  page 2: p'2 -- SKIPPED (no .rm file on device)");
    let written = Content::parse(CONTENT).unwrap().to_pretty().unwrap();
    assert_eq!(pull.task(), Task::WriteText { path: out("content.json"), text: written });
    let pull = pull.step(Event::Done);
    assert_eq!(pull.task(), Task::Finish);
    assert_eq!(pull.note(), None);
    assert!(pull.into_failure().is_none());
}

#[test]
fn missing_pages_do_not_stop_the_pull() {
    let pull = opened(CONTENT).step(output(1, ""));
    assert_eq!(pull.note().unwrap(), "  page 1: p1 -- SKIPPED (no .rm file on device)");
    assert!(matches!(pull.task(), Task::Capture(_)));
    let pull = pull.step(output(0, "yes")).step(exited(true));
    let pull = pull.step(exited(true)).step(exited(true));
    assert_eq!(pull.note().unwrap(), "  page 2: out/dir/p'2.png");
    assert!(matches!(pull.task(), Task::WriteText { .. }));
}

#[test]
fn probe_that_could_not_be_made_ends_the_pull() {
    assert_eq!(opened(CONTENT).step(Event::Failed).task(), Task::Raise);
    let failure = failure_of(opened(CONTENT).step(output(255, "")));
    assert!(matches!(failure, Failure::CommandFailed { .. }));
    assert_eq!(
        failure.message().unwrap(),
        format!("ssh command failed (test -e '{STORE}/{UUID}/p1.rm' && echo yes): err")
    );
}

#[test]
fn no_line_is_told_twice() {
    let pull = opened(CONTENT);
    assert!(pull.note().is_some());
    assert_eq!(pull.step(output(255, "")).note(), None);
    assert_eq!(opened(CONTENT).step(Event::Failed).note(), None);
    let pull = opened(CONTENT).step(output(1, ""));
    assert_eq!(pull.note().unwrap(), "  page 1: p1 -- SKIPPED (no .rm file on device)");
    let pull = pull.step(output(255, ""));
    assert_eq!(pull.task(), Task::Fail);
    assert_eq!(pull.note(), None);
}

#[test]
fn written_content_lists_every_page() {
    let raw = r#"{"t": 0.1, "u": 1e-7, "cPages": {"pages": [{"id": "a", "x": 1.5e300}, {}]}}"#;
    let content = Content::parse(raw).unwrap();
    let again = Content::parse(&content.to_pretty().unwrap()).unwrap();
    assert_eq!(again.page_ids().unwrap(), content.page_ids().unwrap());
    assert_eq!(again.page_ids().unwrap(), vec![Some("a".to_string()), None]);
}

#[test]
fn written_content_is_read_back() {
    let raw = r#"{"b": [1, -2, 18446744073709551615, "\u00e9\n"], "a": {"x": null, "y": [true, {}]}}"#;
    let content = Content::parse(raw).unwrap();
    let text = content.to_pretty().unwrap();
    assert_ne!(text, raw);
    assert_eq!(Content::parse(&text).unwrap().to_pretty().unwrap(), text);
    let values: (serde_json::Value, serde_json::Value) =
        (serde_json::from_str(raw).unwrap(), serde_json::from_str(&text).unwrap());
    assert_eq!(values.0, values.1);
}

#[test]
fn failed_pulls_do_not_write_the_content() {
    let mut pull = opened(CONTENT);
    for event in [output(0, "yes"), exited(true), exited(true), exited(false)] {
        assert!(!matches!(pull.task(), Task::WriteText { .. }));
        pull = pull.step(event);
    }
    assert!(matches!(failure_of(pull), Failure::PngFailed(_)));
}

#[test]
fn notebook_without_pages_is_written_at_once() {
    let pull = opened(r#"{"cPages": {"pages": []}}"#);
    assert_eq!(pull.note().unwrap(), format!("Notebook '{UUID}' ({UUID}) -- 0 page(s)"));
    assert!(matches!(pull.task(), Task::WriteText { .. }));
    assert_eq!(pull.step(Event::Failed).task(), Task::Raise);
}

#[test]
fn pull_looks_a_name_up_first() {
    let pull = Pull::new("tab", "My Notes", "My_Notes");
    assert_eq!(pull.task(), ssh(&list_command("My Notes")));
    let pull = pull.step(output(0, &format!("{STORE}/u.metadata\n")));
    assert_eq!(pull.task(), ssh(&format!("cat {STORE}/u.content")));
    let pull = pull.step(output(0, CONTENT)).step(Event::Done);
    assert_eq!(pull.note().unwrap(), "Notebook 'My Notes' (u) -- 2 page(s)");
}

#[test]
fn lookup_failures_end_the_pull() {
    let pull = || Pull::new("tab", "n", "n");
    assert!(matches!(failure_of(pull().step(output(0, "\n"))), Failure::NoNotebook(_)));
    let many = failure_of(pull().step(output(0, "/a.metadata\n/b.metadata\n")));
    assert!(matches!(many, Failure::ManyNotebooks(_, 2)));
    let refused = failure_of(pull().step(output(1, "")));
    assert_eq!(
        refused.message().unwrap(),
        format!("ssh command failed ({}): err", list_command("n"))
    );
    assert_eq!(pull().step(Event::Failed).task(), Task::Raise);
}

#[test]
fn content_failures_end_the_pull() {
    let pull = || Pull::new("tab", UUID, "o");
    assert!(matches!(failure_of(pull().step(output(0, "x"))), Failure::BadContent(_)));
    assert!(matches!(failure_of(pull().step(output(0, "{}"))), Failure::NoPages));
    assert!(matches!(
        failure_of(pull().step(output(1, "{}"))),
        Failure::CommandFailed { .. }
    ));
    assert_eq!(pull().step(output(0, CONTENT)).step(Event::Failed).task(), Task::Raise);
}

#[test]
fn parsed_content_opens_the_pull() {
    let pull = Pull::new("tab", UUID, "o").take_content(Content::parse(CONTENT));
    assert_eq!(pull.task(), Task::MakeDir(LocalPath::OutputDir));
    let pull = Pull::new("tab", UUID, "o").take_content(Err(Failure::NoPages));
    assert!(matches!(failure_of(pull), Failure::NoPages));
}

#[test]
fn page_without_an_identifier_ends_the_pull_when_its_turn_comes() {
    let pull = opened(r#"{"cPages": {"pages": [{"id": "a"}, {"id": null}]}}"#);
    assert!(matches!(pull.task(), Task::Capture(_)));
    let pull = pull.step(output(0, ""));
    assert_eq!(pull.note().unwrap(), "  page 1: a -- SKIPPED (no .rm file on device)");
    let failure = failure_of(pull);
    assert!(matches!(failure, Failure::PageWithoutId));
    assert_eq!(failure.message().unwrap(), "page entry missing id");
}

#[test]
fn failing_programs_end_the_pull() {
    let pull = || opened(CONTENT).step(output(0, "yes"));
    let failure = failure_of(pull().step(exited(false)));
    assert_eq!(
        failure.message().unwrap(),
        format!("scp download failed: {STORE}/{UUID}/p1.rm")
    );
    let failure = failure_of(pull().step(exited(true)).step(exited(false)));
    assert!(matches!(failure, Failure::SvgFailed(_)));
    assert_eq!(failure.message().unwrap(), "rmc conversion failed for out/dir/p1.rm");
    let failure = failure_of(pull().step(exited(true)).step(exited(true)).step(exited(false)));
    assert!(matches!(failure, Failure::PngFailed(_)));
    assert_eq!(failure.message().unwrap(), "PNG render failed for out/dir/p1.svg");
    assert_eq!(pull().step(Event::Failed).task(), Task::Raise);
}

#[test]
fn pull_ignores_what_does_not_answer() {
    let pull = opened(CONTENT).step(Event::Done).step(exited(true));
    assert_eq!(pull.task(), opened(CONTENT).task());
}
