//! Where the tablet keeps its notebooks, and the programs and commands that reach it.
use vstd::prelude::*;
use vstd::string::*;

use crate::outside::{lossy_of, lossy_text, path_debug, path_literal};
use crate::search::{name_pattern, name_pattern_of};
use crate::shell::{
    law_quoted_value_is_one_word, law_shell_reads_quoted_value, quoted, read_word, shell_words, shq,
    with_first,
};
use crate::task::{
    Arg, ArgView, Event, EventView, Failure, FailureView, Invocation, InvocationView, LocalPath,
    LocalPathView,
};
use crate::text::{concat2, concat3, same_text, trim, trim_of};

verus! {

/// The directory on the tablet that holds the notebooks: `<uuid>.content` and `<uuid>.metadata` of
/// each, and its pages as `<uuid>/<page>.rm`.
pub const REMOTE_XOCHITL: &'static str = "/home/root/.local/share/remarkable/xochitl";

/// The notebook's file with `extension` on the tablet.
pub open spec fn notebook_file_of(uuid: Seq<char>, extension: Seq<char>) -> Seq<char> {
    REMOTE_XOCHITL@ + "/"@ + uuid + extension
}

/// The notebook's metadata file on the tablet.
pub open spec fn metadata_path_of(uuid: Seq<char>) -> Seq<char> {
    notebook_file_of(uuid, ".metadata"@)
}

/// The notebook's content file on the tablet.
pub open spec fn content_path_of(uuid: Seq<char>) -> Seq<char> {
    notebook_file_of(uuid, ".content"@)
}

/// The file of a page on the tablet.
pub open spec fn page_path_of(uuid: Seq<char>, page: Seq<char>) -> Seq<char> {
    REMOTE_XOCHITL@ + "/"@ + uuid + "/"@ + page + ".rm"@
}

/// Where a page is uploaded to before it takes the place of the page's file.
pub open spec fn upload_path_of(uuid: Seq<char>, page: Seq<char>) -> Seq<char> {
    page_path_of(uuid, page) + ".new"@
}

fn notebook_file(uuid: &str, extension: &str) -> (r: String)
    ensures
        r@ == notebook_file_of(uuid@, extension@),
{
    let mut out = concat3(REMOTE_XOCHITL, "/", uuid);
    out.append(extension);
    out
}

/// The notebook's metadata file on the tablet.
pub fn metadata_path(uuid: &str) -> (r: String)
    ensures
        r@ == metadata_path_of(uuid@),
{
    notebook_file(uuid, ".metadata")
}

/// The notebook's content file on the tablet.
pub fn content_path(uuid: &str) -> (r: String)
    ensures
        r@ == content_path_of(uuid@),
{
    notebook_file(uuid, ".content")
}

/// The file of a page on the tablet.
pub fn page_path(uuid: &str, page: &str) -> (r: String)
    ensures
        r@ == page_path_of(uuid@, page@),
{
    let mut out = concat3(REMOTE_XOCHITL, "/", uuid);
    out.append("/");
    out.append(page);
    out.append(".rm");
    out
}

/// Where a page is uploaded to before it takes the place of the page's file.
pub fn upload_path(uuid: &str, page: &str) -> (r: String)
    ensures
        r@ == upload_path_of(uuid@, page@),
{
    concat2(&page_path(uuid, page), ".new")
}

/// The command that lists the metadata files of the notebooks with this name.
pub open spec fn list_command_of(notebook: Seq<char>) -> Seq<char> {
    "grep -l "@ + quoted(name_pattern_of(notebook)) + " "@ + REMOTE_XOCHITL@
        + "/*.metadata 2>/dev/null"@
}

/// The command that lists the metadata files of the notebooks with this name.
pub fn list_command(notebook: &str) -> (r: String)
    ensures
        r@ == list_command_of(notebook@),
{
    let mut out = concat3("grep -l ", &shq(&name_pattern(notebook)), " ");
    out.append(REMOTE_XOCHITL);
    out.append("/*.metadata 2>/dev/null");
    out
}

/// The shell reads the pattern that is searched for as one word, whatever the notebook's name
/// holds.
pub proof fn law_listing_searches_for_the_name(notebook: Seq<char>)
    ensures
        read_word(list_command_of(notebook).skip("grep -l "@.len() as int), false) == Some(
            (
                name_pattern_of(notebook),
                " "@ + REMOTE_XOCHITL@ + "/*.metadata 2>/dev/null"@,
            ),
        ),
{
    reveal_strlit("grep -l ");
    reveal_strlit(" ");
    let rest = " "@ + REMOTE_XOCHITL@ + "/*.metadata 2>/dev/null"@;
    law_shell_reads_quoted_value(name_pattern_of(notebook), rest);
    assert(list_command_of(notebook).skip("grep -l "@.len() as int) =~= quoted(
        name_pattern_of(notebook),
    ) + rest);
}

/// The command that prints a notebook's content file.
pub open spec fn content_command_of(uuid: Seq<char>) -> Seq<char> {
    "cat "@ + content_path_of(uuid)
}

/// The command that prints a notebook's content file.
pub fn content_command(uuid: &str) -> (r: String)
    ensures
        r@ == content_command_of(uuid@),
{
    concat2("cat ", &content_path(uuid))
}

/// The command that says `yes` where a file exists.
pub open spec fn probe_command_of(file: Seq<char>) -> Seq<char> {
    "test -e "@ + quoted(file) + " && echo yes"@
}

/// The command that says `yes` where a file exists.
pub fn probe_command(file: &str) -> (r: String)
    ensures
        r@ == probe_command_of(file@),
{
    concat3("test -e ", &shq(file), " && echo yes")
}

/// The shell reads the file in a probe as one word, whatever characters it holds.
pub proof fn law_probe_asks_for_the_file(file: Seq<char>)
    ensures
        read_word(probe_command_of(file).skip("test -e "@.len() as int), false) == Some(
            (file, " && echo yes"@),
        ),
{
    reveal_strlit("test -e ");
    reveal_strlit(" && echo yes");
    let rest = " && echo yes"@;
    law_shell_reads_quoted_value(file, rest);
    assert(probe_command_of(file).skip("test -e "@.len() as int) =~= quoted(file) + rest);
}

/// The command that renames a file.
pub open spec fn move_command_of(from: Seq<char>, to: Seq<char>) -> Seq<char> {
    "mv "@ + quoted(from) + " "@ + quoted(to)
}

/// The command that renames a file.
pub fn move_command(from: &str, to: &str) -> (r: String)
    ensures
        r@ == move_command_of(from@, to@),
{
    let mut out = concat3("mv ", &shq(from), " ");
    out.append(&shq(to));
    out
}

/// The shell reads the rename command as `mv` with the two names, whatever characters they hold.
pub proof fn law_move_command_words(from: Seq<char>, to: Seq<char>)
    ensures
        shell_words(move_command_of(from, to)) == Some(seq!["mv"@, from, to]),
{
    let none = Seq::<char>::empty();
    let last = seq![' '] + quoted(to);
    let args = quoted(from) + last;
    law_quoted_value_is_one_word(to, none);
    assert(quoted(to) + none =~= quoted(to));
    assert(shell_words(quoted(to)) == Some(seq![to])) by {
        assert(seq![to] + Seq::<Seq<char>>::empty() =~= seq![to]);
    }
    assert(last.skip(1) =~= quoted(to));
    assert(shell_words(last) == Some(seq![to]));
    law_quoted_value_is_one_word(from, last);
    assert(seq![from] + seq![to] =~= seq![from, to]);
    let after = seq![' '] + args;
    assert(after.skip(1) =~= args);
    assert(shell_words(after) == Some(seq![from, to]));
    reveal_strlit("mv ");
    reveal_strlit("mv");
    reveal_strlit(" ");
    let whole = move_command_of(from, to);
    assert(whole =~= seq!['m', 'v'] + after);
    let tail = whole.skip(1);
    assert(tail =~= seq!['v'] + after);
    assert(tail.skip(1) =~= after);
    assert(read_word(after, false) == Some((none, after)));
    assert(read_word(tail, false) == with_first('v', read_word(after, false)));
    assert(read_word(whole, false) == with_first('m', read_word(tail, false)));
    assert(seq!['m'] + (seq!['v'] + none) =~= "mv"@);
    assert(seq!["mv"@] + seq![from, to] =~= seq!["mv"@, from, to]);
}

/// `ssh`, which runs `command` on `host`.
pub open spec fn ssh_of(host: Seq<char>, command: Seq<char>) -> InvocationView {
    InvocationView {
        program: "ssh"@,
        args: seq![
            ArgView::Text("-o"@),
            ArgView::Text("ConnectTimeout=8"@),
            ArgView::Text(host),
            ArgView::Text(command),
        ],
        context: "running ssh"@,
    }
}

/// `ssh`, which runs `command` on `host`.
pub fn ssh(host: &str, command: &str) -> (r: Invocation)
    ensures
        r@ == ssh_of(host@, command@),
{
    let args = vec![
        Arg::Text("-o".to_owned()),
        Arg::Text("ConnectTimeout=8".to_owned()),
        Arg::Text(host.to_owned()),
        Arg::Text(command.to_owned()),
    ];
    let r = Invocation { program: "ssh".to_owned(), args, context: "running ssh".to_owned() };
    assert(r@.args =~= ssh_of(host@, command@).args);
    r
}

/// `scp`, which copies a file on `host` to this machine.
pub open spec fn scp_down_of(
    host: Seq<char>,
    remote: Seq<char>,
    local: LocalPathView,
) -> InvocationView {
    InvocationView {
        program: "scp"@,
        args: seq![
            ArgView::Text("-o"@),
            ArgView::Text("ConnectTimeout=8"@),
            ArgView::Text(host + ":"@ + remote),
            ArgView::File(local),
        ],
        context: "running scp (download)"@,
    }
}

/// `scp`, which copies a file on `host` to this machine.
pub fn scp_down(host: &str, remote: &str, local: LocalPath) -> (r: Invocation)
    ensures
        r@ == scp_down_of(host@, remote@, local@),
{
    let args = vec![
        Arg::Text("-o".to_owned()),
        Arg::Text("ConnectTimeout=8".to_owned()),
        Arg::Text(concat3(host, ":", remote)),
        Arg::File(local),
    ];
    let r = Invocation {
        program: "scp".to_owned(),
        args,
        context: "running scp (download)".to_owned(),
    };
    assert(r@.args =~= scp_down_of(host@, remote@, local@).args);
    r
}

/// `scp`, which copies a file of this machine to `host`.
pub open spec fn scp_up_of(
    host: Seq<char>,
    local: LocalPathView,
    remote: Seq<char>,
) -> InvocationView {
    InvocationView {
        program: "scp"@,
        args: seq![
            ArgView::Text("-o"@),
            ArgView::Text("ConnectTimeout=8"@),
            ArgView::File(local),
            ArgView::Text(host + ":"@ + remote),
        ],
        context: "running scp (upload)"@,
    }
}

/// `scp`, which copies a file of this machine to `host`.
pub fn scp_up(host: &str, local: LocalPath, remote: &str) -> (r: Invocation)
    ensures
        r@ == scp_up_of(host@, local@, remote@),
{
    let args = vec![
        Arg::Text("-o".to_owned()),
        Arg::Text("ConnectTimeout=8".to_owned()),
        Arg::File(local),
        Arg::Text(concat3(host, ":", remote)),
    ];
    let r = Invocation {
        program: "scp".to_owned(),
        args,
        context: "running scp (upload)".to_owned(),
    };
    assert(r@.args =~= scp_up_of(host@, local@, remote@).args);
    r
}

/// `rmc` under `uv`, which turns a page file into an SVG drawing.
pub open spec fn rmc_of(rm: LocalPathView, svg: LocalPathView) -> InvocationView {
    InvocationView {
        program: "uv"@,
        args: seq![
            ArgView::Text("run"@),
            ArgView::Text("--with"@),
            ArgView::Text("rmc"@),
            ArgView::Text("rmc"@),
            ArgView::File(rm),
            ArgView::Text("-t"@),
            ArgView::Text("svg"@),
            ArgView::Text("-o"@),
            ArgView::File(svg),
        ],
        context: "running `uv run rmc` -- is uv installed? see README prerequisites"@,
    }
}

/// `rmc` under `uv`, which turns a page file into an SVG drawing.
pub fn rmc(rm: LocalPath, svg: LocalPath) -> (r: Invocation)
    ensures
        r@ == rmc_of(rm@, svg@),
{
    let args = vec![
        Arg::Text("run".to_owned()),
        Arg::Text("--with".to_owned()),
        Arg::Text("rmc".to_owned()),
        Arg::Text("rmc".to_owned()),
        Arg::File(rm),
        Arg::Text("-t".to_owned()),
        Arg::Text("svg".to_owned()),
        Arg::Text("-o".to_owned()),
        Arg::File(svg),
    ];
    let r = Invocation {
        program: "uv".to_owned(),
        args,
        context: "running `uv run rmc` -- is uv installed? see README prerequisites".to_owned(),
    };
    assert(r@.args =~= rmc_of(rm@, svg@).args);
    r
}

/// `cairosvg` under `uv`, which turns an SVG drawing into a PNG image.
pub open spec fn cairosvg_of(svg: LocalPathView, png: LocalPathView) -> InvocationView {
    InvocationView {
        program: "uv"@,
        args: seq![
            ArgView::Text("run"@),
            ArgView::Text("--with"@),
            ArgView::Text("cairosvg"@),
            ArgView::Text("python3"@),
            ArgView::Text("-c"@),
            ArgView::PngScript { svg, png },
        ],
        context: "running `uv run cairosvg`"@,
    }
}

/// `cairosvg` under `uv`, which turns an SVG drawing into a PNG image.
pub fn cairosvg(svg: LocalPath, png: LocalPath) -> (r: Invocation)
    ensures
        r@ == cairosvg_of(svg@, png@),
{
    let args = vec![
        Arg::Text("run".to_owned()),
        Arg::Text("--with".to_owned()),
        Arg::Text("cairosvg".to_owned()),
        Arg::Text("python3".to_owned()),
        Arg::Text("-c".to_owned()),
        Arg::PngScript { svg, png },
    ];
    let r = Invocation {
        program: "uv".to_owned(),
        args,
        context: "running `uv run cairosvg`".to_owned(),
    };
    assert(r@.args =~= cairosvg_of(svg@, png@).args);
    r
}

/// The Python script that renders a drawing, over the literals for the two file names.
pub open spec fn png_script_of(svg_literal: Seq<char>, png_literal: Seq<char>) -> Seq<char> {
    "import cairosvg; cairosvg.svg2png(url="@ + svg_literal + ", write_to="@ + png_literal
        + ", output_width=1404, output_height=1872, background_color='white')"@
}

/// The Python script that renders a drawing, over the literals for the two file names.
pub fn png_script(svg_literal: &str, png_literal: &str) -> (r: String)
    ensures
        r@ == png_script_of(svg_literal@, png_literal@),
{
    let mut out = concat3("import cairosvg; cairosvg.svg2png(url=", svg_literal, ", write_to=");
    out.append(png_literal);
    out.append(", output_width=1404, output_height=1872, background_color='white')");
    out
}

/// The Python script that renders the drawing in one file into another.
pub fn png_script_for(svg: &str, png: &str) -> (r: String)
    ensures
        r@ == png_script_of(path_debug(svg@), path_debug(png@)),
{
    png_script(&path_literal(svg), &path_literal(png))
}

/// `date`, which tells the time in UTC as `YYYYMMDDTHHMMSSZ`.
pub open spec fn date_of() -> InvocationView {
    InvocationView {
        program: "date"@,
        args: seq![ArgView::Text("-u"@), ArgView::Text("+%Y%m%dT%H%M%SZ"@)],
        context: "date command should always be available"@,
    }
}

/// `date`, which tells the time in UTC as `YYYYMMDDTHHMMSSZ`.
pub fn date() -> (r: Invocation)
    ensures
        r@ == date_of(),
{
    let args = vec![Arg::Text("-u".to_owned()), Arg::Text("+%Y%m%dT%H%M%SZ".to_owned())];
    let r = Invocation {
        program: "date".to_owned(),
        args,
        context: "date command should always be available".to_owned(),
    };
    assert(r@.args =~= date_of().args);
    r
}

/// What the end of a command on the tablet means.
pub enum Reply {
    /// The event is no end of a command.
    Pending,
    /// The command was not run.
    Raised,
    Failed(Failure),
    Text(String),
}

pub enum ReplyView {
    Pending,
    Raised,
    Failed(FailureView),
    Text(Seq<char>),
}

impl View for Reply {
    type V = ReplyView;

    open spec fn view(&self) -> ReplyView {
        match self {
            Reply::Pending => ReplyView::Pending,
            Reply::Raised => ReplyView::Raised,
            Reply::Failed(failure) => ReplyView::Failed(failure@),
            Reply::Text(text) => ReplyView::Text(text@),
        }
    }
}

/// What `event` says of `command`: what the command printed, or that it failed, with what it
/// printed as errors. What is valid UTF-8 is read as the text that it encodes.
pub open spec fn output_of(command: Seq<char>, event: EventView) -> ReplyView {
    match event {
        EventView::Failed => ReplyView::Raised,
        EventView::Output { status, stdout, stderr } => if status == Some(0i32) {
            ReplyView::Text(lossy_of(stdout))
        } else {
            ReplyView::Failed(FailureView::CommandFailed { command, stderr: lossy_of(stderr) })
        },
        _ => ReplyView::Pending,
    }
}

/// What `event` says of `command`.
pub fn ssh_output(command: &str, event: &Event) -> (r: Reply)
    ensures
        r@ == output_of(command@, event@),
{
    match event {
        Event::Failed => Reply::Raised,
        Event::Output { status, stdout, stderr } => if matches!(status, Some(0i32)) {
            Reply::Text(lossy_text(stdout.as_slice()))
        } else {
            Reply::Failed(
                Failure::CommandFailed {
                    command: command.to_owned(),
                    stderr: lossy_text(stderr.as_slice()),
                },
            )
        },
        _ => Reply::Pending,
    }
}

/// Whether a probe's output says that the file exists.
pub open spec fn is_yes(output: Seq<char>) -> bool {
    trim_of(output) == "yes"@
}

/// Whether a probe's output says that the file exists.
pub fn says_yes(output: &str) -> (r: bool)
    ensures
        r == is_yes(output@),
{
    same_text(trim(output), "yes")
}

/// What the end of a probe means.
pub enum Probe {
    /// The event is no end of a probe.
    Pending,
    /// The probe was not made.
    Raised,
    /// The probe could not be made.
    Failed(Failure),
    /// The file is there.
    Exists,
    /// The tablet was asked, and the file is not there.
    Missing,
}

pub enum ProbeView {
    Pending,
    Raised,
    Failed(FailureView),
    Exists,
    Missing,
}

impl View for Probe {
    type V = ProbeView;

    open spec fn view(&self) -> ProbeView {
        match self {
            Probe::Pending => ProbeView::Pending,
            Probe::Raised => ProbeView::Raised,
            Probe::Failed(failure) => ProbeView::Failed(failure@),
            Probe::Exists => ProbeView::Exists,
            Probe::Missing => ProbeView::Missing,
        }
    }
}

/// What `event` says of the file that `command` probes. `test` ends with status 0 or 1; any other
/// status is that of a probe that could not be made, and so is a `yes` with status 1.
pub open spec fn probe_of(command: Seq<char>, event: EventView) -> ProbeView {
    match event {
        EventView::Failed => ProbeView::Raised,
        EventView::Output { status, stdout, stderr } => {
            let yes = is_yes(lossy_of(stdout));
            if status == Some(0i32) && yes {
                ProbeView::Exists
            } else if (status == Some(0i32) || status == Some(1i32)) && !yes {
                ProbeView::Missing
            } else {
                ProbeView::Failed(FailureView::CommandFailed { command, stderr: lossy_of(stderr) })
            }
        },
        _ => ProbeView::Pending,
    }
}

/// What `event` says of the file that `command` probes.
pub fn probe_result(command: &str, event: &Event) -> (r: Probe)
    ensures
        r@ == probe_of(command@, event@),
{
    match event {
        Event::Failed => Probe::Raised,
        Event::Output { status, stdout, stderr } => {
            let yes = says_yes(&lossy_text(stdout.as_slice()));
            if matches!(status, Some(0i32)) && yes {
                Probe::Exists
            } else if matches!(status, Some(0i32) | Some(1i32)) && !yes {
                Probe::Missing
            } else {
                Probe::Failed(
                    Failure::CommandFailed {
                        command: command.to_owned(),
                        stderr: lossy_text(stderr.as_slice()),
                    },
                )
            }
        },
        _ => Probe::Pending,
    }
}

} // verus!
