//! Which files on the tablet the paths name, and what the programs are told and answer.
use vstd::prelude::*;
use vstd::string::*;
use vstd::utf8::{
    decode_utf8, encode_utf8, encode_utf8_decode_utf8, encode_utf8_valid_utf8, valid_utf8,
};

use crate::outside::{lossy_of, utf8_lossy};
use crate::path::{
    file_name_of, file_stem_of, law_file_name_is_the_last_part, law_stem_ends_before_the_last_dot,
    lies_in,
};
use crate::remote::{
    cairosvg_of, content_command_of, content_path_of, date_of, is_yes, list_command_of,
    metadata_path_of, output_of, page_path_of, png_script_of, probe_command_of,
    probe_of, rmc_of, scp_down_of, scp_up_of, ssh_of, upload_path_of, ProbeView, ReplyView,
    REMOTE_XOCHITL,
};
use crate::search::{is_ordinary, is_plain, law_ordinary_name_is_its_own_pattern};
use crate::shell::{law_shell_reads_quoted_value, quoted, read_word};
use crate::task::{ArgView, EventView, FailureView, LocalPathView};
use crate::text::trim_of;
use crate::text_laws::{
    is_blank, law_nothing_to_replace, law_trim_leaves_a_part, law_trim_takes_the_ends,
};

verus! {

/// Whether `s` can be one part of a path.
pub open spec fn is_one_part(s: Seq<char>) -> bool {
    s.len() > 0 && !s.contains('/')
}

proof fn lemma_named_file(dir: Seq<char>, name: Seq<char>, extension: Seq<char>)
    requires
        is_one_part(name),
        !extension.contains('/'),
        !extension.contains('.'),
        extension.len() > 0,
    ensures
        ({
            let file = name.push('.') + extension;
            let path = dir.push('/') + file;
            &&& lies_in(path, dir)
            &&& file_name_of(path) == Some(file)
            &&& file_stem_of(path) == Some(name)
        }),
{
    let file = name.push('.') + extension;
    assert(!file.contains('/')) by {
        if file.contains('/') {
            let k = choose|k: int| 0 <= k < file.len() && file[k] == '/';
            if k < name.len() {
                assert(name.contains(name[k]));
            } else if k > name.len() {
                assert(extension.contains(extension[k - name.len() - 1]));
            }
        }
    }
    assert(file.last() == extension.last());
    assert(extension.contains(extension.last()));
    assert(file != seq!['.'] && file != seq!['.', '.']);
    law_file_name_is_the_last_part(dir, file);
    law_stem_ends_before_the_last_dot(name, extension);
}

/// A notebook's metadata and content are files right inside the store, under the notebook's own
/// name, with the extensions `metadata` and `content`.
pub proof fn law_notebook_files_lie_in_the_store(uuid: Seq<char>)
    requires
        is_one_part(uuid),
    ensures
        lies_in(metadata_path_of(uuid), REMOTE_XOCHITL@),
        file_stem_of(metadata_path_of(uuid)) == Some(uuid),
        file_name_of(metadata_path_of(uuid)) == Some(uuid + ".metadata"@),
        lies_in(content_path_of(uuid), REMOTE_XOCHITL@),
        file_stem_of(content_path_of(uuid)) == Some(uuid),
        file_name_of(content_path_of(uuid)) == Some(uuid + ".content"@),
{
    reveal_strlit("/");
    reveal_strlit(".metadata");
    reveal_strlit(".content");
    let metadata = seq!['m', 'e', 't', 'a', 'd', 'a', 't', 'a'];
    let content = seq!['c', 'o', 'n', 't', 'e', 'n', 't'];
    let store = REMOTE_XOCHITL@;
    lemma_named_file(store, uuid, metadata);
    lemma_named_file(store, uuid, content);
    assert(uuid + ".metadata"@ =~= uuid.push('.') + metadata);
    assert(uuid + ".content"@ =~= uuid.push('.') + content);
    assert(metadata_path_of(uuid) =~= store.push('/') + (uuid.push('.') + metadata));
    assert(content_path_of(uuid) =~= store.push('/') + (uuid.push('.') + content));
}

/// A page is a file right inside the notebook's directory in the store. Its stem is the page's
/// identifier, character for character, and its extension is `rm`.
pub proof fn law_page_lies_in_its_notebook(uuid: Seq<char>, page: Seq<char>)
    requires
        is_one_part(uuid),
        is_one_part(page),
    ensures
        lies_in(page_path_of(uuid, page), REMOTE_XOCHITL@.push('/') + uuid),
        file_stem_of(page_path_of(uuid, page)) == Some(page),
        file_name_of(page_path_of(uuid, page)) == Some(page + ".rm"@),
{
    reveal_strlit("/");
    reveal_strlit(".rm");
    let dir = REMOTE_XOCHITL@.push('/') + uuid;
    let rm = seq!['r', 'm'];
    lemma_named_file(dir, page, rm);
    assert(page + ".rm"@ =~= page.push('.') + rm);
    assert(page_path_of(uuid, page) =~= dir.push('/') + (page.push('.') + rm));
}

/// Whatever a notebook and a page are called, the page's path is the store, the notebook, the page
/// and `.rm`, with a separator between them and nothing else.
pub proof fn law_page_path_keeps_both_names(uuid: Seq<char>, page: Seq<char>)
    ensures
        ({
            let path = page_path_of(uuid, page);
            let store = "/home/root/.local/share/remarkable/xochitl/"@;
            &&& path.len() == store.len() + uuid.len() + 1 + page.len() + 3
            &&& path.take(store.len() as int) == store
            &&& path.subrange(store.len() as int, (store.len() + uuid.len()) as int) == uuid
            &&& path[(store.len() + uuid.len()) as int] == '/'
            &&& path.subrange(path.len() - page.len() - 3, path.len() - 3) == page
            &&& path.skip(path.len() - 3) == seq!['.', 'r', 'm']
        }),
{
    reveal_strlit("/home/root/.local/share/remarkable/xochitl/");
    reveal_strlit("/home/root/.local/share/remarkable/xochitl");
    reveal_strlit("/");
    reveal_strlit(".rm");
    let path = page_path_of(uuid, page);
    let store = "/home/root/.local/share/remarkable/xochitl/"@;
    assert(path.take(store.len() as int) =~= store);
    assert(path.subrange(store.len() as int, (store.len() + uuid.len()) as int) =~= uuid);
    assert(path.subrange(path.len() - page.len() - 3, path.len() - 3) =~= page);
    assert(path.skip(path.len() - 3) =~= seq!['.', 'r', 'm']);
}

/// Two pages of a notebook are never the same file, nor is a page of two notebooks.
pub proof fn law_pages_have_files_of_their_own(
    uuid: Seq<char>,
    page: Seq<char>,
    other_uuid: Seq<char>,
    other: Seq<char>,
)
    requires
        is_one_part(uuid),
        is_one_part(other_uuid),
        is_one_part(page),
        is_one_part(other),
        page_path_of(uuid, page) == page_path_of(other_uuid, other),
    ensures
        uuid == other_uuid,
        page == other,
{
    law_page_lies_in_its_notebook(uuid, page);
    law_page_lies_in_its_notebook(other_uuid, other);
    law_page_path_keeps_both_names(uuid, page);
    law_page_path_keeps_both_names(other_uuid, other);
    assert(page == other);
    assert(uuid.len() == other_uuid.len());
    assert(uuid =~= other_uuid);
}

/// A page is uploaded to a file beside it: the name is that of the page's file with `.new` behind it.
pub proof fn law_upload_lies_beside_the_page(uuid: Seq<char>, page: Seq<char>)
    ensures
        page_path_of(uuid, page).is_prefix_of(upload_path_of(uuid, page)),
        upload_path_of(uuid, page).skip(page_path_of(uuid, page).len() as int) == seq![
            '.',
            'n',
            'e',
            'w',
        ],
        is_one_part(uuid) && is_one_part(page) ==> lies_in(
            upload_path_of(uuid, page),
            REMOTE_XOCHITL@.push('/') + uuid,
        ),
{
    reveal_strlit("/");
    reveal_strlit(".rm");
    reveal_strlit(".new");
    let path = page_path_of(uuid, page);
    assert(upload_path_of(uuid, page).skip(path.len() as int) =~= seq!['.', 'n', 'e', 'w']);
    if is_one_part(uuid) && is_one_part(page) {
        let dir = REMOTE_XOCHITL@.push('/') + uuid;
        let new = seq!['n', 'e', 'w'];
        let name = page + ".rm"@;
        assert(!name.contains('/')) by {
            if name.contains('/') {
                let k = choose|k: int| 0 <= k < name.len() && name[k] == '/';
                if k < page.len() {
                    assert(page.contains(page[k]));
                }
            }
        }
        lemma_named_file(dir, name, new);
        assert(upload_path_of(uuid, page) =~= dir.push('/') + (name.push('.') + new));
    }
}

/// A notebook is listed by `grep -l` over every metadata file of the store.
pub proof fn law_listing_goes_over_the_store(notebook: Seq<char>)
    ensures
        list_command_of(notebook).take(8) == "grep -l "@,
        " /home/root/.local/share/remarkable/xochitl/*.metadata 2>/dev/null"@.is_suffix_of(
            list_command_of(notebook),
        ),
{
    reveal_strlit("grep -l ");
    reveal_strlit(" ");
    reveal_strlit("/home/root/.local/share/remarkable/xochitl");
    reveal_strlit("/*.metadata 2>/dev/null");
    reveal_strlit(" /home/root/.local/share/remarkable/xochitl/*.metadata 2>/dev/null");
    let command = list_command_of(notebook);
    let tail = " /home/root/.local/share/remarkable/xochitl/*.metadata 2>/dev/null"@;
    assert(command.take(8) =~= "grep -l "@);
    assert(command.skip(command.len() - tail.len()) =~= tail);
}

/// A notebook's content is what `cat` prints of its content file.
pub proof fn law_content_command_prints_the_file(uuid: Seq<char>)
    ensures
        content_command_of(uuid).take(4) == "cat "@,
        content_command_of(uuid).skip(4) == content_path_of(uuid),
{
    reveal_strlit("cat ");
    assert(content_command_of(uuid).take(4) =~= "cat "@);
    assert(content_command_of(uuid).skip(4) =~= content_path_of(uuid));
}

/// A file is probed with `test -e`.
pub proof fn law_probe_is_a_test(file: Seq<char>)
    ensures
        probe_command_of(file).take(8) == "test -e "@,
        read_word(probe_command_of(file).skip(8), false) == Some((file, " && echo yes"@)),
{
    reveal_strlit("test -e ");
    reveal_strlit(" && echo yes");
    let rest = " && echo yes"@;
    law_shell_reads_quoted_value(file, rest);
    assert(probe_command_of(file).take(8) =~= "test -e "@);
    assert(probe_command_of(file).skip(8) =~= quoted(file) + rest);
}

/// `ssh` is told the host and the command as they are, and to give up after eight seconds.
pub proof fn law_ssh_is_told(host: Seq<char>, command: Seq<char>)
    ensures
        ssh_of(host, command).program == "ssh"@,
        ssh_of(host, command).args.len() == 4,
        ssh_of(host, command).args[0] == ArgView::Text("-o"@),
        ssh_of(host, command).args[1] == ArgView::Text("ConnectTimeout=8"@),
        ssh_of(host, command).args[2] == ArgView::Text(host),
        ssh_of(host, command).args[3] == ArgView::Text(command),
        date_of().program == "date"@,
{
}

/// The name of a remote file for `scp`: the host, a colon, and the path.
pub open spec fn names_remote_file(arg: ArgView, host: Seq<char>, path: Seq<char>) -> bool {
    arg matches ArgView::Text(text) && text.len() == host.len() + 1 + path.len() && text.take(
        host.len() as int,
    ) == host && text[host.len() as int] == ':' && text.skip(host.len() as int + 1) == path
}

/// `scp` is told the two files, the source before the target, and to give up after eight seconds.
pub proof fn law_scp_is_told(host: Seq<char>, remote: Seq<char>, local: LocalPathView)
    ensures
        ({
            let down = scp_down_of(host, remote, local);
            let up = scp_up_of(host, local, remote);
            &&& down.program == "scp"@ && up.program == "scp"@
            &&& down.args.len() == 4 && up.args.len() == 4
            &&& down.args[0] == ArgView::Text("-o"@) && up.args[0] == ArgView::Text("-o"@)
            &&& down.args[1] == ArgView::Text("ConnectTimeout=8"@)
            &&& up.args[1] == ArgView::Text("ConnectTimeout=8"@)
            &&& names_remote_file(down.args[2], host, remote)
            &&& down.args[3] == ArgView::File(local)
            &&& up.args[2] == ArgView::File(local)
            &&& names_remote_file(up.args[3], host, remote)
        }),
{
    reveal_strlit(":");
    let text = host + ":"@ + remote;
    assert(text.take(host.len() as int) =~= host);
    assert(text.skip(host.len() as int + 1) =~= remote);
}

/// The renderers are told to read the one file and to write the other.
pub proof fn law_renderers_are_told(rm: LocalPathView, svg: LocalPathView, png: LocalPathView)
    ensures
        rmc_of(rm, svg).program == "uv"@,
        rmc_of(rm, svg).args == seq![
            ArgView::Text("run"@),
            ArgView::Text("--with"@),
            ArgView::Text("rmc"@),
            ArgView::Text("rmc"@),
            ArgView::File(rm),
            ArgView::Text("-t"@),
            ArgView::Text("svg"@),
            ArgView::Text("-o"@),
            ArgView::File(svg),
        ],
        cairosvg_of(svg, png).program == "uv"@,
        cairosvg_of(svg, png).args == seq![
            ArgView::Text("run"@),
            ArgView::Text("--with"@),
            ArgView::Text("cairosvg"@),
            ArgView::Text("python3"@),
            ArgView::Text("-c"@),
            ArgView::PngScript { svg, png },
        ],
{
}

/// The script names the two files by the literals it is given, whatever they are, and holds nothing
/// else that depends on them.
pub proof fn law_script_names_the_two_files(svg: Seq<char>, png: Seq<char>)
    ensures
        ({
            let script = png_script_of(svg, png);
            let before = "import cairosvg; cairosvg.svg2png(url="@;
            let between = ", write_to="@;
            let after = ", output_width=1404, output_height=1872, background_color='white')"@;
            let second = before.len() + svg.len() + between.len();
            &&& script.len() == second + png.len() + after.len()
            &&& before.is_prefix_of(script)
            &&& script.subrange(before.len() as int, (before.len() + svg.len()) as int) == svg
            &&& script.subrange((before.len() + svg.len()) as int, second as int) == between
            &&& script.subrange(second as int, (second + png.len()) as int) == png
            &&& after.is_suffix_of(script)
        }),
{
    let script = png_script_of(svg, png);
    let before = "import cairosvg; cairosvg.svg2png(url="@;
    let between = ", write_to="@;
    let after = ", output_width=1404, output_height=1872, background_color='white')"@;
    let second = before.len() + svg.len() + between.len();
    assert(script.subrange(before.len() as int, (before.len() + svg.len()) as int) =~= svg);
    assert(script.subrange((before.len() + svg.len()) as int, second as int) =~= between);
    assert(script.subrange(second as int, (second + png.len()) as int) =~= png);
    assert(script.skip((second + png.len()) as int) =~= after);
}

/// A command that ended with status 0 is answered with the text it printed, all of it.
pub proof fn law_output_is_what_was_printed(command: Seq<char>, text: Seq<char>, stderr: Seq<u8>)
    ensures
        output_of(
            command,
            EventView::Output { status: Some(0i32), stdout: encode_utf8(text), stderr },
        ) == ReplyView::Text(text),
{
    encode_utf8_valid_utf8(text);
    encode_utf8_decode_utf8(text);
}

/// Output that is not UTF-8 is read as `String::from_utf8_lossy` reads it.
pub proof fn law_other_output_is_read_leniently(
    command: Seq<char>,
    stdout: Seq<u8>,
    stderr: Seq<u8>,
)
    requires
        !valid_utf8(stdout),
    ensures
        output_of(command, EventView::Output { status: Some(0i32), stdout, stderr })
            == ReplyView::Text(utf8_lossy(stdout)),
{
}

/// A command that ended otherwise is a failure that gives the command and what it printed as errors,
/// and one that could not be run raises.
pub proof fn law_failed_command_is_a_failure(
    command: Seq<char>,
    status: Option<i32>,
    stdout: Seq<u8>,
    stderr: Seq<char>,
)
    requires
        status != Some(0i32),
    ensures
        output_of(command, EventView::Output { status, stdout, stderr: encode_utf8(stderr) })
            == ReplyView::Failed(FailureView::CommandFailed { command, stderr }),
        output_of(command, EventView::Failed) is Raised,
{
    encode_utf8_valid_utf8(stderr);
    encode_utf8_decode_utf8(stderr);
}

/// The answer to a probe is `yes` with nothing but white space around it.
pub proof fn law_yes_may_have_white_space_around(before: Seq<char>, after: Seq<char>)
    requires
        is_blank(before),
        is_blank(after),
    ensures
        is_yes(before + seq!['y', 'e', 's'] + after),
{
    reveal_strlit("yes");
    let yes = seq!['y', 'e', 's'];
    assert("yes"@ =~= yes);
    law_trim_takes_the_ends(before, yes, after);
}

/// Any other answer is no `yes`: there is a place for it, and nothing but white space elsewhere.
pub proof fn law_nothing_else_is_yes(output: Seq<char>) -> (at: int)
    requires
        is_yes(output),
    ensures
        0 <= at <= output.len() - 3,
        output.subrange(at, at + 3) == seq!['y', 'e', 's'],
        is_blank(output.take(at)),
        is_blank(output.skip(at + 3)),
{
    reveal_strlit("yes");
    assert("yes"@ =~= seq!['y', 'e', 's']);
    let (a, b) = law_trim_leaves_a_part(output);
    assert(output.subrange(a, b).len() == 3);
    a
}

/// What a probe finds goes by its status and by `yes`: status 0 with `yes` for a file that is there,
/// status 0 or 1 without it for one that is not. Anything else is a failure.
pub proof fn law_probe_findings(
    command: Seq<char>,
    status: Option<i32>,
    text: Seq<char>,
    stderr: Seq<char>,
)
    ensures
        ({
            let found = probe_of(
                command,
                EventView::Output {
                    status,
                    stdout: encode_utf8(text),
                    stderr: encode_utf8(stderr),
                },
            );
            let yes = trim_of(text) == seq!['y', 'e', 's'];
            &&& status == Some(0i32) && yes ==> found is Exists
            &&& (status == Some(0i32) || status == Some(1i32)) && !yes ==> found is Missing
            &&& status == Some(1i32) && yes ==> found == ProbeView::Failed(
                FailureView::CommandFailed { command, stderr },
            )
            &&& status != Some(0i32) && status != Some(1i32) ==> found == ProbeView::Failed(
                FailureView::CommandFailed { command, stderr },
            )
        }),
        probe_of(command, EventView::Failed) is Raised,
{
    reveal_strlit("yes");
    assert("yes"@ =~= seq!['y', 'e', 's']);
    encode_utf8_valid_utf8(text);
    encode_utf8_decode_utf8(text);
    encode_utf8_valid_utf8(stderr);
    encode_utf8_decode_utf8(stderr);
}

/// A name of plain and ordinary characters without a single quote stands in the command as it is.
pub proof fn law_ordinary_name_is_listed_as_it_is(notebook: Seq<char>)
    requires
        is_plain(notebook),
        is_ordinary(notebook),
        !notebook.contains('\''),
    ensures
        list_command_of(notebook) == "grep -l '\"visibleName\": \""@ + notebook
            + "\"' /home/root/.local/share/remarkable/xochitl/*.metadata 2>/dev/null"@,
{
    reveal_strlit("grep -l '\"visibleName\": \"");
    reveal_strlit("\"' /home/root/.local/share/remarkable/xochitl/*.metadata 2>/dev/null");
    reveal_strlit("\"visibleName\": \"");
    reveal_strlit("\"");
    reveal_strlit("grep -l ");
    reveal_strlit(" ");
    reveal_strlit("/home/root/.local/share/remarkable/xochitl");
    reveal_strlit("/*.metadata 2>/dev/null");
    law_ordinary_name_is_its_own_pattern(notebook);
    let entry = "\"visibleName\": \""@ + notebook + "\""@;
    if entry.contains('\'') {
        let k = choose|k: int| 0 <= k < entry.len() && entry[k] == '\'';
        assert(16 <= k < 16 + notebook.len());
        assert(notebook.contains(notebook[k - 16]));
    }
    law_nothing_to_replace(entry, '\'', "'\\''"@);
    assert(list_command_of(notebook) =~= "grep -l '\"visibleName\": \""@ + notebook
        + "\"' /home/root/.local/share/remarkable/xochitl/*.metadata 2>/dev/null"@);
}

/// Bytes are read as the text that they encode, and as `String::from_utf8_lossy` reads them where
/// they encode none.
pub proof fn law_bytes_are_read_as_text(bytes: Seq<u8>, text: Seq<char>)
    ensures
        lossy_of(encode_utf8(text)) == text,
        valid_utf8(bytes) ==> lossy_of(bytes) == decode_utf8(bytes),
        !valid_utf8(bytes) ==> lossy_of(bytes) == utf8_lossy(bytes),
{
    encode_utf8_valid_utf8(text);
    encode_utf8_decode_utf8(text);
}

/// Of every command, whatever bytes it printed, all is read: the output of one that ended with
/// status 0, and the errors of any other.
pub proof fn law_all_bytes_are_read(
    command: Seq<char>,
    status: Option<i32>,
    stdout: Seq<u8>,
    stderr: Seq<u8>,
)
    ensures
        ({
            let event = EventView::Output { status, stdout, stderr };
            let failure = FailureView::CommandFailed { command, stderr: lossy_of(stderr) };
            let yes = trim_of(lossy_of(stdout)) == seq!['y', 'e', 's'];
            &&& status == Some(0i32) ==> output_of(command, event) == ReplyView::Text(
                lossy_of(stdout),
            )
            &&& status != Some(0i32) ==> output_of(command, event) == ReplyView::Failed(failure)
            &&& status == Some(0i32) && yes ==> probe_of(command, event) is Exists
            &&& (status == Some(0i32) || status == Some(1i32)) && !yes ==> probe_of(command, event)
                is Missing
            &&& status == Some(1i32) && yes || (status != Some(0i32) && status != Some(1i32))
                ==> probe_of(command, event) == ProbeView::Failed(failure)
        }),
{
    reveal_strlit("yes");
    assert("yes"@ =~= seq!['y', 'e', 's']);
}

/// Whatever a notebook is called, the paths of its two files are the store, its name and the
/// extension, and nothing else.
pub proof fn law_notebook_paths_keep_the_name(uuid: Seq<char>)
    ensures
        metadata_path_of(uuid) == "/home/root/.local/share/remarkable/xochitl/"@ + uuid
            + ".metadata"@,
        content_path_of(uuid) == "/home/root/.local/share/remarkable/xochitl/"@ + uuid
            + ".content"@,
{
    reveal_strlit("/home/root/.local/share/remarkable/xochitl/");
    reveal_strlit("/home/root/.local/share/remarkable/xochitl");
    reveal_strlit("/");
    assert(metadata_path_of(uuid) =~= "/home/root/.local/share/remarkable/xochitl/"@ + uuid
        + ".metadata"@);
    assert(content_path_of(uuid) =~= "/home/root/.local/share/remarkable/xochitl/"@ + uuid
        + ".content"@);
}

} // verus!
