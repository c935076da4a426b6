//! The host aliases of `~/.ssh/config`.
use vstd::prelude::*;
use vstd::slice::slice_subrange;
use vstd::string::*;
use vstd::utf8::{
    char_is_scalar, decode_utf8, encode_scalar, encode_utf8, encode_utf8_decode_utf8, encode_utf8_valid_utf8,
    valid_utf8,
};

use crate::outside::{lossy_of, lossy_text, utf8_lossy};
use crate::path::{is_absolute, join_path, joined};
use crate::text::{
    concat2, concat3, is_space, lemma_until, lemma_until_bound, lemma_word_len, lines, lines_of,
    same_text, split_whitespace, strip_prefix, texts, to_chars, trim, trim_end_of, trim_of,
    trim_start_of, until, without_cr, words_of,
};
use crate::text_laws::{
    is_blank, law_trim_leaves_a_part, law_trim_takes_the_ends, law_white_space_separates_words,
};

verus! {

/// Whether `line` is a `Host` line with `host` among its patterns.
pub open spec fn lists_host(line: Seq<char>, host: Seq<char>) -> bool {
    let entry = trim_of(line);
    "Host "@.is_prefix_of(entry) && words_of(entry.skip("Host "@.len() as int)).contains(host)
}

/// Whether some line of `config` is a `Host` line with `host` among its patterns.
pub open spec fn has_host(config: Seq<char>, host: Seq<char>) -> bool {
    exists|i: int| 0 <= i < lines_of(config).len() && lists_host(#[trigger] lines_of(config)[i], host)
}

/// Whether `line` is a `Host` line with `host` among its patterns.
pub fn line_lists_host(line: &str, host: &str) -> (r: bool)
    ensures
        r == lists_host(line@, host@),
{
    match strip_prefix(trim(line), "Host ") {
        Some(rest) => {
            let patterns = split_whitespace(rest);
            let ghost words = words_of(rest@);
            assert(texts(patterns@).len() == patterns@.len());
            let mut i: usize = 0;
            while i < patterns.len()
                invariant
                    i <= patterns.len(),
                    words == texts(patterns@),
                    lists_host(line@, host@) == words.contains(host@),
                    forall|k: int| 0 <= k < i ==> words[k] != host@,
                decreases patterns.len() - i,
            {
                assert(words[i as int] == patterns@[i as int]@);
                if same_text(&patterns[i], host) {
                    return true;
                }
                i += 1;
            }
            false
        },
        None => false,
    }
}

/// Whether `config_text` already has a `Host` line that lists `host`.
pub fn host_block_exists(config_text: &str, host: &str) -> (r: bool)
    ensures
        r == has_host(config_text@, host@),
{
    let all = lines(config_text);
    let ghost given = lines_of(config_text@);
    assert(texts(all@).len() == all@.len());
    let mut i: usize = 0;
    while i < all.len()
        invariant
            i <= all.len(),
            given == texts(all@),
            given == lines_of(config_text@),
            forall|k: int| 0 <= k < i ==> !lists_host(#[trigger] given[k], host@),
        decreases all.len() - i,
    {
        assert(given[i as int] == all@[i as int]@);
        if line_lists_host(&all[i], host) {
            return true;
        }
        i += 1;
    }
    false
}

/// The parts of `s` between the elements `mark`, and before the first and behind the last of them.
pub open spec fn pieces<T>(s: Seq<T>, mark: T) -> Seq<Seq<T>>
    decreases s.len(),
{
    if s.len() == 0 {
        seq![s]
    } else {
        let rest = pieces(s.skip(1), mark);
        if s[0] == mark {
            seq![Seq::empty()] + rest
        } else {
            seq![seq![s[0]] + rest[0]] + rest.skip(1)
        }
    }
}

/// Whether some line of a configuration file is a `Host` line with `host` among its patterns. Each
/// line is read by itself: one that is not valid UTF-8 takes nothing from the others.
pub open spec fn file_has_host(config: Seq<u8>, host: Seq<char>) -> bool {
    exists|i: int|
        0 <= i < pieces(config, 10u8).len() && lists_host(
            lossy_of(#[trigger] pieces(config, 10u8)[i]),
            host,
        )
}

proof fn lemma_pieces_nonempty<T>(s: Seq<T>, mark: T)
    ensures
        pieces(s, mark).len() > 0,
    decreases s.len(),
{
    if s.len() > 0 {
        lemma_pieces_nonempty(s.skip(1), mark);
    }
}

/// What comes before the first mark goes with the first part.
proof fn lemma_pieces_after<T>(a: Seq<T>, b: Seq<T>, mark: T)
    requires
        !a.contains(mark),
    ensures
        pieces(a + b, mark) == seq![a + pieces(b, mark)[0]] + pieces(b, mark).skip(1),
    decreases a.len(),
{
    lemma_pieces_nonempty(b, mark);
    let p = pieces(b, mark);
    if a.len() == 0 {
        assert(a + b =~= b);
        assert(a + p[0] =~= p[0]);
        assert(seq![p[0]] + p.skip(1) =~= p);
    } else {
        let rest = a.skip(1);
        assert(a.contains(a[0]));
        assert(!rest.contains(mark)) by {
            if rest.contains(mark) {
                let k = choose|k: int| 0 <= k < rest.len() && rest[k] == mark;
                assert(a[k + 1] == mark);
            }
        }
        lemma_pieces_after(rest, b, mark);
        assert((a + b).skip(1) =~= rest + b);
        assert(seq![a[0]] + (rest + p[0]) =~= a + p[0]);
        let q = seq![rest + p[0]] + p.skip(1);
        assert(q.skip(1) =~= p.skip(1));
    }
}

/// A mark separates the parts before it from the parts behind it.
proof fn lemma_pieces_split<T>(a: Seq<T>, b: Seq<T>, mark: T)
    ensures
        pieces(a.push(mark) + b, mark) == pieces(a, mark) + pieces(b, mark),
    decreases a.len(),
{
    let s = a.push(mark) + b;
    if a.len() == 0 {
        assert(s.skip(1) =~= b);
        assert(a =~= Seq::empty());
    } else {
        let rest = a.skip(1);
        lemma_pieces_split(rest, b, mark);
        lemma_pieces_nonempty(rest, mark);
        assert(s.skip(1) =~= rest.push(mark) + b);
        let p = pieces(rest, mark);
        let q = pieces(b, mark);
        assert((p + q).skip(1) =~= p.skip(1) + q);
        assert(pieces(s, mark) =~= pieces(a, mark) + q);
    }
}

proof fn lemma_pieces_without_mark<T>(s: Seq<T>, mark: T)
    requires
        !s.contains(mark),
    ensures
        pieces(s, mark) == seq![s],
{
    let none = Seq::<T>::empty();
    lemma_pieces_after(s, none, mark);
    assert(s + none =~= s);
    assert(pieces(none, mark) =~= seq![none]);
    assert(seq![none].skip(1) =~= Seq::empty());
    assert(seq![s] + Seq::<Seq<T>>::empty() =~= seq![s]);
}

/// Whether the file `config` already has a `Host` line that lists `host`.
pub fn file_lists_host(config: &[u8], host: &str) -> (r: bool)
    ensures
        r == file_has_host(config@, host@),
{
    let ghost all = pieces(config@, 10u8);
    let ghost mut done: Seq<Seq<u8>> = Seq::empty();
    let mut start: usize = 0;
    let mut i: usize = 0;
    assert(config@.skip(0) =~= config@);
    assert(done + all =~= all);
    while i < config.len()
        invariant
            start <= i <= config.len(),
            all == pieces(config@, 10u8),
            all == done + pieces(config@.skip(start as int), 10u8),
            forall|k: int| start <= k < i ==> config@[k] != 10u8,
            forall|k: int| 0 <= k < done.len() ==> !lists_host(lossy_of(#[trigger] done[k]), host@),
        decreases config.len() - i,
    {
        if config[i] == 10u8 {
            let ghost line = config@.subrange(start as int, i as int);
            proof {
                let rest = config@.skip(i + 1);
                assert(config@.skip(start as int) =~= line.push(10u8) + rest);
                lemma_pieces_split(line, rest, 10u8);
                lemma_pieces_without_mark(line, 10u8);
                assert(all =~= done.push(line) + pieces(rest, 10u8));
                assert(all[done.len() as int] == line);
            }
            let text = lossy_text(slice_subrange(config, start, i));
            if line_lists_host(&text, host) {
                return true;
            }
            proof {
                done = done.push(line);
            }
            start = i + 1;
        }
        i += 1;
    }
    let ghost line = config@.skip(start as int);
    proof {
        lemma_pieces_without_mark(line, 10u8);
        assert(all =~= done.push(line));
        assert(all[done.len() as int] == line);
        assert(config@.subrange(start as int, i as int) =~= line);
        assert forall|k: int| 0 <= k < done.len() implies !lists_host(
            lossy_of(#[trigger] all[k]),
            host@,
        ) by {
            assert(all[k] == done[k]);
        }
    }
    let text = lossy_text(slice_subrange(config, start, i));
    line_lists_host(&text, host)
}

/// `path` without the separators it starts with.
pub open spec fn relative_of(path: Seq<char>) -> Seq<char>
    decreases path.len(),
{
    if path.len() > 0 && path[0] == '/' {
        relative_of(path.skip(1))
    } else {
        path
    }
}

/// The path that `input` stands for: a leading `~/` stands for `home`, and anything else for
/// itself.
pub open spec fn expanded(input: Seq<char>, home: Seq<char>) -> Seq<char> {
    if "~/"@.is_prefix_of(input) {
        joined(home, relative_of(input.skip("~/"@.len() as int)))
    } else {
        input
    }
}

/// Strips the separators that `path` starts with.
pub fn strip_separators(path: &str) -> (r: &str)
    ensures
        r@ == relative_of(path@),
        !is_absolute(r@),
{
    let cs = to_chars(path);
    let mut i: usize = 0;
    assert(path@.skip(0) =~= path@);
    while i < cs.len() && cs[i] == '/'
        invariant
            cs@ == path@,
            i <= cs.len(),
            relative_of(path@) == relative_of(path@.skip(i as int)),
        decreases cs.len() - i,
    {
        assert(path@.skip(i as int).skip(1) =~= path@.skip(i + 1));
        i += 1;
    }
    let rest = path.substring_char(i, cs.len());
    assert(rest@ =~= path@.skip(i as int));
    rest
}

/// Expands a leading `~/` in `input` to `home`, and leaves anything else as it is.
pub fn shellexpand_tilde(input: &str, home: &str) -> (r: String)
    ensures
        r@ == expanded(input@, home@),
        "~/"@.is_prefix_of(input@) ==> home@.is_prefix_of(r@),
        !"~/"@.is_prefix_of(input@) ==> r@ == input@,
{
    match strip_prefix(input, "~/") {
        Some(rest) => {
            let relative = strip_separators(rest);
            let path = join_path(home, relative);
            assert forall|i: int| 0 <= i < home@.len() implies path@[i] == home@[i] by {}
            path
        },
        None => input.to_owned(),
    }
}

/// The lines of the block that gives `host` its address and key.
pub open spec fn managed_lines_of(host: Seq<char>, hostname: Seq<char>, key: Seq<char>) -> Seq<
    Seq<char>,
> {
    seq![
        ""@,
        "# BEGIN SYNCBOOK MANAGED ("@ + host + ")"@,
        "Host "@ + host,
        "    HostName "@ + hostname,
        "    User root"@,
        "    IdentityFile "@ + key,
        "    StrictHostKeyChecking accept-new"@,
        "# END SYNCBOOK MANAGED ("@ + host + ")"@,
    ]
}

/// The text that `list` makes, with a line feed behind each line.
pub open spec fn text_of_lines(list: Seq<Seq<char>>) -> Seq<char>
    decreases list.len(),
{
    if list.len() == 0 {
        Seq::empty()
    } else {
        list[0].push('\n') + text_of_lines(list.skip(1))
    }
}

/// The block that gives `host` its address and key.
pub open spec fn managed_block_of(host: Seq<char>, hostname: Seq<char>, key: Seq<char>) -> Seq<
    char,
> {
    text_of_lines(managed_lines_of(host, hostname, key))
}

/// The block that gives `host` its address and key.
pub fn managed_block(host: &str, hostname: &str, key: &str) -> (r: String)
    ensures
        r@ == managed_block_of(host@, hostname@, key@),
{
    let list: Vec<String> = vec![
        "".to_owned(),
        concat3("# BEGIN SYNCBOOK MANAGED (", host, ")"),
        concat2("Host ", host),
        concat2("    HostName ", hostname),
        "    User root".to_owned(),
        concat2("    IdentityFile ", key),
        "    StrictHostKeyChecking accept-new".to_owned(),
        concat3("# END SYNCBOOK MANAGED (", host, ")"),
    ];
    let ghost given = texts(list@);
    assert(given =~= managed_lines_of(host@, hostname@, key@));
    let mut out = String::new();
    let mut i: usize = 0;
    assert(given.skip(0) =~= given);
    assert(out@ + text_of_lines(given) =~= text_of_lines(given));
    while i < list.len()
        invariant
            i <= list.len(),
            given == texts(list@),
            text_of_lines(given) == out@ + text_of_lines(given.skip(i as int)),
        decreases list.len() - i,
    {
        let ghost before = out@;
        let ghost rest = given.skip(i as int);
        out.append(&list[i]);
        out.push('\n');
        assert(rest[0] == list@[i as int]@);
        assert(rest.skip(1) =~= given.skip(i + 1));
        assert(before + text_of_lines(rest) =~= out@ + text_of_lines(given.skip(i + 1)));
        i += 1;
    }
    assert(out@ + text_of_lines(given.skip(i as int)) =~= out@);
    out
}

/// Whether `host` can be an alias: a text without white space.
pub open spec fn is_alias(host: Seq<char>) -> bool {
    host.len() > 0 && forall|i: int| 0 <= i < host.len() ==> !is_space(#[trigger] host[i])
}

/// A text that ends its first part with a line feed has the lines of the two parts.
proof fn lemma_lines_split(a: Seq<char>, b: Seq<char>)
    ensures
        lines_of(a.push('\n') + b) == lines_of(a.push('\n')) + lines_of(b),
    decreases a.len(),
{
    let left = a.push('\n');
    let s = left + b;
    lemma_until_bound(left, '\n');
    let n = until(left, '\n') as int;
    if n > a.len() {
        assert(left[a.len() as int] != '\n');
    }
    assert forall|k: int| 0 <= k < n implies s[k] != '\n' by {
        assert(s[k] == left[k]);
    }
    assert(s[n] == left[n]);
    lemma_until(s, '\n', n as nat);
    assert(s.take(n) =~= left.take(n));
    if n == a.len() {
        assert(s.skip(n + 1) =~= b);
        assert(left.skip(n + 1) =~= Seq::<char>::empty());
        assert(lines_of(left.skip(n + 1)) =~= Seq::<Seq<char>>::empty());
        assert(lines_of(left) =~= seq![without_cr(left.take(n))]);
    } else {
        let a2 = a.skip(n + 1);
        lemma_lines_split(a2, b);
        assert(left.skip(n + 1) =~= a2.push('\n'));
        assert(s.skip(n + 1) =~= a2.push('\n') + b);
        assert(seq![without_cr(left.take(n))] + (lines_of(a2.push('\n')) + lines_of(b))
            =~= (seq![without_cr(left.take(n))] + lines_of(a2.push('\n'))) + lines_of(b));
    }
}

/// Whether some line of `list` is a `Host` line with `host` among its patterns.
spec fn some_lists(list: Seq<Seq<char>>, host: Seq<char>) -> bool {
    exists|i: int| 0 <= i < list.len() && lists_host(#[trigger] list[i], host)
}

proof fn lemma_some_lists_add(a: Seq<Seq<char>>, b: Seq<Seq<char>>, host: Seq<char>)
    ensures
        some_lists(a + b, host) == (some_lists(a, host) || some_lists(b, host)),
{
    if some_lists(a + b, host) {
        let i = choose|i: int| 0 <= i < (a + b).len() && lists_host(#[trigger] (a + b)[i], host);
        if i < a.len() {
            assert(lists_host(a[i], host));
        } else {
            assert(lists_host(b[i - a.len()], host));
        }
    }
    if some_lists(a, host) {
        let i = choose|i: int| 0 <= i < a.len() && lists_host(#[trigger] a[i], host);
        assert(lists_host((a + b)[i], host));
    }
    if some_lists(b, host) {
        let i = choose|i: int| 0 <= i < b.len() && lists_host(#[trigger] b[i], host);
        assert(lists_host((a + b)[i + a.len()], host));
    }
}

proof fn lemma_trim_start_push(s: Seq<char>, c: char)
    requires
        is_space(c),
    ensures
        trim_start_of(s.push(c)) == if trim_start_of(s).len() == 0 {
            Seq::empty()
        } else {
            trim_start_of(s).push(c)
        },
    decreases s.len(),
{
    if s.len() == 0 {
        assert(s.push(c)[0] == c);
        assert(s.push(c).skip(1) =~= Seq::empty());
        assert(trim_start_of(s.push(c).skip(1)) == s.push(c).skip(1));
    } else if is_space(s[0]) {
        assert(s.push(c).skip(1) =~= s.skip(1).push(c));
        lemma_trim_start_push(s.skip(1), c);
    }
}

proof fn lemma_trim_without_cr(line: Seq<char>)
    ensures
        trim_of(without_cr(line)) == trim_of(line),
{
    if line.len() > 0 && line.last() == '\r' {
        let s = line.drop_last();
        assert(line =~= s.push('\r'));
        lemma_trim_start_push(s, '\r');
        let t = trim_start_of(s);
        if t.len() > 0 {
            assert(t.push('\r').drop_last() =~= t);
        }
    }
}

proof fn lemma_trim_end_is_prefix(s: Seq<char>)
    ensures
        trim_end_of(s).len() <= s.len(),
        trim_end_of(s) == s.take(trim_end_of(s).len() as int),
    decreases s.len(),
{
    if s.len() > 0 && is_space(s.last()) {
        lemma_trim_end_is_prefix(s.drop_last());
        let n = trim_end_of(s).len() as int;
        assert(s.drop_last().take(n) =~= s.take(n));
    } else {
        assert(s.take(s.len() as int) =~= s);
    }
}

/// A line feed at the end of a configuration changes nothing.
proof fn lemma_final_line_feed(config: Seq<char>, host: Seq<char>)
    ensures
        has_host(config.push('\n'), host) == has_host(config, host),
    decreases config.len(),
{
    reveal_strlit("Host ");
    let ended = config.push('\n');
    lemma_until_bound(ended, '\n');
    lemma_until_bound(config, '\n');
    let n = until(config, '\n') as int;
    assert forall|k: int| 0 <= k < n implies ended[k] != '\n' by {
        assert(ended[k] == config[k]);
    }
    lemma_until(ended, '\n', n as nat);
    assert(ended.take(n) =~= config.take(n));
    if n == config.len() {
        assert(ended.skip(n + 1) =~= Seq::<char>::empty());
        assert(lines_of(ended.skip(n + 1)) =~= Seq::<Seq<char>>::empty());
        assert(config.take(n) =~= config);
        assert(lines_of(ended) =~= seq![without_cr(config)]);
        lemma_trim_without_cr(config);
        if config.len() == 0 {
            assert(trim_of(config) =~= Seq::<char>::empty());
            assert(!lists_host(config, host));
        }
        assert(has_host(ended, host) == lists_host(config, host)) by {
            assert(lines_of(ended)[0] == without_cr(config));
        }
        assert(has_host(config, host) == lists_host(config, host)) by {
            if config.len() > 0 {
                assert(lines_of(config)[0] == config);
            }
        }
    } else {
        let rest = config.skip(n + 1);
        let first = seq![without_cr(config.take(n))];
        assert(ended.skip(n + 1) =~= rest.push('\n'));
        lemma_final_line_feed(rest, host);
        lemma_some_lists_add(first, lines_of(rest), host);
        lemma_some_lists_add(first, lines_of(rest.push('\n')), host);
        assert(lines_of(config) == first + lines_of(rest));
        assert(lines_of(ended) == first + lines_of(rest.push('\n')));
        assert(has_host(config, host) == some_lists(lines_of(config), host));
        assert(has_host(ended, host) == some_lists(lines_of(ended), host));
        assert(has_host(rest, host) == some_lists(lines_of(rest), host));
        assert(has_host(rest.push('\n'), host) == some_lists(lines_of(rest.push('\n')), host));
    }
}

/// The hosts of a configuration that goes on with whole lines are its own and those that the lines
/// list.
proof fn lemma_hosts_of_appended_lines(config: Seq<char>, list: Seq<Seq<char>>, host: Seq<char>)
    requires
        forall|i: int| 0 <= i < list.len() ==> !(#[trigger] list[i]).contains('\n'),
    ensures
        has_host(config.push('\n') + text_of_lines(list), host) == (has_host(config, host)
            || some_lists(list, host)),
    decreases list.len(),
{
    if list.len() == 0 {
        assert(config.push('\n') + text_of_lines(list) =~= config.push('\n'));
        lemma_final_line_feed(config, host);
    } else {
        let line = list[0];
        let rest = list.skip(1);
        let longer = config.push('\n') + line;
        assert(config.push('\n') + text_of_lines(list) =~= longer.push('\n') + text_of_lines(rest));
        assert forall|i: int| 0 <= i < rest.len() implies !(#[trigger] rest[i]).contains('\n') by {
            assert(rest[i] == list[i + 1]);
        }
        lemma_hosts_of_appended_lines(longer, rest, host);
        lemma_lines_split(config, line);
        lemma_some_lists_add(lines_of(config.push('\n')), lines_of(line), host);
        lemma_final_line_feed(config, host);
        assert(list =~= seq![line] + rest);
        lemma_some_lists_add(seq![line], rest, host);
        lemma_hosts_of_line(line, host);
    }
}

/// What a line lists starts behind the white space at the line's start.
proof fn lemma_listing_line(indent: Seq<char>, entry: Seq<char>, host: Seq<char>)
    requires
        indent =~= seq![] || indent =~= seq![' ', ' ', ' ', ' '],
        entry.len() > 0,
        !is_space(entry[0]),
        lists_host(indent + entry, host),
    ensures
        "Host "@.is_prefix_of(entry),
{
    let line = indent + entry;
    assert(trim_start_of(line) == entry) by {
        if indent.len() == 0 {
            assert(line =~= entry);
        } else {
            let l1 = line.skip(1);
            let l2 = l1.skip(1);
            let l3 = l2.skip(1);
            assert(line[0] == ' ' && l1[0] == ' ' && l2[0] == ' ' && l3[0] == ' ');
            assert(l3.skip(1) =~= entry);
            assert(trim_start_of(l3) == trim_start_of(entry));
            assert(trim_start_of(l2) == trim_start_of(l3));
            assert(trim_start_of(l1) == trim_start_of(l2));
            assert(trim_start_of(line) == trim_start_of(l1));
        }
    }
    lemma_trim_end_is_prefix(entry);
    let kept = trim_end_of(entry);
    assert forall|i: int| 0 <= i < "Host "@.len() implies "Host "@[i] == entry[i] by {
        assert("Host "@[i] == kept[i]);
    }
}

/// A `Host` line with one alias lists that alias and no other host.
pub proof fn law_host_line_lists_its_alias(host: Seq<char>, other: Seq<char>)
    requires
        is_alias(host),
    ensures
        lists_host("Host "@ + host, other) == (other == host),
{
    reveal_strlit("Host ");
    let line = "Host "@ + host;
    assert(line[0] == 'H');
    assert(line.last() == host.last());
    assert(!is_space(host[host.len() - 1]));
    assert(trim_of(line) == line);
    assert(line.skip("Host "@.len() as int) =~= host);
    lemma_word_len(host, host.len());
    assert(host.take(host.len() as int) =~= host);
    assert(host.skip(host.len() as int) =~= Seq::<char>::empty());
    assert(!is_space(host[0]));
    assert(words_of(host.skip(host.len() as int)) =~= Seq::<Seq<char>>::empty());
    assert(words_of(host) =~= seq![host]);
    assert(seq![host][0] == host);
}

proof fn lemma_hosts_of_block(
    config: Seq<char>,
    host: Seq<char>,
    hostname: Seq<char>,
    key: Seq<char>,
    other: Seq<char>,
)
    requires
        is_alias(host),
        !hostname.contains('\n'),
        !key.contains('\n'),
    ensures
        has_host(config + managed_block_of(host, hostname, key), other) == (has_host(config, other)
            || other == host),
{
    let all = managed_lines_of(host, hostname, key);
    let list = all.skip(1);
    reveal_strlit("");
    reveal_strlit("Host ");
    reveal_strlit(")");
    reveal_strlit("# BEGIN SYNCBOOK MANAGED (");
    reveal_strlit("    HostName ");
    reveal_strlit("    User root");
    reveal_strlit("    IdentityFile ");
    reveal_strlit("    StrictHostKeyChecking accept-new");
    reveal_strlit("# END SYNCBOOK MANAGED (");
    assert(""@ =~= Seq::<char>::empty());
    assert(config + managed_block_of(host, hostname, key) =~= config.push('\n') + text_of_lines(
        list,
    ));
    assert(!host.contains('\n')) by {
        if host.contains('\n') {
            let k = choose|k: int| 0 <= k < host.len() && host[k] == '\n';
            assert(!is_space(host[k]));
        }
    }
    let none = Seq::<char>::empty();
    let blanks = seq![' ', ' ', ' ', ' '];
    let name = seq!['H', 'o', 's', 't', 'N', 'a', 'm', 'e', ' '] + hostname;
    let user = "    User root"@.skip(4);
    let file = seq!['I', 'd', 'e', 'n', 't', 'i', 't', 'y', 'F', 'i', 'l', 'e', ' '] + key;
    let strict = "    StrictHostKeyChecking accept-new"@.skip(4);
    assert(list[0] =~= none + list[0]);
    assert(list[2] =~= blanks + name);
    assert(list[3] =~= blanks + user);
    assert(list[4] =~= blanks + file);
    assert(list[5] =~= blanks + strict);
    assert(list[6] =~= none + list[6]);
    assert forall|i: int| 0 <= i < list.len() implies !(#[trigger] list[i]).contains('\n') by {
        if list[i].contains('\n') {
            let k = choose|k: int| 0 <= k < list[i].len() && list[i][k] == '\n';
            if i == 0 || i == 6 {
                let n = list[i].len() - host.len() - 1;
                if n <= k < n + host.len() {
                    assert(list[i][k] == host[k - n]);
                    assert(host.contains('\n'));
                }
            } else if i == 1 {
                if k >= 5 {
                    assert(list[i][k] == host[k - 5]);
                    assert(host.contains('\n'));
                }
            } else if i == 2 {
                if k >= 13 {
                    assert(list[i][k] == hostname[k - 13]);
                    assert(hostname.contains('\n'));
                }
            } else if i == 4 {
                if k >= 17 {
                    assert(list[i][k] == key[k - 17]);
                    assert(key.contains('\n'));
                }
            }
        }
    }
    lemma_hosts_of_appended_lines(config, list, other);
    law_host_line_lists_its_alias(host, other);
    assert(list[1] == "Host "@ + host);
    assert forall|i: int| 0 <= i < list.len() && i != 1 implies !lists_host(
        #[trigger] list[i],
        other,
    ) by {
        if lists_host(list[i], other) {
            if i == 0 || i == 6 {
                lemma_listing_line(none, list[i], other);
                assert("Host "@[0] == list[i][0]);
            } else if i == 2 {
                lemma_listing_line(blanks, name, other);
                assert("Host "@[4] == name[4]);
            } else if i == 3 {
                lemma_listing_line(blanks, user, other);
                assert("Host "@[0] == user[0]);
            } else if i == 4 {
                lemma_listing_line(blanks, file, other);
                assert("Host "@[0] == file[0]);
            } else {
                lemma_listing_line(blanks, strict, other);
                assert("Host "@[0] == strict[0]);
            }
        }
    }
}

/// A configuration lists an alias once its block has been appended, whatever it held before.
pub proof fn law_block_adds_its_host(
    config: Seq<char>,
    host: Seq<char>,
    hostname: Seq<char>,
    key: Seq<char>,
)
    requires
        is_alias(host),
    ensures
        has_host(config + managed_block_of(host, hostname, key), host),
{
    reveal_strlit("");
    reveal_strlit("Host ");
    reveal_strlit(")");
    reveal_strlit("# BEGIN SYNCBOOK MANAGED (");
    let all = managed_lines_of(host, hostname, key);
    let list = seq![all[1], all[2]];
    let rest = text_of_lines(all.skip(3));
    assert(!host.contains('\n')) by {
        if host.contains('\n') {
            let k = choose|k: int| 0 <= k < host.len() && host[k] == '\n';
            assert(!is_space(host[k]));
        }
    }
    assert forall|i: int| 0 <= i < list.len() implies !(#[trigger] list[i]).contains('\n') by {
        if list[i].contains('\n') {
            let k = choose|k: int| 0 <= k < list[i].len() && list[i][k] == '\n';
            let n = if i == 0 {
                list[i].len() - host.len() - 1
            } else {
                5
            };
            if n <= k < n + host.len() {
                assert(list[i][k] == host[k - n]);
                assert(host.contains('\n'));
            }
        }
    }
    law_host_line_lists_its_alias(host, host);
    assert(lists_host(list[1], host));
    lemma_hosts_of_appended_lines(config, list, host);
    let start = config.push('\n') + list[0].push('\n') + list[1];
    assert(list.skip(1).skip(1) =~= Seq::<Seq<char>>::empty());
    assert(list.skip(1)[0] == list[1]);
    assert(text_of_lines(list.skip(1).skip(1)) =~= Seq::<char>::empty());
    assert(text_of_lines(list.skip(1)) =~= list[1].push('\n'));
    assert(config.push('\n') + text_of_lines(list) =~= start.push('\n'));
    assert(""@ =~= Seq::<char>::empty());
    assert(all.skip(1).skip(1).skip(1) =~= all.skip(3));
    assert(all.skip(1)[0] == list[0] && all.skip(1).skip(1)[0] == list[1]);
    assert(text_of_lines(all.skip(1).skip(1)) == list[1].push('\n') + rest);
    assert(text_of_lines(all.skip(1)) == list[0].push('\n') + (list[1].push('\n') + rest));
    assert(config + managed_block_of(host, hostname, key) =~= start.push('\n') + rest);
    lemma_lines_split(start, rest);
    lemma_some_lists_add(lines_of(start.push('\n')), lines_of(rest), host);
    assert(has_host(start.push('\n'), host) == some_lists(lines_of(start.push('\n')), host));
    let whole = start.push('\n') + rest;
    assert(has_host(whole, host) == some_lists(lines_of(whole), host));
}

/// Appending the block of an alias changes nothing for other hosts.
pub proof fn law_block_adds_no_other_host(
    config: Seq<char>,
    host: Seq<char>,
    hostname: Seq<char>,
    key: Seq<char>,
    other: Seq<char>,
)
    requires
        is_alias(host),
        !hostname.contains('\n'),
        !key.contains('\n'),
        other != host,
    ensures
        has_host(config + managed_block_of(host, hostname, key), other) == has_host(config, other),
{
    lemma_hosts_of_block(config, host, hostname, key, other);
}

proof fn lemma_char_bytes(c: char)
    ensures
        c == '\n' ==> encode_scalar(c as u32) == seq![10u8],
        c != '\n' ==> !encode_scalar(c as u32).contains(10u8),
{
    let v = c as u32;
    char_is_scalar(c);
    assert(v <= 0x7f ==> (v & 0x7f) as u8 == v) by (bit_vector);
    let two = ((v >> 6) & 0x1f) as u8;
    let three = ((v >> 12) & 0x0f) as u8;
    let four = ((v >> 18) & 0x07) as u8;
    let last = (v & 0x3f) as u8;
    let second = ((v >> 6) & 0x3f) as u8;
    let third = ((v >> 12) & 0x3f) as u8;
    assert(0xC0u8 | two != 10u8) by (bit_vector);
    assert(0xE0u8 | three != 10u8) by (bit_vector);
    assert(0xF0u8 | four != 10u8) by (bit_vector);
    assert(0x80u8 | last != 10u8) by (bit_vector);
    assert(0x80u8 | second != 10u8) by (bit_vector);
    assert(0x80u8 | third != 10u8) by (bit_vector);
    if c == '\n' {
        assert(encode_scalar(v) =~= seq![10u8]);
    }
}

/// The lines of an encoded text are the encoded lines of the text.
proof fn lemma_pieces_of_encoded(s: Seq<char>)
    ensures
        pieces(encode_utf8(s), 10u8) == pieces(s, '\n').map_values(
            |line: Seq<char>| encode_utf8(line),
        ),
    decreases s.len(),
{
    let encode = |line: Seq<char>| encode_utf8(line);
    if s.len() == 0 {
        assert(encode_utf8(s) =~= Seq::<u8>::empty());
        assert(pieces(encode_utf8(s), 10u8) =~= pieces(s, '\n').map_values(encode));
    } else {
        let rest = s.drop_first();
        assert(s.skip(1) =~= rest);
        lemma_pieces_of_encoded(rest);
        lemma_char_bytes(s[0]);
        lemma_pieces_nonempty(rest, '\n');
        let p = pieces(rest, '\n');
        let q = pieces(encode_utf8(rest), 10u8);
        let first = encode_scalar(s[0] as u32);
        if s[0] == '\n' {
            assert((seq![10u8] + encode_utf8(rest)).skip(1) =~= encode_utf8(rest));
            assert(encode_utf8(Seq::<char>::empty()) =~= Seq::<u8>::empty());
            assert(pieces(encode_utf8(s), 10u8) =~= pieces(s, '\n').map_values(encode));
        } else {
            lemma_pieces_after(first, encode_utf8(rest), 10u8);
            let line = seq![s[0]] + p[0];
            assert(line.drop_first() =~= p[0]);
            assert(encode_utf8(line) == first + q[0]);
            assert(pieces(encode_utf8(s), 10u8) =~= pieces(s, '\n').map_values(encode));
        }
    }
}

/// The hosts of a text are those that its lines list, whether the last one ends or not.
proof fn lemma_hosts_of_pieces(config: Seq<char>, host: Seq<char>)
    ensures
        has_host(config, host) == some_lists(pieces(config, '\n'), host),
    decreases config.len(),
{
    lemma_until_bound(config, '\n');
    let n = until(config, '\n') as int;
    let line = config.take(n);
    assert(!line.contains('\n'));
    if n == config.len() {
        assert(line =~= config);
        lemma_pieces_without_mark(config, '\n');
        lemma_hosts_of_line(config, host);
    } else {
        let rest = config.skip(n + 1);
        assert(config =~= line.push('\n') + rest);
        lemma_hosts_of_pieces(rest, host);
        lemma_pieces_split(line, rest, '\n');
        lemma_pieces_without_mark(line, '\n');
        lemma_some_lists_add(seq![line], pieces(rest, '\n'), host);
        lemma_hosts_of_line(line, host);
        lemma_hosts_of_two_texts(line, rest, host);
    }
}

/// A text without a line feed lists what it lists as a line.
proof fn lemma_hosts_of_line(line: Seq<char>, host: Seq<char>)
    requires
        !line.contains('\n'),
    ensures
        has_host(line, host) == lists_host(line, host),
        some_lists(seq![line], host) == lists_host(line, host),
{
    assert(seq![line][0] == line);
    if line.len() > 0 {
        assert forall|k: int| 0 <= k < line.len() implies line[k] != '\n' by {
            assert(line.contains(line[k]));
        }
        lemma_until(line, '\n', line.len());
        assert(lines_of(line)[0] == line);
    } else {
        reveal_strlit("Host ");
        assert(trim_of(line) =~= Seq::<char>::empty());
    }
}

/// A line feed separates the hosts of two texts.
proof fn lemma_hosts_of_two_texts(a: Seq<char>, b: Seq<char>, host: Seq<char>)
    ensures
        has_host(a.push('\n') + b, host) == (has_host(a, host) || has_host(b, host)),
{
    lemma_lines_split(a, b);
    lemma_some_lists_add(lines_of(a.push('\n')), lines_of(b), host);
    lemma_final_line_feed(a, host);
    let whole = a.push('\n') + b;
    assert(has_host(whole, host) == some_lists(lines_of(whole), host));
    assert(has_host(b, host) == some_lists(lines_of(b), host));
    assert(has_host(a.push('\n'), host) == some_lists(lines_of(a.push('\n')), host));
}

/// A file that is valid UTF-8 lists the hosts of its text.
pub proof fn law_text_file_lists_the_hosts_of_its_text(config: Seq<char>, host: Seq<char>)
    ensures
        file_has_host(encode_utf8(config), host) == has_host(config, host),
{
    let bytes = encode_utf8(config);
    let p = pieces(config, '\n');
    let q = pieces(bytes, 10u8);
    lemma_pieces_of_encoded(config);
    lemma_hosts_of_pieces(config, host);
    assert forall|i: int| 0 <= i < p.len() implies lossy_of(#[trigger] q[i]) == p[i] by {
        encode_utf8_valid_utf8(p[i]);
        encode_utf8_decode_utf8(p[i]);
    }
    if file_has_host(bytes, host) {
        let i = choose|i: int| 0 <= i < q.len() && lists_host(lossy_of(#[trigger] q[i]), host);
        assert(lists_host(p[i], host));
    }
    if some_lists(p, host) {
        let i = choose|i: int| 0 <= i < p.len() && lists_host(#[trigger] p[i], host);
        assert(lists_host(lossy_of(q[i]), host));
    }
}

/// A file that goes on with a text behind a line feed lists its own hosts and those of the text,
/// whether or not it is valid UTF-8 itself.
pub proof fn law_file_goes_on_with_text(config: Seq<u8>, text: Seq<char>, host: Seq<char>)
    ensures
        file_has_host(config.push(10u8) + encode_utf8(text), host) == (file_has_host(config, host)
            || has_host(text, host)),
{
    law_text_file_lists_the_hosts_of_its_text(text, host);
    let bytes = encode_utf8(text);
    lemma_pieces_split(config, bytes, 10u8);
    let a = pieces(config, 10u8);
    let b = pieces(bytes, 10u8);
    let all = pieces(config.push(10u8) + bytes, 10u8);
    if file_has_host(config.push(10u8) + bytes, host) {
        let i = choose|i: int| 0 <= i < all.len() && lists_host(lossy_of(#[trigger] all[i]), host);
        if i < a.len() {
            assert(lists_host(lossy_of(a[i]), host));
        } else {
            assert(lists_host(lossy_of(b[i - a.len()]), host));
        }
    }
    if file_has_host(config, host) {
        let i = choose|i: int| 0 <= i < a.len() && lists_host(lossy_of(#[trigger] a[i]), host);
        assert(lists_host(lossy_of(all[i]), host));
    }
    if file_has_host(bytes, host) {
        let i = choose|i: int| 0 <= i < b.len() && lists_host(lossy_of(#[trigger] b[i]), host);
        assert(lists_host(lossy_of(all[i + a.len()]), host));
    }
}

proof fn lemma_file_with_block(
    config: Seq<u8>,
    host: Seq<char>,
    hostname: Seq<char>,
    key: Seq<char>,
    other: Seq<char>,
)
    ensures
        file_has_host(config + encode_utf8(managed_block_of(host, hostname, key)), other) == (
        file_has_host(config, other) || has_host(managed_block_of(host, hostname, key), other)),
{
    reveal_strlit("");
    let block = managed_block_of(host, hostname, key);
    let rest = block.drop_first();
    let none = Seq::<char>::empty();
    assert(managed_lines_of(host, hostname, key)[0] =~= none);
    assert(block[0] == '\n');
    assert(block =~= none.push('\n') + rest);
    lemma_char_bytes('\n');
    assert(config + encode_utf8(block) =~= config.push(10u8) + encode_utf8(rest));
    law_file_goes_on_with_text(config, rest, other);
    lemma_hosts_of_two_texts(none, rest, other);
    assert(!has_host(none, other));
}

/// A file lists an alias once its block has been appended, whatever bytes it held before.
pub proof fn law_block_adds_its_host_to_file(
    config: Seq<u8>,
    host: Seq<char>,
    hostname: Seq<char>,
    key: Seq<char>,
)
    requires
        is_alias(host),
    ensures
        file_has_host(config + encode_utf8(managed_block_of(host, hostname, key)), host),
{
    let block = managed_block_of(host, hostname, key);
    lemma_file_with_block(config, host, hostname, key, host);
    law_block_adds_its_host(Seq::empty(), host, hostname, key);
    assert(Seq::<char>::empty() + block =~= block);
}

/// Appending the block of an alias to a file changes nothing for other hosts.
pub proof fn law_block_adds_no_other_host_to_file(
    config: Seq<u8>,
    host: Seq<char>,
    hostname: Seq<char>,
    key: Seq<char>,
    other: Seq<char>,
)
    requires
        is_alias(host),
        !hostname.contains('\n'),
        !key.contains('\n'),
        other != host,
    ensures
        file_has_host(config + encode_utf8(managed_block_of(host, hostname, key)), other)
            == file_has_host(config, other),
{
    let block = managed_block_of(host, hostname, key);
    let none = Seq::<char>::empty();
    lemma_file_with_block(config, host, hostname, key, other);
    law_block_adds_no_other_host(none, host, hostname, key, other);
    assert(none + block =~= block);
    assert(!has_host(none, other));
}

/// A leading `~/` stands for the home directory: what follows it is kept, character for character,
/// behind the home directory and one separator.
pub proof fn law_tilde_is_home(rest: Seq<char>, home: Seq<char>)
    requires
        rest.len() == 0 || rest[0] != '/',
    ensures
        ({
            let path = expanded(seq!['~', '/'] + rest, home);
            &&& home.is_prefix_of(path)
            &&& rest.is_suffix_of(path)
            &&& home.len() > 0 && home.last() != '/' ==> path == home.push('/') + rest
            &&& home.len() == 0 || home.last() == '/' ==> path == home + rest
        }),
{
    reveal_strlit("~/");
    let input = seq!['~', '/'] + rest;
    assert("~/"@ =~= seq!['~', '/']);
    assert("~/"@.is_prefix_of(input));
    assert(input.skip(2) =~= rest);
}

/// Further separators behind `~/` change nothing.
pub proof fn law_further_separators_change_nothing(rest: Seq<char>, home: Seq<char>)
    ensures
        expanded(seq!['~', '/', '/'] + rest, home) == expanded(seq!['~', '/'] + rest, home),
{
    reveal_strlit("~/");
    assert("~/"@ =~= seq!['~', '/']);
    let longer = seq!['~', '/', '/'] + rest;
    let input = seq!['~', '/'] + rest;
    assert("~/"@.is_prefix_of(longer));
    assert("~/"@.is_prefix_of(input));
    assert(input.skip(2) =~= rest);
    assert(longer.skip(2).skip(1) =~= rest);
    assert(longer.skip(2)[0] == '/');
}

/// A path that does not start with `~/` stays as it is.
pub proof fn law_other_paths_stay_as_they_are(input: Seq<char>, home: Seq<char>)
    requires
        input.len() < 2 || input[0] != '~' || input[1] != '/',
    ensures
        expanded(input, home) == input,
{
    reveal_strlit("~/");
    if "~/"@.is_prefix_of(input) {
        assert(input[0] == "~/"@[0] && input[1] == "~/"@[1]);
    }
}

proof fn lemma_blank_has_no_words(s: Seq<char>)
    requires
        is_blank(s),
    ensures
        words_of(s) == Seq::<Seq<char>>::empty(),
    decreases s.len(),
{
    if s.len() > 0 {
        assert(is_space(s[0]));
        let rest = s.skip(1);
        assert forall|i: int| 0 <= i < rest.len() implies is_space(#[trigger] rest[i]) by {
            assert(rest[i] == s[i + 1]);
        }
        lemma_blank_has_no_words(rest);
    }
}

proof fn lemma_words_before_blank(s: Seq<char>, blank: Seq<char>)
    requires
        is_blank(blank),
    ensures
        words_of(s + blank) == words_of(s),
{
    if blank.len() == 0 {
        assert(s + blank =~= s);
    } else {
        let rest = blank.skip(1);
        assert(is_space(blank[0]));
        assert forall|i: int| 0 <= i < rest.len() implies is_space(#[trigger] rest[i]) by {
            assert(rest[i] == blank[i + 1]);
        }
        lemma_blank_has_no_words(rest);
        law_white_space_separates_words(s, blank[0], rest);
        assert(s + blank =~= s.push(blank[0]) + rest);
        assert(words_of(s) + Seq::<Seq<char>>::empty() =~= words_of(s));
    }
}

/// A line that starts with `Host` and a blank, behind any white space, lists the words behind that.
pub proof fn law_host_line_lists_its_patterns(
    indent: Seq<char>,
    patterns: Seq<char>,
    host: Seq<char>,
)
    requires
        is_blank(indent),
    ensures
        lists_host(indent + seq!['H', 'o', 's', 't', ' '] + patterns, host) == words_of(
            patterns,
        ).contains(host),
{
    reveal_strlit("Host ");
    let word = seq!['H', 'o', 's', 't'];
    let keyword = seq!['H', 'o', 's', 't', ' '];
    assert("Host "@ =~= keyword);
    let line = indent + keyword + patterns;
    if is_blank(patterns) {
        let after = seq![' '] + patterns;
        assert forall|i: int| 0 <= i < after.len() implies is_space(#[trigger] after[i]) by {
            if i > 0 {
                assert(after[i] == patterns[i - 1]);
            }
        }
        assert(line =~= indent + word + after);
        law_trim_takes_the_ends(indent, word, after);
        lemma_blank_has_no_words(patterns);
    } else {
        let (a, b) = law_trim_leaves_a_part(patterns);
        if a == b {
            assert forall|i: int| 0 <= i < patterns.len() implies is_space(
                #[trigger] patterns[i],
            ) by {
                if i < a {
                    assert(patterns.take(a)[i] == patterns[i]);
                } else {
                    assert(patterns.skip(b)[i - b] == patterns[i]);
                }
            }
        }
        let kept = keyword + patterns.take(b);
        assert(kept.last() == patterns.subrange(a, b).last());
        assert(kept[0] == 'H');
        assert(line =~= indent + kept + patterns.skip(b));
        law_trim_takes_the_ends(indent, kept, patterns.skip(b));
        assert(kept.skip(5) =~= patterns.take(b));
        assert("Host "@.is_prefix_of(kept));
        lemma_words_before_blank(patterns.take(b), patterns.skip(b));
        assert(patterns.take(b) + patterns.skip(b) =~= patterns);
    }
}

/// No other line lists a host.
pub proof fn law_only_host_lines_list(line: Seq<char>, host: Seq<char>) -> (at: int)
    requires
        lists_host(line, host),
    ensures
        0 <= at <= line.len() - 5,
        is_blank(line.take(at)),
        line.subrange(at, at + 5) == seq!['H', 'o', 's', 't', ' '],
        words_of(line.skip(at + 5)).contains(host),
{
    reveal_strlit("Host ");
    let keyword = seq!['H', 'o', 's', 't', ' '];
    assert("Host "@ =~= keyword);
    let (a, b) = law_trim_leaves_a_part(line);
    let entry = line.subrange(a, b);
    assert(entry.len() >= 5);
    assert forall|i: int| 0 <= i < 5 implies line[a + i] == keyword[i] by {
        assert(entry[i] == "Host "@[i]);
    }
    assert(line.subrange(a, a + 5) =~= keyword);
    let patterns = line.skip(a + 5);
    assert(line =~= line.take(a) + keyword + patterns);
    law_host_line_lists_its_patterns(line.take(a), patterns, host);
    a
}

/// A text lists a host where a line of it does: a line feed separates what two texts list.
pub proof fn law_line_feed_separates_hosts(a: Seq<char>, b: Seq<char>, host: Seq<char>)
    ensures
        has_host(a.push('\n') + b, host) == (has_host(a, host) || has_host(b, host)),
        !a.contains('\n') ==> has_host(a, host) == lists_host(a, host),
{
    lemma_hosts_of_two_texts(a, b, host);
    if !a.contains('\n') {
        lemma_hosts_of_line(a, host);
    }
}

/// A file lists a host where a line of it does, whatever bytes the other lines hold.
pub proof fn law_line_feed_separates_hosts_of_a_file(a: Seq<u8>, b: Seq<u8>, host: Seq<char>)
    ensures
        file_has_host(a.push(10u8) + b, host) == (file_has_host(a, host) || file_has_host(b, host)),
        !a.contains(10u8) && valid_utf8(a) ==> file_has_host(a, host) == lists_host(
            decode_utf8(a),
            host,
        ),
        !a.contains(10u8) && !valid_utf8(a) ==> file_has_host(a, host) == lists_host(
            utf8_lossy(a),
            host,
        ),
{
    lemma_pieces_split(a, b, 10u8);
    let p = pieces(a, 10u8);
    let q = pieces(b, 10u8);
    let all = pieces(a.push(10u8) + b, 10u8);
    if file_has_host(a.push(10u8) + b, host) {
        let i = choose|i: int| 0 <= i < all.len() && lists_host(lossy_of(#[trigger] all[i]), host);
        if i < p.len() {
            assert(lists_host(lossy_of(p[i]), host));
        } else {
            assert(lists_host(lossy_of(q[i - p.len()]), host));
        }
    }
    if file_has_host(a, host) {
        let i = choose|i: int| 0 <= i < p.len() && lists_host(lossy_of(#[trigger] p[i]), host);
        assert(lists_host(lossy_of(all[i]), host));
    }
    if file_has_host(b, host) {
        let i = choose|i: int| 0 <= i < q.len() && lists_host(lossy_of(#[trigger] q[i]), host);
        assert(lists_host(lossy_of(all[i + p.len()]), host));
    }
    if !a.contains(10u8) {
        lemma_pieces_without_mark(a, 10u8);
        assert(p[0] == a);
    }
}

/// The block holds the alias, the address and the key as they are given, each in its place.
#[verifier::spinoff_prover]
#[verifier::rlimit(60)]
pub proof fn law_block_holds_what_is_given(host: Seq<char>, hostname: Seq<char>, key: Seq<char>)
    ensures
        managed_block_of(host, hostname, key) == "\n# BEGIN SYNCBOOK MANAGED ("@ + host
            + ")\nHost "@ + host + "\n    HostName "@ + hostname
            + "\n    User root\n    IdentityFile "@ + key
            + "\n    StrictHostKeyChecking accept-new\n# END SYNCBOOK MANAGED ("@ + host + ")\n"@,
{
    reveal_strlit("\n# BEGIN SYNCBOOK MANAGED (");
    reveal_strlit(")\nHost ");
    reveal_strlit("\n    HostName ");
    reveal_strlit("\n    User root\n    IdentityFile ");
    reveal_strlit("\n    StrictHostKeyChecking accept-new\n# END SYNCBOOK MANAGED (");
    reveal_strlit(")\n");
    reveal_strlit("");
    reveal_strlit("# BEGIN SYNCBOOK MANAGED (");
    reveal_strlit(")");
    reveal_strlit("Host ");
    reveal_strlit("    HostName ");
    reveal_strlit("    User root");
    reveal_strlit("    IdentityFile ");
    reveal_strlit("    StrictHostKeyChecking accept-new");
    reveal_strlit("# END SYNCBOOK MANAGED (");
    let l = managed_lines_of(host, hostname, key);
    let t8 = text_of_lines(l.skip(8));
    assert(t8 =~= Seq::<char>::empty());
    let t7 = text_of_lines(l.skip(7));
    assert(l.skip(7).skip(1) =~= l.skip(8));
    assert(t7 =~= l[7].push('\n') + t8);
    let t6 = text_of_lines(l.skip(6));
    assert(l.skip(6).skip(1) =~= l.skip(7));
    assert(t6 =~= l[6].push('\n') + t7);
    let t5 = text_of_lines(l.skip(5));
    assert(l.skip(5).skip(1) =~= l.skip(6));
    assert(t5 =~= l[5].push('\n') + t6);
    let t4 = text_of_lines(l.skip(4));
    assert(l.skip(4).skip(1) =~= l.skip(5));
    assert(t4 =~= l[4].push('\n') + t5);
    let t3 = text_of_lines(l.skip(3));
    assert(l.skip(3).skip(1) =~= l.skip(4));
    assert(t3 =~= l[3].push('\n') + t4);
    let t2 = text_of_lines(l.skip(2));
    assert(l.skip(2).skip(1) =~= l.skip(3));
    assert(t2 =~= l[2].push('\n') + t3);
    let t1 = text_of_lines(l.skip(1));
    assert(l.skip(1).skip(1) =~= l.skip(2));
    assert(t1 =~= l[1].push('\n') + t2);
    let end = "# END SYNCBOOK MANAGED ("@ + host + ")\n"@;
    assert(t7 =~= end);
    let strict = "    StrictHostKeyChecking accept-new\n# END SYNCBOOK MANAGED ("@ + host + ")\n"@;
    reveal_strlit("    StrictHostKeyChecking accept-new\n# END SYNCBOOK MANAGED (");
    assert(t6 =~= strict);
    assert(managed_block_of(host, hostname, key) =~= "\n# BEGIN SYNCBOOK MANAGED ("@ + host
        + ")\nHost "@ + host + "\n    HostName "@ + hostname
        + "\n    User root\n    IdentityFile "@ + key
        + "\n    StrictHostKeyChecking accept-new\n# END SYNCBOOK MANAGED ("@ + host + ")\n"@);
}

} // verus!
