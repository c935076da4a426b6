//! Searching the metadata files for a notebook's name, and what `grep` finds there.
use vstd::prelude::*;
use vstd::string::*;

use crate::text::{concat3, digit, digit_char, lemma_digit_injective, to_chars};
use crate::text_laws::law_digits_come_in_order;

verus! {

/// `c` as it stands in a JSON text.
pub open spec fn json_char(c: char) -> Seq<char> {
    if c == '"' {
        seq!['\\', '"']
    } else if c == '\\' {
        seq!['\\', '\\']
    } else if c == '\u{8}' {
        seq!['\\', 'b']
    } else if c == '\t' {
        seq!['\\', 't']
    } else if c == '\n' {
        seq!['\\', 'n']
    } else if c == '\u{c}' {
        seq!['\\', 'f']
    } else if c == '\r' {
        seq!['\\', 'r']
    } else if c <= '\u{1f}' {
        seq!['\\', 'u', '0', '0', digit(c as int / 16), digit(c as int % 16)]
    } else {
        seq![c]
    }
}

/// `s` as it stands between the quotes of a JSON text.
pub open spec fn json_of(s: Seq<char>) -> Seq<char>
    decreases s.len(),
{
    if s.len() == 0 {
        Seq::empty()
    } else {
        json_char(s[0]) + json_of(s.skip(1))
    }
}

fn push_json_char(out: &mut String, c: char)
    ensures
        final(out)@ == old(out)@ + json_char(c),
{
    let ghost before = out@;
    if c == '"' {
        out.push('\\');
        out.push('"');
    } else if c == '\\' {
        out.push('\\');
        out.push('\\');
    } else if c == '\u{8}' {
        out.push('\\');
        out.push('b');
    } else if c == '\t' {
        out.push('\\');
        out.push('t');
    } else if c == '\n' {
        out.push('\\');
        out.push('n');
    } else if c == '\u{c}' {
        out.push('\\');
        out.push('f');
    } else if c == '\r' {
        out.push('\\');
        out.push('r');
    } else if c <= '\u{1f}' {
        let code: u32 = c as u32;
        out.push('\\');
        out.push('u');
        out.push('0');
        out.push('0');
        out.push(digit_char((code / 16) as u8));
        out.push(digit_char((code % 16) as u8));
    } else {
        out.push(c);
    }
    assert(out@ =~= before + json_char(c));
}

/// Writes `s` as it stands between the quotes of a JSON text.
pub fn json_escape(s: &str) -> (r: String)
    ensures
        r@ == json_of(s@),
{
    let cs = to_chars(s);
    let mut out = String::new();
    let mut i: usize = 0;
    assert(s@.skip(0) =~= s@);
    assert(out@ + json_of(s@) =~= json_of(s@));
    while i < cs.len()
        invariant
            cs@ == s@,
            i <= cs.len(),
            json_of(s@) == out@ + json_of(s@.skip(i as int)),
        decreases cs.len() - i,
    {
        let ghost rest = s@.skip(i as int);
        let ghost before = out@;
        assert(rest.skip(1) =~= s@.skip(i + 1));
        push_json_char(&mut out, cs[i]);
        assert(before + json_of(rest) =~= out@ + json_of(s@.skip(i + 1)));
        i += 1;
    }
    assert(out@ + json_of(s@.skip(i as int)) =~= out@);
    out
}

/// What the metadata of a notebook with this name says of it.
pub open spec fn name_entry_of(notebook: Seq<char>) -> Seq<char> {
    "\"visibleName\": \""@ + json_of(notebook) + "\""@
}

/// Whether `c` has a meaning of its own in a basic regular expression.
pub open spec fn is_meta(c: char) -> bool {
    c == '\\' || c == '.' || c == '*' || c == '[' || c == '^' || c == '$'
}

/// `s` with a backslash before each character that has a meaning of its own.
pub open spec fn escaped(s: Seq<char>) -> Seq<char>
    decreases s.len(),
{
    if s.len() == 0 {
        Seq::empty()
    } else {
        (if is_meta(s[0]) {
            seq!['\\', s[0]]
        } else {
            seq![s[0]]
        }) + escaped(s.skip(1))
    }
}

/// Puts a backslash before each character of `s` that has a meaning of its own.
pub fn escape_pattern(s: &str) -> (r: String)
    ensures
        r@ == escaped(s@),
{
    let cs = to_chars(s);
    let mut out = String::new();
    let mut i: usize = 0;
    assert(s@.skip(0) =~= s@);
    assert(out@ + escaped(s@) =~= escaped(s@));
    while i < cs.len()
        invariant
            cs@ == s@,
            i <= cs.len(),
            escaped(s@) == out@ + escaped(s@.skip(i as int)),
        decreases cs.len() - i,
    {
        let ghost rest = s@.skip(i as int);
        let ghost before = out@;
        assert(rest.skip(1) =~= s@.skip(i + 1));
        let c = cs[i];
        if c == '\\' || c == '.' || c == '*' || c == '[' || c == '^' || c == '$' {
            out.push('\\');
        }
        out.push(c);
        assert(before + escaped(rest) =~= out@ + escaped(s@.skip(i + 1)));
        i += 1;
    }
    assert(out@ + escaped(s@.skip(i as int)) =~= out@);
    out
}

/// The pattern that finds the metadata of the notebooks with this name.
pub open spec fn name_pattern_of(notebook: Seq<char>) -> Seq<char> {
    escaped(name_entry_of(notebook))
}

/// The pattern that finds the metadata of the notebooks with this name.
pub fn name_pattern(notebook: &str) -> (r: String)
    ensures
        r@ == name_pattern_of(notebook@),
{
    escape_pattern(&concat3("\"visibleName\": \"", &json_escape(notebook), "\""))
}

/// `first` in front of the places that were read.
pub open spec fn with_place(
    first: Option<char>,
    read: Option<Seq<Option<char>>>,
) -> Option<Seq<Option<char>>> {
    match read {
        Some(places) => Some(seq![first] + places),
        None => None,
    }
}

/// The places of a basic regular expression, each with the character it asks for, or none where it
/// takes any. `None` where the expression holds a repetition, a bracket, an anchor, or a line feed,
/// which would separate two patterns. A backslash takes a character's own meaning away;
/// `None` where it stands before any other character.
pub open spec fn places_of(pattern: Seq<char>) -> Option<Seq<Option<char>>>
    decreases pattern.len(),
{
    if pattern.len() == 0 {
        Some(Seq::empty())
    } else if pattern[0] == '\\' {
        if pattern.len() > 1 && is_meta(pattern[1]) {
            with_place(Some(pattern[1]), places_of(pattern.skip(2)))
        } else {
            None
        }
    } else if pattern[0] == '.' {
        with_place(None, places_of(pattern.skip(1)))
    } else if is_meta(pattern[0]) || pattern[0] == '\n' {
        None
    } else {
        with_place(Some(pattern[0]), places_of(pattern.skip(1)))
    }
}

/// Whether `s` has at each place what is asked for there.
pub open spec fn places_match(places: Seq<Option<char>>, s: Seq<char>) -> bool {
    &&& s.len() == places.len()
    &&& forall|i: int|
        #![trigger s[i]]
        0 <= i < s.len() ==> match places[i] {
            Some(c) => s[i] == c,
            None => true,
        }
}

/// Whether `grep` finds `pattern` in `line`: some part of the line matches.
pub open spec fn is_found(pattern: Seq<char>, line: Seq<char>) -> bool {
    &&& places_of(pattern) is Some
    &&& exists|at: int, end: int|
        0 <= at <= end <= line.len() && places_match(
            places_of(pattern)->0,
            #[trigger] line.subrange(at, end),
        )
}

/// Whether `part` stands in `line` at place `at`.
pub open spec fn stands_at(part: Seq<char>, line: Seq<char>, at: int) -> bool {
    &&& 0 <= at <= at + part.len() <= line.len()
    &&& line.subrange(at, at + part.len()) == part
}

/// The places that ask for the characters of `s`.
spec fn ones(s: Seq<char>) -> Seq<Option<char>> {
    Seq::new(s.len(), |i: int| Some(s[i]))
}

proof fn lemma_escaped_places(s: Seq<char>)
    requires
        !s.contains('\n'),
    ensures
        places_of(escaped(s)) == Some(ones(s)),
    decreases s.len(),
{
    if s.len() == 0 {
        assert(ones(s) =~= Seq::empty());
    } else {
        let rest = s.skip(1);
        assert(s.contains(s[0]));
        assert(!rest.contains('\n')) by {
            if rest.contains('\n') {
                let k = choose|k: int| 0 <= k < rest.len() && rest[k] == '\n';
                assert(s[k + 1] == '\n');
            }
        }
        lemma_escaped_places(rest);
        let pattern = escaped(s);
        if is_meta(s[0]) {
            assert(pattern.skip(2) =~= escaped(rest));
        } else {
            assert(pattern.skip(1) =~= escaped(rest));
        }
        assert(seq![Some(s[0])] + ones(rest) =~= ones(s));
    }
}

/// An escaped text matches itself and no other text.
pub proof fn law_escaped_text_matches_itself_only(text: Seq<char>, other: Seq<char>)
    requires
        !text.contains('\n'),
    ensures
        places_of(escaped(text)) is Some,
        places_match(places_of(escaped(text))->0, other) == (other == text),
{
    lemma_escaped_places(text);
    let places = ones(text);
    if places_match(places, other) {
        assert forall|i: int| 0 <= i < other.len() implies other[i] == text[i] by {
            assert(places[i] == Some(text[i]));
        }
        assert(other =~= text);
    }
}

/// `grep` finds an escaped text exactly in the lines in which that text stands.
pub proof fn law_escaped_text_is_found_where_it_stands(text: Seq<char>, line: Seq<char>)
    requires
        !text.contains('\n'),
    ensures
        is_found(escaped(text), line) == exists|at: int| stands_at(text, line, at),
{
    let places = places_of(escaped(text))->0;
    law_escaped_text_matches_itself_only(text, text);
    if is_found(escaped(text), line) {
        let (at, end) = choose|at: int, end: int|
            0 <= at <= end <= line.len() && places_match(places, #[trigger] line.subrange(at, end));
        law_escaped_text_matches_itself_only(text, line.subrange(at, end));
        assert(stands_at(text, line, at));
    }
    if exists|at: int| stands_at(text, line, at) {
        let at = choose|at: int| stands_at(text, line, at);
        assert(places_match(places, line.subrange(at, at + text.len())));
    }
}

/// No two characters are written so that one begins like the other.
proof fn lemma_json_char_is_told_apart(a: char, b: char, x: Seq<char>, y: Seq<char>, n: int)
    requires
        0 <= n <= (json_char(a) + x).len(),
        n <= (json_char(b) + y).len(),
        n >= json_char(a).len() || n >= json_char(b).len(),
        (json_char(a) + x).take(n) == (json_char(b) + y).take(n),
    ensures
        a == b,
{
    let s = json_char(a) + x;
    let t = json_char(b) + y;
    assert forall|i: int| 0 <= i < n implies s[i] == t[i] by {
        assert(s.take(n)[i] == t.take(n)[i]);
    }
    assert(s[0] == t[0]);
    assert(s[0] == json_char(a)[0] && t[0] == json_char(b)[0]);
    if json_char(a).len() > 1 && json_char(b).len() > 1 {
        assert(s[1] == t[1]);
        assert(s[1] == json_char(a)[1] && t[1] == json_char(b)[1]);
        if json_char(a).len() > 2 && json_char(b).len() > 2 {
            assert(s[4] == t[4] && s[5] == t[5]);
            assert(s[4] == json_char(a)[4] && t[4] == json_char(b)[4]);
            assert(s[5] == json_char(a)[5] && t[5] == json_char(b)[5]);
            lemma_digit_injective(a as int / 16, b as int / 16);
            lemma_digit_injective(a as int % 16, b as int % 16);
        }
    }
}

/// Where what follows a written text begins like a quote, the text is the one that was written.
proof fn lemma_json_is_told_apart(a: Seq<char>, b: Seq<char>, tail: Seq<char>)
    requires
        json_of(a).len() < (json_of(b) + seq!['"'] + tail).len(),
        (json_of(b) + seq!['"'] + tail).take(json_of(a).len() as int) == json_of(a),
        (json_of(b) + seq!['"'] + tail)[json_of(a).len() as int] == '"',
    ensures
        a == b,
    decreases a.len(),
{
    let line = json_of(b) + seq!['"'] + tail;
    let n = json_of(a).len() as int;
    if a.len() == 0 {
        if b.len() > 0 {
            assert(line[0] == json_char(b[0])[0]);
        }
        assert(a =~= b);
    } else if b.len() == 0 {
        assert(json_of(a)[0] == json_char(a[0])[0]);
        assert(line[0] == '"');
        assert(line.take(n)[0] == line[0]);
    } else {
        let ja = json_char(a[0]);
        let jb = json_char(b[0]);
        let x = json_of(a.skip(1));
        let y = json_of(b.skip(1)) + seq!['"'] + tail;
        assert(json_of(a) == ja + x);
        assert(line =~= jb + y);
        assert((ja + x).take(n) =~= ja + x);
        lemma_json_char_is_told_apart(a[0], b[0], x, y, n);
        let m = x.len() as int;
        assert(y.take(m) =~= x) by {
            assert forall|i: int| 0 <= i < m implies y[i] == x[i] by {
                assert(line.take(n)[i + ja.len()] == json_of(a)[i + ja.len()]);
                assert(line[i + ja.len()] == y[i]);
                assert(json_of(a)[i + ja.len()] == x[i]);
            }
        }
        assert(line[n] == y[m]);
        lemma_json_is_told_apart(a.skip(1), b.skip(1), tail);
        assert(a =~= seq![a[0]] + a.skip(1));
        assert(b =~= seq![b[0]] + b.skip(1));
    }
}

/// In a written text a quote stands behind a backslash.
proof fn lemma_json_quotes(s: Seq<char>, i: int)
    requires
        0 <= i < json_of(s).len(),
        json_of(s)[i] == '"',
    ensures
        i > 0,
        json_of(s)[i - 1] == '\\',
    decreases s.len(),
{
    if s.len() > 0 {
        let first = json_char(s[0]);
        if i >= first.len() {
            lemma_json_quotes(s.skip(1), i - first.len());
        } else {
            assert(json_of(s)[i] == first[i]);
            assert(json_of(s)[0] == first[0]);
        }
    }
}

proof fn lemma_no_line_feed(s: Seq<char>)
    ensures
        !json_of(s).contains('\n'),
    decreases s.len(),
{
    if s.len() > 0 {
        lemma_no_line_feed(s.skip(1));
        let first = json_char(s[0]);
        let rest = json_of(s.skip(1));
        if json_of(s).contains('\n') {
            let k = choose|k: int| 0 <= k < json_of(s).len() && json_of(s)[k] == '\n';
            if k >= first.len() {
                assert(rest[k - first.len()] == '\n');
            } else {
                assert(first[k] == '\n');
            }
        }
    }
}

/// The line of a metadata file that says what the notebook is called.
pub open spec fn is_name_line(line: Seq<char>, notebook: Seq<char>) -> bool {
    exists|indent: Seq<char>, tail: Seq<char>|
        {
            &&& line == #[trigger] (indent + name_entry_of(notebook) + tail)
            &&& !indent.contains('"') && !tail.contains('"')
            &&& tail.len() > 0 ==> tail[0] != ':'
        }
}

proof fn lemma_entry(notebook: Seq<char>)
    ensures
        ({
            let entry = name_entry_of(notebook);
            let name = json_of(notebook);
            &&& entry.len() == name.len() + 17
            &&& entry[0] == '"' && entry[1] == 'v' && entry[11] == 'e' && entry[12] == '"'
            &&& entry[13] == ':' && entry[15] == '"'
            &&& forall|i: int| 1 <= i < 12 || i == 13 || i == 14 ==> #[trigger] entry[i] != '"'
            &&& forall|i: int| 0 <= i < name.len() ==> #[trigger] entry[16 + i] == name[i]
            &&& entry[16 + name.len() as int] == '"'
            &&& !entry.contains('\n')
        }),
{
    reveal_strlit("\"visibleName\": \"");
    reveal_strlit("\"");
    let entry = name_entry_of(notebook);
    let name = json_of(notebook);
    lemma_no_line_feed(notebook);
    if entry.contains('\n') {
        let k = choose|k: int| 0 <= k < entry.len() && entry[k] == '\n';
        assert(16 <= k < 16 + name.len());
        assert(name[k - 16] == '\n');
    }
}

/// The entry of a name stands in the line of a notebook only where the line's own entry stands.
proof fn lemma_entry_place(
    wanted: Seq<char>,
    notebook: Seq<char>,
    indent: Seq<char>,
    tail: Seq<char>,
    at: int,
)
    requires
        !indent.contains('"'),
        !tail.contains('"'),
        tail.len() > 0 ==> tail[0] != ':',
        stands_at(name_entry_of(wanted), indent + name_entry_of(notebook) + tail, at),
    ensures
        at == indent.len(),
{
    let entry = name_entry_of(wanted);
    let own = name_entry_of(notebook);
    let name = json_of(notebook);
    let line = indent + own + tail;
    let start = indent.len() as int;
    let close = start + 16 + name.len();
    lemma_entry(wanted);
    lemma_entry(notebook);
    assert forall|i: int| 0 <= i < entry.len() implies line[at + i] == entry[i] by {
        assert(line.subrange(at, at + entry.len())[i] == entry[i]);
    }
    assert(line[at + 0] == '"' && line[at + 1] == 'v' && line[at + 11] == 'e');
    assert(line[at + 12] == '"' && line[at + 13] == ':');
    let q = at + 12;
    if at < start {
        assert(indent[at] == '"');
    }
    if q >= start + 16 && q < close {
        assert(line[q] == own[16 + (q - start - 16)]);
        lemma_json_quotes(notebook, q - start - 16);
        assert(line[q - 1] == own[16 + (q - start - 17)]);
    } else if q == close {
        assert(line[q + 1] == tail[0]);
    } else if q > close {
        assert(line[q] == tail[q - close - 1]);
        assert(tail.contains('"'));
    } else {
        assert(line[at] == own[at - start]);
    }
}

/// The entry that stands in the place of a notebook's entry is that of the same name.
proof fn lemma_entry_name(
    wanted: Seq<char>,
    notebook: Seq<char>,
    indent: Seq<char>,
    tail: Seq<char>,
)
    requires
        stands_at(
            name_entry_of(wanted),
            indent + name_entry_of(notebook) + tail,
            indent.len() as int,
        ),
    ensures
        wanted == notebook,
{
    let entry = name_entry_of(wanted);
    let own = name_entry_of(notebook);
    let line = indent + own + tail;
    let start = indent.len() as int;
    let after = json_of(notebook) + seq!['"'] + tail;
    let name = json_of(wanted);
    let n = name.len() as int;
    reveal_strlit("\"visibleName\": \"");
    reveal_strlit("\"");
    assert(entry.skip(16) =~= name + seq!['"']);
    assert(line.skip(start + 16) =~= after);
    assert(entry.len() == n + 17);
    assert(line.subrange(start, start + entry.len()).skip(16) =~= after.take(n + 1));
    assert(after.take(n + 1) == name + seq!['"']);
    assert(after.take(n) =~= after.take(n + 1).take(n));
    assert((name + seq!['"']).take(n) =~= name);
    assert(after[n] == after.take(n + 1)[n]);
    lemma_json_is_told_apart(wanted, notebook, tail);
}

/// The line that says what a notebook is called is found for exactly that name, whatever characters
/// the two names hold.
pub proof fn law_name_is_found_for_that_notebook_only(
    wanted: Seq<char>,
    notebook: Seq<char>,
    line: Seq<char>,
)
    requires
        is_name_line(line, notebook),
    ensures
        is_found(name_pattern_of(wanted), line) == (wanted == notebook),
{
    let entry = name_entry_of(wanted);
    let (indent, tail) = choose|indent: Seq<char>, tail: Seq<char>|
        {
            &&& line == #[trigger] (indent + name_entry_of(notebook) + tail)
            &&& !indent.contains('"') && !tail.contains('"')
            &&& tail.len() > 0 ==> tail[0] != ':'
        };
    let start = indent.len() as int;
    assert(!entry.contains('\n')) by {
        lemma_entry(wanted);
    }
    law_escaped_text_is_found_where_it_stands(entry, line);
    if wanted == notebook {
        assert(line.subrange(start, start + entry.len()) =~= entry);
        assert(stands_at(entry, line, start));
    }
    if exists|at: int| stands_at(entry, line, at) {
        let at = choose|at: int| stands_at(entry, line, at);
        lemma_entry_place(wanted, notebook, indent, tail, at);
        lemma_entry_name(wanted, notebook, indent, tail);
    }
}

/// Whether JSON lets every character of `s` stand for itself.
pub open spec fn is_plain(s: Seq<char>) -> bool {
    forall|i: int| #![trigger s[i]] 0 <= i < s.len() ==> s[i] > '\u{1f}' && s[i] != '"' && s[i] != '\\'
}

/// Whether no character of `s` has a meaning of its own in a basic regular expression.
pub open spec fn is_ordinary(s: Seq<char>) -> bool {
    forall|i: int|
        #![trigger s[i]]
        0 <= i < s.len() ==> s[i] != '\\' && s[i] != '.' && s[i] != '*' && s[i] != '[' && s[i] != '^'
            && s[i] != '$'
}

/// A text is written in JSON character by character.
pub proof fn law_json_goes_by_characters(a: Seq<char>, b: Seq<char>)
    ensures
        json_of(a + b) == json_of(a) + json_of(b),
    decreases a.len(),
{
    if a.len() == 0 {
        assert(a + b =~= b);
        assert(json_of(a) + json_of(b) =~= json_of(b));
    } else {
        law_json_goes_by_characters(a.skip(1), b);
        assert((a + b).skip(1) =~= a.skip(1) + b);
        assert(json_of(a + b) =~= json_of(a) + json_of(b));
    }
}

/// A text whose characters JSON need not escape is written as it is.
pub proof fn law_plain_text_is_written_as_it_is(s: Seq<char>)
    requires
        is_plain(s),
    ensures
        json_of(s) == s,
    decreases s.len(),
{
    if s.len() > 0 {
        let rest = s.skip(1);
        assert forall|i: int| #![trigger rest[i]] 0 <= i < rest.len() implies rest[i] > '\u{1f}'
            && rest[i] != '"' && rest[i] != '\\' by {
            assert(rest[i] == s[i + 1]);
        }
        law_plain_text_is_written_as_it_is(rest);
        assert(s[0] > '\u{1f}');
        assert(seq![s[0]] + rest =~= s);
    }
}

/// A quote and a backslash get a backslash before them, five control characters have short escapes,
/// and the others are written by their number.
pub proof fn law_json_escapes(c: char)
    ensures
        json_of(seq!['"']) == seq!['\\', '"'],
        json_of(seq!['\\']) == seq!['\\', '\\'],
        json_of(seq!['\u{8}']) == seq!['\\', 'b'],
        json_of(seq!['\t']) == seq!['\\', 't'],
        json_of(seq!['\n']) == seq!['\\', 'n'],
        json_of(seq!['\u{c}']) == seq!['\\', 'f'],
        json_of(seq!['\r']) == seq!['\\', 'r'],
        c <= '\u{1f}' && c != '\u{8}' && c != '\t' && c != '\n' && c != '\u{c}' && c != '\r'
            ==> json_of(seq![c]) == seq![
            '\\',
            'u',
            '0',
            '0',
            if c as int >= 16 {
                '1'
            } else {
                '0'
            },
            if c as int % 16 < 10 {
                ('0' as int + c as int % 16) as char
            } else {
                ('a' as int + c as int % 16 - 10) as char
            },
        ],
{
    lemma_json_of_one('"');
    lemma_json_of_one('\\');
    lemma_json_of_one('\u{8}');
    lemma_json_of_one('\t');
    lemma_json_of_one('\n');
    lemma_json_of_one('\u{c}');
    lemma_json_of_one('\r');
    lemma_json_of_one(c);
    if c <= '\u{1f}' {
        law_digits_come_in_order(c as int / 16);
        law_digits_come_in_order(c as int % 16);
    }
}

proof fn lemma_json_of_one(c: char)
    ensures
        json_of(seq![c]) == json_char(c),
{
    assert(seq![c].skip(1) =~= Seq::empty());
    assert(json_of(seq![c].skip(1)) =~= Seq::empty());
    assert(json_char(c) + Seq::<char>::empty() =~= json_char(c));
}

/// A pattern is escaped character by character.
pub proof fn law_escaping_goes_by_characters(a: Seq<char>, b: Seq<char>)
    ensures
        escaped(a + b) == escaped(a) + escaped(b),
    decreases a.len(),
{
    if a.len() == 0 {
        assert(a + b =~= b);
        assert(escaped(a) + escaped(b) =~= escaped(b));
    } else {
        law_escaping_goes_by_characters(a.skip(1), b);
        assert((a + b).skip(1) =~= a.skip(1) + b);
        assert(escaped(a + b) =~= escaped(a) + escaped(b));
    }
}

/// A text without the characters that `grep` gives a meaning is its own pattern.
pub proof fn law_ordinary_text_is_its_own_pattern(s: Seq<char>)
    requires
        is_ordinary(s),
    ensures
        escaped(s) == s,
    decreases s.len(),
{
    if s.len() > 0 {
        let rest = s.skip(1);
        assert forall|i: int| #![trigger rest[i]] 0 <= i < rest.len() implies rest[i] != '\\'
            && rest[i] != '.' && rest[i] != '*' && rest[i] != '[' && rest[i] != '^' && rest[i]
            != '$' by {
            assert(rest[i] == s[i + 1]);
        }
        law_ordinary_text_is_its_own_pattern(rest);
        assert(s[0] != '.');
        assert(seq![s[0]] + rest =~= s);
    }
}

/// The six characters that `grep` gives a meaning get a backslash before them.
pub proof fn law_six_characters_are_escaped(c: char)
    requires
        c == '\\' || c == '.' || c == '*' || c == '[' || c == '^' || c == '$',
    ensures
        escaped(seq![c]) == seq!['\\', c],
{
    assert(seq![c].skip(1) =~= Seq::empty());
    assert(escaped(seq![c].skip(1)) =~= Seq::empty());
    assert(seq!['\\', c] + Seq::<char>::empty() =~= seq!['\\', c]);
}

/// A name of plain characters is found in the line that holds it as it is, and in such a line no
/// other name is found.
pub proof fn law_plain_name_is_found_as_it_is(
    wanted: Seq<char>,
    notebook: Seq<char>,
    indent: Seq<char>,
    tail: Seq<char>,
)
    requires
        is_plain(notebook),
        !indent.contains('"'),
        !tail.contains('"'),
        tail.len() > 0 ==> tail[0] != ':',
    ensures
        is_found(
            name_pattern_of(wanted),
            indent + ("\"visibleName\": \""@ + notebook + "\""@) + tail,
        ) == (wanted == notebook),
{
    law_plain_text_is_written_as_it_is(notebook);
    let line = indent + ("\"visibleName\": \""@ + notebook + "\""@) + tail;
    assert(line == indent + name_entry_of(notebook) + tail);
    law_name_is_found_for_that_notebook_only(wanted, notebook, line);
}

/// The pattern for a name of plain and ordinary characters is the text that is searched for.
pub proof fn law_ordinary_name_is_its_own_pattern(notebook: Seq<char>)
    requires
        is_plain(notebook),
        is_ordinary(notebook),
    ensures
        name_pattern_of(notebook) == "\"visibleName\": \""@ + notebook + "\""@,
{
    reveal_strlit("\"visibleName\": \"");
    reveal_strlit("\"");
    law_plain_text_is_written_as_it_is(notebook);
    let entry = "\"visibleName\": \""@ + notebook + "\""@;
    assert forall|i: int| #![trigger entry[i]] 0 <= i < entry.len() implies entry[i] != '\\'
        && entry[i] != '.' && entry[i] != '*' && entry[i] != '[' && entry[i] != '^' && entry[i]
        != '$' by {
        if 16 <= i < 16 + notebook.len() {
            assert(entry[i] == notebook[i - 16]);
        }
    }
    law_ordinary_text_is_its_own_pattern(entry);
}

/// What is searched for is the name's entry in the metadata, written in JSON, with a quote on either
/// side of the name.
pub proof fn law_entry_of_the_name_is_searched_for(notebook: Seq<char>)
    ensures
        name_pattern_of(notebook) == escaped(
            "\"visibleName\": \""@ + json_of(notebook) + "\""@,
        ),
{
}

} // verus!
