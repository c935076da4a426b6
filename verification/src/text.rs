//! Text as sequences of characters: trimming, lines, words and replacement.
use vstd::prelude::*;
use vstd::string::*;

verus! {

/// Whether `c` has the Unicode `White_Space` property.
pub open spec fn is_space(c: char) -> bool {
    ||| '\u{9}' <= c <= '\u{d}'
    ||| c == '\u{20}'
    ||| c == '\u{85}'
    ||| c == '\u{a0}'
    ||| c == '\u{1680}'
    ||| '\u{2000}' <= c <= '\u{200a}'
    ||| c == '\u{2028}'
    ||| c == '\u{2029}'
    ||| c == '\u{202f}'
    ||| c == '\u{205f}'
    ||| c == '\u{3000}'
}

/// Whether `c` is a control character.
pub open spec fn is_control(c: char) -> bool {
    ||| c <= '\u{1f}'
    ||| '\u{7f}' <= c <= '\u{9f}'
}

/// Whether `c` is white space.
pub fn is_whitespace(c: char) -> (r: bool)
    ensures
        r == is_space(c),
{
    ('\u{9}' <= c && c <= '\u{d}') || c == '\u{20}' || c == '\u{85}' || c == '\u{a0}' || c
        == '\u{1680}' || ('\u{2000}' <= c && c <= '\u{200a}') || c == '\u{2028}' || c == '\u{2029}'
        || c == '\u{202f}' || c == '\u{205f}' || c == '\u{3000}'
}

/// `s` without the white space it starts with.
pub open spec fn trim_start_of(s: Seq<char>) -> Seq<char>
    decreases s.len(),
{
    if s.len() > 0 && is_space(s[0]) {
        trim_start_of(s.skip(1))
    } else {
        s
    }
}

/// `s` without the white space it ends with.
pub open spec fn trim_end_of(s: Seq<char>) -> Seq<char>
    decreases s.len(),
{
    if s.len() > 0 && is_space(s.last()) {
        trim_end_of(s.drop_last())
    } else {
        s
    }
}

/// `s` without the white space at its two ends.
pub open spec fn trim_of(s: Seq<char>) -> Seq<char> {
    trim_end_of(trim_start_of(s))
}

/// The characters of `s`, in order.
pub fn to_chars(s: &str) -> (r: Vec<char>)
    ensures
        r@ == s@,
{
    let mut out: Vec<char> = Vec::new();
    for c in it: s.chars()
        invariant
            it.seq() == s@,
            out@ == s@.take(it.index() as int),
    {
        out.push(c);
    }
    out
}

/// Strips the white space at both ends of `s`.
pub fn trim(s: &str) -> (r: &str)
    ensures
        r@ == trim_of(s@),
{
    let cs = to_chars(s);
    let mut i: usize = 0;
    assert(s@.skip(0) =~= s@);
    while i < cs.len() && is_whitespace(cs[i])
        invariant
            cs@ == s@,
            i <= cs.len(),
            trim_start_of(s@) == trim_start_of(s@.skip(i as int)),
        decreases cs.len() - i,
    {
        assert(s@.skip(i as int).skip(1) =~= s@.skip(i + 1));
        i += 1;
    }
    let mut j: usize = cs.len();
    assert(s@.subrange(i as int, j as int) =~= s@.skip(i as int));
    while j > i && is_whitespace(cs[j - 1])
        invariant
            cs@ == s@,
            i <= j <= cs.len(),
            trim_of(s@) == trim_end_of(s@.subrange(i as int, j as int)),
        decreases j,
    {
        assert(s@.subrange(i as int, j as int).drop_last() =~= s@.subrange(i as int, j - 1));
        j -= 1;
    }
    s.substring_char(i, j)
}

/// The texts that a list of strings holds.
pub open spec fn texts(list: Seq<String>) -> Seq<Seq<char>> {
    list.map_values(|s: String| s@)
}

/// How many characters of `s` come before the first `c`; all of them where there is none.
pub open spec fn until(s: Seq<char>, c: char) -> nat
    decreases s.len(),
{
    if s.len() == 0 || s[0] == c {
        0
    } else {
        1 + until(s.skip(1), c)
    }
}

pub(crate) proof fn lemma_until(s: Seq<char>, c: char, n: nat)
    requires
        n <= s.len(),
        forall|k: int| 0 <= k < n ==> s[k] != c,
        n == s.len() || s[n as int] == c,
    ensures
        until(s, c) == n,
    decreases n,
{
    if n > 0 {
        let t = s.skip(1);
        assert forall|k: int| 0 <= k < n - 1 implies t[k] != c by {
            assert(t[k] == s[k + 1]);
        }
        lemma_until(t, c, (n - 1) as nat);
    }
}

pub(crate) proof fn lemma_until_bound(s: Seq<char>, c: char)
    ensures
        until(s, c) <= s.len(),
        forall|k: int| 0 <= k < until(s, c) ==> s[k] != c,
        until(s, c) < s.len() ==> s[until(s, c) as int] == c,
    decreases s.len(),
{
    if s.len() > 0 && s[0] != c {
        let t = s.skip(1);
        lemma_until_bound(t, c);
        assert forall|k: int| 0 <= k < until(s, c) implies s[k] != c by {
            if k > 0 {
                assert(s[k] == t[k - 1]);
            }
        }
    }
}

/// `line` without the carriage return it may end with.
pub open spec fn without_cr(line: Seq<char>) -> Seq<char> {
    if line.len() > 0 && line.last() == '\r' {
        line.drop_last()
    } else {
        line
    }
}

/// The lines of `s`: each ends with `\n` or `\r\n`, which is left out, and the last one may end
/// with the text.
pub open spec fn lines_of(s: Seq<char>) -> Seq<Seq<char>>
    decreases s.len(),
{
    let n = until(s, '\n');
    if s.len() == 0 {
        Seq::empty()
    } else if n >= s.len() {
        seq![s]
    } else {
        seq![without_cr(s.take(n as int))] + lines_of(s.skip(n as int + 1))
    }
}

/// Splits `s` into its lines.
pub fn lines(s: &str) -> (r: Vec<String>)
    ensures
        texts(r@) == lines_of(s@),
{
    let cs = to_chars(s);
    let mut out: Vec<String> = Vec::new();
    let mut start: usize = 0;
    let mut i: usize = 0;
    assert(s@.skip(0) =~= s@);
    assert(texts(out@) + lines_of(s@) =~= lines_of(s@));
    while i < cs.len()
        invariant
            cs@ == s@,
            start <= i <= cs.len(),
            forall|k: int| start <= k < i ==> s@[k] != '\n',
            lines_of(s@) == texts(out@) + lines_of(s@.skip(start as int)),
        decreases cs.len() - i,
    {
        if cs[i] == '\n' {
            let ghost rest = s@.skip(start as int);
            proof {
                assert forall|k: int| 0 <= k < i - start implies rest[k] != '\n' by {
                    assert(rest[k] == s@[start + k]);
                }
                lemma_until(rest, '\n', (i - start) as nat);
                assert(rest.take(i - start) =~= s@.subrange(start as int, i as int));
                assert(rest.skip(i - start + 1) =~= s@.skip(i + 1));
            }
            let end: usize = if i > start && cs[i - 1] == '\r' {
                i - 1
            } else {
                i
            };
            let ghost before = texts(out@);
            let line = s.substring_char(start, end).to_owned();
            proof {
                assert(line@ =~= without_cr(rest.take(i - start)));
            }
            out.push(line);
            assert(texts(out@) =~= before.push(line@));
            assert(before + (seq![line@] + lines_of(s@.skip(i + 1))) =~= texts(out@) + lines_of(
                s@.skip(i + 1),
            ));
            start = i + 1;
        }
        i += 1;
    }
    let ghost rest = s@.skip(start as int);
    if start < cs.len() {
        proof {
            assert forall|k: int| 0 <= k < rest.len() implies rest[k] != '\n' by {
                assert(rest[k] == s@[start + k]);
            }
            lemma_until(rest, '\n', rest.len());
            assert(rest =~= s@.subrange(start as int, s@.len() as int));
        }
        let ghost before = texts(out@);
        let line = s.substring_char(start, cs.len()).to_owned();
        out.push(line);
        assert(texts(out@) =~= before + seq![line@]);
    } else {
        assert(lines_of(rest) =~= Seq::<Seq<char>>::empty());
        assert(texts(out@) + lines_of(rest) =~= texts(out@));
    }
    out
}

/// How many characters of `s` come before the first white space; all of them where there is none.
pub open spec fn word_len(s: Seq<char>) -> nat
    decreases s.len(),
{
    if s.len() == 0 || is_space(s[0]) {
        0
    } else {
        1 + word_len(s.skip(1))
    }
}

pub(crate) proof fn lemma_word_len(s: Seq<char>, n: nat)
    requires
        n <= s.len(),
        forall|k: int| 0 <= k < n ==> !is_space(s[k]),
        n == s.len() || is_space(s[n as int]),
    ensures
        word_len(s) == n,
    decreases n,
{
    if n > 0 {
        let t = s.skip(1);
        assert forall|k: int| 0 <= k < n - 1 implies !is_space(t[k]) by {
            assert(t[k] == s[k + 1]);
        }
        lemma_word_len(t, (n - 1) as nat);
    }
}

/// A word is no longer than the text it starts.
pub proof fn lemma_word_len_bound(s: Seq<char>)
    ensures
        word_len(s) <= s.len(),
    decreases s.len(),
{
    if s.len() > 0 && !is_space(s[0]) {
        lemma_word_len_bound(s.skip(1));
    }
}

/// The words of `s`: its longest stretches without white space.
pub open spec fn words_of(s: Seq<char>) -> Seq<Seq<char>>
    decreases s.len(),
{
    if s.len() == 0 {
        Seq::empty()
    } else if is_space(s[0]) {
        words_of(s.skip(1))
    } else {
        proof {
            lemma_word_len_bound(s);
        }
        seq![s.take(word_len(s) as int)] + words_of(s.skip(word_len(s) as int))
    }
}

/// Splits `s` at its white space.
pub fn split_whitespace(s: &str) -> (r: Vec<String>)
    ensures
        texts(r@) == words_of(s@),
{
    let cs = to_chars(s);
    let mut out: Vec<String> = Vec::new();
    let mut i: usize = 0;
    assert(s@.skip(0) =~= s@);
    assert(texts(out@) + words_of(s@) =~= words_of(s@));
    while i < cs.len()
        invariant
            cs@ == s@,
            i <= cs.len(),
            words_of(s@) == texts(out@) + words_of(s@.skip(i as int)),
        decreases cs.len() - i,
    {
        let ghost rest = s@.skip(i as int);
        if is_whitespace(cs[i]) {
            assert(rest.skip(1) =~= s@.skip(i + 1));
            i += 1;
        } else {
            let start: usize = i;
            while i < cs.len() && !is_whitespace(cs[i])
                invariant
                    cs@ == s@,
                    start <= i <= cs.len(),
                    forall|k: int| start <= k < i ==> !is_space(s@[k]),
                decreases cs.len() - i,
            {
                i += 1;
            }
            proof {
                assert forall|k: int| 0 <= k < i - start implies !is_space(rest[k]) by {
                    assert(rest[k] == s@[start + k]);
                }
                if i < s@.len() {
                    assert(rest[i - start] == s@[i as int]);
                }
                lemma_word_len(rest, (i - start) as nat);
                assert(rest.take(i - start) =~= s@.subrange(start as int, i as int));
                assert(rest.skip(i - start) =~= s@.skip(i as int));
            }
            let ghost before = texts(out@);
            let word = s.substring_char(start, i).to_owned();
            out.push(word);
            assert(texts(out@) =~= before.push(word@));
            assert(before + (seq![word@] + words_of(s@.skip(i as int))) =~= texts(out@) + words_of(
                s@.skip(i as int),
            ));
        }
    }
    assert(words_of(s@.skip(i as int)) =~= Seq::<Seq<char>>::empty());
    assert(texts(out@) + words_of(s@.skip(i as int)) =~= texts(out@));
    out
}

/// Whether two texts are the same.
pub fn same_text(a: &str, b: &str) -> (r: bool)
    ensures
        r == (a@ == b@),
{
    a.to_owned() == b.to_owned()
}

/// What follows `prefix` in `s`, where `s` starts with it.
pub fn strip_prefix<'a>(s: &'a str, prefix: &str) -> (r: Option<&'a str>)
    ensures
        match r {
            Some(rest) => prefix@.is_prefix_of(s@) && rest@ == s@.skip(prefix@.len() as int),
            None => !prefix@.is_prefix_of(s@),
        },
{
    let cs = to_chars(s);
    let ps = to_chars(prefix);
    if ps.len() > cs.len() {
        return None;
    }
    let head = s.substring_char(0, ps.len());
    if same_text(head, prefix) {
        let rest = s.substring_char(ps.len(), cs.len());
        assert(rest@ =~= s@.skip(prefix@.len() as int));
        Some(rest)
    } else {
        None
    }
}

/// `s` with every `from` replaced by `to`.
pub open spec fn replaced(s: Seq<char>, from: char, to: Seq<char>) -> Seq<char>
    decreases s.len(),
{
    if s.len() == 0 {
        Seq::empty()
    } else {
        (if s[0] == from {
            to
        } else {
            seq![s[0]]
        }) + replaced(s.skip(1), from, to)
    }
}

/// Nothing is left of a character that is replaced by others.
pub proof fn lemma_replaced_is_gone(s: Seq<char>, from: char, to: Seq<char>)
    requires
        !to.contains(from),
    ensures
        !replaced(s, from, to).contains(from),
    decreases s.len(),
{
    if s.len() > 0 {
        lemma_replaced_is_gone(s.skip(1), from, to);
        let rest = replaced(s.skip(1), from, to);
        let all = replaced(s, from, to);
        if all.contains(from) {
            let k = choose|k: int| 0 <= k < all.len() && all[k] == from;
            let n = all.len() - rest.len();
            if k >= n {
                assert(rest[k - n] == from);
            } else if s[0] == from {
                assert(to[k] == from);
            }
        }
    }
}

/// Replaces every `from` in `s` by `to`.
pub fn replace_char(s: &str, from: char, to: &str) -> (r: String)
    ensures
        r@ == replaced(s@, from, to@),
{
    let cs = to_chars(s);
    let mut out = String::new();
    let mut i: usize = 0;
    assert(s@.skip(0) =~= s@);
    assert(out@ + replaced(s@, from, to@) =~= replaced(s@, from, to@));
    while i < cs.len()
        invariant
            cs@ == s@,
            i <= cs.len(),
            replaced(s@, from, to@) == out@ + replaced(s@.skip(i as int), from, to@),
        decreases cs.len() - i,
    {
        let ghost rest = s@.skip(i as int);
        let ghost before = out@;
        assert(rest.skip(1) =~= s@.skip(i + 1));
        let c = cs[i];
        if c == from {
            out.append(to);
            assert(before + (to@ + replaced(s@.skip(i + 1), from, to@)) =~= out@ + replaced(
                s@.skip(i + 1),
                from,
                to@,
            ));
        } else {
            out.push(c);
            assert(before + (seq![c] + replaced(s@.skip(i + 1), from, to@)) =~= out@ + replaced(
                s@.skip(i + 1),
                from,
                to@,
            ));
        }
        i += 1;
    }
    assert(out@ + replaced(s@.skip(i as int), from, to@) =~= out@);
    out
}

/// `first` with `second` behind it.
pub fn concat2(first: &str, second: &str) -> (r: String)
    ensures
        r@ == first@ + second@,
{
    let mut out = first.to_owned();
    out.append(second);
    out
}

/// Three texts in a row.
pub fn concat3(first: &str, second: &str, third: &str) -> (r: String)
    ensures
        r@ == first@ + second@ + third@,
{
    let mut out = concat2(first, second);
    out.append(third);
    out
}

/// `line` without the line feeds and carriage returns it ends with.
pub open spec fn line_content(line: Seq<char>) -> Seq<char>
    decreases line.len(),
{
    if line.len() > 0 && (line.last() == '\n' || line.last() == '\r') {
        line_content(line.drop_last())
    } else {
        line
    }
}

/// Strips the line feeds and carriage returns that `line` ends with.
pub fn strip_line_end(line: &str) -> (r: &str)
    ensures
        r@ == line_content(line@),
{
    let cs = to_chars(line);
    let mut end: usize = cs.len();
    assert(line@.take(end as int) =~= line@);
    while end > 0 && (cs[end - 1] == '\n' || cs[end - 1] == '\r')
        invariant
            cs@ == line@,
            end <= cs.len(),
            line_content(line@) == line_content(line@.take(end as int)),
        decreases end,
    {
        assert(line@.take(end as int).drop_last() =~= line@.take(end - 1));
        end -= 1;
    }
    assert(line@.subrange(0, end as int) =~= line@.take(end as int));
    line.substring_char(0, end)
}

/// The digit for `d`, from `0` to `f`.
pub open spec fn digit(d: int) -> char {
    if d == 0 {
        '0'
    } else if d == 1 {
        '1'
    } else if d == 2 {
        '2'
    } else if d == 3 {
        '3'
    } else if d == 4 {
        '4'
    } else if d == 5 {
        '5'
    } else if d == 6 {
        '6'
    } else if d == 7 {
        '7'
    } else if d == 8 {
        '8'
    } else if d == 9 {
        '9'
    } else if d == 10 {
        'a'
    } else if d == 11 {
        'b'
    } else if d == 12 {
        'c'
    } else if d == 13 {
        'd'
    } else if d == 14 {
        'e'
    } else {
        'f'
    }
}

pub(crate) proof fn lemma_digit_injective(a: int, b: int)
    requires
        0 <= a < 16,
        0 <= b < 16,
        digit(a) == digit(b),
    ensures
        a == b,
{
}

/// The digit for `d`, from `0` to `f`.
pub(crate) fn digit_char(d: u8) -> (r: char)
    requires
        d < 16,
    ensures
        r == digit(d as int),
{
    match d {
        0 => '0',
        1 => '1',
        2 => '2',
        3 => '3',
        4 => '4',
        5 => '5',
        6 => '6',
        7 => '7',
        8 => '8',
        9 => '9',
        10 => 'a',
        11 => 'b',
        12 => 'c',
        13 => 'd',
        14 => 'e',
        _ => 'f',
    }
}

/// `n` in decimal notation.
pub open spec fn decimal_of(n: nat) -> Seq<char>
    decreases n,
{
    if n < 10 {
        seq![digit(n as int)]
    } else {
        decimal_of(n / 10).push(digit((n % 10) as int))
    }
}

/// Writes `n` in decimal notation.
pub fn decimal(n: usize) -> (r: String)
    ensures
        r@ == decimal_of(n as nat),
    decreases n,
{
    let mut out = if n < 10 {
        String::new()
    } else {
        decimal(n / 10)
    };
    out.push(digit_char((n % 10) as u8));
    out
}

} // verus!
