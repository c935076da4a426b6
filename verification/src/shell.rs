//! Quoting for the shell on the tablet, and how that shell reads a command back.
use vstd::prelude::*;
use vstd::string::*;

use crate::text::{replace_char, replaced};
use crate::text_laws::law_nothing_to_replace;

verus! {

/// `value` inside single quotes, with each single quote in it written as `'\''`.
pub open spec fn quoted(value: Seq<char>) -> Seq<char> {
    seq!['\''] + replaced(value, '\'', "'\\''"@) + seq!['\'']
}

/// Single-quotes `value` for use in a shell command.
pub fn shq(value: &str) -> (r: String)
    ensures
        r@ == quoted(value@),
{
    let body = replace_char(value, '\'', "'\\''");
    let mut out = String::new();
    out.push('\'');
    out.append(&body);
    out.push('\'');
    assert(out@ =~= quoted(value@));
    out
}

/// Whether an unquoted `c` ends a word of a shell command.
pub open spec fn ends_word(c: char) -> bool {
    ||| c == ' ' || c == '\t' || c == '\n'
    ||| c == ';' || c == '&' || c == '|' || c == '<' || c == '>' || c == '(' || c == ')'
}

/// Whether an unquoted `c` makes the shell expand or quote in another way than the two below.
pub open spec fn is_special(c: char) -> bool {
    ||| c == '"' || c == '$' || c == '`'
    ||| c == '*' || c == '?' || c == '[' || c == '~' || c == '#'
}

/// `first` in front of the word that was read.
pub open spec fn with_first(
    first: char,
    read: Option<(Seq<char>, Seq<char>)>,
) -> Option<(Seq<char>, Seq<char>)> {
    match read {
        Some((word, rest)) => Some((seq![first] + word, rest)),
        None => None,
    }
}

/// The word that a POSIX shell reads at the start of `s`, and what follows it. `inside` says that a
/// single quote is open. `None` where a quote stays open, where nothing follows a backslash, or
/// where the word holds one of the special characters.
pub open spec fn read_word(s: Seq<char>, inside: bool) -> Option<(Seq<char>, Seq<char>)>
    decreases s.len(),
{
    if s.len() == 0 {
        if inside {
            None
        } else {
            Some((Seq::empty(), s))
        }
    } else if s[0] == '\'' {
        read_word(s.skip(1), !inside)
    } else if inside {
        with_first(s[0], read_word(s.skip(1), true))
    } else if ends_word(s[0]) {
        Some((Seq::empty(), s))
    } else if s[0] == '\\' {
        if s.len() == 1 {
            None
        } else if s[1] == '\n' {
            read_word(s.skip(2), false)
        } else {
            with_first(s[1], read_word(s.skip(2), false))
        }
    } else if is_special(s[0]) {
        None
    } else {
        with_first(s[0], read_word(s.skip(1), false))
    }
}

/// Whether a word can end where `rest` follows it.
pub open spec fn may_follow_word(rest: Seq<char>) -> bool {
    rest.len() == 0 || ends_word(rest[0])
}

proof fn lemma_read_body(value: Seq<char>, rest: Seq<char>)
    requires
        may_follow_word(rest),
    ensures
        read_word(replaced(value, '\'', "'\\''"@) + seq!['\''] + rest, true) == Some((value, rest)),
    decreases value.len(),
{
    let escape = "'\\''"@;
    reveal_strlit("'\\''");
    assert(escape =~= seq!['\'', '\\', '\'', '\'']);
    let s = replaced(value, '\'', escape) + seq!['\''] + rest;
    if value.len() == 0 {
        assert(s.skip(1) =~= rest);
        assert(read_word(rest, false) == Some((Seq::<char>::empty(), rest)));
        assert(value =~= Seq::empty());
    } else {
        let tail = value.skip(1);
        let t = replaced(tail, '\'', escape) + seq!['\''] + rest;
        lemma_read_body(tail, rest);
        assert(value =~= seq![value[0]] + tail);
        if value[0] == '\'' {
            assert(s =~= escape + t);
            let s1 = s.skip(1);
            let s3 = s1.skip(2);
            assert(s1[0] == '\\' && s1[1] == '\'');
            assert(s3 =~= seq!['\''] + t);
            assert(s3.skip(1) =~= t);
            assert(read_word(s3, false) == read_word(t, true));
            assert(read_word(s1, false) == with_first('\'', read_word(s3, false)));
            assert(read_word(s, true) == read_word(s1, false));
        } else {
            assert(s =~= seq![value[0]] + t);
            assert(s.skip(1) =~= t);
        }
    }
}

/// The shell reads a quoted value back as one word, character for character, whatever the value
/// holds, as long as a blank, an operator or nothing follows it.
pub proof fn law_shell_reads_quoted_value(value: Seq<char>, rest: Seq<char>)
    requires
        may_follow_word(rest),
    ensures
        read_word(quoted(value) + rest, false) == Some((value, rest)),
{
    let body = replaced(value, '\'', "'\\''"@);
    let s = quoted(value) + rest;
    lemma_read_body(value, rest);
    assert(s[0] == '\'');
    assert(s.skip(1) =~= body + seq!['\''] + rest);
}

/// The words of a shell command that holds no operators and no special characters.
pub open spec fn shell_words(s: Seq<char>) -> Option<Seq<Seq<char>>>
    decreases s.len(),
{
    if s.len() == 0 {
        Some(Seq::empty())
    } else if s[0] == ' ' {
        shell_words(s.skip(1))
    } else {
        match read_word(s, false) {
            Some((word, rest)) => if rest.len() < s.len() {
                match shell_words(rest) {
                    Some(words) => Some(seq![word] + words),
                    None => None,
                }
            } else {
                None
            },
            None => None,
        }
    }
}

/// A quoted value in front of a command's other words is one more word of it.
pub proof fn law_quoted_value_is_one_word(value: Seq<char>, rest: Seq<char>)
    requires
        rest.len() == 0 || rest[0] == ' ',
        shell_words(rest) is Some,
    ensures
        shell_words(quoted(value) + rest) == Some(seq![value] + shell_words(rest)->0),
{
    law_shell_reads_quoted_value(value, rest);
    assert((quoted(value) + rest)[0] == '\'');
}

/// Two different values are never quoted alike.
pub proof fn law_quoting_is_injective(a: Seq<char>, b: Seq<char>)
    requires
        quoted(a) == quoted(b),
    ensures
        a == b,
{
    law_shell_reads_quoted_value(a, Seq::empty());
    law_shell_reads_quoted_value(b, Seq::empty());
}

/// A value without a single quote stands between two of them as it is.
pub proof fn law_value_without_quotes_stays_as_it_is(value: Seq<char>)
    requires
        !value.contains('\''),
    ensures
        quoted(value) == seq!['\''] + value + seq!['\''],
{
    law_nothing_to_replace(value, '\'', "'\\''"@);
}

} // verus!
