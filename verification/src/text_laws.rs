//! What trimming, splitting, replacing and writing numbers do to every text.
use vstd::prelude::*;

use crate::text::{
    decimal_of, digit, is_space, lemma_until, lemma_word_len, line_content, lines_of, replaced,
    texts, trim_end_of, trim_of, trim_start_of, words_of,
};

verus! {

/// Whether `s` is white space only.
pub open spec fn is_blank(s: Seq<char>) -> bool {
    forall|i: int| 0 <= i < s.len() ==> is_space(#[trigger] s[i])
}

/// Whether `s` is not empty and has no white space at its two ends.
pub open spec fn has_firm_ends(s: Seq<char>) -> bool {
    s.len() > 0 && !is_space(s[0]) && !is_space(s.last())
}

proof fn lemma_trim_start_blank(before: Seq<char>, s: Seq<char>)
    requires
        is_blank(before),
        s.len() == 0 || !is_space(s[0]),
    ensures
        trim_start_of(before + s) == s,
    decreases before.len(),
{
    if before.len() == 0 {
        assert(before + s =~= s);
    } else {
        let rest = before.skip(1);
        assert forall|i: int| 0 <= i < rest.len() implies is_space(#[trigger] rest[i]) by {
            assert(rest[i] == before[i + 1]);
        }
        assert((before + s)[0] == before[0]);
        assert((before + s).skip(1) =~= rest + s);
        lemma_trim_start_blank(rest, s);
    }
}

proof fn lemma_trim_end_blank(s: Seq<char>, after: Seq<char>)
    requires
        is_blank(after),
        s.len() == 0 || !is_space(s.last()),
    ensures
        trim_end_of(s + after) == s,
    decreases after.len(),
{
    if after.len() == 0 {
        assert(s + after =~= s);
    } else {
        let rest = after.drop_last();
        assert forall|i: int| 0 <= i < rest.len() implies is_space(#[trigger] rest[i]) by {
            assert(rest[i] == after[i]);
        }
        assert((s + after).last() == after[after.len() - 1]);
        assert((s + after).drop_last() =~= s + rest);
        lemma_trim_end_blank(s, rest);
    }
}

/// Trimming takes away the white space at both ends, all of it and nothing else.
pub proof fn law_trim_takes_the_ends(before: Seq<char>, s: Seq<char>, after: Seq<char>)
    requires
        is_blank(before),
        is_blank(after),
        s.len() == 0 || has_firm_ends(s),
    ensures
        trim_of(before + s + after) == s,
{
    if s.len() == 0 {
        let all = before + after;
        let none = Seq::<char>::empty();
        assert(before + s + after =~= all + none);
        assert forall|i: int| 0 <= i < all.len() implies is_space(#[trigger] all[i]) by {
            if i < before.len() {
                assert(all[i] == before[i]);
            } else {
                assert(all[i] == after[i - before.len()]);
            }
        }
        lemma_trim_start_blank(all, none);
        assert(trim_end_of(none) == none);
        assert(s =~= none);
    } else {
        assert(before + s + after =~= before + (s + after));
        assert((s + after)[0] == s[0]);
        lemma_trim_start_blank(before, s + after);
        lemma_trim_end_blank(s, after);
    }
}

/// Every text is some white space, a trimmed text, and white space again.
pub proof fn law_trim_leaves_a_part(s: Seq<char>) -> (ends: (int, int))
    ensures
        0 <= ends.0 <= ends.1 <= s.len(),
        is_blank(s.take(ends.0)),
        is_blank(s.skip(ends.1)),
        trim_of(s) == s.subrange(ends.0, ends.1),
        ends.0 < ends.1 ==> has_firm_ends(s.subrange(ends.0, ends.1)),
{
    let a = lemma_trim_start_part(s);
    let t = s.skip(a);
    let b = lemma_trim_end_part(t);
    assert(t.take(b) =~= s.subrange(a, a + b));
    assert forall|i: int| 0 <= i < s.skip(a + b).len() implies is_space(
        #[trigger] s.skip(a + b)[i],
    ) by {
        assert(s.skip(a + b)[i] == t.skip(b)[i]);
    }
    if b > 0 {
        assert(s.subrange(a, a + b)[0] == t[0]);
        assert(s.subrange(a, a + b).last() == t[b - 1]);
    }
    (a, a + b)
}

proof fn lemma_trim_start_part(s: Seq<char>) -> (a: int)
    ensures
        0 <= a <= s.len(),
        is_blank(s.take(a)),
        trim_start_of(s) == s.skip(a),
        a < s.len() ==> !is_space(s[a]),
    decreases s.len(),
{
    if s.len() > 0 && is_space(s[0]) {
        let a = lemma_trim_start_part(s.skip(1)) + 1;
        assert(s.skip(1).skip(a - 1) =~= s.skip(a));
        assert forall|i: int| 0 <= i < a implies is_space(#[trigger] s.take(a)[i]) by {
            if i > 0 {
                assert(s.take(a)[i] == s.skip(1).take(a - 1)[i - 1]);
            }
        }
        a
    } else {
        assert(s.skip(0) =~= s);
        0
    }
}

proof fn lemma_trim_end_part(s: Seq<char>) -> (b: int)
    ensures
        0 <= b <= s.len(),
        is_blank(s.skip(b)),
        trim_end_of(s) == s.take(b),
        b > 0 ==> !is_space(s[b - 1]),
    decreases s.len(),
{
    if s.len() > 0 && is_space(s.last()) {
        let b = lemma_trim_end_part(s.drop_last());
        assert(s.drop_last().take(b) =~= s.take(b));
        assert forall|i: int| 0 <= i < s.skip(b).len() implies is_space(#[trigger] s.skip(b)[i]) by {
            if i < s.len() - 1 - b {
                assert(s.skip(b)[i] == s.drop_last().skip(b)[i]);
            }
        }
        b
    } else {
        assert(s.take(s.len() as int) =~= s);
        s.len() as int
    }
}

/// A line feed ends a line, and the lines behind it follow. A line that ends with no carriage
/// return is kept whole.
pub proof fn law_line_feed_ends_a_line(line: Seq<char>, rest: Seq<char>)
    requires
        !line.contains('\n'),
        line.len() == 0 || line.last() != '\r',
    ensures
        lines_of(line.push('\n') + rest) == seq![line] + lines_of(rest),
{
    let s = line.push('\n') + rest;
    assert forall|k: int| 0 <= k < line.len() implies s[k] != '\n' by {
        assert(line.contains(line[k]));
    }
    lemma_until(s, '\n', line.len());
    assert(s.take(line.len() as int) =~= line);
    assert(s.skip(line.len() as int + 1) =~= rest);
}

/// A carriage return in front of a line feed belongs to the line's end.
pub proof fn law_carriage_return_ends_a_line(line: Seq<char>, rest: Seq<char>)
    requires
        !line.contains('\n'),
    ensures
        lines_of(line.push('\r').push('\n') + rest) == seq![line] + lines_of(rest),
{
    let full = line.push('\r');
    let s = full.push('\n') + rest;
    assert forall|k: int| 0 <= k < full.len() implies s[k] != '\n' by {
        if k < line.len() {
            assert(line.contains(line[k]));
            assert(s[k] == line[k]);
        }
    }
    lemma_until(s, '\n', full.len());
    assert(s.take(full.len() as int) =~= full);
    assert(full.drop_last() =~= line);
    assert(s.skip(full.len() as int + 1) =~= rest);
}

/// What stands behind the last line feed is a line of its own, unless it is empty.
pub proof fn law_last_line(line: Seq<char>)
    requires
        !line.contains('\n'),
    ensures
        lines_of(line) == if line.len() == 0 {
            Seq::empty()
        } else {
            seq![line]
        },
{
    assert forall|k: int| 0 <= k < line.len() implies line[k] != '\n' by {
        assert(line.contains(line[k]));
    }
    lemma_until(line, '\n', line.len());
}

/// White space separates words.
pub proof fn law_white_space_separates_words(a: Seq<char>, space: char, b: Seq<char>)
    requires
        is_space(space),
    ensures
        words_of(a.push(space) + b) == words_of(a) + words_of(b),
    decreases a.len(),
{
    let s = a.push(space) + b;
    if a.len() == 0 {
        assert(s[0] == space);
        assert(s.skip(1) =~= b);
        assert(words_of(a) + words_of(b) =~= words_of(b));
    } else if is_space(a[0]) {
        assert(s.skip(1) =~= a.skip(1).push(space) + b);
        law_white_space_separates_words(a.skip(1), space, b);
    } else {
        let n = lemma_first_word(a);
        assert forall|k: int| 0 <= k < n implies !is_space(s[k]) by {
            assert(s[k] == a[k]);
        }
        assert(n < a.len() ==> s[n] == a[n]);
        lemma_word_len(s, n as nat);
        lemma_word_len(a, n as nat);
        assert(s.take(n) =~= a.take(n));
        assert(s.skip(n) =~= a.skip(n).push(space) + b);
        law_white_space_separates_words(a.skip(n), space, b);
        assert(seq![a.take(n)] + (words_of(a.skip(n)) + words_of(b)) =~= (seq![a.take(n)]
            + words_of(a.skip(n))) + words_of(b));
    }
}

proof fn lemma_first_word(s: Seq<char>) -> (n: int)
    requires
        s.len() > 0,
        !is_space(s[0]),
    ensures
        0 < n <= s.len(),
        forall|k: int| 0 <= k < n ==> !is_space(s[k]),
        n == s.len() || is_space(s[n]),
    decreases s.len(),
{
    let t = s.skip(1);
    if t.len() == 0 || is_space(t[0]) {
        1
    } else {
        let n = lemma_first_word(t) + 1;
        assert forall|k: int| 0 <= k < n implies !is_space(s[k]) by {
            if k > 0 {
                assert(s[k] == t[k - 1]);
            }
        }
        n
    }
}

/// A text without white space is one word, and an empty text has none.
pub proof fn law_text_without_white_space_is_a_word(s: Seq<char>)
    requires
        forall|i: int| 0 <= i < s.len() ==> !is_space(#[trigger] s[i]),
    ensures
        words_of(s) == if s.len() == 0 {
            Seq::empty()
        } else {
            seq![s]
        },
{
    if s.len() > 0 {
        assert(!is_space(s[0]));
        lemma_word_len(s, s.len());
        assert(s.take(s.len() as int) =~= s);
        assert(words_of(s.skip(s.len() as int)) =~= Seq::<Seq<char>>::empty());
        assert(words_of(s) =~= seq![s]);
    }
}

/// Replacing works on each character by itself.
pub proof fn law_replacing_goes_by_characters(a: Seq<char>, b: Seq<char>, from: char, to: Seq<char>)
    ensures
        replaced(a + b, from, to) == replaced(a, from, to) + replaced(b, from, to),
    decreases a.len(),
{
    if a.len() == 0 {
        assert(a + b =~= b);
        assert(replaced(a, from, to) + replaced(b, from, to) =~= replaced(b, from, to));
    } else {
        law_replacing_goes_by_characters(a.skip(1), b, from, to);
        assert((a + b).skip(1) =~= a.skip(1) + b);
        assert(replaced(a + b, from, to) =~= replaced(a, from, to) + replaced(b, from, to));
    }
}

/// The character in question is replaced, and every other one is kept.
pub proof fn law_replacing_one_character(c: char, from: char, to: Seq<char>)
    ensures
        c == from ==> replaced(seq![c], from, to) == to,
        c != from ==> replaced(seq![c], from, to) == seq![c],
        replaced(Seq::empty(), from, to).len() == 0,
{
    let rest = seq![c].skip(1);
    assert(rest =~= Seq::empty());
    assert(replaced(rest, from, to) =~= Seq::empty());
    assert(to + Seq::<char>::empty() =~= to);
    assert(seq![c] + Seq::<char>::empty() =~= seq![c]);
}

/// Replacing a character by one other leaves the length, and every other character in its place.
pub proof fn law_replacing_by_one_character(s: Seq<char>, from: char, by: char)
    ensures
        replaced(s, from, seq![by]).len() == s.len(),
        forall|i: int|
            #![trigger s[i]]
            0 <= i < s.len() ==> replaced(s, from, seq![by])[i] == if s[i] == from {
                by
            } else {
                s[i]
            },
    decreases s.len(),
{
    if s.len() > 0 {
        let rest = s.skip(1);
        law_replacing_by_one_character(rest, from, by);
        assert forall|i: int|
            #![trigger s[i]]
            0 <= i < s.len() implies replaced(s, from, seq![by])[i] == if s[i] == from {
            by
        } else {
            s[i]
        } by {
            if i > 0 {
                assert(rest[i - 1] == s[i]);
            }
        }
    }
}

/// Only line feeds and carriage returns at the end are taken from a line that was typed, and all of
/// them.
pub proof fn law_line_end_is_taken(s: Seq<char>, end: Seq<char>)
    requires
        s.len() == 0 || (s.last() != '\n' && s.last() != '\r'),
        forall|i: int| 0 <= i < end.len() ==> #[trigger] end[i] == '\n' || end[i] == '\r',
    ensures
        line_content(s + end) == s,
    decreases end.len(),
{
    if end.len() == 0 {
        assert(s + end =~= s);
    } else {
        let rest = end.drop_last();
        assert forall|i: int| 0 <= i < rest.len() implies #[trigger] rest[i] == '\n' || rest[i]
            == '\r' by {
            assert(rest[i] == end[i]);
        }
        assert((s + end).last() == end[end.len() - 1]);
        assert((s + end).drop_last() =~= s + rest);
        law_line_end_is_taken(s, rest);
    }
}

/// The digits below ten are `0` to `9` in order, and those behind them `a` to `f`.
pub proof fn law_digits_come_in_order(d: int)
    ensures
        0 <= d < 10 ==> digit(d) as int == '0' as int + d,
        10 <= d < 16 ==> digit(d) as int == 'a' as int + d - 10,
{
}

/// A number of one digit is that digit, and every other number is written as its tenth with its
/// last digit behind it.
pub proof fn law_decimal_digits(n: nat, d: nat)
    requires
        d < 10,
    ensures
        decimal_of(d) == seq![('0' as int + d) as char],
        n > 0 ==> decimal_of(10 * n + d) == decimal_of(n).push(('0' as int + d) as char),
{
    law_digits_come_in_order(d as int);
    assert(('0' as int + d) as char == digit(d as int));
    if n > 0 {
        assert((10 * n + d) / 10 == n);
        assert((10 * n + d) % 10 == d);
    }
}

/// A text without the character in question stays as it is.
pub proof fn law_nothing_to_replace(s: Seq<char>, from: char, to: Seq<char>)
    requires
        !s.contains(from),
    ensures
        replaced(s, from, to) == s,
    decreases s.len(),
{
    if s.len() > 0 {
        let rest = s.skip(1);
        assert(s.contains(s[0]));
        if rest.contains(from) {
            let k = choose|k: int| 0 <= k < rest.len() && rest[k] == from;
            assert(s[k + 1] == from);
        }
        law_nothing_to_replace(rest, from, to);
        assert(seq![s[0]] + rest =~= s);
    }
}

/// The texts of a list of strings are those of its strings, in order.
pub proof fn law_texts_are_those_of_the_strings(list: Seq<String>, i: int)
    requires
        0 <= i < list.len(),
    ensures
        texts(list).len() == list.len(),
        texts(list)[i] == list[i]@,
        texts(Seq::empty()).len() == 0,
{
}

} // verus!
