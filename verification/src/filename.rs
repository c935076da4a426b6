//! File names made from notebook names.
use vstd::prelude::*;
use vstd::string::*;

use crate::outside::{alphanumeric, ascii_alphanumeric, is_alphanumeric, unicode_alphanumeric};
use crate::text::{is_control, is_space, to_chars};

verus! {

/// `c` where it is a letter, a digit, `-` or `_`, and `_` in place of anything else.
pub open spec fn safe_char(c: char) -> char {
    if alphanumeric(c) || c == '-' || c == '_' {
        c
    } else {
        '_'
    }
}

/// Whether `c` is an ASCII letter or digit, `-` or `_`.
pub open spec fn is_plain_char(c: char) -> bool {
    ascii_alphanumeric(c) || c == '-' || c == '_'
}

/// Whether `c` may stand in a safe file name: no white space and no control character, and of ASCII
/// letters, digits, `-` and `_` only.
pub open spec fn is_name_char(c: char) -> bool {
    &&& c <= '\u{7f}' ==> is_plain_char(c)
    &&& !is_space(c) && !is_control(c)
}

/// `name` with each character made safe.
pub open spec fn sanitized(name: Seq<char>) -> Seq<char> {
    name.map_values(|c: char| safe_char(c))
}

/// The character that stands for `c` in a file name, where `alphanumeric` says whether `c` is a
/// letter or a digit.
pub fn keep_or_replace(c: char, alphanumeric: bool) -> (r: char)
    ensures
        r == if alphanumeric || c == '-' || c == '_' {
            c
        } else {
            '_'
        },
{
    if alphanumeric || c == '-' || c == '_' {
        c
    } else {
        '_'
    }
}

/// Replaces every character of `name` that is not a letter, a digit, `-` or `_` by `_`. No path
/// separator, dot, blank or control character is left, and a name that is made of ASCII letters,
/// digits, `-` and `_` stays as it is.
pub fn sanitize_filename(name: &str) -> (r: String)
    ensures
        r@ == sanitized(name@),
        forall|i: int|
            #![trigger r@[i]]
            0 <= i < r@.len() ==> is_name_char(r@[i]),
        forall|i: int|
            #![trigger r@[i]]
            0 <= i < name@.len() && name@[i] <= '\u{7f}' ==> r@[i] == if is_plain_char(name@[i]) {
                name@[i]
            } else {
                '_'
            },
        (forall|i: int| #![trigger name@[i]] 0 <= i < name@.len() ==> is_plain_char(name@[i]))
            ==> r@ == name@,
{
    let cs = to_chars(name);
    let mut out = String::new();
    let mut i: usize = 0;
    while i < cs.len()
        invariant
            cs@ == name@,
            i <= cs.len(),
            out@ == sanitized(name@.take(i as int)),
            forall|k: int| #![trigger out@[k]] 0 <= k < i ==> is_name_char(out@[k]),
            forall|k: int|
                #![trigger name@[k]]
                0 <= k < i && is_plain_char(name@[k]) ==> out@[k] == name@[k],
        decreases cs.len() - i,
    {
        let c = cs[i];
        let ghost before = out@;
        out.push(keep_or_replace(c, is_alphanumeric(c)));
        assert(out@ =~= sanitized(name@.take(i + 1)));
        assert(forall|k: int| 0 <= k < i ==> out@[k] == before[k]);
        i += 1;
    }
    assert(name@.take(i as int) =~= name@);
    assert((forall|k: int| #![trigger name@[k]] 0 <= k < name@.len() ==> is_plain_char(name@[k]))
        ==> out@ =~= name@);
    out
}

/// The output directory: the one that was given, and a safe form of the notebook's name where none
/// was.
pub fn output_dir(output: Option<&str>, notebook: &str) -> (r: String)
    ensures
        r@ == match output {
            Some(path) => path@,
            None => sanitized(notebook@),
        },
{
    match output {
        Some(path) => path.to_owned(),
        None => sanitize_filename(notebook),
    }
}

/// A name that has been made safe stays as it is, and making a name safe keeps its length.
pub proof fn law_sanitizing_twice_changes_nothing(name: Seq<char>)
    ensures
        sanitized(sanitized(name)) == sanitized(name),
        sanitized(name).len() == name.len(),
{
    assert(sanitized(sanitized(name)) =~= sanitized(name));
}

/// Every letter and digit outside ASCII is kept, and every other character there becomes `_`, each
/// in its place.
pub proof fn law_letters_and_digits_are_kept(name: Seq<char>, i: int)
    requires
        0 <= i < name.len(),
    ensures
        sanitized(name).len() == name.len(),
        name[i] > '\u{7f}' && unicode_alphanumeric(name[i]) && !is_space(name[i]) && !is_control(
            name[i],
        ) ==> sanitized(name)[i] == name[i],
        name[i] > '\u{7f}' && (!unicode_alphanumeric(name[i]) || is_space(name[i]) || is_control(
            name[i],
        )) ==> sanitized(name)[i] == '_',
        name[i] == '-' || name[i] == '_' ==> sanitized(name)[i] == name[i],
        '0' <= name[i] <= '9' || 'A' <= name[i] <= 'Z' || 'a' <= name[i] <= 'z' ==> sanitized(
            name,
        )[i] == name[i],
        name[i] <= ',' || name[i] == '.' || name[i] == '/' || ':' <= name[i] <= '@' || '[' <= name[i]
            <= '^' || name[i] == '`' || '{' <= name[i] <= '\u{7f}' ==> sanitized(name)[i] == '_',
{
}

} // verus!
