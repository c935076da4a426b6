//! The identifiers of notebooks and pages.
use vstd::prelude::*;

use crate::text::to_chars;

verus! {

/// Whether `c` is an ASCII hexadecimal digit.
pub open spec fn is_hex(c: char) -> bool {
    ||| '0' <= c <= '9'
    ||| 'a' <= c <= 'f'
    ||| 'A' <= c <= 'F'
}

/// Whether a hyphen stands at place `i` of a UUID.
pub open spec fn is_hyphen_place(i: int) -> bool {
    i == 8 || i == 13 || i == 18 || i == 23
}

/// Five groups of hexadecimal digits, of lengths 8, 4, 4, 4 and 12, with hyphens between them.
pub open spec fn is_uuid(s: Seq<char>) -> bool {
    &&& s.len() == 36
    &&& forall|i: int|
        #![trigger s[i]]
        0 <= i < 36 ==> if is_hyphen_place(i) {
            s[i] == '-'
        } else {
            is_hex(s[i])
        }
}

/// Whether `s` has the shape of a UUID.
pub fn looks_like_uuid(s: &str) -> (r: bool)
    ensures
        r == is_uuid(s@),
{
    let cs = to_chars(s);
    if cs.len() != 36 {
        return false;
    }
    let mut i: usize = 0;
    while i < 36
        invariant
            cs@ == s@,
            cs.len() == 36,
            i <= 36,
            forall|k: int|
                #![trigger s@[k]]
                0 <= k < i ==> if is_hyphen_place(k) {
                    s@[k] == '-'
                } else {
                    is_hex(s@[k])
                },
        decreases 36 - i,
    {
        let c = cs[i];
        let fits = if i == 8 || i == 13 || i == 18 || i == 23 {
            c == '-'
        } else {
            ('0' <= c && c <= '9') || ('a' <= c && c <= 'f') || ('A' <= c && c <= 'F')
        };
        if !fits {
            assert(s@[i as int] == c);
            return false;
        }
        i += 1;
    }
    true
}

/// Whether `s` is made of `n` ASCII hexadecimal digits.
pub open spec fn is_hex_group(s: Seq<char>, n: nat) -> bool {
    &&& s.len() == n
    &&& forall|i: int|
        #![trigger s[i]]
        0 <= i < s.len() ==> ('0' <= s[i] <= '9') || ('a' <= s[i] <= 'f') || ('A' <= s[i] <= 'F')
}

/// Any five groups of hexadecimal digits, of lengths 8, 4, 4, 4 and 12, make a UUID when hyphens
/// join them.
pub proof fn law_joined_groups_are_a_uuid(
    a: Seq<char>,
    b: Seq<char>,
    c: Seq<char>,
    d: Seq<char>,
    e: Seq<char>,
)
    requires
        is_hex_group(a, 8),
        is_hex_group(b, 4),
        is_hex_group(c, 4),
        is_hex_group(d, 4),
        is_hex_group(e, 12),
    ensures
        is_uuid(a.push('-') + b.push('-') + c.push('-') + d.push('-') + e),
{
    let s = a.push('-') + b.push('-') + c.push('-') + d.push('-') + e;
    assert(s.len() == 36);
    assert forall|i: int| #![trigger s[i]] 0 <= i < 36 implies if is_hyphen_place(i) {
        s[i] == '-'
    } else {
        is_hex(s[i])
    } by {
        if i < 8 {
            assert(s[i] == a[i]);
        } else if 9 <= i < 13 {
            assert(s[i] == b[i - 9]);
        } else if 14 <= i < 18 {
            assert(s[i] == c[i - 14]);
        } else if 19 <= i < 23 {
            assert(s[i] == d[i - 19]);
        } else if 24 <= i {
            assert(s[i] == e[i - 24]);
        }
    }
}

/// Every UUID is five groups of hexadecimal digits that hyphens join.
pub proof fn law_uuid_is_five_groups(s: Seq<char>)
    requires
        is_uuid(s),
    ensures
        s.len() == 36,
        is_hex_group(s.subrange(0, 8), 8),
        is_hex_group(s.subrange(9, 13), 4),
        is_hex_group(s.subrange(14, 18), 4),
        is_hex_group(s.subrange(19, 23), 4),
        is_hex_group(s.subrange(24, 36), 12),
        s[8] == '-' && s[13] == '-' && s[18] == '-' && s[23] == '-',
{
    assert(s[8] == '-' && s[13] == '-' && s[18] == '-' && s[23] == '-');
    assert forall|i: int| 0 <= i < 36 && !is_hyphen_place(i) implies is_hex(#[trigger] s[i]) by {}
}

/// Another hexadecimal digit in place of one of a UUID's leaves a UUID.
pub proof fn law_uuid_with_another_digit(s: Seq<char>, i: int, c: char)
    requires
        is_uuid(s),
        0 <= i < s.len(),
        s[i] != '-',
        ('0' <= c <= '9') || ('a' <= c <= 'f') || ('A' <= c <= 'F'),
    ensures
        is_uuid(s.update(i, c)),
{
    assert(!is_hyphen_place(i));
}

} // verus!
