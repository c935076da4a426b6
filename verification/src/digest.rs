//! Content digests in hexadecimal notation.
use vstd::prelude::*;

use crate::outside::{sha256, sha256_of};
use crate::text::{digit, digit_char, lemma_digit_injective, same_text};
use crate::text_laws::law_digits_come_in_order;

verus! {

/// `bytes` in lower-case hexadecimal notation, two digits each.
pub open spec fn hex_of(bytes: Seq<u8>) -> Seq<char>
    decreases bytes.len(),
{
    if bytes.len() == 0 {
        Seq::empty()
    } else {
        seq![digit((bytes[0] / 16) as int), digit((bytes[0] % 16) as int)] + hex_of(bytes.skip(1))
    }
}

/// Each byte takes two digits.
pub proof fn law_hex_length(bytes: Seq<u8>)
    ensures
        hex_of(bytes).len() == 2 * bytes.len(),
    decreases bytes.len(),
{
    if bytes.len() > 0 {
        law_hex_length(bytes.skip(1));
    }
}

/// Writes `bytes` in lower-case hexadecimal notation.
pub fn hex_lower(bytes: &[u8]) -> (r: String)
    ensures
        r@ == hex_of(bytes@),
        r@.len() == 2 * bytes@.len(),
{
    proof {
        law_hex_length(bytes@);
    }
    let mut out = String::new();
    let mut i: usize = 0;
    assert(bytes@.skip(0) =~= bytes@);
    assert(out@ + hex_of(bytes@) =~= hex_of(bytes@));
    while i < bytes.len()
        invariant
            i <= bytes.len(),
            hex_of(bytes@) == out@ + hex_of(bytes@.skip(i as int)),
        decreases bytes.len() - i,
    {
        let ghost before = out@;
        let ghost rest = bytes@.skip(i as int);
        let b = bytes[i];
        out.push(digit_char(b / 16));
        out.push(digit_char(b % 16));
        assert(rest.skip(1) =~= bytes@.skip(i + 1));
        assert(before + hex_of(rest) =~= out@ + hex_of(bytes@.skip(i + 1)));
        i += 1;
    }
    assert(out@ + hex_of(bytes@.skip(i as int)) =~= out@);
    out
}

/// No two byte sequences are written alike.
pub proof fn law_hex_is_injective(a: Seq<u8>, b: Seq<u8>)
    requires
        hex_of(a) == hex_of(b),
    ensures
        a == b,
    decreases a.len(),
{
    if a.len() == 0 || b.len() == 0 {
        assert(a.len() > 0 ==> hex_of(a).len() >= 2);
        assert(b.len() > 0 ==> hex_of(b).len() >= 2);
        assert(a =~= b);
    } else {
        let x = hex_of(a);
        let y = hex_of(b);
        assert(x[0] == digit((a[0] / 16) as int) && x[1] == digit((a[0] % 16) as int));
        assert(y[0] == digit((b[0] / 16) as int) && y[1] == digit((b[0] % 16) as int));
        lemma_digit_injective((a[0] / 16) as int, (b[0] / 16) as int);
        lemma_digit_injective((a[0] % 16) as int, (b[0] % 16) as int);
        assert(x.skip(2) =~= hex_of(a.skip(1)));
        assert(y.skip(2) =~= hex_of(b.skip(1)));
        law_hex_is_injective(a.skip(1), b.skip(1));
        assert(a =~= seq![a[0]] + a.skip(1));
        assert(b =~= seq![b[0]] + b.skip(1));
    }
}

/// The SHA-256 digest of `data` in lower-case hexadecimal notation, 64 digits.
pub fn sha256_hex(data: &[u8]) -> (r: String)
    ensures
        r@ == hex_of(sha256_of(data@)),
        r@.len() == 64,
{
    let digest = sha256(data);
    hex_lower(digest.as_slice())
}

/// Whether two digests are the same, by their hexadecimal notation.
pub fn digests_agree(a: &[u8], b: &[u8]) -> (r: bool)
    ensures
        r == (a@ == b@),
{
    let same = same_text(&hex_lower(a), &hex_lower(b));
    proof {
        if same {
            law_hex_is_injective(a@, b@);
        }
    }
    same
}

/// Whether two contents have the same SHA-256 digest.
pub fn same_digest(a: &[u8], b: &[u8]) -> (r: bool)
    ensures
        r == (sha256_of(a@) == sha256_of(b@)),
{
    let left = sha256(a);
    let right = sha256(b);
    digests_agree(left.as_slice(), right.as_slice())
}

/// Bytes are written one after the other, each as its two halves, `0` to `9` and `a` to `f`.
pub proof fn law_hex_goes_by_bytes(a: Seq<u8>, b: Seq<u8>, byte: u8)
    ensures
        hex_of(a + b) == hex_of(a) + hex_of(b),
        hex_of(seq![byte]).len() == 2,
        hex_value(hex_of(seq![byte])[0]) == byte as int / 16,
        hex_value(hex_of(seq![byte])[1]) == byte as int % 16,
    decreases a.len(),
{
    let rest = seq![byte].skip(1);
    assert(rest =~= Seq::empty());
    assert(hex_of(rest) =~= Seq::empty());
    law_digits_come_in_order(byte as int / 16);
    law_digits_come_in_order(byte as int % 16);
    if a.len() == 0 {
        assert(a + b =~= b);
        assert(hex_of(a) + hex_of(b) =~= hex_of(b));
    } else {
        law_hex_goes_by_bytes(a.skip(1), b, byte);
        assert((a + b).skip(1) =~= a.skip(1) + b);
        assert(hex_of(a + b) =~= hex_of(a) + hex_of(b));
    }
}

/// What a lower-case hexadecimal digit stands for; -1 for any other character.
pub open spec fn hex_value(c: char) -> int {
    if '0' <= c <= '9' {
        c as int - '0' as int
    } else if 'a' <= c <= 'f' {
        c as int - 'a' as int + 10
    } else {
        -1
    }
}

} // verus!
