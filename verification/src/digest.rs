//! The text of a candidate and its digest.
//!
//! A candidate is hashed through its decimal text. The decimal text is built
//! and proved here; the hash itself is computed by the `sha256` crate and is
//! known to the proofs only by name.

use vstd::prelude::*;
use vstd::string::*;

verus! {

/// Number of characters in every digest: 32 bytes, two hexadecimal digits each.
pub const DIGEST_LEN: usize = 64;

/// The character that stands for the decimal digit `d`.
pub open spec fn digit_char(d: nat) -> char {
    if d == 0 {
        '0'
    } else if d == 1 {
        '1'
    } else if d == 2 {
        '2'
    } else if d == 3 {
        '3'
    } else if d == 4 {
        '4'
    } else if d == 5 {
        '5'
    } else if d == 6 {
        '6'
    } else if d == 7 {
        '7'
    } else if d == 8 {
        '8'
    } else {
        '9'
    }
}

/// The decimal text of `n`: most significant digit first, no leading zeros,
/// and `"0"` for zero.
pub open spec fn decimal_text(n: nat) -> Seq<char>
    decreases n,
{
    if n < 10 {
        seq![digit_char(n)]
    } else {
        decimal_text(n / 10).push(digit_char(n % 10))
    }
}

/// The lowercase hexadecimal SHA-256 digest of a text, as `sha256::digest`
/// computes it from the text's UTF-8 bytes.
pub uninterp spec fn sha256_hex(text: Seq<char>) -> Seq<char>;

/// `c` is a hexadecimal digit in lower case.
pub open spec fn is_lower_hex(c: char) -> bool {
    ('0' <= c && c <= '9') || ('a' <= c && c <= 'f')
}

/// `hex` has the shape of a digest: `DIGEST_LEN` hexadecimal digits in lower
/// case.
pub open spec fn is_digest_text(hex: Seq<char>) -> bool {
    &&& hex.len() == DIGEST_LEN
    &&& forall|i: int| 0 <= i < hex.len() ==> is_lower_hex(#[trigger] hex[i])
}

/// The digest of a candidate: the SHA-256 digest of its decimal text.
pub open spec fn candidate_digest(c: nat) -> Seq<char> {
    sha256_hex(decimal_text(c))
}

/// The one-character text of a decimal digit.
fn digit_str(d: u32) -> (s: &'static str)
    requires
        d < 10,
    ensures
        s@ == seq![digit_char(d as nat)],
{
    proof {
        reveal_strlit("0");
        reveal_strlit("1");
        reveal_strlit("2");
        reveal_strlit("3");
        reveal_strlit("4");
        reveal_strlit("5");
        reveal_strlit("6");
        reveal_strlit("7");
        reveal_strlit("8");
        reveal_strlit("9");
    }
    let s = if d == 0 {
        "0"
    } else if d == 1 {
        "1"
    } else if d == 2 {
        "2"
    } else if d == 3 {
        "3"
    } else if d == 4 {
        "4"
    } else if d == 5 {
        "5"
    } else if d == 6 {
        "6"
    } else if d == 7 {
        "7"
    } else if d == 8 {
        "8"
    } else {
        "9"
    };
    assert(s@ =~= seq![digit_char(d as nat)]);
    s
}

/// Writes `num` in decimal.
pub fn decimal_string(num: u32) -> (text: String)
    ensures
        text@ == decimal_text(num as nat),
    decreases num,
{
    if num < 10 {
        String::from_str(digit_str(num))
    } else {
        let mut text = decimal_string(num / 10);
        text.append(digit_str(num % 10));
        assert(text@ =~= decimal_text((num / 10) as nat).push(digit_char((num % 10) as nat)));
        text
    }
}

/// Calls `sha256::digest` on an owned string. That function hashes the
/// string's bytes with SHA-256 and hex-encodes the 32 output bytes with the
/// lowercase table, two characters per byte. The contract names the outcome
/// `sha256_hex` of the text and states its shape; which digits the digest
/// holds is not claimed.
#[verifier::external_body]
fn sha256_of(text: String) -> (hex: String)
    ensures
        hex@ == sha256_hex(text@),
        is_digest_text(hex@),
{
    sha256::digest(text)
}

/// Computes the digest of the candidate `num`.
pub fn digest_of(num: u32) -> (hex: String)
    ensures
        hex@ == candidate_digest(num as nat),
        is_digest_text(hex@),
{
    sha256_of(decimal_string(num))
}

} // verus!
