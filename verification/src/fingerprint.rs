use vstd::prelude::*;

verus! {

/// A lowercase hex digit.
pub open spec fn is_lower_hex_digit(c: char) -> bool {
    (48 <= c as u32 && c as u32 <= 57) || (97 <= c as u32 && c as u32 <= 102)
}

/// The lowercase-hex rendering of the md5 digest of a character sequence
/// (the sequence is hashed as its UTF-8 bytes).  The digest itself is left
/// abstract: it depends on the input alone, which is all the cache needs.
pub uninterp spec fn md5_hex_of(s: Seq<char>) -> Seq<char>;

/// Relies on md5::compute and the LowerHex rendering of its Digest: sixteen
/// bytes, each written as exactly two lowercase hex digits, a function of
/// the input bytes alone.
#[verifier::external_body]
fn md5_hex(s: &str) -> (r: String)
    ensures
        r@ == md5_hex_of(s@),
        r@.len() == 32,
        forall|i: int| 0 <= i < r@.len() ==> is_lower_hex_digit(#[trigger] r@[i]),
{
    format!("{:x}", md5::compute(s.as_bytes()))
}

/// The stable identity of a request: the hex digest of its canonical URL
/// string.  Two equal strings always fingerprint alike.
pub fn fingerprint(s: &str) -> (r: String)
    ensures
        r@ == md5_hex_of(s@),
        r@.len() == 32,
        forall|i: int| 0 <= i < r@.len() ==> is_lower_hex_digit(#[trigger] r@[i]),
{
    md5_hex(s)
}

/// Fingerprint determinism, as a statement over the contracts above: any two
/// results of `fingerprint` on equal canonical URL strings are equal.
pub proof fn lemma_fingerprint_deterministic(u1: Seq<char>, u2: Seq<char>, r1: Seq<char>, r2: Seq<char>)
    requires
        u1 == u2,
        r1 == md5_hex_of(u1),
        r2 == md5_hex_of(u2),
    ensures
        r1 == r2,
{
}

} // verus!
