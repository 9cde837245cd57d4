//! Request signing: a lower-case hex SHA-1 digest over concatenated text.

use sha1::{Digest, Sha1};
use vstd::prelude::*;
use vstd::string::*;

verus! {

/// Lower-case hex SHA-1 digest of the UTF-8 encoding of `text`.
pub uninterp spec fn sha1_hex(text: Seq<char>) -> Seq<char>;

pub open spec fn is_lower_hex(c: char) -> bool {
    ('0' <= c && c <= '9') || ('a' <= c && c <= 'f')
}

/// Forty lower-case hex digits: the form of a SHA-1 digest written out.
pub open spec fn is_hex_digest(t: Seq<char>) -> bool {
    t.len() == 40 && forall|i: int| 0 <= i < t.len() ==> is_lower_hex(#[trigger] t[i])
}

/// Relies on `sha1::Sha1` (through `digest::Digest::{new, update, finalize}`)
/// for the SHA-1 of the bytes of `text`, and on generic-array's `LowerHex`
/// for writing the 20 bytes as lower-case hex, two digits per byte.
#[verifier::external_body]
fn sha1_str_lower_case(text: &str) -> (r: String)
    ensures
        r@ == sha1_hex(text@),
        is_hex_digest(r@),
{
    let mut hasher = Sha1::new();
    hasher.update(text.as_bytes());
    format!("{:x}", hasher.finalize())
}

/// The parts written one after another, with no separator.
pub open spec fn concat_all(parts: Seq<Seq<char>>) -> Seq<char>
    decreases parts.len(),
{
    if parts.len() == 0 {
        Seq::empty()
    } else {
        concat_all(parts.drop_last()) + parts.last()
    }
}

pub open spec fn texts_of(parts: Seq<&str>) -> Seq<Seq<char>> {
    parts.map_values(|p: &str| p@)
}

/// The signature of `parts`: the digest of their concatenation.
pub open spec fn digest_of(parts: Seq<Seq<char>>) -> Seq<char> {
    sha1_hex(concat_all(parts))
}

/// Concatenates `parts` and returns the lower-case hex SHA-1 digest.
pub fn digest(parts: &Vec<&str>) -> (r: String)
    ensures
        r@ == digest_of(texts_of(parts@)),
        is_hex_digest(r@),
{
    let ghost ps = texts_of(parts@);
    let mut joined = String::new();
    let mut i: usize = 0;
    while i < parts.len()
        invariant
            i <= parts@.len(),
            ps == texts_of(parts@),
            joined@ == concat_all(ps.take(i as int)),
        decreases parts@.len() - i,
    {
        joined.append(parts[i]);
        assert(ps.take(i + 1).drop_last() =~= ps.take(i as int));
        i = i + 1;
    }
    assert(ps.take(i as int) =~= ps);
    sha1_str_lower_case(joined.as_str())
}

/// A signature depends on the parts only through their concatenation: the
/// same text split differently signs the same, and equal inputs always give
/// equal signatures.
pub proof fn lemma_digest_depends_on_text_alone(a: Seq<Seq<char>>, b: Seq<Seq<char>>)
    requires
        concat_all(a) == concat_all(b),
    ensures
        digest_of(a) == digest_of(b),
{
}

} // verus!
