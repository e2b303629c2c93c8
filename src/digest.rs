use vstd::prelude::*;

verus! {

/// Longest text, in characters, that is handed to the digest function.
///
/// SHA-1 counts its input in a 64-bit number of bits and panics beyond it; a
/// character takes at most four bytes, so this bound keeps well below that.
pub const MAX_HASHED_CHARS: u64 = 0x0100_0000_0000_0000;

/// The lowercase hexadecimal SHA-1 digest of a text's UTF-8 bytes.
pub uninterp spec fn sha1_hex(text: Seq<char>) -> Seq<char>;

/// A digit of the lowercase hexadecimal alphabet.
pub open spec fn is_hex_digit(c: char) -> bool {
    ('0' <= c && c <= '9') || ('a' <= c && c <= 'f')
}

/// A well-formed object identifier: forty lowercase hexadecimal digits.
pub open spec fn is_digest(d: Seq<char>) -> bool {
    &&& d.len() == 40
    &&& forall|i: int| 0 <= i < d.len() ==> #[trigger] is_hex_digit(d[i])
}

/// The identifier of an object whose canonical serialization is `text`.
pub open spec fn object_digest(text: Seq<char>) -> Seq<char> {
    sha1_hex(text)
}

/// Relies on rust-crypto's `Sha1` through `Digest::input_str` and
/// `Digest::result_str`: the digest of the text's bytes, rendered as forty
/// digits of `0123456789abcdef`. It depends on the text alone.
#[verifier::external_body]
pub(crate) fn sha1_hex_of(text: &str) -> (r: String)
    requires
        text@.len() <= MAX_HASHED_CHARS,
    ensures
        r@ == sha1_hex(text@),
        is_digest(r@),
{
    let mut hasher = crypto::sha1::Sha1::new();
    crypto::digest::Digest::input_str(&mut hasher, text);
    crypto::digest::Digest::result_str(&mut hasher)
}

} // verus!
