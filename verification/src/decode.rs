//! Decoding of serialized assets: zlib inflation and bincode deserialization,
//! with the layout of bincode's encoding of strings and of lists of pairs.

use vstd::prelude::*;
use vstd::utf8::{decode_utf8, valid_utf8};
use syntect::highlighting::Theme;
use syntect::parsing::SyntaxSet;
use crate::syntax_set::syntax_set_entries;

verus! {

/// What `flate2`'s zlib decoder yields when it reads `bytes` to the end:
/// `None` when the stream is not valid zlib data.
pub uninterp spec fn zlib_inflated(bytes: Seq<u8>) -> Option<Seq<u8>>;

/// The syntaxes (name and file extensions of each, in order) of the
/// `SyntaxSet` that `bincode::deserialize` reads from `bytes`: `None` when it
/// reads none.
pub uninterp spec fn bincode_syntax_entries(bytes: Seq<u8>) -> Option<Seq<(Seq<char>, Seq<Seq<char>>)>>;

/// What the library reads of a theme: its name and its author.
pub type ThemeHeader = (Option<Seq<char>>, Option<Seq<char>>);

/// The `name` and `author` fields of a theme: what the library reads of it.
pub uninterp spec fn theme_header(theme: Theme) -> (Option<Seq<char>>, Option<Seq<char>>);

/// The name and author of the `Theme` that `bincode::deserialize` reads from
/// `bytes`: `None` when it reads none.
pub uninterp spec fn bincode_theme_header(bytes: Seq<u8>) -> Option<(Option<Seq<char>>, Option<Seq<char>>)>;

/// The number that `bytes` encode, least significant byte first.
pub open spec fn le_value(bytes: Seq<u8>) -> nat
    decreases bytes.len(),
{
    if bytes.len() == 0 {
        0
    } else {
        bytes[0] as nat + 256 * le_value(bytes.drop_first())
    }
}

/// The fixed-width 64-bit number that bincode stores at `pos`.
pub open spec fn read_u64(bytes: Seq<u8>, pos: int) -> Option<nat> {
    if 0 <= pos && pos + 8 <= bytes.len() {
        Some(le_value(bytes.subrange(pos, pos + 8)))
    } else {
        None
    }
}

/// The length-prefixed byte string that bincode stores at `pos`, and the
/// position after it.
pub open spec fn read_chunk(bytes: Seq<u8>, pos: int) -> Option<(Seq<u8>, int)> {
    match read_u64(bytes, pos) {
        Some(n) => if pos + 8 + n <= bytes.len() {
            Some((bytes.subrange(pos + 8, pos + 8 + n), pos + 8 + n))
        } else {
            None
        },
        None => None,
    }
}

/// The string that bincode stores at the start of `bytes`: a length-prefixed
/// byte string that must be UTF-8. Bytes after it are ignored.
pub open spec fn bincode_string(bytes: Seq<u8>) -> Option<Seq<char>> {
    match read_chunk(bytes, 0) {
        Some((b, _)) => if valid_utf8(b) {
            Some(decode_utf8(b))
        } else {
            None
        },
        None => None,
    }
}

/// `count` pairs that bincode stores from `pos` on: each a string (a UTF-8
/// length-prefixed byte string) and a length-prefixed byte string.
pub open spec fn read_pairs(bytes: Seq<u8>, pos: int, count: nat) -> Option<Seq<(Seq<char>, Seq<u8>)>>
    decreases count,
{
    if count == 0 {
        Some(Seq::empty())
    } else {
        match read_chunk(bytes, pos) {
            None => None,
            Some((name, p1)) => if !valid_utf8(name) {
                None
            } else {
                match read_chunk(bytes, p1) {
                    None => None,
                    Some((value, p2)) => match read_pairs(bytes, p2, (count - 1) as nat) {
                        Some(rest) => Some(seq![(decode_utf8(name), value)] + rest),
                        None => None,
                    },
                }
            },
        }
    }
}

/// The (string, bytes) pairs that bincode stores at the start of `bytes`: a
/// 64-bit count, then the pairs. A map of strings to byte vectors has the same
/// encoding. Bytes after the last pair are ignored.
pub open spec fn bincode_pairs(bytes: Seq<u8>) -> Option<Seq<(Seq<char>, Seq<u8>)>> {
    match read_u64(bytes, 0) {
        Some(count) => read_pairs(bytes, 8, count),
        None => None,
    }
}

/// Inflates zlib-compressed `bytes` with `flate2::read::ZlibDecoder`, reading
/// the stream to its end. The result is `zlib_inflated` of the input.
#[verifier::external_body]
pub(crate) fn inflate(bytes: &[u8]) -> (r: Option<Vec<u8>>)
    ensures
        r is Some <==> zlib_inflated(bytes@) is Some,
        r matches Some(v) ==> v@ == zlib_inflated(bytes@)->0,
{
    let mut out = Vec::new();
    match std::io::Read::read_to_end(&mut flate2::read::ZlibDecoder::new(bytes), &mut out) {
        Ok(_) => Some(out),
        Err(_) => None,
    }
}

/// Deserializes a `SyntaxSet` from `bytes` with `bincode::deserialize`.
/// Claimed: it succeeds exactly when `bincode_syntax_entries` is some, and the
/// set holds those syntaxes. Nothing else of the set is stated.
#[verifier::external_body]
pub(crate) fn decode_syntax_set(bytes: &[u8]) -> (r: Option<SyntaxSet>)
    ensures
        r is Some <==> bincode_syntax_entries(bytes@) is Some,
        r matches Some(s) ==> syntax_set_entries(s) == bincode_syntax_entries(bytes@)->0,
{
    bincode::deserialize(bytes).ok()
}

/// Deserializes a `Theme` from `bytes` with `bincode::deserialize`. Claimed:
/// it succeeds exactly when `bincode_theme_header` is some, and the theme has
/// that name and author. Nothing else of the theme is stated (its scopes are
/// numbered by a table that each process fills in its own order).
#[verifier::external_body]
pub(crate) fn decode_theme(bytes: &[u8]) -> (r: Option<Theme>)
    ensures
        r is Some <==> bincode_theme_header(bytes@) is Some,
        r matches Some(t) ==> theme_header(t) == bincode_theme_header(bytes@)->0,
{
    bincode::deserialize(bytes).ok()
}

/// Deserializes a `String` from `bytes` with `bincode::deserialize`. Claimed:
/// the result is `bincode_string` of the input.
#[verifier::external_body]
pub(crate) fn decode_string(bytes: &[u8]) -> (r: Option<String>)
    ensures
        r is Some <==> bincode_string(bytes@) is Some,
        r matches Some(s) ==> s@ == bincode_string(bytes@)->0,
{
    bincode::deserialize(bytes).ok()
}

/// Deserializes a list of (string, bytes) pairs from `bytes` with
/// `bincode::deserialize`. Claimed: the result is `bincode_pairs` of the
/// input, pair by pair.
#[verifier::external_body]
pub(crate) fn decode_pairs(bytes: &[u8]) -> (r: Option<Vec<(String, Vec<u8>)>>)
    ensures
        r is Some <==> bincode_pairs(bytes@) is Some,
        r matches Some(v) ==> {
            &&& v@.len() == bincode_pairs(bytes@)->0.len()
            &&& forall|i: int| 0 <= i < v@.len() ==> {
                &&& (#[trigger] v@[i]).0@ == bincode_pairs(bytes@)->0[i].0
                &&& v@[i].1@ == bincode_pairs(bytes@)->0[i].1
            }
        },
{
    bincode::deserialize(bytes).ok()
}

} // verus!
