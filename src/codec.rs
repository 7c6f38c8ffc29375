//! Payload compression and fresh identifiers.

use vstd::prelude::*;

verus! {

/// What lz4_compress's decoder yields for `data`; none where it refuses the input.
pub uninterp spec fn lz4_decoded(data: Seq<u8>) -> Option<Seq<u8>>;

/// Relies on `lz4_compress::compress`: the crate's decoder gives the input
/// back from the encoding. The encoding itself may differ between machines,
/// so nothing more is said of it.
#[verifier::external_body]
pub(crate) fn lz4_compress_bytes(data: &[u8]) -> (r: Vec<u8>)
    ensures
        lz4_decoded(r@) == Some(data@),
{
    lz4_compress::compress(data)
}

/// Relies on `lz4_compress::decompress`: the decoded bytes, or an error on a
/// malformed stream.
#[verifier::external_body]
pub(crate) fn lz4_decompress_bytes(data: &[u8]) -> (r: Option<Vec<u8>>)
    ensures
        match r {
            Some(v) => lz4_decoded(data@) == Some(v@),
            None => lz4_decoded(data@) is None,
        },
{
    lz4_compress::decompress(data).ok()
}

/// A lowercase hexadecimal digit.
pub open spec fn is_lower_hex(c: char) -> bool {
    ('0' <= c && c <= '9') || ('a' <= c && c <= 'f')
}

/// Relies on uuid's `Uuid::new_v4` in its simple form: 32 lowercase hex digits,
/// random otherwise.
#[verifier::external_body]
pub(crate) fn fresh_uuid_hex() -> (r: String)
    ensures
        r@.len() == 32,
        forall|i: int| 0 <= i < 32 ==> is_lower_hex(#[trigger] r@[i]),
{
    uuid::Uuid::new_v4().to_simple().to_string()
}

} // verus!
