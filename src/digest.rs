//! Keyed 128-bit content digest of block payloads.

use vstd::prelude::*;
use highway::{HighwayHash, HighwayHasher, Key};
use crate::text::{hex_fixed, push_hex};

verus! {

/// The two words of the keyed 128-bit HighwayHash of `data` under the key
/// `(k0, k1, k2, k3)`.
pub uninterp spec fn highway128_of(k0: u64, k1: u64, k2: u64, k3: u64, data: Seq<u8>) -> (u64, u64);

/// Relies on highway's `HighwayHasher`: one `append` of `data` then
/// `finalize128`, keyed with `key`; the words depend on the key and bytes alone.
#[verifier::external_body]
fn highway128(k0: u64, k1: u64, k2: u64, k3: u64, data: &[u8]) -> (r: (u64, u64))
    ensures
        r == highway128_of(k0, k1, k2, k3, data@),
{
    let mut hasher = HighwayHasher::new(Key([k0, k1, k2, k3]));
    hasher.append(data);
    let res: [u64; 2] = hasher.finalize128();
    (res[0], res[1])
}

pub const CRC_KEY_0: u64 = 0x0706050403020100;
pub const CRC_KEY_1: u64 = 0x0F0E0D0C0B0A0908;
pub const CRC_KEY_2: u64 = 0x1716151413121110;
pub const CRC_KEY_3: u64 = 0x1F1E1D1C1B1A1918;

/// Fixed-width 32-character lowercase hex of two 64-bit words.
pub open spec fn hex128(w: (u64, u64)) -> Seq<char> {
    hex_fixed(w.0 as nat, 16) + hex_fixed(w.1 as nat, 16)
}

/// The checksum of a stored payload.
pub open spec fn crc_of(data: Seq<u8>) -> Seq<char> {
    hex128(highway128_of(CRC_KEY_0, CRC_KEY_1, CRC_KEY_2, CRC_KEY_3, data))
}

/// Renders two words as 32 lowercase hex characters.
pub fn hex_words(w0: u64, w1: u64) -> (r: String)
    ensures
        r@ == hex128((w0, w1)),
{
    let mut s = String::new();
    push_hex(w0, 16, &mut s);
    push_hex(w1, 16, &mut s);
    assert(s@ =~= hex128((w0, w1)));
    s
}

/// The checksum of `data`: the keyed HighwayHash, as fixed-width hex.
pub fn crc(data: &[u8]) -> (r: String)
    ensures
        r@ == crc_of(data@),
{
    let w = highway128(CRC_KEY_0, CRC_KEY_1, CRC_KEY_2, CRC_KEY_3, data);
    hex_words(w.0, w.1)
}

/// Equal bytes have equal checksums.
pub proof fn crc_deterministic(a: Seq<u8>, b: Seq<u8>)
    requires
        a == b,
    ensures
        crc_of(a) == crc_of(b),
{
}

} // verus!
