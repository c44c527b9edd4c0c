//! The band-geometry digest: Keccak-256 over the concatenation of each
//! band's `lower | upper | weight_bps` encoding (little-endian, widths
//! 8 | 8 | 2).

use vstd::prelude::*;
use vstd::bytes::{u64_to_le_bytes, u16_to_le_bytes, spec_u64_to_le_bytes, spec_u16_to_le_bytes};
use crate::types::Band;

verus! {

/// The 18-byte encoding of one band: lower bound, upper bound (8 bytes
/// each, little-endian), then weight (2 bytes, little-endian).
pub open spec fn band_bytes(b: Band) -> Seq<u8> {
    spec_u64_to_le_bytes(b.lower_price_1e6) + spec_u64_to_le_bytes(b.upper_price_1e6)
        + spec_u16_to_le_bytes(b.weight_bps)
}

/// The encodings of all bands, concatenated in order.
pub open spec fn bands_bytes(bands: Seq<Band>) -> Seq<u8>
    decreases bands.len(),
{
    if bands.len() == 0 {
        Seq::empty()
    } else {
        bands_bytes(bands.drop_last()) + band_bytes(bands.last())
    }
}

/// The Keccak-256 digest, named: a function of the input bytes alone.
pub uninterp spec fn keccak256_of(bytes: Seq<u8>) -> Seq<u8>;

/// Relies on `solana_program::keccak::hash`: the Keccak-256 digest of the
/// input bytes, 32 bytes long and a function of the bytes alone.
#[verifier::external_body]
fn keccak256(bytes: &Vec<u8>) -> (r: [u8; 32])
    ensures
        r@ == keccak256_of(bytes@),
        r@.len() == 32,
{
    solana_program::keccak::hash(bytes.as_slice()).to_bytes()
}

/// Keccak-256 fingerprint of the band geometry, used to prove state to
/// observers.
pub fn digest_bands(bands: &Vec<Band>) -> (r: [u8; 32])
    ensures
        r@ == keccak256_of(bands_bytes(bands@)),
{
    let mut bytes: Vec<u8> = Vec::new();
    let mut i: usize = 0;
    while i < bands.len()
        invariant
            i <= bands@.len(),
            bytes@ == bands_bytes(bands@.take(i as int)),
        decreases bands@.len() - i,
    {
        proof {
            assert(bands@.take(i + 1).drop_last() =~= bands@.take(i as int));
            assert(bands@.take(i + 1).last() == bands@[i as int]);
        }
        let b = bands[i];
        let mut lower = u64_to_le_bytes(b.lower_price_1e6);
        bytes.append(&mut lower);
        let mut upper = u64_to_le_bytes(b.upper_price_1e6);
        bytes.append(&mut upper);
        let mut weight = u16_to_le_bytes(b.weight_bps);
        bytes.append(&mut weight);
        i += 1;
    }
    proof {
        assert(bands@.take(bands@.len() as int) =~= bands@);
    }
    keccak256(&bytes)
}

} // verus!
