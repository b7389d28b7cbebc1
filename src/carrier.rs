//! The carrier key: the secret key XOR-ed with a fixed mask, so that the
//! secret itself never appears among the emitted constants.
use vstd::prelude::*;
use crate::keystream::Policy;
use crate::cipher::{transformed, xor_with_policy, lemma_transform_involution};

verus! {

/// The fixed, non-secret mask (the text `ESJCTVgWH5HQFza7GdRx`).
pub const CARRIER_MASK: [u8; 20] = [
    69, 83, 74, 67, 84, 86, 103, 87, 72, 53, 72, 81, 70, 122, 97, 55, 71, 100, 82, 120,
];

/// `key` XOR-ed with the mask repeated sequentially; the same map takes a
/// key to its carrier and a carrier back to its key.
pub open spec fn carrier_of(key: Seq<u8>) -> Seq<u8> {
    transformed(key, CARRIER_MASK@, Policy::Sequential)
}

/// The carrier form of `key`.
pub fn obfuscate(key: &[u8]) -> (r: Vec<u8>)
    ensures
        r@ == carrier_of(key@),
{
    let mask: &[u8] = &CARRIER_MASK;
    xor_with_policy(key, mask, Policy::Sequential)
}

/// The key that `carrier` stands for.
pub fn recover_key(carrier: &[u8]) -> (r: Vec<u8>)
    ensures
        r@ == carrier_of(carrier@),
{
    let mask: &[u8] = &CARRIER_MASK;
    xor_with_policy(carrier, mask, Policy::Sequential)
}

/// Recovering the key from the carrier of a key gives the key back.
pub proof fn lemma_carrier_round_trip(key: Seq<u8>)
    ensures
        carrier_of(carrier_of(key)) == key,
{
    lemma_transform_involution(key, CARRIER_MASK@, Policy::Sequential);
}

} // verus!
