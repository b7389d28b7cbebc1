//! The repeating-key XOR cipher.
use vstd::prelude::*;
use vstd::slice::slice_to_vec;
use crate::keystream::{Policy, next_index_with, stream_index, lemma_stream_index_in_range};

verus! {

/// The key byte combined with the `n`-th data byte: a one-byte key repeats
/// itself, a longer one is read at the keystream's `n`-th position.
pub open spec fn key_byte(key: Seq<u8>, policy: Policy, n: nat) -> u8 {
    if key.len() == 1 {
        key[0]
    } else {
        key[stream_index(policy, n, key.len()) as int]
    }
}

/// Every byte of `data` XOR-ed with `b`.
pub open spec fn xor_all(data: Seq<u8>, b: u8) -> Seq<u8> {
    Seq::new(data.len(), |i: int| data[i] ^ b)
}

/// `data` XOR-ed with the keystream of `key` under `policy`; an empty key
/// leaves `data` as it is.
pub open spec fn transformed(data: Seq<u8>, key: Seq<u8>, policy: Policy) -> Seq<u8> {
    if key.len() == 0 {
        data
    } else {
        Seq::new(data.len(), |i: int| data[i] ^ key_byte(key, policy, i as nat))
    }
}

/// XOR of every byte of `source` with `byte`.
pub fn xor_with_byte(source: &[u8], byte: u8) -> (r: Vec<u8>)
    ensures
        r@ == xor_all(source@, byte),
{
    let mut out: Vec<u8> = Vec::with_capacity(source.len());
    let mut i: usize = 0;
    while i < source.len()
        invariant
            i <= source@.len(),
            out@ =~= xor_all(source@, byte).subrange(0, i as int),
        decreases source@.len() - i,
    {
        out.push(source[i] ^ byte);
        i += 1;
    }
    out
}

/// XOR of `source` with the keystream of `key` under `policy`.
pub fn xor_with_policy(source: &[u8], key: &[u8], policy: Policy) -> (r: Vec<u8>)
    ensures
        r@ == transformed(source@, key@, policy),
{
    if key.len() == 0 {
        slice_to_vec(source)
    } else if key.len() == 1 {
        let r = xor_with_byte(source, key[0]);
        assert(r@ =~= transformed(source@, key@, policy));
        r
    } else {
        let mut out: Vec<u8> = Vec::with_capacity(source.len());
        let mut index: usize = 0;
        let mut i: usize = 0;
        while i < source.len()
            invariant
                key@.len() >= 2,
                i <= source@.len(),
                index == stream_index(policy, i as nat, key@.len()),
                out@ =~= transformed(source@, key@, policy).subrange(0, i as int),
            decreases source@.len() - i,
        {
            proof {
                lemma_stream_index_in_range(policy, i as nat, key@.len());
            }
            out.push(source[i] ^ key[index]);
            index = next_index_with(policy, index, key.len());
            i += 1;
        }
        out
    }
}

/// XOR of `source` with the keystream of `key` under the perturbed policy,
/// the one that encoding and decoding share.
pub fn xor(source: &[u8], key: &[u8]) -> (r: Vec<u8>)
    ensures
        r@ == transformed(source@, key@, Policy::Perturbed),
{
    xor_with_policy(source, key, Policy::Perturbed)
}

/// Transforming twice with the same key and policy gives the data back.
pub proof fn lemma_transform_involution(data: Seq<u8>, key: Seq<u8>, policy: Policy)
    ensures
        transformed(transformed(data, key, policy), key, policy) == data,
{
    if key.len() > 0 {
        let once = transformed(data, key, policy);
        let twice = transformed(once, key, policy);
        assert forall|i: int| 0 <= i < data.len() implies twice[i] == data[i] by {
            let a = data[i];
            let b = key_byte(key, policy, i as nat);
            assert((a ^ b) ^ b == a) by (bit_vector);
        }
        assert(twice =~= data);
    }
}

/// An empty key leaves the data unchanged.
pub proof fn lemma_transform_empty_key(data: Seq<u8>, policy: Policy)
    ensures
        transformed(data, Seq::empty(), policy) == data,
{
}

/// A one-byte key XORs every data byte with that byte, whatever the
/// policy; that is also what the sequential keystream gives on it.
pub proof fn lemma_transform_single_byte(data: Seq<u8>, b: u8, policy: Policy)
    ensures
        transformed(data, seq![b], policy) == xor_all(data, b),
        transformed(data, seq![b], policy) == Seq::new(
            data.len(),
            |i: int| data[i] ^ seq![b][stream_index(Policy::Sequential, i as nat, 1) as int],
        ),
{
    assert forall|n: nat| #[trigger] stream_index(Policy::Sequential, n, 1) == 0 by {
        lemma_sequential_single(n);
    }
    assert(transformed(data, seq![b], policy) =~= xor_all(data, b));
    assert(transformed(data, seq![b], policy) =~= Seq::new(
        data.len(),
        |i: int| data[i] ^ seq![b][stream_index(Policy::Sequential, i as nat, 1) as int],
    ));
}

proof fn lemma_sequential_single(n: nat)
    ensures
        stream_index(Policy::Sequential, n, 1) == 0,
    decreases n,
{
    if n > 0 {
        lemma_sequential_single((n - 1) as nat);
    }
}

} // verus!
