//! Encoding at build time and decoding at run time. Both sides go through
//! the one cipher of this crate under the perturbed policy, so they cannot
//! drift apart.
use vstd::prelude::*;
use vstd::utf8::{valid_utf8, encode_utf8, encode_utf8_decode_utf8, decode_utf8, encode_utf8_valid_utf8};
use crate::keystream::Policy;
use crate::cipher::{transformed, xor, lemma_transform_involution};
use crate::carrier::{carrier_of, obfuscate, recover_key, lemma_carrier_round_trip};
use crate::session::{KeySource, KeyError, acquired};

verus! {

/// What a literal becomes: its cipher bytes and the carrier key that the
/// artifact embeds.
pub struct ObfuscatedLiteral {
    pub cipher: Vec<u8>,
    pub carrier: Vec<u8>,
}

/// The cipher bytes of `plaintext` under the secret key `secret`.
pub open spec fn cipher_of(plaintext: Seq<u8>, secret: Seq<u8>) -> Seq<u8> {
    transformed(plaintext, secret, Policy::Perturbed)
}

/// The bytes recovered from `cipher` with the carrier key `carrier`.
pub open spec fn decoded(cipher: Seq<u8>, carrier: Seq<u8>) -> Seq<u8> {
    transformed(cipher, carrier_of(carrier), Policy::Perturbed)
}

/// Encodes `plaintext` with the secret key `secret`.
pub fn encode(plaintext: &[u8], secret: &[u8]) -> (r: ObfuscatedLiteral)
    ensures
        r.cipher@ == cipher_of(plaintext@, secret@),
        r.carrier@ == carrier_of(secret@),
{
    ObfuscatedLiteral { cipher: xor(plaintext, secret), carrier: obfuscate(secret) }
}

/// Decodes `cipher` with the secret key that `carrier` stands for.
pub fn decode(cipher: &[u8], carrier: &[u8]) -> (r: Vec<u8>)
    ensures
        r@ == decoded(cipher@, carrier@),
{
    let secret = recover_key(carrier);
    xor(cipher, secret.as_slice())
}

/// Relies on std's `String::from_utf8`: it succeeds exactly when the bytes
/// are valid UTF-8, and the string then holds those very bytes.
#[verifier::external_body]
fn string_from_utf8(bytes: Vec<u8>) -> (r: Option<String>)
    ensures
        r is Some <==> valid_utf8(bytes@),
        r matches Some(s) ==> encode_utf8(s@) == bytes@,
{
    String::from_utf8(bytes).ok()
}

/// The text of a literal at its use site: `None` when the decoded bytes
/// are not valid UTF-8, which means a corrupted or mismatched artifact.
pub fn decrypt_bytes(encrypted: &[u8], carrier: &[u8]) -> (r: Option<String>)
    ensures
        r is Some <==> valid_utf8(decoded(encrypted@, carrier@)),
        r matches Some(s) ==> s@ == decode_utf8(decoded(encrypted@, carrier@)),
{
    let bytes = decode(encrypted, carrier);
    let r = string_from_utf8(bytes);
    proof {
        if r is Some {
            encode_utf8_decode_utf8(r.unwrap()@);
        }
    }
    r
}

/// Encodes `plaintext` with the session's secret key, drawing that key
/// first if the session has none yet.
pub fn encrypt_string(session: &mut KeySource, plaintext: &[u8]) -> (r: Result<Vec<u8>, KeyError>)
    ensures
        acquired(old(session)@, final(session)@),
        r is Ok <==> final(session)@.key() is Some,
        r matches Ok(c) ==> c@ == cipher_of(plaintext@, final(session)@.key().unwrap()),
{
    let secret = session.acquire()?;
    Ok(xor(plaintext, secret.as_slice()))
}

/// The carrier key of the session, the one constant that every artifact of
/// the session embeds.
pub fn use_litcrypt(session: &mut KeySource) -> (r: Result<Vec<u8>, KeyError>)
    ensures
        acquired(old(session)@, final(session)@),
        r is Ok <==> final(session)@.key() is Some,
        r matches Ok(c) ==> c@ == carrier_of(final(session)@.key().unwrap()),
{
    let secret = session.acquire()?;
    Ok(obfuscate(secret.as_slice()))
}

/// Decoding what was encoded with a key, using the carrier of that key,
/// gives the plaintext back.
pub proof fn lemma_encode_decode(plaintext: Seq<u8>, secret: Seq<u8>)
    ensures
        decoded(cipher_of(plaintext, secret), carrier_of(secret)) == plaintext,
{
    lemma_carrier_round_trip(secret);
    lemma_transform_involution(plaintext, secret, Policy::Perturbed);
}

/// Text encoded with a key comes back, as the same text, from
/// `decrypt_bytes` with the carrier of that key.
pub proof fn lemma_text_round_trip(text: Seq<char>, secret: Seq<u8>)
    ensures
        valid_utf8(decoded(cipher_of(encode_utf8(text), secret), carrier_of(secret))),
        decode_utf8(decoded(cipher_of(encode_utf8(text), secret), carrier_of(secret))) == text,
{
    lemma_encode_decode(encode_utf8(text), secret);
    encode_utf8_valid_utf8(text);
    encode_utf8_decode_utf8(text);
}

} // verus!
