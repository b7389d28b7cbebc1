use litcrypt::carrier::{obfuscate, recover_key, CARRIER_MASK};
use litcrypt::cipher::{xor, xor_with_byte, xor_with_policy};
use litcrypt::codec::{decode, decrypt_bytes, encode, encrypt_string, use_litcrypt};
use litcrypt::keystream::{next_index, next_index_sequential, Policy};
use litcrypt::session::{KeyError, KeySource, RANDOM_KEY_LEN};
use litcrypt::tokens::{
    call_text, env_var_name, lc, lc_dynamic, lc_env, literal_body, MacroError, Token,
};

fn round_trip(plaintext: &str, key: &[u8]) -> Option<String> {
    let mut session = KeySource::new(Some(key.to_vec()));
    let cipher = encrypt_string(&mut session, plaintext.as_bytes()).unwrap();
    let carrier = use_litcrypt(&mut session).unwrap();
    decrypt_bytes(&cipher, &carrier)
}

#[test]
fn xor_twice_gives_data_back() {
    let data: Vec<u8> = (0u8..=255).collect();
    for key in [&b"k"[..], b"ab", b"abc", b"a longer key of some bytes"] {
        for policy in [Policy::Sequential, Policy::Perturbed] {
            let once = xor_with_policy(&data, key, policy);
            assert_ne!(once, data);
            assert_eq!(xor_with_policy(&once, key, policy), data);
        }
    }
}

#[test]
fn empty_key_is_identity() {
    let data = b"some data".to_vec();
    assert_eq!(xor(&data, &[]), data);
    assert_eq!(xor_with_policy(&data, &[], Policy::Sequential), data);
}

#[test]
fn single_byte_key_xors_every_byte() {
    let data = [0u8, 1, 2, 0xff];
    let expected = vec![0x5a, 0x5b, 0x58, 0xa5];
    assert_eq!(xor(&data, &[0x5a]), expected);
    assert_eq!(xor_with_policy(&data, &[0x5a], Policy::Sequential), expected);
    assert_eq!(xor_with_byte(&data, 0x5a), expected);
}

#[test]
fn perturbed_keystream_reads_evens_then_odds() {
    let data = [0u8; 12];
    assert_eq!(xor(&data, &[1, 2, 3, 4, 5]), vec![1, 3, 5, 2, 4, 1, 3, 5, 2, 4, 1, 3]);
    assert_eq!(xor(&data, &[1, 2, 3, 4, 5, 6]), vec![1, 3, 5, 2, 4, 6, 1, 3, 5, 2, 4, 6]);
    assert_eq!(
        xor_with_policy(&data, &[1, 2, 3, 4, 5], Policy::Sequential),
        vec![1, 2, 3, 4, 5, 1, 2, 3, 4, 5, 1, 2]
    );
}

#[test]
fn next_index_values() {
    assert_eq!(next_index(0, 5), 2);
    assert_eq!(next_index(2, 5), 4);
    assert_eq!(next_index(4, 5), 1);
    assert_eq!(next_index(1, 5), 3);
    assert_eq!(next_index(3, 5), 0);
    assert_eq!(next_index(4, 6), 1);
    assert_eq!(next_index(5, 6), 0);
    assert_eq!(next_index(0, 2), 1);
    assert_eq!(next_index(1, 2), 0);
    assert_eq!(next_index_sequential(3, 4), 0);
    assert_eq!(next_index_sequential(2, 4), 3);
}

#[test]
fn perturbed_policy_visits_every_index_once() {
    for len in 2usize..40 {
        let mut seen = vec![false; len];
        let mut i = 0usize;
        for _ in 0..len {
            assert!(!seen[i]);
            seen[i] = true;
            i = next_index(i, len);
        }
        assert_eq!(i, 0);
        assert!(seen.iter().all(|&s| s));
    }
}

#[test]
fn carrier_round_trip() {
    let key = b"abc".to_vec();
    let carrier = obfuscate(&key);
    assert_eq!(carrier, vec![97 ^ 69, 98 ^ 83, 99 ^ 74]);
    assert_eq!(recover_key(&carrier), key);
    let long: Vec<u8> = (0u8..64).collect();
    let carrier = obfuscate(&long);
    assert_eq!(carrier[20], 20 ^ CARRIER_MASK[0]);
    assert_eq!(recover_key(&carrier), long);
    assert_eq!(obfuscate(&[]), Vec::<u8>::new());
}

#[test]
fn session_key_is_stable() {
    let mut session = KeySource::new(None);
    let first = session.acquire().unwrap();
    let second = session.acquire().unwrap();
    assert_eq!(first.len(), RANDOM_KEY_LEN);
    assert_eq!(first, second);
    let mut session = KeySource::new(Some(b"abc".to_vec()));
    assert_eq!(session.acquire().unwrap(), b"abc".to_vec());
    assert_eq!(session.acquire().unwrap(), b"abc".to_vec());
}

#[test]
fn acquire_from_reports_missing_randomness() {
    let mut session = KeySource::new(None);
    assert_eq!(session.acquire_from(None), Err(KeyError::RandomUnavailable));
    assert_eq!(session.acquire_from(Some(vec![7, 8])), Ok(vec![7, 8]));
    assert_eq!(session.acquire_from(Some(vec![9])), Ok(vec![7, 8]));
    assert_eq!(session.acquire_from(None), Ok(vec![7, 8]));
}

#[test]
fn override_key_voldemort_round_trips() {
    assert_eq!(round_trip("Voldemort", b"abc"), Some("Voldemort".to_string()));
    let encoded = encode(b"Voldemort", b"abc");
    assert_ne!(encoded.cipher, b"Voldemort".to_vec());
    assert_eq!(decode(&encoded.cipher, &encoded.carrier), b"Voldemort".to_vec());
}

#[test]
fn empty_plaintext_round_trips() {
    let mut session = KeySource::new(Some(b"abc".to_vec()));
    assert_eq!(encrypt_string(&mut session, b"").unwrap(), Vec::<u8>::new());
    assert_eq!(round_trip("", b"abc"), Some(String::new()));
    assert_eq!(round_trip("", b""), Some(String::new()));
}

#[test]
fn quote_and_backslash_round_trip() {
    let text = "say \"hi\" \\ to C:\\path";
    assert_eq!(round_trip(text, b"abc"), Some(text.to_string()));
    assert_eq!(round_trip("żółw ✓", b"key"), Some("żółw ✓".to_string()));
}

#[test]
fn random_key_encodes_identically_twice() {
    let mut session = KeySource::new(None);
    let a = encrypt_string(&mut session, b"same text").unwrap();
    let b = encrypt_string(&mut session, b"same text").unwrap();
    assert_eq!(a, b);
    let carrier = use_litcrypt(&mut session).unwrap();
    assert_eq!(decrypt_bytes(&a, &carrier), Some("same text".to_string()));
}

#[test]
fn single_character_key() {
    let mut session = KeySource::new(Some(b"x".to_vec()));
    let cipher = encrypt_string(&mut session, b"hi").unwrap();
    assert_eq!(cipher, vec![b'h' ^ b'x', b'i' ^ b'x']);
}

#[test]
fn policies_differ_but_each_inverts_itself() {
    let key = b"abcdef";
    let text = b"the same plaintext";
    let a = xor_with_policy(text, key, Policy::Sequential);
    let b = xor_with_policy(text, key, Policy::Perturbed);
    assert_ne!(a, b);
    assert_eq!(xor_with_policy(&a, key, Policy::Sequential), text.to_vec());
    assert_eq!(xor_with_policy(&b, key, Policy::Perturbed), text.to_vec());
}

#[test]
fn invalid_utf8_is_reported() {
    let carrier = obfuscate(b"k");
    let cipher = xor(&[0xff, 0xfe], b"k");
    assert_eq!(decrypt_bytes(&cipher, &carrier), None);
}

#[test]
fn literal_body_cases() {
    assert_eq!(literal_body(b"\"Voldemort\""), Some(b"Voldemort".to_vec()));
    assert_eq!(literal_body(b"r#\"a\"b\"#"), Some(b"a\"b".to_vec()));
    assert_eq!(literal_body(b"'x'"), Some(b"x".to_vec()));
    assert_eq!(literal_body(b"'\"'"), None);
    assert_eq!(literal_body(b"7"), None);
    assert_eq!(literal_body(b""), None);
}

#[test]
fn call_text_takes_last_token() {
    assert_eq!(call_text(&vec![]), Some(vec![]));
    let tokens = vec![Token::Literal(b"\"a\"".to_vec()), Token::Literal(b"\"bc\"".to_vec())];
    assert_eq!(call_text(&tokens), Some(b"bc".to_vec()));
    assert_eq!(call_text(&vec![Token::Other]), Some(b"<unknown>".to_vec()));
    let tokens = vec![Token::Literal(b"'\"'".to_vec()), Token::Literal(b"\"bc\"".to_vec())];
    assert_eq!(call_text(&tokens), None);
}

#[test]
fn lc_encrypts_literal_text() {
    let mut session = KeySource::new(Some(b"x".to_vec()));
    let tokens = vec![Token::Literal(b"\"hi\"".to_vec())];
    assert_eq!(lc(&mut session, &tokens), Ok(vec![b'h' ^ b'x', b'i' ^ b'x']));
    let tokens = vec![Token::Literal(b"\"".to_vec())];
    assert_eq!(lc(&mut session, &tokens), Err(MacroError::MalformedLiteral));
}

#[test]
fn env_name_and_value() {
    assert_eq!(
        env_var_name(&vec![Token::Literal(b"\"HOME\"".to_vec())]),
        Some(b"HOME".to_vec())
    );
    assert_eq!(env_var_name(&vec![Token::Other]), Some(b"unknown".to_vec()));
    assert_eq!(env_var_name(&vec![]), None);
    let mut session = KeySource::new(Some(b"x".to_vec()));
    let missing = lc_env(&mut session, None).unwrap();
    assert_eq!(missing, xor(b"unknown", b"x"));
    let present = lc_env(&mut session, Some(b"v".to_vec())).unwrap();
    assert_eq!(present, vec![b'v' ^ b'x']);
}

#[test]
fn lc_dynamic_value_or_unknown() {
    let mut session = KeySource::new(Some(b"xy".to_vec()));
    let missing = lc_dynamic(&mut session, None).unwrap();
    let carrier = use_litcrypt(&mut session).unwrap();
    assert_eq!(decrypt_bytes(&missing, &carrier), Some("<unknown>".to_string()));
    let value = lc_dynamic(&mut session, Some(b"text".to_vec())).unwrap();
    assert_eq!(decrypt_bytes(&value, &carrier), Some("text".to_string()));
}
