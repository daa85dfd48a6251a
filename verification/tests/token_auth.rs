//! Token minting and verification against the real MAC and base64 crates.

use hmac::Mac;
use sshx_server::registry::ServerState;
use sshx_server::token::{mint_token, validate_token};
use sshx_server::wire::ServiceError;

fn secret() -> Vec<u8> {
    b"a fixed test secret".to_vec()
}

#[test]
fn token_round_trip() {
    let k = secret();
    let id = b"session123".to_vec();
    let token = mint_token(&k, &id);
    assert!(validate_token(&k, &id, &token).is_ok());
}

#[test]
fn token_round_trip_empty_inputs() {
    let k: Vec<u8> = Vec::new();
    let id: Vec<u8> = Vec::new();
    let token = mint_token(&k, &id);
    assert!(validate_token(&k, &id, &token).is_ok());
}

#[test]
fn token_matches_direct_hmac_base64() {
    let k = secret();
    let id = b"deadbeef01".to_vec();
    let token = mint_token(&k, &id);
    let mac = hmac::Hmac::<sha2::Sha256>::new_from_slice(&k).unwrap();
    let tag = mac.chain_update(&id).finalize().into_bytes();
    let expected = base64::Engine::encode(&base64::engine::general_purpose::STANDARD, tag);
    assert_eq!(token, expected.into_bytes());
}

#[test]
fn token_every_bit_flip_rejected() {
    let k = secret();
    let id = b"session123".to_vec();
    let token = mint_token(&k, &id);
    for byte in 0..token.len() {
        for bit in 0..8 {
            let mut t = token.clone();
            t[byte] ^= 1u8 << bit;
            let r = validate_token(&k, &id, &t);
            assert_eq!(r, Err(ServiceError::Unauthenticated));
        }
    }
}

#[test]
fn session_id_bit_flip_rejected() {
    let k = secret();
    let id = b"session123".to_vec();
    let token = mint_token(&k, &id);
    for byte in 0..id.len() {
        for bit in 0..8 {
            let mut s = id.clone();
            s[byte] ^= 1u8 << bit;
            let r = validate_token(&k, &s, &token);
            assert_eq!(r, Err(ServiceError::Unauthenticated));
        }
    }
}

#[test]
fn token_wrong_secret_rejected() {
    let id = b"session123".to_vec();
    let token = mint_token(&secret(), &id);
    let other = b"another secret".to_vec();
    assert_eq!(validate_token(&other, &id, &token), Err(ServiceError::Unauthenticated));
}

#[test]
fn token_not_base64_rejected() {
    let k = secret();
    let id = b"session123".to_vec();
    let garbage = b"!!!not base64!!!".to_vec();
    assert_eq!(validate_token(&k, &id, &garbage), Err(ServiceError::Unauthenticated));
}

#[test]
fn token_empty_rejected() {
    let k = secret();
    let id = b"session123".to_vec();
    // The empty string is valid base64 for the empty byte string, but the
    // empty tag is not the MAC.
    assert_eq!(validate_token(&k, &id, &Vec::new()), Err(ServiceError::Unauthenticated));
}

#[test]
fn mint_is_deterministic() {
    let k = secret();
    let id = b"abcdefghij".to_vec();
    assert_eq!(mint_token(&k, &id), mint_token(&k, &id));
}

#[test]
fn state_new_holds_secret() {
    let state = ServerState::new(secret(), None);
    assert_eq!(state.secret, secret());
    assert!(state.sessions.is_empty());
}
