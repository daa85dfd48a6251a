//! Token-based authentication: a token is the standard base64 encoding of a
//! keyed MAC (HMAC-SHA256) over the session identifier, minted and verified
//! with the registry's fixed secret.

use crate::wire::ServiceError;
use vstd::prelude::*;

verus! {

/// The tag HMAC-SHA256 computes for a key and a message. Its value is only
/// reachable through the trusted wrappers below.
pub uninterp spec fn mac_of(secret: Seq<u8>, message: Seq<u8>) -> Seq<u8>;

/// The standard (padded) base64 encoding of a byte string. Its value is only
/// reachable through the trusted wrappers below.
pub uninterp spec fn b64_of(data: Seq<u8>) -> Seq<u8>;

/// Relies on hmac's `Hmac<Sha256>` (`Mac::new_from_slice`, `chain_update`,
/// `finalize`): the tag depends on the key and message alone, and SHA-256
/// tags are 32 bytes. `new_from_slice` cannot fail: HMAC derives a key of
/// any length.
#[verifier::external_body]
fn hmac_tag(secret: &Vec<u8>, message: &Vec<u8>) -> (r: Vec<u8>)
    ensures
        r@ == mac_of(secret@, message@),
        r@.len() == 32,
{
    let mac = <hmac::Hmac<sha2::Sha256> as hmac::Mac>::new_from_slice(secret).unwrap();
    let mac = hmac::Mac::chain_update(mac, message);
    hmac::Mac::finalize(mac).into_bytes().to_vec()
}

/// Relies on hmac's `Mac::verify_slice`: it accepts exactly the tag that
/// `Hmac<Sha256>` computes for the key and message, compared in constant
/// time.
#[verifier::external_body]
fn hmac_matches(secret: &Vec<u8>, message: &Vec<u8>, tag: &Vec<u8>) -> (r: bool)
    ensures
        r == (tag@ == mac_of(secret@, message@)),
{
    let mac = <hmac::Hmac<sha2::Sha256> as hmac::Mac>::new_from_slice(secret).unwrap();
    let mac = hmac::Mac::chain_update(mac, message);
    hmac::Mac::verify_slice(mac, tag).is_ok()
}

/// Relies on base64's `STANDARD` engine `encode`: the encoding depends on the
/// input bytes alone.
#[verifier::external_body]
fn b64_encode(data: &Vec<u8>) -> (r: Vec<u8>)
    ensures
        r@ == b64_of(data@),
{
    base64::Engine::encode(&base64::engine::general_purpose::STANDARD, data).into_bytes()
}

/// Relies on base64's `STANDARD` engine `decode`: it accepts exactly the
/// canonical encodings (padding required, set trailing bits rejected), and
/// returns the unique byte string whose encoding is the input.
#[verifier::external_body]
fn b64_decode(s: &Vec<u8>) -> (r: Option<Vec<u8>>)
    ensures
        match r {
            Some(d) => b64_of(d@) == s@ && forall|x: Seq<u8>| b64_of(x) == s@ ==> x == d@,
            None => forall|x: Seq<u8>| b64_of(x) != s@,
        },
{
    match base64::Engine::decode(&base64::engine::general_purpose::STANDARD, s) {
        Ok(d) => Some(d),
        Err(_) => None,
    }
}

/// The token minted for a session identifier under a secret.
pub open spec fn spec_token(secret: Seq<u8>, session_id: Seq<u8>) -> Seq<u8> {
    b64_of(mac_of(secret, session_id))
}

/// A presented token is valid exactly when it is the minted one.
pub open spec fn token_ok(secret: Seq<u8>, name: Seq<u8>, token: Seq<u8>) -> bool {
    token == spec_token(secret, name)
}

/// Mint the credential for a session identifier.
pub fn mint_token(secret: &Vec<u8>, session_id: &Vec<u8>) -> (r: Vec<u8>)
    ensures
        r@ == spec_token(secret@, session_id@),
{
    let tag = hmac_tag(secret, session_id);
    b64_encode(&tag)
}

/// Validate the client token for a session: decode from base64 (failure is
/// invalid) and compare the tag against the recomputed MAC.
pub fn validate_token(secret: &Vec<u8>, name: &Vec<u8>, token: &Vec<u8>) -> (r: Result<
    (),
    ServiceError,
>)
    ensures
        r is Ok <==> token_ok(secret@, name@, token@),
        r is Err ==> r == Err::<(), ServiceError>(ServiceError::Unauthenticated),
{
    match b64_decode(token) {
        Some(tag) => {
            if hmac_matches(secret, name, &tag) {
                Ok(())
            } else {
                proof {
                    if token_ok(secret@, name@, token@) {
                        assert(b64_of(mac_of(secret@, name@)) == token@);
                        assert(mac_of(secret@, name@) == tag@);
                    }
                }
                Err(ServiceError::Unauthenticated)
            }
        },
        None => {
            proof {
                if token_ok(secret@, name@, token@) {
                    assert(b64_of(mac_of(secret@, name@)) == token@);
                }
            }
            Err(ServiceError::Unauthenticated)
        },
    }
}

/// Law: a token minted for a session identifier verifies against the same
/// secret and identifier.
pub proof fn lemma_token_round_trip(secret: Seq<u8>, session_id: Seq<u8>)
    ensures
        token_ok(secret, session_id, spec_token(secret, session_id)),
{
}

/// Law: any token other than the minted one is rejected for that secret and
/// session identifier; altering any byte of the minted token invalidates it.
pub proof fn lemma_token_tamper_rejected(secret: Seq<u8>, session_id: Seq<u8>, token: Seq<u8>)
    requires
        token != spec_token(secret, session_id),
    ensures
        !token_ok(secret, session_id, token),
{
}

} // verus!
