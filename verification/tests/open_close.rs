//! The `Open` and `Close` operations: identity resolution, the collision
//! guard, origin handling, URL composition, and authenticated removal.

use sshx_server::grpc::GrpcServer;
use sshx_server::registry::{random_session_id, ServerState};
use sshx_server::token::{mint_token, validate_token};
use sshx_server::wire::{CloseRequest, OpenRequest, ServiceError};

fn server() -> GrpcServer {
    GrpcServer::new(ServerState::new(b"test secret".to_vec(), None))
}

fn request(origin: &[u8], name: &[u8]) -> OpenRequest {
    OpenRequest {
        origin: origin.to_vec(),
        name: name.to_vec(),
        write_password_hash: Vec::new(),
        encrypted_zeros: Vec::new(),
    }
}

#[test]
fn open_fresh_session() {
    let mut gs = server();
    let resp = gs.open(request(b"https://example.com", b"user@host|KEY"), 1000).unwrap();
    assert_eq!(resp.name.len(), 10);
    assert!(resp.name.iter().all(|b| b.is_ascii_alphanumeric()));
    let mut expected_url = b"https://example.com/s/".to_vec();
    expected_url.extend_from_slice(&resp.name);
    assert_eq!(resp.url, expected_url);
    assert!(validate_token(&gs.0.secret, &resp.name, &resp.token).is_ok());
    let session = gs.0.lookup(&resp.name).unwrap();
    assert_eq!(session.metadata.name, b"user@host".to_vec());
    assert_eq!(session.metadata.encryption_key, Some(b"KEY".to_vec()));
    assert_eq!(session.last_access, 1000);
    assert!(!session.terminated);
    assert!(session.shells.is_empty());
}

#[test]
fn open_empty_origin_rejected() {
    let mut gs = server();
    let r = gs.open(request(b"", b"user"), 0);
    assert_eq!(r.map(|_| ()), Err(ServiceError::InvalidArgument));
    assert!(gs.0.sessions.is_empty());
}

#[test]
fn open_origin_override_takes_precedence() {
    let mut gs = GrpcServer::new(ServerState::new(
        b"test secret".to_vec(),
        Some(b"https://operator.example".to_vec()),
    ));
    let resp = gs.open(request(b"https://client.example", b"user"), 0).unwrap();
    assert!(resp.url.starts_with(b"https://operator.example/s/"));
}

#[test]
fn open_empty_override_rejected() {
    let mut gs = GrpcServer::new(ServerState::new(b"s".to_vec(), Some(Vec::new())));
    let r = gs.open(request(b"https://client.example", b"user"), 0);
    assert_eq!(r.map(|_| ()), Err(ServiceError::InvalidArgument));
}

#[test]
fn open_reconnect_reuses_identifier() {
    let mut gs = server();
    let resp = gs.open(request(b"https://x", b"RECONNECT:oldid12345|user@h|KEY"), 5).unwrap();
    assert_eq!(resp.name, b"oldid12345".to_vec());
    let session = gs.0.lookup(&resp.name).unwrap();
    assert_eq!(session.metadata.name, b"user@h".to_vec());
    assert_eq!(session.metadata.encryption_key, Some(b"KEY".to_vec()));
}

#[test]
fn open_reconnect_without_pipe_gets_fresh_id() {
    let mut gs = server();
    let resp = gs.open(request(b"https://x", b"RECONNECT:orphan"), 5).unwrap();
    assert_eq!(resp.name.len(), 10);
    assert_ne!(resp.name, b"RECONNECT:orphan".to_vec());
    let session = gs.0.lookup(&resp.name).unwrap();
    // The full name, marker included, is the payload in this case.
    assert_eq!(session.metadata.name, b"RECONNECT:orphan".to_vec());
}

#[test]
fn open_collision_rejected_and_first_untouched() {
    let mut gs = server();
    let r1 = gs.open_with_id(
        b"https://x".to_vec(),
        b"sameid".to_vec(),
        &b"first|KEY1".to_vec(),
        Vec::new(),
        Vec::new(),
        1,
    );
    assert!(r1.is_ok());
    let r2 = gs.open_with_id(
        b"https://x".to_vec(),
        b"sameid".to_vec(),
        &b"second|KEY2".to_vec(),
        Vec::new(),
        Vec::new(),
        2,
    );
    assert_eq!(r2.map(|_| ()), Err(ServiceError::AlreadyExists));
    assert_eq!(gs.0.sessions.len(), 1);
    let session = gs.0.lookup(&b"sameid".to_vec()).unwrap();
    assert_eq!(session.metadata.name, b"first".to_vec());
    assert_eq!(session.metadata.encryption_key, Some(b"KEY1".to_vec()));
    assert_eq!(session.last_access, 1);
}

#[test]
fn close_with_minted_token() {
    let mut gs = server();
    let resp = gs.open(request(b"https://x", b"user"), 0).unwrap();
    let r = gs.close(CloseRequest { name: resp.name.clone(), token: resp.token });
    assert_eq!(r, Ok(()));
    assert!(gs.0.lookup(&resp.name).is_none());
    assert!(gs.0.sessions.is_empty());
}

#[test]
fn close_bad_token_rejected() {
    let mut gs = server();
    let resp = gs.open(request(b"https://x", b"user"), 0).unwrap();
    let r = gs.close(CloseRequest { name: resp.name.clone(), token: b"forged".to_vec() });
    assert_eq!(r, Err(ServiceError::Unauthenticated));
    assert!(gs.0.lookup(&resp.name).is_some());
}

#[test]
fn close_unknown_session_is_internal() {
    let mut gs = server();
    let name = b"neverexist".to_vec();
    let token = mint_token(&gs.0.secret, &name);
    let r = gs.close(CloseRequest { name, token });
    assert_eq!(r, Err(ServiceError::Internal));
}

#[test]
fn close_session_signals_termination() {
    let mut gs = server();
    let resp = gs.open(request(b"https://x", b"user"), 0).unwrap();
    let mut state = gs.0;
    let closed = state.close_session(&resp.name).unwrap();
    assert!(closed.terminated);
    assert!(state.sessions.is_empty());
}

#[test]
fn random_session_id_shape() {
    let id = random_session_id(10);
    assert_eq!(id.len(), 10);
    assert!(id.iter().all(|b| b.is_ascii_alphanumeric()));
    let other = random_session_id(0);
    assert!(other.is_empty());
}

#[test]
fn time_ms_is_past_known_epoch() {
    // Well after 2020-01-01 in epoch milliseconds.
    assert!(sshx_server::get_time_ms() > 1_577_836_800_000);
}
