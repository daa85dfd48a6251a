//! The streaming connection: hello checking, pane recovery on reattach,
//! inbound dispatch, and the multiplexed loop's step function.

use sshx_server::grpc::GrpcServer;
use sshx_server::handler::{
    handle_update, loop_step, parse_hello, parse_shell_ids, recover_shells, Control, LoopEvent,
};
use sshx_server::metadata::parse_name;
use sshx_server::registry::ServerState;
use sshx_server::session::Session;
use sshx_server::token::mint_token;
use sshx_server::wire::{ClientMessage, ServerMessage, ServiceError};

fn server() -> GrpcServer {
    GrpcServer::new(ServerState::new(b"test secret".to_vec(), None))
}

fn fresh_session(id: &[u8]) -> Session {
    let metadata = parse_name(&b"user@host|KEY".to_vec(), Vec::new(), Vec::new());
    Session::new(id.to_vec(), metadata, 0)
}

fn hello_bytes(gs: &GrpcServer, name: &[u8], ids: &str) -> Vec<u8> {
    let token = mint_token(&gs.0.secret, &name.to_vec());
    let mut h = name.to_vec();
    h.push(b',');
    h.extend_from_slice(&token);
    if !ids.is_empty() {
        h.push(b';');
        h.extend_from_slice(ids.as_bytes());
    }
    h
}

fn error_text(reply: &Option<ServerMessage>) -> Vec<u8> {
    match reply {
        Some(ServerMessage::Error(t)) => t.clone(),
        _ => panic!("expected an error reply"),
    }
}

#[test]
fn check_hello_success() {
    let gs = server();
    let h = hello_bytes(&gs, b"mysession1", "1,2");
    let (name, ids) = gs.check_hello(Some(ClientMessage::Hello(h))).unwrap();
    assert_eq!(name, b"mysession1".to_vec());
    assert_eq!(ids, vec![1, 2]);
}

#[test]
fn check_hello_no_ids() {
    let gs = server();
    let h = hello_bytes(&gs, b"mysession1", "");
    let (name, ids) = gs.check_hello(Some(ClientMessage::Hello(h))).unwrap();
    assert_eq!(name, b"mysession1".to_vec());
    assert!(ids.is_empty());
}

#[test]
fn check_hello_missing_comma() {
    let gs = server();
    let r = gs.check_hello(Some(ClientMessage::Hello(b"nocommahere".to_vec())));
    assert_eq!(r.map(|_| ()), Err(ServiceError::InvalidArgument));
}

#[test]
fn check_hello_bad_token() {
    let gs = server();
    let r = gs.check_hello(Some(ClientMessage::Hello(b"name,forgedtoken".to_vec())));
    assert_eq!(r.map(|_| ()), Err(ServiceError::Unauthenticated));
}

#[test]
fn check_hello_not_hello() {
    let gs = server();
    let r = gs.check_hello(Some(ClientMessage::Pong(5)));
    assert_eq!(r.map(|_| ()), Err(ServiceError::InvalidArgument));
}

#[test]
fn check_hello_missing_message() {
    let gs = server();
    let r = gs.check_hello(None);
    assert_eq!(r.map(|_| ()), Err(ServiceError::InvalidArgument));
}

#[test]
fn parse_hello_keeps_token_with_commas_after_first() {
    // The split is at the first comma; the rest stays in the token field.
    let p = parse_hello(&b"n,t,x;7".to_vec()).unwrap();
    assert_eq!(p.name, b"n".to_vec());
    assert_eq!(p.token, b"t,x".to_vec());
    assert_eq!(p.ids_raw, b"7".to_vec());
}

#[test]
fn shell_id_list_skips_junk() {
    let ids = parse_shell_ids(&b"1,abc,2,,4294967296,3".to_vec());
    assert_eq!(ids, vec![1, 2, 3]);
}

#[test]
fn shell_id_list_empty() {
    let ids = parse_shell_ids(&Vec::new());
    assert!(ids.is_empty());
}

#[test]
fn attach_unknown_session_not_found() {
    let mut gs = server();
    let r = gs.attach(&b"nosuch".to_vec(), &vec![1]);
    assert_eq!(r.map(|_| ()), Err(ServiceError::NotFound));
}

#[test]
fn reconnection_is_idempotent_for_existing_panes() {
    let mut session = fresh_session(b"s1");
    // The client created pane 7 at a real position.
    let outcome = handle_update(
        &mut session,
        Some(ClientMessage::CreatedShell { id: 7, x: 3, y: 4 }),
        10,
    );
    assert!(outcome.reply.is_none());
    // Reattach knowing panes 7 and 9: 7 keeps its hint, 9 appears at (0,0),
    // and each listed pane is owed exactly one forced resize.
    let resizes = recover_shells(&mut session, &vec![7, 9]);
    assert_eq!(resizes, vec![7, 9]);
    assert_eq!(session.shells.len(), 2);
    assert_eq!(session.shells[0].id, 7);
    assert_eq!(session.shells[0].center, (3, 4));
    assert_eq!(session.shells[1].id, 9);
    assert_eq!(session.shells[1].center, (0, 0));
    assert_eq!(session.shells[1].next_seq, 0);
}

#[test]
fn reconnection_duplicate_listed_id_created_once() {
    let mut session = fresh_session(b"s1");
    let resizes = recover_shells(&mut session, &vec![5, 5]);
    assert_eq!(resizes, vec![5, 5]);
    assert_eq!(session.shells.len(), 1);
}

#[test]
fn data_sequence_accept_and_advance() {
    let mut session = fresh_session(b"s1");
    handle_update(&mut session, Some(ClientMessage::CreatedShell { id: 1, x: 0, y: 0 }), 1);
    let ok = handle_update(
        &mut session,
        Some(ClientMessage::Data { id: 1, seq: 0, data: b"bytes".to_vec() }),
        2,
    );
    assert!(ok.reply.is_none());
    assert_eq!(session.shells[0].next_seq, 1);
    let numbers = session.sequence_numbers();
    assert_eq!(numbers, vec![(1, 1)]);
}

#[test]
fn data_sequence_mismatch_rejected_unchanged() {
    let mut session = fresh_session(b"s1");
    handle_update(&mut session, Some(ClientMessage::CreatedShell { id: 1, x: 0, y: 0 }), 1);
    // Duplicate of an already-accepted chunk.
    handle_update(&mut session, Some(ClientMessage::Data { id: 1, seq: 0, data: vec![1] }), 2);
    let dup = handle_update(
        &mut session,
        Some(ClientMessage::Data { id: 1, seq: 0, data: vec![1] }),
        3,
    );
    assert_eq!(error_text(&dup.reply), b"add data: sequence number mismatch".to_vec());
    assert_eq!(session.shells[0].next_seq, 1);
    // A gap is rejected the same way.
    let gap = handle_update(
        &mut session,
        Some(ClientMessage::Data { id: 1, seq: 5, data: vec![2] }),
        4,
    );
    assert_eq!(error_text(&gap.reply), b"add data: sequence number mismatch".to_vec());
    assert_eq!(session.shells[0].next_seq, 1);
}

#[test]
fn data_unknown_pane_rejected() {
    let mut session = fresh_session(b"s1");
    let r = handle_update(
        &mut session,
        Some(ClientMessage::Data { id: 42, seq: 0, data: vec![] }),
        1,
    );
    assert_eq!(error_text(&r.reply), b"add data: no such shell".to_vec());
}

#[test]
fn created_shell_duplicate_rejected() {
    let mut session = fresh_session(b"s1");
    handle_update(&mut session, Some(ClientMessage::CreatedShell { id: 1, x: 1, y: 2 }), 1);
    let r = handle_update(
        &mut session,
        Some(ClientMessage::CreatedShell { id: 1, x: 9, y: 9 }),
        2,
    );
    assert_eq!(error_text(&r.reply), b"add shell: duplicate shell id".to_vec());
    assert_eq!(session.shells[0].center, (1, 2));
}

#[test]
fn closed_shell_removes_or_rejects() {
    let mut session = fresh_session(b"s1");
    handle_update(&mut session, Some(ClientMessage::CreatedShell { id: 1, x: 0, y: 0 }), 1);
    let ok = handle_update(&mut session, Some(ClientMessage::ClosedShell(1)), 2);
    assert!(ok.reply.is_none());
    assert!(session.shells.is_empty());
    let missing = handle_update(&mut session, Some(ClientMessage::ClosedShell(1)), 3);
    assert_eq!(error_text(&missing.reply), b"close shell: no such shell".to_vec());
}

#[test]
fn second_hello_draws_notice_but_lives_on() {
    let mut session = fresh_session(b"s1");
    let step = loop_step(
        &mut session,
        LoopEvent::Client(Some(ClientMessage::Hello(b"again".to_vec()))),
        1,
    );
    assert_eq!(error_text(&step.reply), b"unexpected hello".to_vec());
    assert!(step.must_deliver);
    assert_eq!(step.control, Control::Continue);
}

#[test]
fn pong_latency_clamped_to_zero_for_future_timestamp() {
    let mut session = fresh_session(b"s1");
    let r = handle_update(&mut session, Some(ClientMessage::Pong(2000)), 1500);
    assert!(r.reply.is_none());
    assert_eq!(r.latency, Some(0));
}

#[test]
fn pong_latency_measures_elapsed() {
    let mut session = fresh_session(b"s1");
    let r = handle_update(&mut session, Some(ClientMessage::Pong(1200)), 1500);
    assert_eq!(r.latency, Some(300));
}

#[test]
fn heartbeat_refreshes_last_access_only() {
    let mut session = fresh_session(b"s1");
    let r = handle_update(&mut session, None, 777);
    assert!(r.reply.is_none());
    assert!(r.latency.is_none());
    assert_eq!(session.last_access, 777);
}

#[test]
fn client_error_logged_only() {
    let mut session = fresh_session(b"s1");
    let r = handle_update(&mut session, Some(ClientMessage::Error(b"oops".to_vec())), 5);
    assert!(r.reply.is_none());
    assert!(session.shells.is_empty());
}

#[test]
fn sync_tick_mirrors_sequence_numbers() {
    let mut session = fresh_session(b"s1");
    handle_update(&mut session, Some(ClientMessage::CreatedShell { id: 3, x: 0, y: 0 }), 1);
    handle_update(&mut session, Some(ClientMessage::Data { id: 3, seq: 0, data: vec![] }), 2);
    let step = loop_step(&mut session, LoopEvent::SyncTick, 9);
    assert!(step.must_deliver);
    assert_eq!(step.control, Control::Continue);
    match step.reply {
        Some(ServerMessage::Sync(map)) => assert_eq!(map, vec![(3, 1)]),
        _ => panic!("expected a sync reply"),
    }
}

#[test]
fn ping_tick_is_best_effort() {
    let mut session = fresh_session(b"s1");
    let step = loop_step(&mut session, LoopEvent::PingTick, 123456);
    assert!(!step.must_deliver);
    assert_eq!(step.control, Control::Continue);
    match step.reply {
        Some(ServerMessage::Ping(t)) => assert_eq!(t, 123456),
        _ => panic!("expected a ping reply"),
    }
}

#[test]
fn buffered_update_forwarded() {
    let mut session = fresh_session(b"s1");
    let step = loop_step(
        &mut session,
        LoopEvent::Update(ServerMessage::Error(b"relayed".to_vec())),
        1,
    );
    assert!(step.must_deliver);
    assert_eq!(error_text(&step.reply), b"relayed".to_vec());
}

#[test]
fn graceful_hangup_stops_without_notice() {
    let mut session = fresh_session(b"s1");
    let step = loop_step(&mut session, LoopEvent::ClientGone, 1);
    assert!(step.reply.is_none());
    assert_eq!(step.control, Control::Stop);
}

#[test]
fn termination_sends_one_best_effort_notice() {
    let mut session = fresh_session(b"s1");
    let step = loop_step(&mut session, LoopEvent::Terminated, 1);
    assert_eq!(
        error_text(&step.reply),
        b"disconnecting because session is closed".to_vec()
    );
    assert!(!step.must_deliver);
    assert_eq!(step.control, Control::Stop);
}

#[test]
fn attach_recovers_through_registry() {
    let mut gs = server();
    let resp = gs
        .open(
            sshx_server::wire::OpenRequest {
                origin: b"https://x".to_vec(),
                name: b"user".to_vec(),
                write_password_hash: Vec::new(),
                encrypted_zeros: Vec::new(),
            },
            0,
        )
        .unwrap();
    let (pos, resizes) = gs.attach(&resp.name, &vec![4, 8]).unwrap();
    assert_eq!(resizes, vec![4, 8]);
    let session = &gs.0.sessions[pos];
    assert_eq!(session.shells.len(), 2);
    assert_eq!(session.shells[0].id, 4);
    assert_eq!(session.shells[0].center, (0, 0));
}
