//! The per-connection streaming protocol: hello checking, pane recovery on
//! reattach, inbound message dispatch, and the step function of the
//! multiplexed event loop.
//!
//! The loop itself lives in the surrounding process: it awaits the
//! first-ready of the event sources (sync timer, ping timer, buffered
//! outbound updates, inbound client messages, the termination signal) and
//! feeds each event to [`loop_step`], which decides the reply, whether a
//! delivery failure is fatal, and whether the connection goes on.

use crate::bytes::{
    copy_bytes, parse_u32_dec, spec_parse_u32, spec_split, spec_split_once, split_bytes,
    split_once, COMMA, SEMICOLON,
};
use crate::session::{next_after, Session, SessionError, Shell};
use crate::wire::{ClientMessage, ServerMessage, ServiceError};
use vstd::prelude::*;
use vstd::string::StrSliceExecFns;
use vstd::string::StringSliceAdditionalSpecFns;

verus! {

// ---------------------------------------------------------------------------
// In-band notice texts
// ---------------------------------------------------------------------------

pub open spec fn msg_unexpected_hello() -> Seq<u8> {
    "unexpected hello".spec_bytes()
}

fn unexpected_hello_msg() -> (r: Vec<u8>)
    ensures
        r@ == msg_unexpected_hello(),
{
    "unexpected hello".as_bytes_vec()
}

pub open spec fn msg_data_no_shell() -> Seq<u8> {
    "add data: no such shell".spec_bytes()
}

fn data_no_shell_msg() -> (r: Vec<u8>)
    ensures
        r@ == msg_data_no_shell(),
{
    "add data: no such shell".as_bytes_vec()
}

pub open spec fn msg_data_bad_seq() -> Seq<u8> {
    "add data: sequence number mismatch".spec_bytes()
}

fn data_bad_seq_msg() -> (r: Vec<u8>)
    ensures
        r@ == msg_data_bad_seq(),
{
    "add data: sequence number mismatch".as_bytes_vec()
}

pub open spec fn msg_shell_duplicate() -> Seq<u8> {
    "add shell: duplicate shell id".spec_bytes()
}

fn shell_duplicate_msg() -> (r: Vec<u8>)
    ensures
        r@ == msg_shell_duplicate(),
{
    "add shell: duplicate shell id".as_bytes_vec()
}

pub open spec fn msg_close_no_shell() -> Seq<u8> {
    "close shell: no such shell".spec_bytes()
}

fn close_no_shell_msg() -> (r: Vec<u8>)
    ensures
        r@ == msg_close_no_shell(),
{
    "close shell: no such shell".as_bytes_vec()
}

pub open spec fn msg_disconnect() -> Seq<u8> {
    "disconnecting because session is closed".spec_bytes()
}

fn disconnect_msg() -> (r: Vec<u8>)
    ensures
        r@ == msg_disconnect(),
{
    "disconnecting because session is closed".as_bytes_vec()
}

/// The reply is an in-band error notice with exactly this text.
pub open spec fn is_error_reply(r: Option<ServerMessage>, text: Seq<u8>) -> bool {
    match r {
        Some(m) => match m {
            ServerMessage::Error(t) => t@ == text,
            _ => false,
        },
        None => false,
    }
}

/// The reply is a sync message mirroring these shells' sequence numbers.
pub open spec fn is_sync_reply(r: Option<ServerMessage>, shells: Seq<Shell>) -> bool {
    match r {
        Some(m) => match m {
            ServerMessage::Sync(v) => v@.len() == shells.len() && forall|i: int|
                0 <= i < shells.len() ==> v@[i] == (shells[i].id, shells[i].next_seq),
            _ => false,
        },
        None => false,
    }
}

/// The reply is a ping carrying this timestamp.
pub open spec fn is_ping_reply(r: Option<ServerMessage>, now_ms: u64) -> bool {
    match r {
        Some(m) => match m {
            ServerMessage::Ping(t) => t == now_ms,
            _ => false,
        },
        None => false,
    }
}

// ---------------------------------------------------------------------------
// Hello parsing
// ---------------------------------------------------------------------------

/// The credential part of a hello payload `"<name>,<token>[;<ids>]"`:
/// `Some((name, token, raw id list))`, splitting at the first `;` (an absent
/// `;` means an empty id list) and at the first `,`; `None` when the
/// name/token pair is missing.
pub open spec fn spec_hello_parts(h: Seq<u8>) -> Option<(Seq<u8>, Seq<u8>, Seq<u8>)> {
    let credsids = match spec_split_once(h, SEMICOLON) {
        Some(p) => p,
        None => (h, Seq::<u8>::empty()),
    };
    match spec_split_once(credsids.0, COMMA) {
        Some(q) => Some((q.0, q.1, credsids.1)),
        None => None,
    }
}

/// The parsed hello payload.
pub struct HelloParts {
    /// Session name the client wants to attach to.
    pub name: Vec<u8>,
    /// Presented credential.
    pub token: Vec<u8>,
    /// Raw semicolon-suffix pane-id list, still comma-delimited.
    pub ids_raw: Vec<u8>,
}

/// Split a hello payload into name, token and raw pane-id list.
pub fn parse_hello(hello: &Vec<u8>) -> (r: Result<HelloParts, ServiceError>)
    ensures
        match r {
            Ok(p) => spec_hello_parts(hello@) == Some((p.name@, p.token@, p.ids_raw@)),
            Err(e) => e == ServiceError::InvalidArgument && spec_hello_parts(hello@) is None,
        },
{
    let (creds, ids_raw) = match split_once(hello, SEMICOLON) {
        Some(p) => p,
        None => (copy_bytes(hello), Vec::new()),
    };
    match split_once(&creds, COMMA) {
        Some((name, token)) => Ok(HelloParts { name, token, ids_raw }),
        None => Err(ServiceError::InvalidArgument),
    }
}

// ---------------------------------------------------------------------------
// Pane-id list parsing
// ---------------------------------------------------------------------------

/// The pane ids of a raw id list, left to right: each comma-delimited field
/// parsed as a decimal `u32`, unparsable fields skipped.
pub open spec fn spec_parse_ids(fields: Seq<Seq<u8>>) -> Seq<u32>
    decreases fields.len(),
{
    if fields.len() == 0 {
        Seq::empty()
    } else {
        let rest = spec_parse_ids(fields.drop_last());
        match spec_parse_u32(fields.last()) {
            Some(n) => rest.push(n),
            None => rest,
        }
    }
}

pub open spec fn spec_shell_ids(ids_raw: Seq<u8>) -> Seq<u32> {
    spec_parse_ids(spec_split(ids_raw, COMMA))
}

/// Parse the raw pane-id list. An empty list yields no ids.
pub fn parse_shell_ids(ids_raw: &Vec<u8>) -> (r: Vec<u32>)
    ensures
        r@ == spec_shell_ids(ids_raw@),
{
    let fields = split_bytes(ids_raw, COMMA);
    let ghost gf = fields@.map_values(|p: Vec<u8>| p@);
    let mut r: Vec<u32> = Vec::new();
    let mut i: usize = 0;
    while i < fields.len()
        invariant
            i <= fields@.len(),
            gf == fields@.map_values(|p: Vec<u8>| p@),
            r@ == spec_parse_ids(gf.take(i as int)),
        decreases fields@.len() - i,
    {
        proof {
            assert(gf[i as int] == fields@[i as int]@);
            assert(gf.take(i as int + 1).drop_last() =~= gf.take(i as int));
            assert(gf.take(i as int + 1).last() == gf[i as int]);
        }
        match parse_u32_dec(&fields[i]) {
            Some(n) => {
                r.push(n);
            },
            None => {},
        }
        i += 1;
    }
    proof {
        assert(gf.take(fields@.len() as int) =~= gf);
    }
    r
}

// ---------------------------------------------------------------------------
// Pane recovery on reattach
// ---------------------------------------------------------------------------

pub open spec fn shells_have_id(shells: Seq<Shell>, id: u32) -> bool {
    exists|i: int| 0 <= i < shells.len() && shells[i].id == id
}

/// The shells after recovering a pane-id list, left to right: a listed id
/// already present changes nothing; an absent one appends a shell with the
/// placeholder center `(0, 0)` and a fresh cursor.
pub open spec fn spec_recover(shells: Seq<Shell>, ids: Seq<u32>) -> Seq<Shell>
    decreases ids.len(),
{
    if ids.len() == 0 {
        shells
    } else {
        let prev = spec_recover(shells, ids.drop_last());
        if shells_have_id(prev, ids.last()) {
            prev
        } else {
            prev.push(Shell { id: ids.last(), center: (0, 0), next_seq: 0 })
        }
    }
}

/// Law: recovery never alters a shell that already exists — the prior
/// shells keep their places, position hints and cursors — and every shell
/// recovery adds carries the placeholder center and a fresh cursor.
pub proof fn lemma_recover_shape(shells: Seq<Shell>, ids: Seq<u32>)
    ensures
        spec_recover(shells, ids).len() >= shells.len(),
        forall|i: int| 0 <= i < shells.len() ==> spec_recover(shells, ids)[i] == shells[i],
        forall|k: int|
            shells.len() <= k < spec_recover(shells, ids).len() ==> (#[trigger] spec_recover(
                shells,
                ids,
            )[k]).center == (0i32, 0i32) && spec_recover(shells, ids)[k].next_seq == 0,
    decreases ids.len(),
{
    if ids.len() > 0 {
        lemma_recover_shape(shells, ids.drop_last());
    }
}

/// Law: recovering a listed pane id leaves it present; if it was absent, it
/// now exists with the placeholder center `(0, 0)` and a fresh cursor (by
/// `lemma_recover_shape`, as the witness index lies past the prior shells).
pub proof fn lemma_recover_creates_listed(shells: Seq<Shell>, ids: Seq<u32>, id: u32)
    requires
        ids.contains(id),
    ensures
        shells_have_id(spec_recover(shells, ids), id),
    decreases ids.len(),
{
    let j = choose|j: int| 0 <= j < ids.len() && ids[j] == id;
    if j == ids.len() - 1 {
        let prev = spec_recover(shells, ids.drop_last());
        if shells_have_id(prev, id) {
            assert(spec_recover(shells, ids) == prev);
        } else {
            let result = spec_recover(shells, ids);
            assert(result[result.len() - 1].id == id);
        }
    } else {
        assert(ids.drop_last()[j] == id);
        assert(ids.drop_last().contains(id));
        lemma_recover_creates_listed(shells, ids.drop_last(), id);
        let prev = spec_recover(shells, ids.drop_last());
        let k = choose|k: int| 0 <= k < prev.len() && prev[k].id == id;
        if !shells_have_id(prev, ids.last()) {
            assert(spec_recover(shells, ids)[k].id == id);
        }
    }
}

/// Attach-time pane recovery: idempotently ensure each listed pane exists
/// (never touching an existing shell) and return the panes owed a forced
/// resize — exactly one per listed id, in order.
pub fn recover_shells(session: &mut Session, ids: &Vec<u32>) -> (resizes: Vec<u32>)
    requires
        old(session).wf(),
    ensures
        final(session).wf(),
        old(session).same_but_shells(*final(session)),
        final(session).shells@ == spec_recover(old(session).shells@, ids@),
        resizes@ == ids@,
{
    let mut resizes: Vec<u32> = Vec::new();
    let mut i: usize = 0;
    proof {
        assert(ids@.take(0) =~= Seq::<u32>::empty());
    }
    while i < ids.len()
        invariant
            i <= ids@.len(),
            session.wf(),
            old(session).same_but_shells(*session),
            session.shells@ == spec_recover(old(session).shells@, ids@.take(i as int)),
            resizes@ == ids@.take(i as int),
        decreases ids@.len() - i,
    {
        let id = ids[i];
        let ghost pre_shells = session.shells@;
        proof {
            assert(ids@.take(i as int + 1).drop_last() =~= ids@.take(i as int));
            assert(ids@.take(i as int + 1).last() == ids@[i as int]);
        }
        match session.add_shell(id, (0, 0)) {
            Ok(()) => {
                proof {
                    assert(!shells_have_id(pre_shells, id));
                }
            },
            Err(_) => {
                proof {
                    assert(shells_have_id(pre_shells, id));
                }
            },
        }
        resizes.push(id);
        proof {
            assert(resizes@ =~= ids@.take(i as int + 1));
        }
        i += 1;
    }
    proof {
        assert(ids@.take(ids@.len() as int) =~= ids@);
    }
    resizes
}

// ---------------------------------------------------------------------------
// Inbound message dispatch
// ---------------------------------------------------------------------------

/// What one dispatched client update does and replies. `pre` is the session
/// as the update found it, `post` as the update left it; the last-access
/// refresh is stated separately.
pub open spec fn update_outcome(
    pre: Session,
    post: Session,
    update: Option<ClientMessage>,
    now_ms: u64,
    reply: Option<ServerMessage>,
    latency: Option<u64>,
) -> bool {
    match update {
        None => post.shells@ == pre.shells@ && reply is None && latency is None,
        Some(m) => match m {
            ClientMessage::Hello(_) => post.shells@ == pre.shells@ && is_error_reply(
                reply,
                msg_unexpected_hello(),
            ) && latency is None,
            ClientMessage::Data { id, seq, .. } => latency is None && (if !pre.spec_has_shell(id) {
                post.shells@ == pre.shells@ && is_error_reply(reply, msg_data_no_shell())
            } else if seq != pre.shells@[pre.shell_index(id)].next_seq {
                post.shells@ == pre.shells@ && is_error_reply(reply, msg_data_bad_seq())
            } else {
                reply is None && post.shells@ == pre.shells@.update(
                    pre.shell_index(id),
                    Shell { next_seq: next_after(seq), ..pre.shells@[pre.shell_index(id)] },
                )
            }),
            ClientMessage::CreatedShell { id, x, y } => latency is None && (if pre.spec_has_shell(
                id,
            ) {
                post.shells@ == pre.shells@ && is_error_reply(reply, msg_shell_duplicate())
            } else {
                reply is None && post.shells@ == pre.shells@.push(
                    Shell { id, center: (x, y), next_seq: 0 },
                )
            }),
            ClientMessage::ClosedShell(id) => latency is None && (if pre.spec_has_shell(id) {
                reply is None && post.shells@ == pre.shells@.remove(pre.shell_index(id))
            } else {
                post.shells@ == pre.shells@ && is_error_reply(reply, msg_close_no_shell())
            }),
            ClientMessage::Pong(ts) => post.shells@ == pre.shells@ && reply is None && latency
                == Some(
                if now_ms >= ts {
                    (now_ms - ts) as u64
                } else {
                    0u64
                },
            ),
            ClientMessage::Error(_) => post.shells@ == pre.shells@ && reply is None
                && latency is None,
        },
    }
}

/// Law: for a pane whose cursor expects `n`, a data chunk with sequence `n`
/// is accepted silently and the cursor advances by one (saturating at the
/// top of the range); any other sequence number draws an in-band notice and
/// leaves every cursor unchanged.
pub proof fn lemma_sequence_monotonic(
    pre: Session,
    post: Session,
    m: ClientMessage,
    now_ms: u64,
    reply: Option<ServerMessage>,
    latency: Option<u64>,
    id: u32,
    seq: u64,
)
    requires
        pre.wf(),
        m matches ClientMessage::Data { id: mid, seq: mseq, data: _ } && mid == id && mseq == seq,
        pre.spec_has_shell(id),
        update_outcome(pre, post, Some(m), now_ms, reply, latency),
    ensures
        seq == pre.shells@[pre.shell_index(id)].next_seq ==> reply is None
            && post.shells@[pre.shell_index(id)].next_seq == next_after(seq),
        seq != pre.shells@[pre.shell_index(id)].next_seq ==> post.shells@ == pre.shells@
            && is_error_reply(reply, msg_data_bad_seq()),
{
}

/// Law: a pane's sequence cursor is monotonically non-decreasing: whatever
/// a dispatched update does, a pane alive before and after it never sees
/// its cursor move backwards.
pub proof fn lemma_cursor_never_decreases(
    pre: Session,
    post: Session,
    u: Option<ClientMessage>,
    now_ms: u64,
    reply: Option<ServerMessage>,
    latency: Option<u64>,
    id: u32,
)
    requires
        pre.wf(),
        post.wf(),
        update_outcome(pre, post, u, now_ms, reply, latency),
        pre.spec_has_shell(id),
        post.spec_has_shell(id),
    ensures
        post.shells@[post.shell_index(id)].next_seq >= pre.shells@[pre.shell_index(id)].next_seq,
{
    let i = pre.shell_index(id);
    let j = post.shell_index(id);
    assert(0 <= i < pre.shells@.len() && pre.shells@[i].id == id);
    assert(0 <= j < post.shells@.len() && post.shells@[j].id == id);
    let closed: Option<u32> = match u {
        Some(m) => match m {
            ClientMessage::ClosedShell(cid) => if pre.spec_has_shell(cid) {
                Some(cid)
            } else {
                None
            },
            _ => None,
        },
        None => None,
    };
    match closed {
        Some(cid) => {
            let k = pre.shell_index(cid);
            assert(post.shells@ == pre.shells@.remove(k));
            if id == cid {
                // The closed pane is gone afterwards: uniqueness in `pre`
                // leaves no second shell with its id.
                assert(forall|x: int|
                    0 <= x < post.shells@.len() ==> post.shells@[x] == (if x < k {
                        pre.shells@[x]
                    } else {
                        pre.shells@[x + 1]
                    }));
                assert(post.shells@[j].id != id);
            } else {
                let jp: int = if j < k {
                    j
                } else {
                    j + 1
                };
                assert(post.shells@[j] == pre.shells@[jp]);
                assert(pre.shells@[jp].id == id);
                assert(jp == i);
            }
        },
        None => {
            // Every other outcome leaves the prior panes in place: either
            // the shells are unchanged, one entry is updated, or a fresh
            // pane is appended.
            assert(post.shells@[j].id == id);
            if post.shells@ == pre.shells@ {
                assert(j == i);
            } else {
                match u {
                    Some(m) => match m {
                        ClientMessage::Data { id: did, seq, .. } => {
                            let k = pre.shell_index(did);
                            assert(post.shells@ == pre.shells@.update(
                                k,
                                Shell { next_seq: next_after(seq), ..pre.shells@[k] },
                            ));
                            assert(forall|x: int|
                                0 <= x < pre.shells@.len() ==> post.shells@[x].id
                                    == pre.shells@[x].id);
                            assert(pre.shells@[j].id == id);
                            assert(j == i);
                            if i == k {
                                assert(seq == pre.shells@[k].next_seq);
                                assert(post.shells@[j].next_seq == next_after(seq));
                            } else {
                                assert(post.shells@[j] == pre.shells@[j]);
                            }
                        },
                        ClientMessage::CreatedShell { id: cid, x, y } => {
                            assert(post.shells@ == pre.shells@.push(
                                Shell { id: cid, center: (x, y), next_seq: 0 },
                            ));
                            if j < pre.shells@.len() {
                                assert(post.shells@[j] == pre.shells@[j]);
                                assert(j == i);
                            } else {
                                // The appended pane carries the created id,
                                // which was absent before.
                                assert(post.shells@[j].id == cid);
                                assert(!pre.spec_has_shell(cid));
                                assert(pre.shells@[i].id == cid);
                            }
                        },
                        _ => {
                            assert(post.shells@ == pre.shells@);
                        },
                    },
                    None => {
                        assert(post.shells@ == pre.shells@);
                    },
                }
            }
        },
    }
}

/// Law: the latency computed from a pong is never negative: a timestamp
/// from the future (clock skew) yields zero, and otherwise the latency is
/// the elapsed time.
pub proof fn lemma_latency_never_negative(
    pre: Session,
    post: Session,
    ts: u64,
    now_ms: u64,
    reply: Option<ServerMessage>,
    latency: Option<u64>,
)
    requires
        update_outcome(pre, post, Some(ClientMessage::Pong(ts)), now_ms, reply, latency),
    ensures
        ts > now_ms ==> latency == Some(0u64),
        ts <= now_ms ==> latency == Some((now_ms - ts) as u64),
{
}

/// What dispatching one inbound update yields besides the state change.
pub struct UpdateOutcome {
    /// In-band reply owed to the client; failing to deliver it is fatal.
    pub reply: Option<ServerMessage>,
    /// Latency measurement to feed the rolling metric.
    pub latency: Option<u64>,
}

/// Handle a single update from the client: refresh the last-access
/// timestamp, then dispatch by message kind. Pane-level failures become
/// in-band error notices; nothing here tears the connection down. A `Pong`
/// yields a latency that is never negative: a timestamp from the future
/// (clock skew) clamps to zero.
pub fn handle_update(session: &mut Session, update: Option<ClientMessage>, now_ms: u64) -> (r:
    UpdateOutcome)
    requires
        old(session).wf(),
    ensures
        final(session).wf(),
        final(session).last_access == now_ms,
        final(session).id == old(session).id,
        final(session).metadata == old(session).metadata,
        final(session).terminated == old(session).terminated,
        update_outcome(*old(session), *final(session), update, now_ms, r.reply, r.latency),
{
    session.access(now_ms);
    match update {
        None => UpdateOutcome { reply: None, latency: None },
        Some(m) => match m {
            ClientMessage::Hello(_) => UpdateOutcome {
                reply: Some(ServerMessage::Error(unexpected_hello_msg())),
                latency: None,
            },
            ClientMessage::Data { id, seq, data: _ } => {
                match session.add_data(id, seq) {
                    Ok(()) => UpdateOutcome { reply: None, latency: None },
                    Err(SessionError::ShellNotFound) => UpdateOutcome {
                        reply: Some(ServerMessage::Error(data_no_shell_msg())),
                        latency: None,
                    },
                    Err(_) => UpdateOutcome {
                        reply: Some(ServerMessage::Error(data_bad_seq_msg())),
                        latency: None,
                    },
                }
            },
            ClientMessage::CreatedShell { id, x, y } => {
                match session.add_shell(id, (x, y)) {
                    Ok(()) => UpdateOutcome { reply: None, latency: None },
                    Err(_) => UpdateOutcome {
                        reply: Some(ServerMessage::Error(shell_duplicate_msg())),
                        latency: None,
                    },
                }
            },
            ClientMessage::ClosedShell(id) => {
                match session.close_shell(id) {
                    Ok(()) => UpdateOutcome { reply: None, latency: None },
                    Err(_) => UpdateOutcome {
                        reply: Some(ServerMessage::Error(close_no_shell_msg())),
                        latency: None,
                    },
                }
            },
            ClientMessage::Pong(ts) => {
                let latency = if now_ms >= ts {
                    now_ms - ts
                } else {
                    0
                };
                UpdateOutcome { reply: None, latency: Some(latency) }
            },
            ClientMessage::Error(_) => UpdateOutcome { reply: None, latency: None },
        },
    }
}

// ---------------------------------------------------------------------------
// The multiplexed event loop, one step at a time
// ---------------------------------------------------------------------------

/// One event of the per-connection select loop, whichever source is ready
/// first.
pub enum LoopEvent {
    /// The sync timer fired (fixed period, missed ticks delayed).
    SyncTick,
    /// The ping timer fired (fixed period, missed ticks delayed).
    PingTick,
    /// A buffered server update arrived on the session's outbound channel.
    Update(ServerMessage),
    /// An inbound client update arrived (`None` payload is a heartbeat).
    Client(Option<ClientMessage>),
    /// The client stream ended (hang-up or receive error).
    ClientGone,
    /// The session's termination signal fired.
    Terminated,
}

/// Whether the connection loop goes on after a step.
#[derive(Clone, Copy, Debug, PartialEq, Eq, Structural)]
pub enum Control {
    Continue,
    /// The loop returns without error; no further event is processed.
    Stop,
}

/// What one loop step decided.
pub struct Step {
    /// Message owed to the client, if any.
    pub reply: Option<ServerMessage>,
    /// Whether a failure to deliver `reply` is fatal to the connection:
    /// sync and queued updates and error notices are owed, pings and the
    /// final disconnect notice are best-effort.
    pub must_deliver: bool,
    /// Latency measurement to feed the rolling metric.
    pub latency: Option<u64>,
    /// Whether the loop goes on.
    pub control: Control,
}

/// One step of the multiplexed loop. A graceful client hang-up and the
/// termination signal both stop the loop without error; the termination
/// signal additionally owes the client one best-effort disconnect notice.
pub fn loop_step(session: &mut Session, event: LoopEvent, now_ms: u64) -> (r: Step)
    requires
        old(session).wf(),
    ensures
        final(session).wf(),
        final(session).id == old(session).id,
        final(session).metadata == old(session).metadata,
        final(session).terminated == old(session).terminated,
        match event {
            LoopEvent::SyncTick => *final(session) == *old(session) && is_sync_reply(
                r.reply,
                old(session).shells@,
            ) && r.must_deliver && r.latency is None && r.control == Control::Continue,
            LoopEvent::PingTick => *final(session) == *old(session) && is_ping_reply(
                r.reply,
                now_ms,
            ) && !r.must_deliver && r.latency is None && r.control == Control::Continue,
            LoopEvent::Update(m) => *final(session) == *old(session) && r.reply == Some(m)
                && r.must_deliver && r.latency is None && r.control == Control::Continue,
            LoopEvent::Client(u) => final(session).last_access == now_ms && update_outcome(
                *old(session),
                *final(session),
                u,
                now_ms,
                r.reply,
                r.latency,
            ) && r.must_deliver && r.control == Control::Continue,
            LoopEvent::ClientGone => *final(session) == *old(session) && r.reply is None
                && r.latency is None && r.control == Control::Stop,
            LoopEvent::Terminated => *final(session) == *old(session) && is_error_reply(
                r.reply,
                msg_disconnect(),
            ) && !r.must_deliver && r.latency is None && r.control == Control::Stop,
        },
{
    match event {
        LoopEvent::SyncTick => {
            let numbers = session.sequence_numbers();
            Step {
                reply: Some(ServerMessage::Sync(numbers)),
                must_deliver: true,
                latency: None,
                control: Control::Continue,
            }
        },
        LoopEvent::PingTick => Step {
            reply: Some(ServerMessage::Ping(now_ms)),
            must_deliver: false,
            latency: None,
            control: Control::Continue,
        },
        LoopEvent::Update(m) => Step {
            reply: Some(m),
            must_deliver: true,
            latency: None,
            control: Control::Continue,
        },
        LoopEvent::Client(u) => {
            let outcome = handle_update(session, u, now_ms);
            Step {
                reply: outcome.reply,
                must_deliver: true,
                latency: outcome.latency,
                control: Control::Continue,
            }
        },
        LoopEvent::ClientGone => Step {
            reply: None,
            must_deliver: false,
            latency: None,
            control: Control::Stop,
        },
        LoopEvent::Terminated => Step {
            reply: Some(ServerMessage::Error(disconnect_msg())),
            must_deliver: false,
            latency: None,
            control: Control::Stop,
        },
    }
}

} // verus!
