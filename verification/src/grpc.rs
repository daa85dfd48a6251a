//! The single-shot RPC operations over the registry: `Open` (session
//! creation with identity resolution) and `Close` (authenticated removal),
//! plus the reconnection-marker grammar of the name field.

use crate::bytes::{
    append_bytes, copy_bytes, spec_split_once, spec_starts_with, split_once, starts_with, subvec,
    PIPE,
};
use crate::handler::{
    parse_hello, parse_shell_ids, recover_shells, spec_hello_parts, spec_recover, spec_shell_ids,
};
use crate::metadata::{
    parse_name, spec_cpu, spec_encryption_key, spec_hostname, spec_memory, spec_os_info, spec_user,
};
use crate::registry::{is_ascii_alnum, random_session_id, ServerState};
use crate::session::{Session, Shell};
use crate::token::{mint_token, spec_token, token_ok, validate_token};
use crate::wire::{ClientMessage, CloseRequest, OpenRequest, OpenResponse, ServiceError};
use vstd::prelude::*;

verus! {

/// The fixed reconnection marker, the literal `RECONNECT:`.
pub open spec fn spec_reconnect_prefix() -> Seq<u8> {
    seq![82u8, 69u8, 67u8, 79u8, 78u8, 78u8, 69u8, 67u8, 84u8, 58u8]
}

fn reconnect_prefix() -> (r: Vec<u8>)
    ensures
        r@ == spec_reconnect_prefix(),
{
    let mut v: Vec<u8> = Vec::new();
    v.push(82);
    v.push(69);
    v.push(67);
    v.push(79);
    v.push(78);
    v.push(78);
    v.push(69);
    v.push(67);
    v.push(84);
    v.push(58);
    proof {
        assert(v@ =~= spec_reconnect_prefix());
    }
    v
}

/// Every leading `RECONNECT:` stripped from the identifier field,
/// repeatedly.
pub open spec fn strip_reconnect(s: Seq<u8>) -> Seq<u8>
    decreases s.len(),
{
    if spec_starts_with(s, spec_reconnect_prefix()) && s.len() >= 10 {
        strip_reconnect(s.skip(10))
    } else {
        s
    }
}

fn strip_reconnect_prefix(v: &Vec<u8>) -> (r: Vec<u8>)
    ensures
        r@ == strip_reconnect(v@),
{
    let prefix = reconnect_prefix();
    let mut cur = copy_bytes(v);
    while starts_with(&cur, &prefix)
        invariant
            prefix@ == spec_reconnect_prefix(),
            strip_reconnect(cur@) == strip_reconnect(v@),
        decreases cur@.len(),
    {
        let end = cur.len();
        cur = subvec(&cur, 10, end);
    }
    cur
}

/// `Some((old_id, name_payload))` when the name begins with the
/// reconnection marker and carries a `|` separator: the old identifier (the
/// part before the `|`, marker stripped) is reused and the remainder becomes
/// the name to parse. `None` means a fresh identifier is needed and the full
/// name is the payload.
pub open spec fn spec_reconnect_split(name: Seq<u8>) -> Option<(Seq<u8>, Seq<u8>)> {
    if spec_starts_with(name, spec_reconnect_prefix()) {
        match spec_split_once(name, PIPE) {
            Some(p) => Some((strip_reconnect(p.0), p.1)),
            None => None,
        }
    } else {
        None
    }
}

fn reconnect_split(name: &Vec<u8>) -> (r: Option<(Vec<u8>, Vec<u8>)>)
    ensures
        match r {
            Some(p) => spec_reconnect_split(name@) == Some((p.0@, p.1@)),
            None => spec_reconnect_split(name@) is None,
        },
{
    let prefix = reconnect_prefix();
    if starts_with(name, &prefix) {
        match split_once(name, PIPE) {
            Some((head, rest)) => {
                let old_id = strip_reconnect_prefix(&head);
                Some((old_id, rest))
            },
            None => None,
        }
    } else {
        None
    }
}

/// The `/s/` infix of session URLs.
pub open spec fn spec_url_infix() -> Seq<u8> {
    seq![47u8, 115u8, 47u8]
}

/// `origin + "/s/" + session_id`.
pub fn compose_url(origin: &Vec<u8>, session_id: &Vec<u8>) -> (r: Vec<u8>)
    ensures
        r@ == origin@ + spec_url_infix() + session_id@,
{
    let mut r = copy_bytes(origin);
    r.push(47);
    r.push(115);
    r.push(47);
    append_bytes(&mut r, session_id);
    proof {
        assert(r@ =~= origin@ + spec_url_infix() + session_id@);
    }
    r
}

/// The session inserted by a successful open: no shells, live, fresh
/// timestamp, and metadata as the name grammar yields it.
pub open spec fn session_matches(
    s: Session,
    id: Seq<u8>,
    clean: Seq<u8>,
    wph: Seq<u8>,
    zeros: Seq<u8>,
    now_ms: u64,
) -> bool {
    &&& s.id@ == id
    &&& s.shells@ == Seq::<Shell>::empty()
    &&& !s.terminated
    &&& s.last_access == now_ms
    &&& s.metadata.name@ == spec_user(clean)
    &&& s.metadata.hostname@ == spec_hostname(spec_user(clean))
    &&& s.metadata.cpu@ == spec_cpu(clean)
    &&& s.metadata.memory_mb == spec_memory(clean)
    &&& s.metadata.os_info@ == spec_os_info(clean)
    &&& (match s.metadata.encryption_key {
        Some(k) => spec_encryption_key(clean) == Some(k@),
        None => spec_encryption_key(clean) is None,
    })
    &&& (match s.metadata.write_password_hash {
        Some(w) => wph.len() > 0 && w@ == wph,
        None => wph.len() == 0,
    })
    &&& s.metadata.encrypted_zeros@ == zeros
}

/// What opening a resolved identity does to the registry: the deliberate
/// collision guard (a live identifier is rejected outright, nothing
/// mutated), else one new session, its minted token and its URL.
pub open spec fn open_outcome(
    pre: ServerState,
    post: ServerState,
    origin: Seq<u8>,
    id: Seq<u8>,
    clean: Seq<u8>,
    wph: Seq<u8>,
    zeros: Seq<u8>,
    now_ms: u64,
    r: Result<OpenResponse, ServiceError>,
) -> bool {
    match r {
        Ok(resp) => {
            &&& !pre.contains_id(id)
            &&& post.contains_id(id)
            &&& post.sessions@.len() == pre.sessions@.len() + 1
            &&& post.sessions@ == pre.sessions@.push(post.sessions@.last())
            &&& session_matches(post.sessions@.last(), id, clean, wph, zeros, now_ms)
            &&& resp.name@ == id
            &&& resp.token@ == spec_token(pre.secret@, id)
            &&& resp.url@ == origin + spec_url_infix() + id
        },
        Err(e) => e == ServiceError::AlreadyExists && pre.contains_id(id) && post == pre,
    }
}

/// Law: an identifier already live in the directory makes the open outcome
/// for that identifier the already-exists rejection, with the registry
/// untouched; since a successful open leaves its identifier live, a second
/// open resolving to the same identifier can only be rejected.
pub proof fn lemma_open_collision(
    pre: ServerState,
    post: ServerState,
    origin: Seq<u8>,
    id: Seq<u8>,
    clean: Seq<u8>,
    wph: Seq<u8>,
    zeros: Seq<u8>,
    now_ms: u64,
    r: Result<OpenResponse, ServiceError>,
)
    requires
        pre.contains_id(id),
        open_outcome(pre, post, origin, id, clean, wph, zeros, now_ms, r),
    ensures
        r == Err::<OpenResponse, ServiceError>(ServiceError::AlreadyExists),
        post == pre,
{
}

/// The origin in force: the operator-configured override when present, else
/// the one the client presented.
pub open spec fn spec_effective_origin(overridden: Option<Vec<u8>>, req_origin: Seq<u8>) -> Seq<
    u8,
> {
    match overridden {
        Some(o) => o@,
        None => req_origin,
    }
}

/// Server that handles the RPC requests of the command-line client, over the
/// process-wide server state.
pub struct GrpcServer(pub ServerState);

impl GrpcServer {
    /// Construct a new `GrpcServer` instance with associated state.
    pub fn new(state: ServerState) -> (s: GrpcServer)
        ensures
            s.0 == state,
    {
        GrpcServer(state)
    }

    /// Open with the session identity already resolved: one
    /// compare-and-insert against the directory, name parsing, token minting
    /// and URL composition. Public beside [`GrpcServer::open`] so that an
    /// identity chosen outside (or a contrived one, in tests) goes through
    /// the same path.
    pub fn open_with_id(
        &mut self,
        origin: Vec<u8>,
        session_id: Vec<u8>,
        clean_name: &Vec<u8>,
        write_password_hash: Vec<u8>,
        encrypted_zeros: Vec<u8>,
        now_ms: u64,
    ) -> (r: Result<OpenResponse, ServiceError>)
        requires
            old(self).0.wf(),
        ensures
            final(self).0.wf(),
            old(self).0.same_config(final(self).0),
            open_outcome(
                old(self).0,
                final(self).0,
                origin@,
                session_id@,
                clean_name@,
                write_password_hash@,
                encrypted_zeros@,
                now_ms,
                r,
            ),
    {
        match self.0.position(&session_id) {
            Some(_) => Err(ServiceError::AlreadyExists),
            None => {
                let metadata = parse_name(clean_name, write_password_hash, encrypted_zeros);
                let token = mint_token(&self.0.secret, &session_id);
                let url = compose_url(&origin, &session_id);
                let resp_name = copy_bytes(&session_id);
                let session = Session::new(session_id, metadata, now_ms);
                self.0.insert(session);
                Ok(OpenResponse { name: resp_name, token, url })
            },
        }
    }

    /// The `Open` operation: the origin in force must be non-empty; the
    /// session identity is the reused one when the name carries the
    /// reconnection marker, else a fresh random 10-character alphanumeric
    /// identifier; then the resolved identity is opened.
    pub fn open(&mut self, request: OpenRequest, now_ms: u64) -> (r: Result<
        OpenResponse,
        ServiceError,
    >)
        requires
            old(self).0.wf(),
        ensures
            final(self).0.wf(),
            old(self).0.same_config(final(self).0),
            ({
                let origin = spec_effective_origin(old(self).0.override_origin, request.origin@);
                if origin.len() == 0 {
                    r == Err::<OpenResponse, ServiceError>(ServiceError::InvalidArgument)
                        && *final(self) == *old(self)
                } else {
                    match spec_reconnect_split(request.name@) {
                        Some(p) => open_outcome(
                            old(self).0,
                            final(self).0,
                            origin,
                            p.0,
                            p.1,
                            request.write_password_hash@,
                            request.encrypted_zeros@,
                            now_ms,
                            r,
                        ),
                        None => exists|id: Seq<u8>|
                            id.len() == 10 && (forall|k: int|
                                0 <= k < id.len() ==> is_ascii_alnum(id[k])) && #[trigger] open_outcome(
                                old(self).0,
                                final(self).0,
                                origin,
                                id,
                                request.name@,
                                request.write_password_hash@,
                                request.encrypted_zeros@,
                                now_ms,
                                r,
                            ),
                    }
                }
            }),
    {
        let OpenRequest { origin: req_origin, name, write_password_hash, encrypted_zeros } =
            request;
        let origin: Vec<u8> = match &self.0.override_origin {
            Some(o) => copy_bytes(o),
            None => req_origin,
        };
        if origin.len() == 0 {
            return Err(ServiceError::InvalidArgument);
        }
        match reconnect_split(&name) {
            Some((session_id, clean_name)) => self.open_with_id(
                origin,
                session_id,
                &clean_name,
                write_password_hash,
                encrypted_zeros,
                now_ms,
            ),
            None => {
                let session_id = random_session_id(10);
                let ghost gid = session_id@;
                let r = self.open_with_id(
                    origin,
                    session_id,
                    &name,
                    write_password_hash,
                    encrypted_zeros,
                    now_ms,
                );
                proof {
                    assert(gid.len() == 10);
                }
                r
            },
        }
    }

    /// Check the mandatory first message of a `Channel` call: it must be a
    /// hello carrying a name/token pair, and the token must verify against
    /// the named session. Yields the session name and the pane ids the
    /// client wants recovered. No message, a first message that is not a
    /// hello, or a missing name/token pair is an invalid argument; a bad
    /// token is rejected with no detail.
    pub fn check_hello(&self, first: Option<ClientMessage>) -> (r: Result<
        (Vec<u8>, Vec<u32>),
        ServiceError,
    >)
        ensures
            match first {
                Some(m) => match m {
                    ClientMessage::Hello(h) => match spec_hello_parts(h@) {
                        Some(parts) => if token_ok(self.0.secret@, parts.0, parts.1) {
                            match r {
                                Ok(p) => p.0@ == parts.0 && p.1@ == spec_shell_ids(parts.2),
                                Err(_) => false,
                            }
                        } else {
                            r == Err::<(Vec<u8>, Vec<u32>), ServiceError>(
                                ServiceError::Unauthenticated,
                            )
                        },
                        None => r == Err::<(Vec<u8>, Vec<u32>), ServiceError>(
                            ServiceError::InvalidArgument,
                        ),
                    },
                    _ => r == Err::<(Vec<u8>, Vec<u32>), ServiceError>(
                        ServiceError::InvalidArgument,
                    ),
                },
                None => r == Err::<(Vec<u8>, Vec<u32>), ServiceError>(
                    ServiceError::InvalidArgument,
                ),
            },
    {
        match first {
            Some(ClientMessage::Hello(h)) => {
                match parse_hello(&h) {
                    Ok(parts) => {
                        match validate_token(&self.0.secret, &parts.name, &parts.token) {
                            Ok(()) => {
                                let ids = parse_shell_ids(&parts.ids_raw);
                                Ok((parts.name, ids))
                            },
                            Err(e) => Err(e),
                        }
                    },
                    Err(e) => Err(e),
                }
            },
            Some(_) => Err(ServiceError::InvalidArgument),
            None => Err(ServiceError::InvalidArgument),
        }
    }

    /// Attach a checked hello to its session: resolve the name in the
    /// directory (`NotFound` when absent) and recover the listed panes.
    /// Yields the session's directory position and the panes owed a forced
    /// resize, exactly one per listed id.
    pub fn attach(&mut self, name: &Vec<u8>, ids: &Vec<u32>) -> (r: Result<
        (usize, Vec<u32>),
        ServiceError,
    >)
        requires
            old(self).0.wf(),
        ensures
            final(self).0.wf(),
            old(self).0.same_config(final(self).0),
            match r {
                Ok(p) => {
                    &&& old(self).0.contains_id(name@)
                    &&& p.0 < old(self).0.sessions@.len()
                    &&& old(self).0.sessions@[p.0 as int].id@ == name@
                    &&& final(self).0.sessions@ == old(self).0.sessions@.update(
                        p.0 as int,
                        final(self).0.sessions@[p.0 as int],
                    )
                    &&& old(self).0.sessions@[p.0 as int].same_but_shells(
                        final(self).0.sessions@[p.0 as int],
                    )
                    &&& final(self).0.sessions@[p.0 as int].shells@ == spec_recover(
                        old(self).0.sessions@[p.0 as int].shells@,
                        ids@,
                    )
                    &&& p.1@ == ids@
                },
                Err(e) => e == ServiceError::NotFound && !old(self).0.contains_id(name@) && *final(self) == *old(self),
            },
    {
        match self.0.position(name) {
            Some(i) => {
                let session = self.0.session_mut(i);
                let resizes = recover_shells(session, ids);
                proof {
                    let pre = old(self).0.sessions@;
                    let post = self.0.sessions@;
                    assert(post == pre.update(i as int, post[i as int]));
                    assert(forall|a: int, b: int|
                        0 <= a < b < post.len() ==> post[a].id@ != post[b].id@) by {
                        assert(forall|k: int|
                            0 <= k < post.len() ==> post[k].id@ == pre[k].id@);
                    }
                    assert(forall|k: int| 0 <= k < post.len() ==> (#[trigger] post[k]).wf());
                }
                Ok((i, resizes))
            },
            None => Err(ServiceError::NotFound),
        }
    }

    /// The `Close` operation: verify the token, then signal termination and
    /// drop the session from the directory. A bad token is rejected with no
    /// information about which part failed; a removal failure is internal.
    pub fn close(&mut self, request: CloseRequest) -> (r: Result<(), ServiceError>)
        requires
            old(self).0.wf(),
        ensures
            final(self).0.wf(),
            old(self).0.same_config(final(self).0),
            !token_ok(old(self).0.secret@, request.name@, request.token@) ==> r == Err::<
                (),
                ServiceError,
            >(ServiceError::Unauthenticated) && *final(self) == *old(self),
            token_ok(old(self).0.secret@, request.name@, request.token@) ==> match r {
                Ok(()) => old(self).0.contains_id(request.name@) && final(self).0.sessions@ == old(self).0.sessions@.remove(old(self).0.session_index(request.name@)) && !final(self).0.contains_id(request.name@),
                Err(e) => e == ServiceError::Internal && !old(self).0.contains_id(request.name@)
                    && *final(self) == *old(self),
            },
    {
        match validate_token(&self.0.secret, &request.name, &request.token) {
            Ok(()) => {
                match self.0.close_session(&request.name) {
                    Ok(_terminated) => Ok(()),
                    Err(e) => Err(e),
                }
            },
            Err(e) => Err(e),
        }
    }
}

} // verus!
