//! The session registry: process-wide directory of live sessions keyed by
//! identifier, owner of the token secret and of the operator's origin
//! override. Identifier reservation is a single compare-and-insert under the
//! registry lock of the surrounding process; each operation here is one such
//! critical section.

use crate::bytes::bytes_eq;
use crate::session::Session;
use crate::wire::ServiceError;
use vstd::prelude::*;
use vstd::std_specs::vec::vec_index_mut;

verus! {

/// An ASCII letter or digit.
pub open spec fn is_ascii_alnum(b: u8) -> bool {
    (48 <= b <= 57) || (65 <= b <= 90) || (97 <= b <= 122)
}

/// Relies on rand's `Alphanumeric` distribution (`Rng::sample` on
/// `thread_rng`): every sampled byte is an ASCII letter or digit.
#[verifier::external_body]
fn random_alphanumeric_byte() -> (r: u8)
    ensures
        is_ascii_alnum(r),
{
    rand::Rng::sample(&mut rand::thread_rng(), rand::distributions::Alphanumeric)
}

/// A fresh random alphanumeric identifier of the given length.
pub fn random_session_id(len: usize) -> (r: Vec<u8>)
    ensures
        r@.len() == len,
        forall|i: int| 0 <= i < r@.len() ==> is_ascii_alnum(r@[i]),
{
    let mut r: Vec<u8> = Vec::new();
    let mut i: usize = 0;
    while i < len
        invariant
            i <= len,
            r@.len() == i,
            forall|j: int| 0 <= j < i ==> is_ascii_alnum(r@[j]),
        decreases len - i,
    {
        r.push(random_alphanumeric_byte());
        i += 1;
    }
    r
}

/// Process-wide server state: the directory of live sessions, the fixed
/// secret used for token minting, and the optional origin override.
pub struct ServerState {
    /// Secret for the keyed MAC behind session tokens; fixed at startup.
    pub secret: Vec<u8>,
    /// Operator-configured origin, taking precedence over the client's.
    pub override_origin: Option<Vec<u8>>,
    /// Live sessions, identifiers unique (see [`ServerState::wf`]).
    pub sessions: Vec<Session>,
}

impl ServerState {
    /// Well-formedness: session identifiers are unique, each session is
    /// well-formed.
    pub open spec fn wf(self) -> bool {
        &&& forall|i: int, j: int|
            0 <= i < j < self.sessions@.len() ==> self.sessions@[i].id@ != self.sessions@[j].id@
        &&& forall|i: int| 0 <= i < self.sessions@.len() ==> (#[trigger] self.sessions@[i]).wf()
    }

    pub open spec fn contains_id(self, id: Seq<u8>) -> bool {
        exists|i: int| 0 <= i < self.sessions@.len() && self.sessions@[i].id@ == id
    }

    /// Index of the session with this identifier (unique under `wf`).
    pub open spec fn session_index(self, id: Seq<u8>) -> int {
        choose|i: int| 0 <= i < self.sessions@.len() && self.sessions@[i].id@ == id
    }

    /// The secret and the origin override are unchanged.
    pub open spec fn same_config(self, other: ServerState) -> bool {
        self.secret == other.secret && self.override_origin == other.override_origin
    }

    pub fn new(secret: Vec<u8>, override_origin: Option<Vec<u8>>) -> (s: ServerState)
        ensures
            s.secret == secret,
            s.override_origin == override_origin,
            s.sessions@ =~= Seq::<Session>::empty(),
            s.wf(),
    {
        ServerState { secret, override_origin, sessions: Vec::new() }
    }

    fn find_session(&self, id: &Vec<u8>) -> (r: Option<usize>)
        ensures
            match r {
                Some(i) => i < self.sessions@.len() && self.sessions@[i as int].id@ == id@,
                None => !self.contains_id(id@),
            },
    {
        let mut i: usize = 0;
        while i < self.sessions.len()
            invariant
                i <= self.sessions@.len(),
                forall|j: int| 0 <= j < i ==> self.sessions@[j].id@ != id@,
            decreases self.sessions@.len() - i,
        {
            if bytes_eq(&self.sessions[i].id, id) {
                return Some(i);
            }
            i += 1;
        }
        None
    }

    /// Non-mutating lookup of a session by identifier.
    pub fn lookup(&self, id: &Vec<u8>) -> (r: Option<&Session>)
        ensures
            match r {
                Some(s) => self.contains_id(id@) && s.id@ == id@,
                None => !self.contains_id(id@),
            },
    {
        match self.find_session(id) {
            Some(i) => Some(&self.sessions[i]),
            None => None,
        }
    }

    /// Position of a session in the directory, for later mutable access.
    pub fn position(&self, id: &Vec<u8>) -> (r: Option<usize>)
        ensures
            match r {
                Some(i) => i < self.sessions@.len() && self.sessions@[i as int].id@ == id@,
                None => !self.contains_id(id@),
            },
    {
        self.find_session(id)
    }

    /// Mutable access to the session at a directory position.
    pub fn session_mut(&mut self, i: usize) -> (s: &mut Session)
        requires
            i < old(self).sessions@.len(),
        ensures
            *s == old(self).sessions@[i as int],
            final(self).sessions@ == old(self).sessions@.update(i as int, *final(s)),
            old(self).same_config(*final(self)),
    {
        vec_index_mut(&mut self.sessions, i)
    }

    /// Insert a session under a fresh identifier.
    pub fn insert(&mut self, session: Session)
        requires
            old(self).wf(),
            session.wf(),
            !old(self).contains_id(session.id@),
        ensures
            final(self).wf(),
            final(self).sessions@ == old(self).sessions@.push(session),
            old(self).same_config(*final(self)),
            final(self).contains_id(session.id@),
    {
        self.sessions.push(session);
        proof {
            let s = self.sessions@;
            assert(forall|i: int| 0 <= i < s.len() - 1 ==> s[i] == old(self).sessions@[i]);
            assert(forall|i: int, j: int| 0 <= i < j < s.len() ==> s[i].id@ != s[j].id@) by {
                assert(forall|i: int| 0 <= i < s.len() - 1 ==> s[i].id@ != session.id@);
            }
            assert(s[s.len() - 1].id@ == session.id@);
        }
    }

    /// Signal termination on the session with this identifier and drop it
    /// from the directory, returning it so that the surrounding process can
    /// broadcast the termination signal to attached handlers. An unknown
    /// identifier is a removal failure, reported as `Internal`.
    pub fn close_session(&mut self, id: &Vec<u8>) -> (r: Result<Session, ServiceError>)
        requires
            old(self).wf(),
        ensures
            final(self).wf(),
            old(self).same_config(*final(self)),
            match r {
                Ok(s) => old(self).contains_id(id@) && s == (Session {
                    terminated: true,
                    ..old(self).sessions@[old(self).session_index(id@)]
                }) && final(self).sessions@ == old(self).sessions@.remove(
                    old(self).session_index(id@),
                ) && !final(self).contains_id(id@),
                Err(e) => e == ServiceError::Internal && !old(self).contains_id(id@) && *final(self)
                    == *old(self),
            },
    {
        match self.find_session(id) {
            Some(i) => {
                proof {
                    let idx = old(self).session_index(id@);
                    assert(old(self).contains_id(id@));
                    assert(old(self).sessions@[idx].id@ == id@);
                    assert(idx == i as int);
                }
                let mut s = self.sessions.remove(i);
                s.terminate();
                proof {
                    let v = self.sessions@;
                    assert(forall|k: int| 0 <= k < v.len() ==> v[k].id@ != id@) by {
                        assert(forall|k: int| 0 <= k < i ==> v[k] == old(self).sessions@[k]);
                        assert(forall|k: int|
                            i <= k < v.len() ==> v[k] == old(self).sessions@[k + 1]);
                    }
                }
                Ok(s)
            },
            None => Err(ServiceError::Internal),
        }
    }
}

} // verus!
