//! Per-session state: the shells (terminal panes) of one session with their
//! data-sequencing cursors, plus the liveness flag and last-access hook.
//!
//! Stale, duplicate or out-of-order data chunks are dropped (rejected with an
//! in-band error), never buffered: a chunk is accepted exactly when its
//! sequence number is the pane's expected one, and acceptance advances the
//! cursor by one (saturating at the top of the range).

use crate::metadata::Metadata;
use vstd::prelude::*;

verus! {

/// One terminal pane within a session.
#[derive(Clone, Copy)]
pub struct Shell {
    /// Pane identifier, unique among the live shells of its session.
    pub id: u32,
    /// Last-known screen-position hint for client rendering.
    pub center: (i32, i32),
    /// Sequence number expected of the next accepted data chunk.
    pub next_seq: u64,
}

/// Errors of pane-level operations; each becomes an in-band error notice,
/// never a torn-down connection.
#[derive(Clone, Copy, Debug, PartialEq, Eq, Structural)]
pub enum SessionError {
    /// A shell with the given id already exists.
    DuplicateShell,
    /// No shell with the given id exists.
    ShellNotFound,
    /// The chunk's sequence number is not the pane's expected one.
    SequenceMismatch,
}

/// The sequence cursor after accepting chunk `seq`: one past it, saturating.
pub open spec fn next_after(seq: u64) -> u64 {
    if seq == u64::MAX {
        u64::MAX
    } else {
        (seq + 1) as u64
    }
}

/// The aggregate state of one session. The surrounding process shares it
/// between connection tasks behind a lock; each operation here is one
/// read-modify-write critical section.
pub struct Session {
    /// Externally visible session identifier.
    pub id: Vec<u8>,
    /// Owner description, immutable after creation.
    pub metadata: Metadata,
    /// Live shells, ids unique (see [`Session::wf`]).
    pub shells: Vec<Shell>,
    /// Set exactly once, when the session is explicitly closed.
    pub terminated: bool,
    /// Epoch milliseconds of the last inbound client message; read by an
    /// external idle-session reaper.
    pub last_access: u64,
}

impl Session {
    /// Well-formedness: shell ids are unique.
    pub open spec fn wf(self) -> bool {
        forall|i: int, j: int|
            0 <= i < j < self.shells@.len() ==> self.shells@[i].id != self.shells@[j].id
    }

    pub open spec fn spec_has_shell(self, id: u32) -> bool {
        exists|i: int| 0 <= i < self.shells@.len() && self.shells@[i].id == id
    }

    /// Index of the shell with this id (unique under `wf`).
    pub open spec fn shell_index(self, id: u32) -> int {
        choose|i: int| 0 <= i < self.shells@.len() && self.shells@[i].id == id
    }

    /// Everything but the shell collection is unchanged.
    pub open spec fn same_but_shells(self, other: Session) -> bool {
        self.id == other.id && self.metadata == other.metadata && self.terminated
            == other.terminated && self.last_access == other.last_access
    }

    pub fn new(id: Vec<u8>, metadata: Metadata, now_ms: u64) -> (s: Session)
        ensures
            s.id == id,
            s.metadata == metadata,
            s.shells@ =~= Seq::<Shell>::empty(),
            !s.terminated,
            s.last_access == now_ms,
            s.wf(),
    {
        Session { id, metadata, shells: Vec::new(), terminated: false, last_access: now_ms }
    }

    fn find_shell(&self, id: u32) -> (r: Option<usize>)
        ensures
            match r {
                Some(i) => i < self.shells@.len() && self.shells@[i as int].id == id,
                None => !self.spec_has_shell(id),
            },
    {
        let mut i: usize = 0;
        while i < self.shells.len()
            invariant
                i <= self.shells@.len(),
                forall|j: int| 0 <= j < i ==> self.shells@[j].id != id,
            decreases self.shells@.len() - i,
        {
            if self.shells[i].id == id {
                return Some(i);
            }
            i += 1;
        }
        None
    }

    /// Refresh the last-access timestamp.
    pub fn access(&mut self, now_ms: u64)
        ensures
            *final(self) == (Session { last_access: now_ms, ..*old(self) }),
    {
        self.last_access = now_ms;
    }

    /// Mark the session as closed. Level-triggered: every attached handler
    /// observes it.
    pub fn terminate(&mut self)
        ensures
            *final(self) == (Session { terminated: true, ..*old(self) }),
    {
        self.terminated = true;
    }

    /// Create a new shell. A duplicate id is rejected and changes nothing.
    pub fn add_shell(&mut self, id: u32, center: (i32, i32)) -> (r: Result<(), SessionError>)
        requires
            old(self).wf(),
        ensures
            final(self).wf(),
            old(self).same_but_shells(*final(self)),
            match r {
                Ok(()) => !old(self).spec_has_shell(id) && final(self).shells@ == old(self).shells@.push(Shell { id, center, next_seq: 0 }),
                Err(e) => e == SessionError::DuplicateShell && old(self).spec_has_shell(id) && *final(self) == *old(self),
            },
            final(self).spec_has_shell(id),
    {
        match self.find_shell(id) {
            Some(_) => Err(SessionError::DuplicateShell),
            None => {
                self.shells.push(Shell { id, center, next_seq: 0 });
                proof {
                    let s = self.shells@;
                    assert(forall|i: int| 0 <= i < s.len() - 1 ==> s[i] == old(self).shells@[i]);
                    assert(s[s.len() - 1].id == id);
                    assert(forall|i: int, j: int|
                        0 <= i < j < s.len() ==> s[i].id != s[j].id) by {
                        assert(forall|i: int|
                            0 <= i < s.len() - 1 ==> s[i].id != id);
                    }
                }
                Ok(())
            },
        }
    }

    /// Remove a shell. A missing id is rejected and changes nothing.
    pub fn close_shell(&mut self, id: u32) -> (r: Result<(), SessionError>)
        requires
            old(self).wf(),
        ensures
            final(self).wf(),
            old(self).same_but_shells(*final(self)),
            match r {
                Ok(()) => old(self).spec_has_shell(id) && final(self).shells@ == old(self).shells@.remove(old(self).shell_index(id)) && !final(self).spec_has_shell(id),
                Err(e) => e == SessionError::ShellNotFound && !old(self).spec_has_shell(id)
                    && *final(self) == *old(self),
            },
    {
        match self.find_shell(id) {
            Some(i) => {
                proof {
                    let idx = old(self).shell_index(id);
                    assert(old(self).spec_has_shell(id));
                    assert(old(self).shells@[idx].id == id);
                    assert(idx == i as int);
                }
                self.shells.remove(i);
                proof {
                    let s = self.shells@;
                    assert(forall|k: int| 0 <= k < s.len() ==> s[k].id != id) by {
                        assert(forall|k: int|
                            0 <= k < i ==> s[k] == old(self).shells@[k]);
                        assert(forall|k: int|
                            i <= k < s.len() ==> s[k] == old(self).shells@[k + 1]);
                    }
                }
                Ok(())
            },
            None => Err(SessionError::ShellNotFound),
        }
    }

    /// Validate and account one data chunk for a pane: accepted exactly when
    /// `seq` is the pane's expected sequence number, advancing the cursor;
    /// rejected otherwise with no state change. The chunk's payload passes
    /// through to viewers and is not part of this state.
    pub fn add_data(&mut self, id: u32, seq: u64) -> (r: Result<(), SessionError>)
        requires
            old(self).wf(),
        ensures
            final(self).wf(),
            old(self).same_but_shells(*final(self)),
            match r {
                Ok(()) => old(self).spec_has_shell(id) && seq == old(self).shells@[old(self).shell_index(id)].next_seq && final(self).shells@ == old(self).shells@.update(
                    old(self).shell_index(id),
                    Shell {
                        next_seq: next_after(seq),
                        ..old(self).shells@[old(self).shell_index(id)]
                    },
                ),
                Err(e) => *final(self) == *old(self) && (if old(self).spec_has_shell(id) {
                    e == SessionError::SequenceMismatch && seq != old(self).shells@[old(self).shell_index(id)].next_seq
                } else {
                    e == SessionError::ShellNotFound
                }),
            },
    {
        match self.find_shell(id) {
            Some(i) => {
                proof {
                    let idx = old(self).shell_index(id);
                    assert(old(self).spec_has_shell(id));
                    assert(old(self).shells@[idx].id == id);
                    assert(idx == i as int);
                }
                let sh = self.shells[i];
                if sh.next_seq == seq {
                    let advanced = if seq == u64::MAX {
                        u64::MAX
                    } else {
                        seq + 1
                    };
                    self.shells.set(i, Shell { next_seq: advanced, ..sh });
                    proof {
                        let s = self.shells@;
                        assert(forall|a: int, b: int|
                            0 <= a < b < s.len() ==> s[a].id != s[b].id) by {
                            assert(forall|k: int|
                                0 <= k < s.len() ==> s[k].id == old(self).shells@[k].id);
                        }
                    }
                    Ok(())
                } else {
                    Err(SessionError::SequenceMismatch)
                }
            },
            None => Err(SessionError::ShellNotFound),
        }
    }

    /// The per-pane sequence-number map carried by a `Sync` message.
    pub fn sequence_numbers(&self) -> (r: Vec<(u32, u64)>)
        ensures
            r@.len() == self.shells@.len(),
            forall|i: int|
                0 <= i < r@.len() ==> r@[i] == (self.shells@[i].id, self.shells@[i].next_seq),
    {
        let mut r: Vec<(u32, u64)> = Vec::new();
        let mut i: usize = 0;
        while i < self.shells.len()
            invariant
                i <= self.shells@.len(),
                r@.len() == i,
                forall|j: int|
                    0 <= j < i ==> r@[j] == (self.shells@[j].id, self.shells@[j].next_seq),
            decreases self.shells@.len() - i,
        {
            let sh = self.shells[i];
            r.push((sh.id, sh.next_seq));
            i += 1;
        }
        r
    }
}

} // verus!
