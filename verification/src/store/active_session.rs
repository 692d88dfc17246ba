//! Single-process "what's currently happening" state: the active debug
//! session and the active checkpoint that every observation insert stamps
//! onto its row.
//!
//! The state is one owned value, changed through `&mut self`. Session
//! values are not shared between copies: a session handed out by
//! `ActiveSessionState::current_session` is a snapshot, and later activity
//! is recorded on the state itself with `ActiveSessionState::touch_session`,
//! which every later read of the state sees.
use vstd::prelude::*;

use crate::types::observation::dup_opt_string;

verus! {

/// The debug session that observations are currently attributed to.
#[derive(Debug)]
pub struct ActiveDebugSession {
    pub id: String,
    pub project_slug: String,
    pub started_at_ns: u64,
    pub last_activity_ns: u64,
    pub agent_id: String,
    pub feature: Option<String>,
}

impl ActiveDebugSession {
    /// Records activity at `now_ns`.
    pub fn touch(&mut self, now_ns: u64)
        ensures
            *final(self) == (ActiveDebugSession { last_activity_ns: now_ns, ..*old(self) }),
    {
        self.last_activity_ns = now_ns;
    }

    /// Time of the last recorded activity.
    pub fn last_activity(&self) -> (r: u64)
        ensures
            r == self.last_activity_ns,
    {
        self.last_activity_ns
    }

    /// An equal snapshot; touching it does not touch `self`.
    fn snapshot(&self) -> (r: ActiveDebugSession)
        ensures
            r == *self,
    {
        ActiveDebugSession {
            id: self.id.clone(),
            project_slug: self.project_slug.clone(),
            started_at_ns: self.started_at_ns,
            last_activity_ns: self.last_activity_ns,
            agent_id: self.agent_id.clone(),
            feature: dup_opt_string(&self.feature),
        }
    }
}

/// The active debug session and checkpoint, both initially absent.
#[derive(Debug)]
pub struct ActiveSessionState {
    debug_session: Option<ActiveDebugSession>,
    checkpoint: Option<String>,
}

impl ActiveSessionState {
    /// The active session, as last set.
    pub closed spec fn spec_session(&self) -> Option<ActiveDebugSession> {
        self.debug_session
    }

    /// The active checkpoint, as last set.
    pub closed spec fn spec_checkpoint(&self) -> Option<String> {
        self.checkpoint
    }

    /// No active session and no active checkpoint.
    pub fn new() -> (r: ActiveSessionState)
        ensures
            r.spec_session() is None,
            r.spec_checkpoint() is None,
    {
        ActiveSessionState { debug_session: None, checkpoint: None }
    }

    /// A snapshot of the active session, if any.
    pub fn current_session(&self) -> (r: Option<ActiveDebugSession>)
        ensures
            r == self.spec_session(),
    {
        match &self.debug_session {
            Some(s) => Some(s.snapshot()),
            None => None,
        }
    }

    /// A copy of the active checkpoint, if any.
    pub fn current_checkpoint(&self) -> (r: Option<String>)
        ensures
            r == self.spec_checkpoint(),
    {
        dup_opt_string(&self.checkpoint)
    }

    /// Replaces the active session; the checkpoint is unchanged.
    pub fn set_session(&mut self, session: Option<ActiveDebugSession>)
        ensures
            final(self).spec_session() == session,
            final(self).spec_checkpoint() == old(self).spec_checkpoint(),
    {
        self.debug_session = session;
    }

    /// Records activity at `now_ns` on the active session, if there is one;
    /// the checkpoint is unchanged.
    pub fn touch_session(&mut self, now_ns: u64)
        ensures
            final(self).spec_session() == (match old(self).spec_session() {
                Some(s) => Some(ActiveDebugSession { last_activity_ns: now_ns, ..s }),
                None => None,
            }),
            final(self).spec_checkpoint() == old(self).spec_checkpoint(),
    {
        match &mut self.debug_session {
            Some(s) => s.touch(now_ns),
            None => {},
        }
    }

    /// Replaces the active checkpoint; the session is unchanged.
    pub fn set_checkpoint(&mut self, checkpoint: Option<String>)
        ensures
            final(self).spec_checkpoint() == checkpoint,
            final(self).spec_session() == old(self).spec_session(),
    {
        self.checkpoint = checkpoint;
    }

    /// Clears both fields.
    pub fn clear(&mut self)
        ensures
            final(self).spec_session() is None,
            final(self).spec_checkpoint() is None,
    {
        self.set_session(None);
        self.set_checkpoint(None);
    }
}

impl Default for ActiveSessionState {
    fn default() -> (r: ActiveSessionState)
        ensures
            r.spec_session() is None,
            r.spec_checkpoint() is None,
    {
        ActiveSessionState::new()
    }
}

} // verus!
