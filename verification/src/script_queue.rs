//! Run-once Lua scripts that wait, one after the other, for the user to confirm them.

use std::collections::VecDeque;
use std::sync::Arc;

use vstd::prelude::*;

verus! {

/// A run-once script that waits for confirmation.
#[derive(Clone, Debug)]
pub struct PendingEphemeralScript {
    pub name: String,
    pub source: Arc<str>,
    pub source_path: Option<String>,
}

/// What the user does with the question about the first waiting script.
#[derive(Clone, Copy, Debug, PartialEq, Eq, Structural)]
pub enum ScriptConfirmationEvent {
    /// The question is shown with no answer.
    Frame,
    /// "Run once".
    Accept,
    Cancel,
}

/// The run-once scripts waiting for confirmation, first come first asked.
#[derive(Debug)]
pub struct EphemeralScriptQueue {
    pending: VecDeque<PendingEphemeralScript>,
}

impl EphemeralScriptQueue {
    /// No script waiting.
    pub fn new() -> (r: Self)
        ensures
            r.waiting() == Seq::<PendingEphemeralScript>::empty(),
    {
        EphemeralScriptQueue { pending: VecDeque::new() }
    }

    /// The waiting scripts, in the order they are asked about.
    pub closed spec fn waiting(self) -> Seq<PendingEphemeralScript> {
        self.pending@
    }

    /// A script joins the end of the queue.
    pub fn queue(&mut self, script: PendingEphemeralScript)
        ensures
            final(self).waiting() == old(self).waiting().push(script),
    {
        self.pending.push_back(script);
    }

    /// The script that the question is about: the first waiting one.
    pub fn first(&self) -> (r: Option<&PendingEphemeralScript>)
        ensures
            match r {
                Some(script) => self.waiting().len() > 0 && *script == self.waiting()[0],
                None => self.waiting().len() == 0,
            },
    {
        if self.pending.len() > 0 {
            Some(&self.pending[0])
        } else {
            None
        }
    }

    /// One answer to the question about the first script: accepting hands it over to be
    /// loaded and run, cancelling drops it; either way the next script is asked about next.
    pub fn step(&mut self, event: ScriptConfirmationEvent) -> (r: Option<PendingEphemeralScript>)
        ensures
            match event {
                ScriptConfirmationEvent::Frame => r is None && final(self).waiting() == old(self).waiting(),
                _ => {
                    &&& final(self).waiting() == if old(self).waiting().len() > 0 {
                        old(self).waiting().drop_first()
                    } else {
                        old(self).waiting()
                    }
                    &&& r == if event == ScriptConfirmationEvent::Accept && old(self).waiting().len() > 0 {
                        Some(old(self).waiting()[0])
                    } else {
                        None
                    }
                },
            },
    {
        match event {
            ScriptConfirmationEvent::Frame => None,
            ScriptConfirmationEvent::Accept => {
                let first = self.pending.pop_front();
                proof {
                    if old(self).waiting().len() > 0 {
                        assert(self.pending@ =~= old(self).waiting().drop_first());
                    }
                }
                first
            },
            ScriptConfirmationEvent::Cancel => {
                let _ = self.pending.pop_front();
                proof {
                    if old(self).waiting().len() > 0 {
                        assert(self.pending@ =~= old(self).waiting().drop_first());
                    }
                }
                None
            },
        }
    }
}

} // verus!
