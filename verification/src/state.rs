//! The running-job slot: at most one export (or model download) runs at a
//! time; it can be asked to cancel, and it is cleared only by the job
//! that owns it.

use vstd::prelude::*;
use crate::text::str_eq;

verus! {

broadcast use vstd::string::group_string_axioms;

/// The job in the slot: its id and whether cancellation was requested.
#[derive(Debug, Clone)]
pub struct JobHandle {
    pub job_id: String,
    pub cancel_requested: bool,
}

/// The slot holding the running job, if any.
#[derive(Debug)]
pub struct JobSlot {
    pub active: Option<JobHandle>,
}

/// The slot seen as the running job's id and cancellation flag.
pub open spec fn slot_view(active: Option<JobHandle>) -> Option<(Seq<char>, bool)> {
    match active {
        Some(h) => Some((h.job_id@, h.cancel_requested)),
        None => None,
    }
}

/// The slot after `id` finishes: cleared when `id` owns it, untouched
/// otherwise.
pub open spec fn after_finish(s: Option<(Seq<char>, bool)>, id: Seq<char>) -> Option<
    (Seq<char>, bool),
> {
    match s {
        Some((j, c)) => if j == id {
            None
        } else {
            s
        },
        None => None,
    }
}

/// The slot after a cancellation request: the running job is flagged.
pub open spec fn after_cancel(s: Option<(Seq<char>, bool)>) -> Option<(Seq<char>, bool)> {
    match s {
        Some((j, c)) => Some((j, true)),
        None => None,
    }
}

/// The message refusing a second export while one runs.
pub open spec fn busy_message() -> Seq<char> {
    "An export is already running; cancel it before starting a new one"@
}

impl JobSlot {
    /// An empty slot.
    pub fn new() -> (s: Self)
        ensures
            slot_view(s.active) is None,
    {
        JobSlot { active: None }
    }

    /// Puts `job_id` in the slot, replacing whatever was there, with no
    /// cancellation requested.
    pub fn start_job(&mut self, job_id: String)
        ensures
            slot_view(final(self).active) == Some((job_id@, false)),
    {
        self.active = Some(JobHandle { job_id, cancel_requested: false });
    }

    /// Clears the slot when `job_id` owns it; a stale job cannot clear a
    /// newer one.
    pub fn finish_job(&mut self, job_id: &str)
        ensures
            slot_view(final(self).active) == after_finish(slot_view(old(self).active), job_id@),
    {
        let owns = match &self.active {
            Some(h) => str_eq(&h.job_id, job_id),
            None => false,
        };
        if owns {
            self.active = None;
        }
    }

    /// Requests cancellation of the running job and returns its id, or
    /// returns none when nothing runs.
    pub fn cancel_job(&mut self) -> (r: Option<String>)
        ensures
            slot_view(final(self).active) == after_cancel(slot_view(old(self).active)),
            match slot_view(old(self).active) {
                Some((j, c)) => r matches Some(id) && id@ == j,
                None => r is None,
            },
    {
        match &mut self.active {
            Some(h) => {
                h.cancel_requested = true;
                Some(h.job_id.clone())
            },
            None => None,
        }
    }

    /// Whether the job `job_id` was asked to cancel. A job that no longer
    /// owns the slot counts as cancelled.
    pub fn is_cancelled(&self, job_id: &str) -> (r: bool)
        ensures
            r == match slot_view(self.active) {
                Some((j, c)) => j != job_id@ || c,
                None => true,
            },
    {
        match &self.active {
            Some(h) => !str_eq(&h.job_id, job_id) || h.cancel_requested,
            None => true,
        }
    }

    /// Starts an export unless one is already running, in which case the
    /// slot is left as it is and the request is refused.
    pub fn try_start_export(&mut self, job_id: String) -> (r: Result<(), String>)
        ensures
            slot_view(old(self).active) is Some ==> (r matches Err(e) && e@ == busy_message()
                && slot_view(final(self).active) == slot_view(old(self).active)),
            slot_view(old(self).active) is None ==> (r is Ok && slot_view(final(self).active)
                == Some((job_id@, false))),
    {
        if self.active.is_some() {
            return Err(
                "An export is already running; cancel it before starting a new one".to_owned(),
            );
        }
        self.start_job(job_id);
        Ok(())
    }
}

/// The laws of the slot. A job that started and then finishes leaves the
/// slot empty, whether or not it was cancelled meanwhile; cancelling keeps
/// the job in place (only its owner clears it) and is idempotent; a job
/// that does not own the slot cannot clear it.
pub proof fn lemma_job_slot_laws(id: Seq<char>, other: Seq<char>, s: Option<(Seq<char>, bool)>)
    requires
        id != other,
    ensures
        after_finish(Some((id, false)), id) is None,
        after_finish(after_cancel(Some((id, false))), id) is None,
        after_cancel(Some((id, false))) == Some((id, true)),
        after_cancel(after_cancel(s)) == after_cancel(s),
        after_finish(Some((id, false)), other) == Some((id, false)),
        after_finish(after_finish(s, id), id) == after_finish(s, id),
{
}

} // verus!
