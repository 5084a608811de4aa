//! Checkpoints: timestamped boundary markers between activity intervals.

use vstd::prelude::*;
use crate::clock::now_timestamp;
use crate::time::{round_secs_spec, round_to_nearest_fifteen_minutes, Timestamp};

verus! {

/// A boundary marker in a day's work: a moment in time, optionally tagged
/// with a project, a free-text note, and a registered flag. The identifier
/// stays empty until the remote store first persists the checkpoint.
pub struct Checkpoint {
    pub id: Option<String>,
    pub time: Timestamp,
    pub project: Option<String>,
    pub message: Option<String>,
    pub registered: bool,
}

impl Checkpoint {
    /// A checkpoint is well formed when its timestamp is.
    pub open spec fn wf(self) -> bool {
        self.time.wf()
    }

    /// A fresh checkpoint: stamped with the present moment, optional fields
    /// empty, not yet registered, not yet persisted.
    pub fn new() -> (r: Checkpoint)
        ensures
            r.id is None,
            r.project is None,
            r.message is None,
            !r.registered,
            r.wf(),
    {
        Checkpoint {
            id: None,
            time: now_timestamp(),
            project: None,
            message: None,
            registered: false,
        }
    }

    /// The value of a checkpoint that has just been created at moment `t`:
    /// no identifier, no tags, not registered.
    pub open spec fn fresh_spec(t: Timestamp) -> Checkpoint {
        Checkpoint { id: None, time: t, project: None, message: None, registered: false }
    }

    /// A bare checkpoint at a chosen moment, all optional fields empty.
    pub fn at_time(t: Timestamp) -> (r: Checkpoint)
        ensures
            r == Checkpoint::fresh_spec(t),
    {
        Checkpoint { id: None, time: t, project: None, message: None, registered: false }
    }

    /// The checkpoint's moment rounded to the fifteen-minute quantum.
    pub fn rounded_time(&self) -> (r: Timestamp)
        requires
            self.wf(),
        ensures
            r.secs == round_secs_spec(self.time.secs as int),
            r.wf(),
    {
        round_to_nearest_fifteen_minutes(self.time)
    }

    /// An equal copy of the checkpoint (the text fields keep it from being
    /// `Copy`).
    pub fn duplicate(&self) -> (r: Checkpoint)
        ensures
            r == *self,
    {
        Checkpoint {
            id: self.id.clone(),
            time: self.time,
            project: self.project.clone(),
            message: self.message.clone(),
            registered: self.registered,
        }
    }
}

} // verus!
