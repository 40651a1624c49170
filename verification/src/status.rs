//! The transient status message and its stale-clear rule.
//!
//! Each new message takes the next value of a monotonically increasing
//! counter.  A delayed clear captures the counter value of the message it
//! was scheduled for and acts only if that value is still current, so the
//! clear scheduled for a superseded message is a no-op.  The timer itself
//! lives outside this crate; the decisions live here.

use vstd::prelude::*;

verus! {

/// The currently shown status message, if any, with its generation number.
pub struct StatusMessage {
    pub current: Option<(usize, String)>,
}

impl StatusMessage {
    /// No message is shown at first.
    pub fn new() -> (m: StatusMessage)
        ensures
            m.current is None,
    {
        StatusMessage { current: None }
    }

    /// Show a message; returns the generation number a delayed clear must
    /// capture.  The first message gets generation 1, and each later one
    /// the next number.  (The counter bound is a machine limit.)
    pub fn set(&mut self, msg: String) -> (id: usize)
        requires
            old(self).current matches Some((i, _)) ==> i < usize::MAX,
        ensures
            id == match old(self).current {
                Some((i, _)) => i + 1,
                None => 1,
            },
            final(self).current == Some((id, msg)),
    {
        let id: usize = match &self.current {
            Some((i, _)) => *i + 1,
            None => 1,
        };
        self.current = Some((id, msg));
        id
    }

    /// The delayed clear: drop the message only if the captured generation
    /// is still the current one; a clear for a superseded message changes
    /// nothing.
    pub fn expire(&mut self, id: usize)
        ensures
            final(self).current == if old(self).current matches Some((i, _)) && i == id {
                None::<(usize, String)>
            } else {
                old(self).current
            },
    {
        let stale = match &self.current {
            Some((i, _)) => *i == id,
            None => false,
        };
        if stale {
            self.current = None;
        }
    }
}

} // verus!
