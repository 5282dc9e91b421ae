//! One application, seen through the thread that talks to it.

use vstd::prelude::*;

use crate::actor::reactor::TransactionId;
use crate::sys::app::pid_t;
use crate::sys::geometry::{CGPoint, CGRect};

verus! {

/// A window: the process that owns it, and its number there. Windows are
/// ordered by process first.
#[derive(Clone, Copy, PartialEq, Eq, Structural, PartialOrd, Ord, Hash, Debug)]
pub struct WindowId {
    pub pid: pid_t,
    pub idx: u32,
}

impl WindowId {
    pub fn new(pid: pid_t, idx: u32) -> (wid: WindowId)
        ensures
            wid == (WindowId { pid, idx }),
    {
        WindowId { pid, idx }
    }

    /// Whether `self` comes before `other`.
    pub open spec fn before(self, other: WindowId) -> bool {
        self.pid < other.pid || (self.pid == other.pid && self.idx < other.idx)
    }

    /// Whether `self` comes before `other`.
    pub fn is_before(self, other: WindowId) -> (yes: bool)
        ensures
            yes == self.before(other),
    {
        self.pid < other.pid || (self.pid == other.pid && self.idx < other.idx)
    }
}

/// Names the channel to the thread of one application.
#[derive(Clone, Copy, PartialEq, Eq, Structural, Hash, Debug)]
pub struct AppThreadHandle {
    pub id: u64,
}

/// Whether a change was caused by the window manager and should not be acted
/// on again.
#[derive(Clone, Copy, PartialEq, Eq, Structural, Debug)]
pub enum Quiet {
    Yes,
    No,
}

/// What an application thread is asked to do.
#[derive(Clone, Copy, PartialEq, Debug)]
pub enum Request {
    Terminate,
    GetVisibleWindows,
    SetWindowFrame(WindowId, CGRect, TransactionId),
    SetWindowPos(WindowId, CGPoint, TransactionId),
    BeginWindowAnimation(WindowId),
    EndWindowAnimation(WindowId),
    Raise(WindowId),
    WindowDestroyed(WindowId),
}

/// A window keeps the process and the number that it is made of. Windows are
/// ordered by their processes, and those of one process by their numbers.
pub proof fn windows_are_ordered_by_process(
    pid: pid_t,
    idx: u32,
    wid: WindowId,
    other: WindowId,
    yes: bool,
)
    requires
        call_ensures(WindowId::new, (pid, idx), wid),
        call_ensures(WindowId::is_before, (wid, other), yes),
    ensures
        wid.pid == pid,
        wid.idx == idx,
        pid < other.pid ==> yes,
        pid > other.pid ==> !yes,
        pid == other.pid ==> (yes <==> idx < other.idx),
{
}

} // verus!
