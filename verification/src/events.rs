//! The unified event stream.
//!
//! All sources (Wayland toplevels, the session-bus launch monitor, the
//! system-bus suspend monitor) feed a single stream of [`HammockEvent`]
//! records which the controller drains in arrival order.

use vstd::prelude::*;

use crate::dbus::DesktopAppInfo;
use crate::errors::HammockError;
use crate::hammock::Hammock;
use crate::toplevel::{inner_eq, TopLevelCommit, TopLevelInner};

verus! {

/// One event for the controller.
#[derive(Debug)]
pub enum HammockEvent {
    /// An application was launched (session-bus `Launched` signal).
    NewApplication(DesktopAppInfo),
    /// A toplevel committed for the first time.
    NewTopLevel(TopLevelInner),
    /// A toplevel committed again.
    TopLevelChanged(TopLevelInner),
    /// A toplevel was destroyed.
    TopLevelClosed(TopLevelInner),
    /// Suspend is beginning (`true`) or the system resumed (`false`).
    SystemSuspend(bool),
}

impl HammockEvent {
    /// The event a toplevel commit publishes: the first commit of a window
    /// announces it, later ones update it, and closing it is reported
    /// whatever the generation.
    pub fn from_commit(c: TopLevelCommit) -> (r: HammockEvent)
        ensures
            match c {
                TopLevelCommit::Done(snap) => if snap.new == 1 {
                    r matches HammockEvent::NewTopLevel(s) && inner_eq(s, snap)
                } else {
                    r matches HammockEvent::TopLevelChanged(s) && inner_eq(s, snap)
                },
                TopLevelCommit::Closed(snap) => r matches HammockEvent::TopLevelClosed(s)
                    && inner_eq(s, snap),
            },
    {
        match c {
            TopLevelCommit::Done(snap) => {
                if snap.new == 1 {
                    HammockEvent::NewTopLevel(snap)
                } else {
                    HammockEvent::TopLevelChanged(snap)
                }
            },
            TopLevelCommit::Closed(snap) => HammockEvent::TopLevelClosed(snap),
        }
    }
}

/// The root daemon's event loop.  The root side of the split daemon is not
/// implemented; its loop accepts the controller and returns at once.
#[derive(Debug)]
pub struct HammockEventLoop;

impl HammockEventLoop {
    /// Run the root daemon's (empty) event loop.
    pub fn run_root(_hammock: Hammock) -> (r: Result<(), HammockError>)
        ensures
            r is Ok,
    {
        Ok(())
    }
}

/// An event source the controller polls each tick.  Sources flush whatever
/// is pending into the shared stream and report a failure to do so.
pub trait HammockEventSource {
    /// Handle any pending work, propagating it to child sources.
    fn process_pending(&mut self) -> Result<(), HammockError>;
}

} // verus!
