//! The toplevel aggregator.
//!
//! The foreign-toplevel protocol delivers window metadata as a burst of
//! partial property events terminated by `Done` (commit) or `Closed`
//! (destroy).  The aggregator accumulates properties into a shadow record and
//! publishes it only on a terminator, so no observer ever sees a snapshot
//! that mixes two commits.  The generation counter increments exactly once
//! per `Done`; a snapshot with generation 1 is a window seen for the first
//! time.

use vstd::prelude::*;

use crate::app_id::AppId;
use crate::errors::HammockError;

verus! {

/// The activation state of a toplevel, as last reported by the compositor.
#[derive(Debug, Clone, Copy, PartialEq, Eq, Structural)]
pub enum TopLevelState {
    Background,
    Minimised,
    Activated,
    Fullscreen,
}

/// One decoded property event for a toplevel.
#[derive(Debug)]
pub enum TopLevelProp {
    /// The window title changed.
    Title(String),
    /// The application identifier changed.
    AppId(String),
    /// The activation state changed.
    State(TopLevelState),
    /// The client's credentials (thread-group id) were reported.
    Credentials(u64),
    /// Commit: everything since the last terminator becomes visible at once.
    Done,
    /// The toplevel was destroyed; its last accumulated values are published.
    Closed,
}

/// A published snapshot of a toplevel.
#[derive(Debug)]
pub struct TopLevelInner {
    /// How many commits this toplevel has published.
    pub new: u64,
    /// The window title.
    pub title: String,
    /// The application the window belongs to.
    pub app_id: AppId,
    /// The activation state, once one has been reported.
    pub state: Option<TopLevelState>,
    /// The PID that owns the window, or 0 when not reported.
    pub pid: u64,
}

/// Field-wise equality of snapshots, by content.
pub open spec fn inner_eq(a: TopLevelInner, b: TopLevelInner) -> bool {
    &&& a.new == b.new
    &&& a.title@ == b.title@
    &&& a.app_id@ == b.app_id@
    &&& a.state == b.state
    &&& a.pid == b.pid
}

impl Clone for TopLevelInner {
    fn clone(&self) -> (r: Self)
        ensures
            inner_eq(*self, r),
    {
        TopLevelInner {
            new: self.new,
            title: self.title.clone(),
            app_id: self.app_id.clone(),
            state: self.state,
            pid: self.pid,
        }
    }
}

/// What the aggregator publishes on a terminator event.
#[derive(Debug)]
pub enum TopLevelCommit {
    /// A commit: the snapshot as of this `Done`.
    Done(TopLevelInner),
    /// The toplevel closed; the last accumulated values.
    Closed(TopLevelInner),
}

/// The per-window aggregator: a published snapshot, the shadow record still
/// being accumulated, and whether the window has been destroyed.
#[derive(Debug)]
pub struct TopLevel {
    /// The published snapshot: only terminator events change it.
    pub inner: TopLevelInner,
    /// The shadow record that partial events accumulate into.
    pub pending: TopLevelInner,
    /// Set once `Closed` has been seen; later events are ignored.
    pub terminal: bool,
}

impl TopLevel {
    /// A fresh aggregator for a window nothing is known about yet.
    pub fn new() -> (r: TopLevel)
        ensures
            r.inner.new == 0,
            r.inner.title@ == Seq::<char>::empty(),
            r.inner.app_id@ is None,
            r.inner.state is None,
            r.inner.pid == 0,
            inner_eq(r.inner, r.pending),
            !r.terminal,
    {
        let inner = TopLevelInner {
            new: 0,
            title: String::new(),
            app_id: AppId::unknown(),
            state: None,
            pid: 0,
        };
        let pending = inner.clone();
        TopLevel { inner, pending, terminal: false }
    }

    /// Feed one property event into the aggregator.  Partial properties only
    /// touch the shadow record; `Done` publishes it with the generation
    /// incremented; `Closed` publishes the accumulated values once and makes
    /// the aggregator terminal.
    pub fn event(&mut self, prop: TopLevelProp) -> (r: Option<TopLevelCommit>)
        requires
            old(self).pending.new < u64::MAX,
        ensures
            old(self).terminal ==> *final(self) == *old(self) && r is None,
            !old(self).terminal ==> match prop {
                TopLevelProp::Title(t) => {
                    &&& final(self).pending.title@ == t@
                    &&& final(self).pending.new == old(self).pending.new
                    &&& final(self).pending.app_id@ == old(self).pending.app_id@
                    &&& final(self).pending.state == old(self).pending.state
                    &&& final(self).pending.pid == old(self).pending.pid
                    &&& final(self).inner == old(self).inner
                    &&& !final(self).terminal
                    &&& r is None
                },
                TopLevelProp::AppId(s) => {
                    &&& final(self).pending.app_id@ == Some(s@)
                    &&& final(self).pending.new == old(self).pending.new
                    &&& final(self).pending.title@ == old(self).pending.title@
                    &&& final(self).pending.state == old(self).pending.state
                    &&& final(self).pending.pid == old(self).pending.pid
                    &&& final(self).inner == old(self).inner
                    &&& !final(self).terminal
                    &&& r is None
                },
                TopLevelProp::State(st) => {
                    &&& final(self).pending.state == Some(st)
                    &&& final(self).pending.new == old(self).pending.new
                    &&& final(self).pending.title@ == old(self).pending.title@
                    &&& final(self).pending.app_id@ == old(self).pending.app_id@
                    &&& final(self).pending.pid == old(self).pending.pid
                    &&& final(self).inner == old(self).inner
                    &&& !final(self).terminal
                    &&& r is None
                },
                TopLevelProp::Credentials(p) => {
                    &&& final(self).pending.pid == p
                    &&& final(self).pending.new == old(self).pending.new
                    &&& final(self).pending.title@ == old(self).pending.title@
                    &&& final(self).pending.app_id@ == old(self).pending.app_id@
                    &&& final(self).pending.state == old(self).pending.state
                    &&& final(self).inner == old(self).inner
                    &&& !final(self).terminal
                    &&& r is None
                },
                TopLevelProp::Done => {
                    &&& final(self).pending.new == old(self).pending.new + 1
                    &&& final(self).pending.title@ == old(self).pending.title@
                    &&& final(self).pending.app_id@ == old(self).pending.app_id@
                    &&& final(self).pending.state == old(self).pending.state
                    &&& final(self).pending.pid == old(self).pending.pid
                    &&& inner_eq(final(self).inner, final(self).pending)
                    &&& !final(self).terminal
                    &&& match r {
                        Some(TopLevelCommit::Done(snap)) => inner_eq(snap, final(self).inner),
                        _ => false,
                    }
                },
                TopLevelProp::Closed => {
                    &&& inner_eq(final(self).pending, old(self).pending)
                    &&& final(self).inner == old(self).inner
                    &&& final(self).terminal
                    &&& match r {
                        Some(TopLevelCommit::Closed(snap)) => inner_eq(snap, old(self).pending),
                        _ => false,
                    }
                },
            },
    {
        if self.terminal {
            return None;
        }
        match prop {
            TopLevelProp::Title(title) => {
                self.pending.title = title;
                None
            },
            TopLevelProp::AppId(app_id) => {
                self.pending.app_id = AppId::from(app_id);
                None
            },
            TopLevelProp::State(state) => {
                self.pending.state = Some(state);
                None
            },
            TopLevelProp::Credentials(pid) => {
                self.pending.pid = pid;
                None
            },
            TopLevelProp::Done => {
                self.pending.new = self.pending.new + 1;
                self.inner = self.pending.clone();
                Some(TopLevelCommit::Done(self.inner.clone()))
            },
            TopLevelProp::Closed => {
                self.terminal = true;
                Some(TopLevelCommit::Closed(self.pending.clone()))
            },
        }
    }

    /// The published activation state; an error before any commit set one.
    pub fn state(&self) -> (r: Result<TopLevelState, HammockError>)
        ensures
            match self.inner.state {
                Some(st) => r == Ok::<TopLevelState, HammockError>(st),
                None => r == Err::<TopLevelState, HammockError>(HammockError::NoState),
            },
    {
        match self.inner.state {
            Some(st) => Ok(st),
            None => Err(HammockError::NoState),
        }
    }

    /// Whether the published snapshot is the window's first commit.
    pub fn is_new(&self) -> (r: bool)
        ensures
            r == (self.inner.new == 1),
    {
        self.inner.new == 1
    }

    /// The published application identifier.
    pub fn app_id(&self) -> (r: AppId)
        ensures
            r@ == self.inner.app_id@,
    {
        self.inner.app_id.clone()
    }

    /// The published PID.
    pub fn pid(&self) -> (r: u64)
        ensures
            r == self.inner.pid,
    {
        self.inner.pid
    }

    /// A copy of the published snapshot.
    pub fn clone_inner(&self) -> (r: TopLevelInner)
        ensures
            inner_eq(r, self.inner),
    {
        self.inner.clone()
    }
}

/// The value of one 32-bit chunk, least significant byte first.  The
/// protocol sends native byte order; this fixes the little-endian reading,
/// which is the byte order of every target this daemon runs on.
pub open spec fn u32_of_le(b0: u8, b1: u8, b2: u8, b3: u8) -> u32 {
    (b0 + b1 * 0x100 + b2 * 0x10000 + b3 * 0x1000000) as u32
}

/// Which activation state a protocol value denotes, if any.
pub open spec fn state_of_u32(v: u32) -> Option<TopLevelState> {
    if v == 1 {
        Some(TopLevelState::Minimised)
    } else if v == 2 {
        Some(TopLevelState::Activated)
    } else if v == 3 {
        Some(TopLevelState::Fullscreen)
    } else {
        None
    }
}

/// The state after reading the first `k` complete 4-byte chunks: the last
/// recognized value wins; `Background` if none was recognized.
pub open spec fn spec_parse_state_upto(bytes: Seq<u8>, k: nat) -> TopLevelState
    decreases k,
{
    if k == 0 {
        TopLevelState::Background
    } else {
        let v = u32_of_le(
            bytes[4 * (k - 1)],
            bytes[4 * (k - 1) + 1],
            bytes[4 * (k - 1) + 2],
            bytes[4 * (k - 1) + 3],
        );
        match state_of_u32(v) {
            Some(s) => s,
            None => spec_parse_state_upto(bytes, (k - 1) as nat),
        }
    }
}

/// The state denoted by a protocol byte array: only the fully populated
/// 4-byte chunks are read.
pub open spec fn spec_parse_state(bytes: Seq<u8>) -> TopLevelState {
    spec_parse_state_upto(bytes, bytes.len() / 4)
}

impl TopLevel {
    /// Decode a `State` payload: an array of 32-bit values (read
    /// little-endian, see [`u32_of_le`]), of which the last recognized one
    /// wins.  Trailing bytes that do not fill a chunk are ignored.
    pub fn parse_state(arr: Vec<u8>) -> (r: TopLevelState)
        ensures
            r == spec_parse_state(arr@),
    {
        let mut state = TopLevelState::Background;
        let n = arr.len() / 4;
        let mut i: usize = 0;
        while i < n
            invariant
                0 <= i <= n,
                n == arr@.len() / 4,
                state == spec_parse_state_upto(arr@, i as nat),
            decreases n - i,
        {
            let b0 = arr[4 * i];
            let b1 = arr[4 * i + 1];
            let b2 = arr[4 * i + 2];
            let b3 = arr[4 * i + 3];
            let v: u32 = b0 as u32 + (b1 as u32) * 0x100 + (b2 as u32) * 0x10000 + (b3 as u32)
                * 0x1000000;
            proof {
                assert(v == u32_of_le(
                    arr@[4 * (i as int)],
                    arr@[4 * (i as int) + 1],
                    arr@[4 * (i as int) + 2],
                    arr@[4 * (i as int) + 3],
                ));
            }
            if v == 1 {
                state = TopLevelState::Minimised;
            } else if v == 2 {
                state = TopLevelState::Activated;
            } else if v == 3 {
                state = TopLevelState::Fullscreen;
            }
            i += 1;
        }
        state
    }
}

} // verus!
