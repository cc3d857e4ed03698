//! The lifecycle controller.
//!
//! [`Hammock`] owns the application registry, the cgroup handler model, the
//! configured rules and the hardware probes, and digests the unified event
//! stream one event at a time.  Every mutation of the outside world that a
//! decision entails is returned as a [`HammockAction`] for the unverified
//! shell to perform, in order.
//!
//! The registry invariant maintained across every event: each application's
//! cgroup exists, no two applications share an identity key or a cgroup, no
//! two cgroups share a name, and no task sits in two cgroups.

use vstd::prelude::*;

use crate::app_id::AppId;
use crate::application::{spec_app_matches, App, AppFilter};
use crate::cgroups::{spec_with_frozen, CGHandler};
use crate::config::Rule;
use crate::dbus::{DesktopAppInfo, InhibitHandler};
use crate::errors::HammockError;
use crate::events::HammockEvent;
use crate::hal::Hal;
use crate::match_rules::{spec_select, MatchRule, MatchRules};
use crate::strings::{cgroup_name, spec_cgroup_name};
use crate::toplevel::{TopLevelInner, TopLevelState};
use crate::wakeup::{spec_first_advanced, spec_probe_step, Wakeup, WakeupType};

verus! {

/// One order for the unverified shell: the real-world counterpart of a
/// mutation the controller has already applied to its model.
#[derive(Debug)]
pub enum HammockAction {
    /// Ensure the named cgroup directory exists under the grouping cgroup.
    CreateCgroup(String),
    /// Move the task into the named cgroup.
    AddTask(String, u64),
    /// Engage the named cgroup's freezer.
    FreezeCgroup(String),
    /// Release the named cgroup's freezer.
    ThawCgroup(String),
    /// Remove the named cgroup directory; failure is non-fatal.
    RemoveCgroup(String),
    /// Freeze the whole subtree at the grouping cgroup.
    FreezeAll,
    /// Thaw the whole subtree at the grouping cgroup.
    ThawAll,
    /// Close the logind delay-inhibitor file descriptor.
    ReleaseInhibitor,
    /// Re-acquire the logind delay inhibitor.
    RearmInhibitor,
    /// Wait this many milliseconds before the next action.
    Settle(u64),
}

/// The index of the first application with this identifier at or after `k`.
pub open spec fn spec_find_by_id(apps: Seq<App>, id: Option<Seq<char>>, k: nat) -> Option<int>
    decreases apps.len() - k,
{
    if k >= apps.len() {
        None
    } else if apps[k as int].info.app_id@ == id {
        Some(k as int)
    } else {
        spec_find_by_id(apps, id, k + 1)
    }
}

/// Whether some application has this identity key.
pub open spec fn spec_key_tracked(apps: Seq<App>, id: Option<Seq<char>>, pid: u64) -> bool {
    exists|i: int| 0 <= i < apps.len() && (#[trigger] apps[i]).key() == (id, pid)
}

/// Whether some application owns the cgroup of this name.
pub open spec fn spec_name_owned(apps: Seq<App>, name: Seq<char>) -> bool {
    exists|i: int| 0 <= i < apps.len() && (#[trigger] apps[i]).info.cgroup@ == name
}

/// The degenerate policy's target rule for a toplevel state: an activated
/// window runs in the foreground, everything else goes to the background.
pub open spec fn spec_target_rule(state: Option<TopLevelState>) -> Rule {
    if state == Some(TopLevelState::Activated) {
        Rule::Foreground
    } else {
        Rule::Background
    }
}

/// Whether a full rule engine is configured: some rule carries a membership
/// condition.  Without any, rule selection would always pick the first rule,
/// so the degenerate per-window policy applies instead.
pub open spec fn spec_engine_configured(rules: Seq<MatchRule>) -> bool {
    exists|i: int|
        0 <= i < rules.len() && ((#[trigger] rules[i]).conditions.only_from is Some
            || rules[i].conditions.never_from is Some)
}

/// The rule a toplevel commit selects for its application: the configured
/// engine's choice where one is configured, the degenerate activated-or-not
/// policy otherwise.
pub open spec fn spec_toplevel_target(
    rules: Seq<MatchRule>,
    app: App,
    state: Option<TopLevelState>,
) -> Rule {
    if spec_engine_configured(rules) {
        spec_select(rules, app.info.match_rule, app.info.tags@, None)
    } else {
        spec_target_rule(state)
    }
}

/// How an event moves the delay-inhibitor flag: suspend releases it, resume
/// re-arms it, everything else leaves it alone.
pub open spec fn spec_inhibit_step(held: bool, event: HammockEvent) -> bool {
    match event {
        HammockEvent::SystemSuspend(active) => !active,
        _ => held,
    }
}

/// Whether the wake probe can be consulted at all: there are sources (few
/// enough for the cache index), the fresh reading covers them, and the
/// cached index is in range.
pub open spec fn spec_probe_ok(w: Wakeup, counts: Seq<u32>) -> bool {
    &&& w.sources@.len() > 0
    &&& w.sources@.len() <= u32::MAX
    &&& counts.len() == w.sources@.len()
    &&& (w.cause as int) < w.sources@.len()
}

/// The wake cause a probe reading denotes.
pub open spec fn spec_cause(w: Wakeup, counts: Seq<u32>) -> WakeupType
    recommends
        spec_probe_ok(w, counts),
{
    match spec_first_advanced(w.sources@, counts, 0) {
        Some(i) => w.sources@[i].wakeup_type,
        None => w.sources@[w.cause as int].wakeup_type,
    }
}

/// What handling a launch announcement does.  A launch whose identity key is
/// already tracked, or whose cgroup another application owns, is a no-op at
/// registry level; otherwise the registry gains one record whose cgroup is
/// created with the launching PID moved into it at once.
pub open spec fn spec_new_application(
    pre: Hammock,
    post: Hammock,
    id: Option<Seq<char>>,
    pid: u64,
    acts: Seq<HammockAction>,
) -> bool {
    let name = spec_cgroup_name(id, pid);
    &&& post.rules == pre.rules
    &&& post.hal == pre.hal
    &&& post.inhib == pre.inhib
    &&& post.handler.root_frozen == pre.handler.root_frozen
    &&& if spec_key_tracked(pre.apps@, id, pid) || spec_name_owned(pre.apps@, name) {
        &&& post.apps@ == pre.apps@
        &&& post.handler == pre.handler
        &&& acts.len() == 0
    } else {
        &&& post.apps@.len() == pre.apps@.len() + 1
        &&& forall|i: int| 0 <= i < pre.apps@.len() ==> post.apps@[i] == pre.apps@[i]
        &&& post.apps@.last().info.app_id@ == id
        &&& post.apps@.last().pid == pid
        &&& post.apps@.last().info.cgroup@ == name
        &&& post.apps@.last().info.match_rule == Rule::Foreground
        &&& post.apps@.last().info.tags@.len() == 0
        &&& forall|n: Seq<char>|
            #[trigger] post.handler.spec_has_cgroup(n) == (pre.handler.spec_has_cgroup(n) || n
                == name)
        &&& post.handler.spec_task_in(name, pid)
        &&& forall|n: Seq<char>| n != name ==> !(#[trigger] post.handler.spec_task_in(n, pid))
        &&& forall|n: Seq<char>, q: u64|
            q != pid ==> (#[trigger] post.handler.spec_task_in(n, q))
                == pre.handler.spec_task_in(n, q)
        &&& acts.len() == 2
        &&& (acts[0] matches HammockAction::CreateCgroup(s) && s@ == name)
        &&& (acts[1] matches HammockAction::AddTask(s, p) && s@ == name && p == pid)
    }
}

/// Positions without the identifier do not change which application is
/// found first.
proof fn lemma_find_by_id_skip(apps: Seq<App>, id: Option<Seq<char>>, lo: nat, hi: nat)
    requires
        lo <= hi,
        forall|w: int| lo <= w < hi ==> (#[trigger] apps[w]).info.app_id@ != id,
    ensures
        spec_find_by_id(apps, id, lo) == spec_find_by_id(apps, id, hi),
    decreases hi - lo,
{
    if lo < hi {
        if lo >= apps.len() {
            assert(hi >= apps.len());
        } else {
            lemma_find_by_id_skip(apps, id, lo + 1, hi);
        }
    }
}

/// What handling a toplevel commit does.  A commit for a tracked identifier
/// re-applies the degenerate policy to that application: activated runs
/// thawed in the foreground, anything else frozen in the background — unless
/// the target rule is not configured, which is an error that changes
/// nothing.  A commit for an unknown identifier with a PID registers the
/// application against its existing (or newly created) cgroup; without a
/// PID it is dropped.
pub open spec fn spec_toplevel_update(
    pre: Hammock,
    post: Hammock,
    id: Option<Seq<char>>,
    state: Option<TopLevelState>,
    pid: u64,
    r: Result<Vec<HammockAction>, HammockError>,
) -> bool {
    &&& post.rules == pre.rules
    &&& post.hal == pre.hal
    &&& post.inhib == pre.inhib
    &&& post.handler.root_frozen == pre.handler.root_frozen
    &&& match spec_find_by_id(pre.apps@, id, 0) {
        Some(k) => {
            let target = spec_toplevel_target(pre.rules.0@, pre.apps@[k], state);
            let name = pre.apps@[k].info.cgroup@;
            if exists|i: int|
                0 <= i < pre.rules.0@.len() && (#[trigger] pre.rules.0@[i].name) == target {
                &&& r is Ok
                &&& post.apps@.len() == pre.apps@.len()
                &&& forall|j: int|
                    0 <= j < pre.apps@.len() && j != k ==> post.apps@[j] == pre.apps@[j]
                &&& post.apps@[k].pid == pre.apps@[k].pid
                &&& post.apps@[k].info.app_id@ == pre.apps@[k].info.app_id@
                &&& post.apps@[k].info.cgroup@ == name
                &&& post.apps@[k].info.tags@ == pre.apps@[k].info.tags@
                &&& post.apps@[k].info.match_rule == target
                &&& spec_with_frozen(pre.handler, post.handler, name, target != Rule::Foreground)
                &&& r->Ok_0@.len() == 1
                &&& if target != Rule::Foreground {
                    r->Ok_0@[0] matches HammockAction::FreezeCgroup(s) && s@ == name
                } else {
                    r->Ok_0@[0] matches HammockAction::ThawCgroup(s) && s@ == name
                }
            } else {
                &&& r is Err
                &&& r->Err_0 == HammockError::NoSuchRule(target)
                &&& post == pre
            }
        },
        None => {
            let name = spec_cgroup_name(id, pid);
            &&& r is Ok
            &&& if pid > 0 && !spec_name_owned(pre.apps@, name) {
                &&& post.apps@.len() == pre.apps@.len() + 1
                &&& forall|j: int| 0 <= j < pre.apps@.len() ==> post.apps@[j] == pre.apps@[j]
                &&& post.apps@.last().info.app_id@ == id
                &&& post.apps@.last().pid == pid
                &&& post.apps@.last().info.cgroup@ == name
                &&& post.apps@.last().info.match_rule == Rule::Foreground
                &&& post.apps@.last().info.tags@.len() == 0
                &&& forall|n: Seq<char>|
                    #[trigger] post.handler.spec_has_cgroup(n) == (pre.handler.spec_has_cgroup(n)
                        || n == name)
                &&& r->Ok_0@.len() == 1
                &&& (r->Ok_0@[0] matches HammockAction::CreateCgroup(s) && s@ == name)
            } else {
                &&& post.apps@ == pre.apps@
                &&& post.handler == pre.handler
                &&& r->Ok_0@.len() == 0
            }
        },
    }
}

/// What handling a toplevel's destruction does: the first application with
/// the identifier leaves the registry and removal of its cgroup is
/// attempted; a destruction for an unknown application is a no-op.
pub open spec fn spec_toplevel_closed(
    pre: Hammock,
    post: Hammock,
    id: Option<Seq<char>>,
    acts: Seq<HammockAction>,
) -> bool {
    &&& post.rules == pre.rules
    &&& post.hal == pre.hal
    &&& post.inhib == pre.inhib
    &&& post.handler.root_frozen == pre.handler.root_frozen
    &&& match spec_find_by_id(pre.apps@, id, 0) {
        Some(k) => {
            let name = pre.apps@[k].info.cgroup@;
            &&& post.apps@.len() == pre.apps@.len() - 1
            &&& forall|j: int|
                0 <= j < post.apps@.len() ==> post.apps@[j] == pre.apps@[
                    if j < k {
                        j
                    } else {
                        j + 1
                    }
                ]
            &&& forall|n: Seq<char>|
                #[trigger] post.handler.spec_has_cgroup(n) == (pre.handler.spec_has_cgroup(n) && n
                    != name)
            &&& acts.len() == 1
            &&& (acts[0] matches HammockAction::RemoveCgroup(s) && s@ == name)
        },
        None => {
            &&& post.apps@ == pre.apps@
            &&& post.handler == pre.handler
            &&& acts.len() == 0
        },
    }
}

/// What handling a suspend edge does.  On suspend the whole subtree is
/// frozen and the delay lock released, after a settle pause for the
/// compositor; on resume the lock is re-armed and the subtree thawed unless
/// the modem caused the wake, in which case user space stays frozen pending
/// call detection.
pub open spec fn spec_suspend(
    pre: Hammock,
    post: Hammock,
    active: bool,
    counts: Seq<u32>,
    acts: Seq<HammockAction>,
) -> bool {
    &&& post.rules == pre.rules
    &&& post.apps@ == pre.apps@
    &&& post.handler.cgroups == pre.handler.cgroups
    &&& post.hal.backlight == pre.hal.backlight
    &&& post.inhib.held == !active
    &&& if active {
        &&& post.hal == pre.hal
        &&& post.handler.root_frozen
        &&& acts.len() == 3
        &&& (acts[0] matches HammockAction::Settle(ms) && ms == 400)
        &&& acts[1] is FreezeAll
        &&& acts[2] is ReleaseInhibitor
    } else {
        &&& if spec_probe_ok(pre.hal.wakeup, counts) {
            spec_probe_step(pre.hal.wakeup, post.hal.wakeup, counts)
        } else {
            post.hal.wakeup == pre.hal.wakeup
        }
        &&& if spec_probe_ok(pre.hal.wakeup, counts) && spec_cause(pre.hal.wakeup, counts)
            == WakeupType::Modem {
            &&& post.handler.root_frozen == pre.handler.root_frozen
            &&& acts.len() == 1
            &&& acts[0] is RearmInhibitor
        } else {
            &&& !post.handler.root_frozen
            &&& acts.len() == 2
            &&& acts[0] is ThawAll
            &&& acts[1] is RearmInhibitor
        }
    }
}

/// The controller.
#[derive(Debug)]
pub struct Hammock {
    /// The configured match rules, in priority order.
    pub rules: MatchRules,
    /// The cgroup handler model.
    pub handler: CGHandler,
    /// The hardware probes.
    pub hal: Hal,
    /// The application registry.
    pub apps: Vec<App>,
    /// The logind delay-inhibitor state.
    pub inhib: InhibitHandler,
}

impl Hammock {
    /// The registry invariant.
    pub open spec fn wf(self) -> bool {
        &&& self.handler.names_unique()
        &&& self.handler.tasks_disjoint()
        &&& forall|i: int, j: int|
            0 <= i < j < self.apps@.len() ==> (#[trigger] self.apps@[i]).key() != (
            #[trigger] self.apps@[j]).key()
        &&& forall|i: int, j: int|
            0 <= i < j < self.apps@.len() ==> (#[trigger] self.apps@[i]).info.cgroup@ != (
            #[trigger] self.apps@[j]).info.cgroup@
        &&& forall|i: int|
            0 <= i < self.apps@.len() ==> self.handler.spec_has_cgroup(
                (#[trigger] self.apps@[i]).info.cgroup@,
            )
    }

    /// A controller with no applications yet and the delay lock held.
    pub fn new(rules: MatchRules, handler: CGHandler, hal: Hal) -> (r: Hammock)
        ensures
            r.rules == rules,
            r.handler == handler,
            r.hal == hal,
            r.apps@.len() == 0,
            r.inhib.held,
            handler.names_unique() && handler.tasks_disjoint() ==> r.wf(),
    {
        Hammock { rules, handler, hal, apps: Vec::new(), inhib: InhibitHandler::new() }
    }

    /// The first application matching the filter, by registry order.
    pub fn find(&self, filt: &AppFilter) -> (r: Option<usize>)
        requires
            self.handler.names_unique(),
        ensures
            match r {
                Some(i) => i < self.apps@.len() && spec_app_matches(
                    self.apps@[i as int],
                    *filt,
                    self.handler,
                ) && forall|j: int|
                    0 <= j < i ==> !spec_app_matches(self.apps@[j], *filt, self.handler),
                None => forall|j: int|
                    0 <= j < self.apps@.len() ==> !spec_app_matches(
                        self.apps@[j],
                        *filt,
                        self.handler,
                    ),
            },
    {
        let mut i: usize = 0;
        while i < self.apps.len()
            invariant
                0 <= i <= self.apps@.len(),
                self.handler.names_unique(),
                forall|j: int| 0 <= j < i ==> !spec_app_matches(self.apps@[j], *filt, self.handler),
            decreases self.apps@.len() - i,
        {
            if self.apps[i].matches(filt, &self.handler) {
                return Some(i);
            }
            i += 1;
        }
        None
    }

    /// Whether any application matches the filter.
    pub fn has_app(&self, filt: &AppFilter) -> (r: bool)
        requires
            self.handler.names_unique(),
        ensures
            r == exists|i: int|
                0 <= i < self.apps@.len() && spec_app_matches(
                    #[trigger] self.apps@[i],
                    *filt,
                    self.handler,
                ),
    {
        let r = self.find(filt);
        proof {
            if let Some(i) = r {
                assert(spec_app_matches(self.apps@[i as int], *filt, self.handler));
            }
        }
        r.is_some()
    }

    /// Decide whether the registry invariant holds; the unverified shell
    /// consults this before handing an event over, failing loudly instead
    /// of running on a corrupted registry.
    pub fn check_wf(&self) -> (r: bool)
        ensures
            r == self.wf(),
    {
        if !self.handler.check_names_unique() {
            return false;
        }
        if !self.handler.check_tasks_disjoint() {
            return false;
        }
        let n = self.apps.len();
        let mut i: usize = 0;
        while i < n
            invariant
                0 <= i <= n,
                n == self.apps@.len(),
                self.handler.names_unique(),
                forall|a: int, b: int|
                    0 <= a < b < n && a < i ==> (#[trigger] self.apps@[a]).key() != (
                    #[trigger] self.apps@[b]).key(),
                forall|a: int, b: int|
                    0 <= a < b < n && a < i ==> (#[trigger] self.apps@[a]).info.cgroup@ != (
                    #[trigger] self.apps@[b]).info.cgroup@,
                forall|a: int|
                    0 <= a < i ==> self.handler.spec_has_cgroup(
                        (#[trigger] self.apps@[a]).info.cgroup@,
                    ),
            decreases n - i,
        {
            if self.handler.find_cgroup(self.apps[i].info.cgroup.as_str()).is_none() {
                proof {
                    assert(!self.handler.spec_has_cgroup(self.apps@[i as int].info.cgroup@));
                }
                return false;
            }
            let mut j: usize = i + 1;
            while j < n
                invariant
                    i < j <= n,
                    i < n,
                    n == self.apps@.len(),
                    forall|b: int|
                        i < b < j ==> (#[trigger] self.apps@[b]).key() != self.apps@[
                            i as int
                        ].key() && (#[trigger] self.apps@[b]).info.cgroup@ != self.apps@[
                            i as int
                        ].info.cgroup@,
                decreases n - j,
            {
                let same_key = self.apps[i].info.app_id == self.apps[j].info.app_id
                    && self.apps[i].pid == self.apps[j].pid;
                let same_cgroup = self.apps[i].info.cgroup == self.apps[j].info.cgroup;
                if same_key || same_cgroup {
                    proof {
                        assert(!self.wf());
                    }
                    return false;
                }
                j += 1;
            }
            i += 1;
        }
        true
    }

    /// Digest a launch announcement.  The launched application gets a cgroup
    /// and a registry record at once, so the forked child escapes only if it
    /// outruns the `AddTask` action; a launch already tracked is a no-op.
    fn handle_new_application(&mut self, info: DesktopAppInfo) -> (acts: Vec<HammockAction>)
        requires
            old(self).wf(),
        ensures
            final(self).wf(),
            spec_new_application(*old(self), *final(self), info.app_id@, info.pid, acts@),
    {
        let ghost id = info.app_id@;
        let pid = info.pid;
        let name = cgroup_name(&info.app_id, info.pid);
        let mut dup = false;
        let mut i: usize = 0;
        while i < self.apps.len()
            invariant
                0 <= i <= self.apps@.len(),
                name@ == spec_cgroup_name(id, pid),
                id == info.app_id@,
                pid == info.pid,
                dup == exists|j: int|
                    0 <= j < i && ((#[trigger] self.apps@[j]).key() == (id, pid)
                        || self.apps@[j].info.cgroup@ == name@),
            decreases self.apps@.len() - i,
        {
            let a = &self.apps[i];
            if (a.info.app_id == info.app_id && a.pid == info.pid) || a.info.cgroup == name {
                dup = true;
            }
            i += 1;
        }
        if dup {
            proof {
                let j = choose|j: int|
                    0 <= j < self.apps@.len() && ((#[trigger] self.apps@[j]).key() == (id, pid)
                        || self.apps@[j].info.cgroup@ == name@);
                if self.apps@[j].key() == (id, pid) {
                    assert(spec_key_tracked(self.apps@, id, pid));
                } else {
                    assert(spec_name_owned(self.apps@, name@));
                }
            }
            return Vec::new();
        }
        let ghost pre = *self;
        let app = App::new(info.app_id, pid, &mut self.handler);
        self.apps.push(app);
        let mut acts: Vec<HammockAction> = Vec::new();
        acts.push(HammockAction::CreateCgroup(name.clone()));
        acts.push(HammockAction::AddTask(name, pid));
        proof {
            let n = pre.apps@.len() as int;
            assert(self.apps@[n].info.cgroup@ == spec_cgroup_name(id, pid));
            assert(!spec_key_tracked(pre.apps@, id, pid));
            assert(!spec_name_owned(pre.apps@, spec_cgroup_name(id, pid)));
            assert forall|a: int, b: int| 0 <= a < b < self.apps@.len() implies (
            #[trigger] self.apps@[a]).key() != (#[trigger] self.apps@[b]).key() by {
                if b == n {
                    if self.apps@[a].key() == (id, pid) {
                        assert(pre.apps@[a].key() == (id, pid));
                    }
                }
            }
            assert forall|a: int, b: int| 0 <= a < b < self.apps@.len() implies (
            #[trigger] self.apps@[a]).info.cgroup@ != (#[trigger] self.apps@[b]).info.cgroup@ by {
                if b == n {
                    if self.apps@[a].info.cgroup@ == spec_cgroup_name(id, pid) {
                        assert(pre.apps@[a].info.cgroup@ == spec_cgroup_name(id, pid));
                    }
                }
            }
            assert forall|a: int| 0 <= a < self.apps@.len() implies self.handler.spec_has_cgroup(
                (#[trigger] self.apps@[a]).info.cgroup@,
            ) by {
                if a < n {
                    assert(pre.handler.spec_has_cgroup(pre.apps@[a].info.cgroup@));
                }
            }
        }
        acts
    }

    /// The registry index of the first application with this identifier.
    fn find_by_id(&self, target: &AppId) -> (r: Option<usize>)
        ensures
            match r {
                Some(i) => spec_find_by_id(self.apps@, target@, 0) == Some(i as int) && i
                    < self.apps@.len() && self.apps@[i as int].info.app_id@ == target@,
                None => spec_find_by_id(self.apps@, target@, 0) is None && forall|j: int|
                    0 <= j < self.apps@.len() ==> (#[trigger] self.apps@[j]).info.app_id@
                        != target@,
            },
    {
        let mut i: usize = 0;
        while i < self.apps.len()
            invariant
                0 <= i <= self.apps@.len(),
                forall|j: int| 0 <= j < i ==> (#[trigger] self.apps@[j]).info.app_id@ != target@,
            decreases self.apps@.len() - i,
        {
            if self.apps[i].info.app_id == *target {
                proof {
                    lemma_find_by_id_skip(self.apps@, target@, 0, i as nat);
                }
                return Some(i);
            }
            i += 1;
        }
        proof {
            lemma_find_by_id_skip(self.apps@, target@, 0, i as nat);
        }
        None
    }

    /// Digest a toplevel commit: correlate it with an application (creating
    /// a record for a D-Bus-activated application seen here first) and apply
    /// the degenerate policy to a tracked one.
    fn handle_toplevel(&mut self, tl: TopLevelInner) -> (r: Result<Vec<HammockAction>, HammockError>)
        requires
            old(self).wf(),
        ensures
            final(self).wf(),
            spec_toplevel_update(*old(self), *final(self), tl.app_id@, tl.state, tl.pid, r),
    {
        let ghost id = tl.app_id@;
        match self.find_by_id(&tl.app_id) {
            Some(k) => {
                // Use the configured rule engine where the profile carries
                // conditions; fall back to the degenerate per-window policy
                // otherwise.
                let mut engine = false;
                let mut e: usize = 0;
                while e < self.rules.0.len()
                    invariant
                        0 <= e <= self.rules.0@.len(),
                        engine == exists|i: int|
                            0 <= i < e && ((#[trigger] self.rules.0@[i]).conditions.only_from
                                is Some || self.rules.0@[i].conditions.never_from is Some),
                    decreases self.rules.0@.len() - e,
                {
                    let m = &self.rules.0[e];
                    if m.conditions.only_from.is_some() || m.conditions.never_from.is_some() {
                        engine = true;
                    }
                    e += 1;
                }
                let target = if engine {
                    self.rules.select(&self.apps[k], None)
                } else {
                    match tl.state {
                        Some(TopLevelState::Activated) => Rule::Foreground,
                        _ => Rule::Background,
                    }
                };
                proof {
                    assert(engine == spec_engine_configured(self.rules.0@));
                    assert(target == spec_toplevel_target(self.rules.0@, self.apps@[k as int], tl.state));
                }
                let have_rule = self.rules.get(target).is_ok();
                if !have_rule {
                    return Err(HammockError::NoSuchRule(target));
                }
                let ghost pre = *self;
                self.apps[k].info.match_rule = target;
                let act_name = self.apps[k].info.cgroup.clone();
                let mut acts: Vec<HammockAction> = Vec::new();
                let foreground = match target {
                    Rule::Foreground => true,
                    _ => false,
                };
                if foreground {
                    self.apps[k].thaw(&mut self.handler);
                    acts.push(HammockAction::ThawCgroup(act_name));
                } else {
                    self.apps[k].freeze(&mut self.handler);
                    acts.push(HammockAction::FreezeCgroup(act_name));
                }
                proof {
                    let ki = k as int;
                    assert(self.apps@[ki].info.cgroup@ == pre.apps@[ki].info.cgroup@);
                    assert forall|a: int, b: int| 0 <= a < b < self.apps@.len() implies (
                    #[trigger] self.apps@[a]).key() != (#[trigger] self.apps@[b]).key() by {
                        assert(pre.apps@[a].key() != pre.apps@[b].key());
                        assert(self.apps@[a].key() == pre.apps@[a].key());
                        assert(self.apps@[b].key() == pre.apps@[b].key());
                    }
                    assert forall|a: int, b: int| 0 <= a < b < self.apps@.len() implies (
                    #[trigger] self.apps@[a]).info.cgroup@ != (
                    #[trigger] self.apps@[b]).info.cgroup@ by {
                        assert(pre.apps@[a].info.cgroup@ != pre.apps@[b].info.cgroup@);
                    }
                    assert forall|a: int|
                        0 <= a < self.apps@.len() implies self.handler.spec_has_cgroup(
                        (#[trigger] self.apps@[a]).info.cgroup@,
                    ) by {
                        assert(pre.handler.spec_has_cgroup(pre.apps@[a].info.cgroup@));
                        assert(self.apps@[a].info.cgroup@ == pre.apps@[a].info.cgroup@);
                    }
                }
                Ok(acts)
            },
            None => {
                if tl.pid > 0 {
                    let pid = tl.pid;
                    let name = cgroup_name(&tl.app_id, pid);
                    let mut owned = false;
                    let mut i: usize = 0;
                    while i < self.apps.len()
                        invariant
                            0 <= i <= self.apps@.len(),
                            name@ == spec_cgroup_name(id, pid),
                            owned == exists|j: int|
                                0 <= j < i && (#[trigger] self.apps@[j]).info.cgroup@ == name@,
                        decreases self.apps@.len() - i,
                    {
                        if self.apps[i].info.cgroup == name {
                            owned = true;
                        }
                        i += 1;
                    }
                    if owned {
                        proof {
                            let j = choose|j: int|
                                0 <= j < self.apps@.len() && (#[trigger] self.apps@[j]).info.cgroup@
                                    == name@;
                            assert(spec_name_owned(self.apps@, name@));
                        }
                        return Ok(Vec::new());
                    }
                    let ghost pre = *self;
                    // Load the cgroup a D-Bus-activated launch may already
                    // have created; only create it when the load fails.
                    match self.handler.load_cgroup(name.as_str()) {
                        Ok(_) => {
                            proof {
                                assert forall|n: Seq<char>|
                                    #[trigger] self.handler.spec_has_cgroup(n) == (
                                pre.handler.spec_has_cgroup(n) || n == name@) by {}
                            }
                        },
                        Err(_) => {
                            self.handler.new_cgroup(name.as_str(), None);
                        },
                    }
                    let app = App::new_with_cgroup(tl.app_id, pid, name.clone());
                    self.apps.push(app);
                    let mut acts: Vec<HammockAction> = Vec::new();
                    acts.push(HammockAction::CreateCgroup(name));
                    proof {
                        let n = pre.apps@.len() as int;
                        assert(spec_find_by_id(pre.apps@, id, 0) is None);
                        assert forall|a: int, b: int| 0 <= a < b < self.apps@.len() implies (
                        #[trigger] self.apps@[a]).key() != (#[trigger] self.apps@[b]).key() by {
                            if b == n {
                                assert(pre.apps@[a].info.app_id@ != id);
                            }
                        }
                        assert forall|a: int, b: int| 0 <= a < b < self.apps@.len() implies (
                        #[trigger] self.apps@[a]).info.cgroup@ != (
                        #[trigger] self.apps@[b]).info.cgroup@ by {
                            if b == n {
                                if self.apps@[a].info.cgroup@ == spec_cgroup_name(id, pid) {
                                    assert(pre.apps@[a].info.cgroup@ == spec_cgroup_name(id, pid));
                                    assert(spec_name_owned(pre.apps@, spec_cgroup_name(id, pid)));
                                }
                            }
                        }
                        assert forall|a: int|
                            0 <= a < self.apps@.len() implies self.handler.spec_has_cgroup(
                            (#[trigger] self.apps@[a]).info.cgroup@,
                        ) by {
                            if a < n {
                                assert(pre.handler.spec_has_cgroup(pre.apps@[a].info.cgroup@));
                            }
                        }
                    }
                    Ok(acts)
                } else {
                    Ok(Vec::new())
                }
            },
        }
    }

    /// Digest a toplevel's destruction: drop the first matching record and
    /// attempt removal of its cgroup.  An unknown application is ignored.
    fn handle_toplevel_closed(&mut self, tl: TopLevelInner) -> (acts: Vec<HammockAction>)
        requires
            old(self).wf(),
        ensures
            final(self).wf(),
            spec_toplevel_closed(*old(self), *final(self), tl.app_id@, acts@),
    {
        match self.find_by_id(&tl.app_id) {
            Some(k) => {
                let ghost pre = *self;
                let name = self.apps[k].info.cgroup.clone();
                self.apps.remove(k);
                self.handler.remove_cgroup(name.as_str());
                let mut acts: Vec<HammockAction> = Vec::new();
                acts.push(HammockAction::RemoveCgroup(name));
                proof {
                    let ki = k as int;
                    let post_apps = self.apps@;
                    assert forall|j: int| 0 <= j < post_apps.len() implies post_apps[j]
                        == pre.apps@[
                        if j < ki {
                            j
                        } else {
                            j + 1
                        }
                    ] by {}
                    assert forall|a: int, b: int| 0 <= a < b < post_apps.len() implies (
                    #[trigger] post_apps[a]).key() != (#[trigger] post_apps[b]).key() by {
                        let a0 = if a < ki {
                            a
                        } else {
                            a + 1
                        };
                        let b0 = if b < ki {
                            b
                        } else {
                            b + 1
                        };
                        assert(a0 < b0);
                        assert(pre.apps@[a0].key() != pre.apps@[b0].key());
                    }
                    assert forall|a: int, b: int| 0 <= a < b < post_apps.len() implies (
                    #[trigger] post_apps[a]).info.cgroup@ != (
                    #[trigger] post_apps[b]).info.cgroup@ by {
                        let a0 = if a < ki {
                            a
                        } else {
                            a + 1
                        };
                        let b0 = if b < ki {
                            b
                        } else {
                            b + 1
                        };
                        assert(a0 < b0);
                        assert(pre.apps@[a0].info.cgroup@ != pre.apps@[b0].info.cgroup@);
                    }
                    assert forall|a: int|
                        0 <= a < post_apps.len() implies self.handler.spec_has_cgroup(
                        (#[trigger] post_apps[a]).info.cgroup@,
                    ) by {
                        let a0 = if a < ki {
                            a
                        } else {
                            a + 1
                        };
                        assert(pre.handler.spec_has_cgroup(pre.apps@[a0].info.cgroup@));
                        if a0 < ki {
                            assert(pre.apps@[a0].info.cgroup@ != pre.apps@[ki].info.cgroup@);
                        } else {
                            assert(pre.apps@[ki].info.cgroup@ != pre.apps@[a0].info.cgroup@);
                        }
                    }
                }
                acts
            },
            None => Vec::new(),
        }
    }

    /// Digest a suspend edge: freeze everything and let go of the delay
    /// lock on the way down; on the way up, consult the wake cause and thaw
    /// unless the modem woke us.
    fn handle_suspend(&mut self, active: bool, wake_counts: &Vec<u32>) -> (acts: Vec<
        HammockAction,
    >)
        requires
            old(self).wf(),
        ensures
            final(self).wf(),
            spec_suspend(*old(self), *final(self), active, wake_counts@, acts@),
    {
        let mut acts: Vec<HammockAction> = Vec::new();
        if active {
            self.handler.freeze_all(true);
            self.inhib.onSuspend();
            acts.push(HammockAction::Settle(400));
            acts.push(HammockAction::FreezeAll);
            acts.push(HammockAction::ReleaseInhibitor);
        } else {
            let n_sources = self.hal.wakeup.sources.len();
            let probe_ok = n_sources > 0 && n_sources <= u32::MAX as usize && wake_counts.len()
                == n_sources && (self.hal.wakeup.cause as usize) < n_sources;
            let modem = if probe_ok {
                let c = self.hal.wakeup.get_cause(wake_counts);
                match c {
                    WakeupType::Modem => true,
                    _ => false,
                }
            } else {
                false
            };
            if !modem {
                self.handler.freeze_all(false);
                acts.push(HammockAction::ThawAll);
            }
            self.inhib.onResume();
            acts.push(HammockAction::RearmInhibitor);
        }
        acts
    }

    /// Digest one event from the unified stream, in arrival order.  Every
    /// change this decides is applied to the model at once and returned as
    /// the ordered actions the shell must mirror onto the system.  The
    /// fresh `wakeup_count` readings are consulted only on resume.
    pub fn handle_event(&mut self, event: HammockEvent, wake_counts: &Vec<u32>) -> (r: Result<
        Vec<HammockAction>,
        HammockError,
    >)
        requires
            old(self).wf(),
        ensures
            final(self).wf(),
            final(self).inhib.held == spec_inhibit_step(old(self).inhib.held, event),
            match event {
                HammockEvent::NewApplication(info) => r is Ok && spec_new_application(
                    *old(self),
                    *final(self),
                    info.app_id@,
                    info.pid,
                    r->Ok_0@,
                ),
                HammockEvent::NewTopLevel(tl) => spec_toplevel_update(
                    *old(self),
                    *final(self),
                    tl.app_id@,
                    tl.state,
                    tl.pid,
                    r,
                ),
                HammockEvent::TopLevelChanged(tl) => spec_toplevel_update(
                    *old(self),
                    *final(self),
                    tl.app_id@,
                    tl.state,
                    tl.pid,
                    r,
                ),
                HammockEvent::TopLevelClosed(tl) => r is Ok && spec_toplevel_closed(
                    *old(self),
                    *final(self),
                    tl.app_id@,
                    r->Ok_0@,
                ),
                HammockEvent::SystemSuspend(active) => r is Ok && spec_suspend(
                    *old(self),
                    *final(self),
                    active,
                    wake_counts@,
                    r->Ok_0@,
                ),
            },
    {
        match event {
            HammockEvent::NewApplication(info) => Ok(self.handle_new_application(info)),
            HammockEvent::NewTopLevel(tl) => self.handle_toplevel(tl),
            HammockEvent::TopLevelChanged(tl) => self.handle_toplevel(tl),
            HammockEvent::TopLevelClosed(tl) => Ok(self.handle_toplevel_closed(tl)),
            HammockEvent::SystemSuspend(active) => Ok(self.handle_suspend(active, wake_counts)),
        }
    }
}

} // verus!
