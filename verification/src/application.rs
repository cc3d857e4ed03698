//! Application records.
//!
//! One [`App`] is kept per application instance.  Its identity key is the
//! `(app_id, first_pid)` pair: the PID recorded here is the one that created
//! the application's cgroup and serves only as a tiebreaker when several
//! instances share an `app_id`.  The record points at its owning cgroup by
//! name; the cgroup state itself lives in the handler.

use vstd::prelude::*;

use crate::app_id::AppId;
use crate::cgroups::{spec_with_frozen, CGHandler};
use crate::config::{Rule, Tag};
use crate::strings::{cgroup_name, spec_cgroup_name};

verus! {

/// The mutable matching state of an application.
#[derive(Debug)]
pub struct AppMatchInfo {
    /// The application's identifier.
    pub app_id: AppId,
    /// The name of the application's owning cgroup.
    pub cgroup: String,
    /// The tags currently applied to the application.
    pub tags: Vec<Tag>,
    /// The rule currently applied to the application.
    pub match_rule: Rule,
}

/// One tracked application instance.
#[derive(Debug)]
pub struct App {
    /// The matching state.
    pub info: AppMatchInfo,
    /// The first PID seen for this instance; used as a unique identifier
    /// together with the `app_id`.  It may no longer be a live process.
    pub pid: u64,
}

/// A predicate to look applications up by.
#[derive(Debug)]
pub enum AppFilter<'a> {
    /// Match by exact application identifier.
    AppId(&'a AppId),
    /// Match by membership of the PID in the application's cgroup.
    Pid(u64),
    /// Match by the currently applied rule.
    Rule(Rule),
}

/// Whether an application satisfies a filter.  A PID filter is answered from
/// the cgroup's current task set, not from a cached value.
pub open spec fn spec_app_matches(app: App, filt: AppFilter, cgh: CGHandler) -> bool {
    match filt {
        AppFilter::AppId(id) => app.info.app_id@ == id@,
        AppFilter::Pid(p) => cgh.spec_task_in(app.info.cgroup@, p),
        AppFilter::Rule(r) => app.info.match_rule == r,
    }
}

impl App {
    /// The identity key of the record.
    pub open spec fn key(self) -> (Option<Seq<char>>, u64) {
        (self.info.app_id@, self.pid)
    }

    /// Track a newly launched application: create (or reuse) its cgroup,
    /// move the launching PID into it immediately, and build the record.
    /// The record starts in the foreground rule with no tags.
    pub fn new(app_id: AppId, pid: u64, cgh: &mut CGHandler) -> (r: App)
        requires
            old(cgh).names_unique(),
        ensures
            r.info.app_id@ == app_id@,
            r.pid == pid,
            r.info.cgroup@ == spec_cgroup_name(app_id@, pid),
            r.info.match_rule == Rule::Foreground,
            r.info.tags@ =~= Seq::<Tag>::empty(),
            final(cgh).names_unique(),
            old(cgh).tasks_disjoint() ==> final(cgh).tasks_disjoint(),
            forall|n: Seq<char>|
                #[trigger] final(cgh).spec_has_cgroup(n) == (old(cgh).spec_has_cgroup(n) || n
                    == spec_cgroup_name(app_id@, pid)),
            final(cgh).spec_task_in(spec_cgroup_name(app_id@, pid), pid),
            forall|n: Seq<char>|
                n != spec_cgroup_name(app_id@, pid) ==> !(#[trigger] final(cgh).spec_task_in(
                    n,
                    pid,
                )),
            forall|n: Seq<char>, q: u64|
                q != pid ==> (#[trigger] final(cgh).spec_task_in(n, q)) == old(cgh).spec_task_in(
                    n,
                    q,
                ),
            final(cgh).root_frozen == old(cgh).root_frozen,
    {
        let name = cgroup_name(&app_id, pid);
        let idx = cgh.new_cgroup(name.as_str(), None);
        let ghost mid = *cgh;
        cgh.add_task(idx, pid);
        proof {
            assert(cgh.cgroups@[idx as int].name@ == name@);
            assert(cgh.cgroups@[idx as int].tasks@.contains(pid));
            assert(cgh.spec_task_in(name@, pid));
            assert forall|n: Seq<char>|
                #[trigger] cgh.spec_has_cgroup(n) == (old(cgh).spec_has_cgroup(n) || n
                    == spec_cgroup_name(app_id@, pid)) by {
                assert(cgh.spec_has_cgroup(n) == mid.spec_has_cgroup(n));
            }
            assert forall|n: Seq<char>| n != name@ implies !(#[trigger] cgh.spec_task_in(
                n,
                pid,
            )) by {
                if cgh.spec_task_in(n, pid) {
                    let w = choose|w: int|
                        0 <= w < cgh.cgroups@.len() && cgh.cgroups@[w].name@ == n
                            && cgh.cgroups@[w].tasks@.contains(pid);
                    assert(w == idx);
                    assert(false);
                }
            }
            assert forall|n: Seq<char>, q: u64| q != pid implies (#[trigger] cgh.spec_task_in(
                n,
                q,
            )) == old(cgh).spec_task_in(n, q) by {
                if cgh.spec_task_in(n, q) {
                    let w = choose|w: int|
                        0 <= w < cgh.cgroups@.len() && cgh.cgroups@[w].name@ == n
                            && cgh.cgroups@[w].tasks@.contains(q);
                    assert(mid.cgroups@[w].name@ == n && mid.cgroups@[w].tasks@.contains(q));
                    if w < old(cgh).cgroups@.len() {
                        assert(old(cgh).cgroups@[w].name@ == n
                            && old(cgh).cgroups@[w].tasks@.contains(q));
                    } else {
                        assert(mid.cgroups@[w].tasks@ == Seq::<u64>::empty());
                        assert(false);
                    }
                }
                if old(cgh).spec_task_in(n, q) {
                    let w = choose|w: int|
                        0 <= w < old(cgh).cgroups@.len() && old(cgh).cgroups@[w].name@ == n
                            && old(cgh).cgroups@[w].tasks@.contains(q);
                    assert(mid.cgroups@[w].name@ == n && mid.cgroups@[w].tasks@.contains(q));
                    assert(cgh.cgroups@[w].name@ == n && cgh.cgroups@[w].tasks@.contains(q));
                }
            }
        }
        App::new_with_cgroup(app_id, pid, name)
    }

    /// Build a record for an application whose cgroup already exists (a
    /// D-Bus-activated application seen first through its toplevel).
    pub fn new_with_cgroup(app_id: AppId, pid: u64, cgroup: String) -> (r: App)
        ensures
            r.info.app_id@ == app_id@,
            r.pid == pid,
            r.info.cgroup@ == cgroup@,
            r.info.match_rule == Rule::Foreground,
            r.info.tags@ =~= Seq::<Tag>::empty(),
    {
        App {
            info: AppMatchInfo {
                app_id,
                tags: Vec::new(),
                match_rule: Rule::Foreground,
                cgroup,
            },
            pid,
        }
    }

    /// Whether this application satisfies the filter, consulting the
    /// handler's live task sets for PID filters.
    pub fn matches(&self, cmp: &AppFilter, cgh: &CGHandler) -> (r: bool)
        requires
            cgh.names_unique(),
        ensures
            r == spec_app_matches(*self, *cmp, *cgh),
    {
        match cmp {
            AppFilter::AppId(app_id) => self.info.app_id == **app_id,
            AppFilter::Pid(pid) => {
                match cgh.find_cgroup(self.info.cgroup.as_str()) {
                    Some(i) => {
                        let r = cgh.contains_task(i, *pid);
                        proof {
                            if !r && cgh.spec_task_in(self.info.cgroup@, *pid) {
                                let w = choose|w: int|
                                    0 <= w < cgh.cgroups@.len() && cgh.cgroups@[w].name@
                                        == self.info.cgroup@ && cgh.cgroups@[w].tasks@.contains(
                                        *pid,
                                    );
                                assert(w == i);
                            }
                        }
                        r
                    },
                    None => {
                        proof {
                            if cgh.spec_task_in(self.info.cgroup@, *pid) {
                                let w = choose|w: int|
                                    0 <= w < cgh.cgroups@.len() && cgh.cgroups@[w].name@
                                        == self.info.cgroup@ && cgh.cgroups@[w].tasks@.contains(
                                        *pid,
                                    );
                            }
                        }
                        false
                    },
                }
            },
            AppFilter::Rule(rule) => self.info.match_rule == *rule,
        }
    }

    /// The tasks currently in this application's cgroup.
    pub fn pids(&self, cgh: &CGHandler) -> (r: Vec<u64>)
        requires
            cgh.names_unique(),
            cgh.spec_has_cgroup(self.info.cgroup@),
        ensures
            r@ == cgh.cgroups@[cgh.index_of_name(self.info.cgroup@)].tasks@,
    {
        match cgh.find_cgroup(self.info.cgroup.as_str()) {
            Some(i) => {
                proof {
                    let w = cgh.index_of_name(self.info.cgroup@);
                    assert(0 <= w < cgh.cgroups@.len() && cgh.cgroups@[w].name@
                        == self.info.cgroup@);
                    assert(w == i);
                }
                cgh.tasks_of(i)
            },
            None => {
                proof {
                    let w = choose|w: int|
                        0 <= w < cgh.cgroups@.len() && cgh.cgroups@[w].name@ == self.info.cgroup@;
                    assert(false);
                }
                Vec::new()
            },
        }
    }

    /// A view of the matching state.
    pub fn get_info(&self) -> (r: &AppMatchInfo)
        ensures
            *r == self.info,
    {
        &self.info
    }

    /// Engage the freezer of this application's cgroup.
    pub fn freeze(&self, cgh: &mut CGHandler)
        requires
            old(cgh).names_unique(),
            old(cgh).spec_has_cgroup(self.info.cgroup@),
        ensures
            spec_with_frozen(*old(cgh), *final(cgh), self.info.cgroup@, true),
            final(cgh).names_unique(),
            old(cgh).tasks_disjoint() ==> final(cgh).tasks_disjoint(),
            forall|n: Seq<char>|
                #[trigger] final(cgh).spec_has_cgroup(n) == old(cgh).spec_has_cgroup(n),
    {
        cgh.set_frozen_by_name(self.info.cgroup.as_str(), true);
    }

    /// Release the freezer of this application's cgroup.
    pub fn thaw(&self, cgh: &mut CGHandler)
        requires
            old(cgh).names_unique(),
            old(cgh).spec_has_cgroup(self.info.cgroup@),
        ensures
            spec_with_frozen(*old(cgh), *final(cgh), self.info.cgroup@, false),
            final(cgh).names_unique(),
            old(cgh).tasks_disjoint() ==> final(cgh).tasks_disjoint(),
            forall|n: Seq<char>|
                #[trigger] final(cgh).spec_has_cgroup(n) == old(cgh).spec_has_cgroup(n),
    {
        cgh.set_frozen_by_name(self.info.cgroup.as_str(), false);
    }
}

} // verus!
