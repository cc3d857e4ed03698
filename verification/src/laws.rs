//! The properties the controller guarantees, stated on their own.
//!
//! These proof functions restate, over the controller's invariant and the
//! event-handling relations, what a reader should be able to rely on: every
//! registered application has a live cgroup, a PID identifies at most one
//! application, identity keys never collide, and the delay inhibitor stays
//! released for as long as a suspend is in progress.

use vstd::prelude::*;

use crate::application::{spec_app_matches, AppFilter};
use crate::events::HammockEvent;
use crate::hammock::{spec_inhibit_step, Hammock};

verus! {

/// Every application in the registry owns a cgroup that exists in the
/// handler.
pub proof fn lemma_registry_cgroups_exist(h: Hammock)
    requires
        h.wf(),
    ensures
        forall|i: int|
            0 <= i < h.apps@.len() ==> h.handler.spec_has_cgroup(
                (#[trigger] h.apps@[i]).info.cgroup@,
            ),
{
}

/// Any two distinct applications differ in their identifier or in their
/// first PID: the `(app_id, first_pid)` pair is an identity key.
pub proof fn lemma_identity_keys_distinct(h: Hammock)
    requires
        h.wf(),
    ensures
        forall|i: int, j: int|
            0 <= i < h.apps@.len() && 0 <= j < h.apps@.len() && i != j ==> (
            #[trigger] h.apps@[i]).info.app_id@ != (#[trigger] h.apps@[j]).info.app_id@
                || h.apps@[i].pid != h.apps@[j].pid,
{
    assert forall|i: int, j: int|
        0 <= i < h.apps@.len() && 0 <= j < h.apps@.len() && i != j implies (
    #[trigger] h.apps@[i]).info.app_id@ != (#[trigger] h.apps@[j]).info.app_id@ || h.apps@[i].pid
        != h.apps@[j].pid by {
        if i < j {
            assert(h.apps@[i].key() != h.apps@[j].key());
        } else {
            assert(h.apps@[j].key() != h.apps@[i].key());
        }
    }
}

/// A task that sits in some application's cgroup identifies that
/// application: the application matches a PID filter for it, and no other
/// application does.  Looking the PID up therefore returns exactly this
/// application.
pub proof fn lemma_pid_identifies_app(h: Hammock, p: u64, k: int)
    requires
        h.wf(),
        0 <= k < h.apps@.len(),
        h.handler.spec_task_in(h.apps@[k].info.cgroup@, p),
    ensures
        spec_app_matches(h.apps@[k], AppFilter::Pid(p), h.handler),
        forall|j: int|
            0 <= j < h.apps@.len() && j != k ==> !spec_app_matches(
                #[trigger] h.apps@[j],
                AppFilter::Pid(p),
                h.handler,
            ),
{
    assert forall|j: int| 0 <= j < h.apps@.len() && j != k implies !spec_app_matches(
        #[trigger] h.apps@[j],
        AppFilter::Pid(p),
        h.handler,
    ) by {
        if h.handler.spec_task_in(h.apps@[j].info.cgroup@, p) {
            let wk = choose|w: int|
                0 <= w < h.handler.cgroups@.len() && h.handler.cgroups@[w].name@ == h.apps@[
                    k
                ].info.cgroup@ && h.handler.cgroups@[w].tasks@.contains(p);
            let wj = choose|w: int|
                0 <= w < h.handler.cgroups@.len() && h.handler.cgroups@[w].name@ == h.apps@[
                    j
                ].info.cgroup@ && h.handler.cgroups@[w].tasks@.contains(p);
            if j < k {
                assert(h.apps@[j].info.cgroup@ != h.apps@[k].info.cgroup@);
            } else {
                assert(h.apps@[k].info.cgroup@ != h.apps@[j].info.cgroup@);
            }
            assert(wk != wj);
            assert(h.handler.cgroups@[wk].tasks@.contains(p));
            assert(!h.handler.cgroups@[wj].tasks@.contains(p));
            assert(false);
        }
    }
}

/// The inhibitor flag after a run of events has been digested.
pub open spec fn spec_inhibit_after(held: bool, events: Seq<HammockEvent>) -> bool
    decreases events.len(),
{
    if events.len() == 0 {
        held
    } else {
        spec_inhibit_after(spec_inhibit_step(held, events[0]), events.drop_first())
    }
}

/// Once suspend has released the delay lock, it stays released through any
/// run of events that contains no resume: only `SystemSuspend(false)`
/// re-arms the inhibitor.
pub proof fn lemma_inhibitor_released_until_resume(events: Seq<HammockEvent>)
    requires
        forall|i: int|
            0 <= i < events.len() ==> !((#[trigger] events[i]) matches HammockEvent::SystemSuspend(
                false,
            )),
    ensures
        !spec_inhibit_after(false, events),
    decreases events.len(),
{
    if events.len() > 0 {
        assert(!spec_inhibit_step(false, events[0]));
        assert forall|i: int| 0 <= i < events.drop_first().len() implies !((
        #[trigger] events.drop_first()[i]) matches HammockEvent::SystemSuspend(false)) by {
            assert(events.drop_first()[i] == events[i + 1]);
        }
        lemma_inhibitor_released_until_resume(events.drop_first());
    }
}

} // verus!
