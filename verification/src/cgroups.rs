//! The cgroup handler model.
//!
//! The controller reasons about cgroups as data: each cgroup has a name, the
//! set of tasks it holds, and a freezer flag; the handler also has a freezer
//! flag for the top-level grouping cgroup, which freezes the whole subtree.
//! The unverified shell mirrors every mutation onto the real cgroup v2
//! hierarchy (the actions it must perform are emitted by the event handler).
//!
//! Creating a cgroup that already exists returns the existing one, and a task
//! belongs to exactly one cgroup: adding it somewhere removes it from
//! everywhere else, as the kernel does.

use vstd::prelude::*;

use crate::config::CgroupConfig;
use crate::errors::HammockError;

verus! {

/// The modelled state of one cgroup directory.
#[derive(Debug)]
pub struct Cgroup {
    /// The directory name under the grouping cgroup.
    pub name: String,
    /// The tasks (thread-group ids) currently in the cgroup.
    pub tasks: Vec<u64>,
    /// Whether this cgroup's own freezer is engaged.
    pub frozen: bool,
}

/// The handler owning every cgroup under the grouping cgroup.
#[derive(Debug)]
pub struct CGHandler {
    /// All cgroups, in creation order.
    pub cgroups: Vec<Cgroup>,
    /// Whether the top-level grouping cgroup (and so the whole subtree) is
    /// frozen.
    pub root_frozen: bool,
}

impl CGHandler {
    /// Whether a cgroup of the given name exists.
    pub open spec fn spec_has_cgroup(self, name: Seq<char>) -> bool {
        exists|i: int| 0 <= i < self.cgroups@.len() && self.cgroups@[i].name@ == name
    }

    /// No two cgroups share a name; creation is idempotent, so this holds
    /// throughout.
    pub open spec fn names_unique(self) -> bool {
        forall|i: int, j: int|
            0 <= i < j < self.cgroups@.len() ==> (#[trigger] self.cgroups@[i].name@) != (
            #[trigger] self.cgroups@[j].name@)
    }

    /// The index of the cgroup with the given name (meaningful when one
    /// exists and names are unique).
    pub open spec fn index_of_name(self, name: Seq<char>) -> int {
        choose|i: int| 0 <= i < self.cgroups@.len() && self.cgroups@[i].name@ == name
    }

    /// Whether the task is in the cgroup of the given name.
    pub open spec fn spec_task_in(self, name: Seq<char>, pid: u64) -> bool {
        exists|i: int|
            0 <= i < self.cgroups@.len() && self.cgroups@[i].name@ == name
                && self.cgroups@[i].tasks@.contains(pid)
    }

    /// No task belongs to two cgroups.
    pub open spec fn tasks_disjoint(self) -> bool {
        forall|i: int, j: int, p: u64|
            0 <= i < self.cgroups@.len() && 0 <= j < self.cgroups@.len() && i != j
                && #[trigger] self.cgroups@[i].tasks@.contains(p) ==> !(
            #[trigger] self.cgroups@[j].tasks@.contains(p))
    }

    /// A fresh handler: no cgroups yet, subtree thawed.
    pub fn new() -> (r: CGHandler)
        ensures
            r.cgroups@.len() == 0,
            !r.root_frozen,
            r.tasks_disjoint(),
            r.names_unique(),
    {
        CGHandler { cgroups: Vec::new(), root_frozen: false }
    }

    /// The index of the first cgroup with the given name, if any.
    pub fn find_cgroup(&self, name: &str) -> (r: Option<usize>)
        ensures
            match r {
                Some(i) => i < self.cgroups@.len() && self.cgroups@[i as int].name@ == name@
                    && forall|j: int| 0 <= j < i ==> self.cgroups@[j].name@ != name@,
                None => forall|j: int|
                    0 <= j < self.cgroups@.len() ==> self.cgroups@[j].name@ != name@,
            },
            r is Some == self.spec_has_cgroup(name@),
    {
        let name_owned = name.to_owned();
        let mut i: usize = 0;
        while i < self.cgroups.len()
            invariant
                0 <= i <= self.cgroups@.len(),
                name_owned@ == name@,
                forall|j: int| 0 <= j < i ==> self.cgroups@[j].name@ != name@,
            decreases self.cgroups@.len() - i,
        {
            if self.cgroups[i].name == name_owned {
                return Some(i);
            }
            i += 1;
        }
        None
    }

    /// Create a named cgroup, or return the existing one: creation is
    /// idempotent.  The result is the cgroup's index.  The configuration is
    /// accepted for interface parity but not yet applied, as in the enclosing
    /// daemon's current policy.
    pub fn new_cgroup(&mut self, name: &str, _config: Option<&CgroupConfig>) -> (idx: usize)
        ensures
            idx < final(self).cgroups@.len(),
            final(self).cgroups@[idx as int].name@ == name@,
            final(self).root_frozen == old(self).root_frozen,
            old(self).spec_has_cgroup(name@) ==> *final(self) == *old(self),
            !old(self).spec_has_cgroup(name@) ==> {
                &&& idx == old(self).cgroups@.len()
                &&& final(self).cgroups@.len() == old(self).cgroups@.len() + 1
                &&& forall|i: int|
                    0 <= i < old(self).cgroups@.len() ==> final(self).cgroups@[i]
                        == old(self).cgroups@[i]
                &&& final(self).cgroups@[idx as int].tasks@ == Seq::<u64>::empty()
                &&& !final(self).cgroups@[idx as int].frozen
            },
            final(self).spec_has_cgroup(name@),
            old(self).tasks_disjoint() ==> final(self).tasks_disjoint(),
            old(self).names_unique() ==> final(self).names_unique(),
            forall|n: Seq<char>|
                #[trigger] final(self).spec_has_cgroup(n) == (old(self).spec_has_cgroup(n) || n
                    == name@),
    {
        match self.find_cgroup(name) {
            Some(i) => i,
            None => {
                let idx = self.cgroups.len();
                self.cgroups.push(Cgroup { name: name.to_owned(), tasks: Vec::new(), frozen: false });
                proof {
                    assert forall|n: Seq<char>|
                        #[trigger] self.spec_has_cgroup(n) == (old(self).spec_has_cgroup(n) || n
                            == name@) by {
                        if old(self).spec_has_cgroup(n) {
                            let w = choose|w: int|
                                0 <= w < old(self).cgroups@.len() && old(self).cgroups@[w].name@
                                    == n;
                            assert(self.cgroups@[w].name@ == n);
                        }
                        if n == name@ {
                            assert(self.cgroups@[idx as int].name@ == n);
                        }
                        if self.spec_has_cgroup(n) {
                            let w = choose|w: int|
                                0 <= w < self.cgroups@.len() && self.cgroups@[w].name@ == n;
                            if w < old(self).cgroups@.len() {
                                assert(old(self).cgroups@[w].name@ == n);
                            }
                        }
                    }
                    assert forall|i: int, j: int, p: u64|
                        0 <= i < self.cgroups@.len() && 0 <= j < self.cgroups@.len() && i != j
                            && old(self).tasks_disjoint()
                            && #[trigger] self.cgroups@[i].tasks@.contains(p) implies !(
                        #[trigger] self.cgroups@[j].tasks@.contains(p)) by {
                        assert(i < old(self).cgroups@.len());
                        if j < old(self).cgroups@.len() {
                            assert(old(self).cgroups@[i].tasks@.contains(p));
                        }
                    }
                }
                idx
            },
        }
    }

    /// Return a handle to an existing cgroup without creating it; a cgroup
    /// that does not exist is an error and nothing changes.
    pub fn load_cgroup(&self, name: &str) -> (r: Result<usize, HammockError>)
        ensures
            match r {
                Ok(idx) => idx < self.cgroups@.len() && self.cgroups@[idx as int].name@ == name@
                    && forall|j: int| 0 <= j < idx ==> self.cgroups@[j].name@ != name@,
                Err(e) => e == HammockError::NoSuchCgroup && !self.spec_has_cgroup(name@),
            },
            (r is Ok) == self.spec_has_cgroup(name@),
    {
        match self.find_cgroup(name) {
            Some(idx) => Ok(idx),
            None => Err(HammockError::NoSuchCgroup),
        }
    }

    /// Move a task into the cgroup at `idx`: it leaves every other cgroup,
    /// as a task migration does under cgroup v2.
    pub fn add_task(&mut self, idx: usize, pid: u64)
        requires
            idx < old(self).cgroups@.len(),
        ensures
            final(self).cgroups@.len() == old(self).cgroups@.len(),
            final(self).root_frozen == old(self).root_frozen,
            forall|i: int|
                0 <= i < final(self).cgroups@.len() ==> (#[trigger] final(self).cgroups@[i]).name
                    == old(self).cgroups@[i].name && final(self).cgroups@[i].frozen == old(
                self,
            ).cgroups@[i].frozen,
            final(self).cgroups@[idx as int].tasks@.contains(pid),
            forall|i: int|
                0 <= i < final(self).cgroups@.len() && i != idx ==> !(
                #[trigger] final(self).cgroups@[i].tasks@.contains(pid)),
            forall|i: int, q: u64|
                0 <= i < final(self).cgroups@.len() && q != pid ==> ((
                #[trigger] final(self).cgroups@[i].tasks@.contains(q)) == old(
                self,
                ).cgroups@[i].tasks@.contains(q)),
            old(self).tasks_disjoint() ==> final(self).tasks_disjoint(),
            old(self).names_unique() ==> final(self).names_unique(),
            forall|n: Seq<char>|
                #[trigger] final(self).spec_has_cgroup(n) == old(self).spec_has_cgroup(n),
    {
        let mut i: usize = 0;
        let n = self.cgroups.len();
        while i < n
            invariant
                0 <= i <= n,
                n == self.cgroups@.len(),
                n == old(self).cgroups@.len(),
                idx < n,
                self.root_frozen == old(self).root_frozen,
                forall|k: int|
                    0 <= k < n ==> (#[trigger] self.cgroups@[k]).name == old(self).cgroups@[k].name
                        && self.cgroups@[k].frozen == old(self).cgroups@[k].frozen,
                forall|k: int| 0 <= k < i ==> !(#[trigger] self.cgroups@[k].tasks@.contains(pid)),
                forall|k: int, q: u64|
                    0 <= k < n && q != pid ==> ((#[trigger] self.cgroups@[k].tasks@.contains(q))
                        == old(self).cgroups@[k].tasks@.contains(q)),
                forall|k: int| i <= k < n ==> (#[trigger] self.cgroups@[k]).tasks@ == old(self).cgroups@[k].tasks@,
            decreases n - i,
        {
            let ghost tasks_seq = self.cgroups@[i as int].tasks@;
            let mut kept: Vec<u64> = Vec::new();
            let mut k: usize = 0;
            let m = self.cgroups[i].tasks.len();
            while k < m
                invariant
                    0 <= k <= m,
                    i < self.cgroups@.len(),
                    tasks_seq == self.cgroups@[i as int].tasks@,
                    m == tasks_seq.len(),
                    !kept@.contains(pid),
                    forall|q: u64|
                        q != pid ==> (kept@.contains(q) == tasks_seq.take(k as int).contains(q)),
                decreases m - k,
            {
                let t = self.cgroups[i].tasks[k];
                proof {
                    assert(tasks_seq.take(k + 1) =~= tasks_seq.take(k as int).push(t));
                    lemma_push_contains_all(tasks_seq.take(k as int), t);
                }
                if t != pid {
                    let ghost kept_old = kept@;
                    kept.push(t);
                    proof {
                        lemma_push_contains_all(kept_old, t);
                    }
                }
                k += 1;
            }
            proof {
                assert(tasks_seq.take(m as int) =~= tasks_seq);
            }
            self.cgroups[i].tasks = kept;
            i += 1;
        }
        let ghost pre_push = self.cgroups@;
        let ghost kept_idx = self.cgroups@[idx as int].tasks@;
        self.cgroups[idx].tasks.push(pid);
        proof {
            lemma_push_contains_all(kept_idx, pid);
            assert(self.cgroups@[idx as int].tasks@ == kept_idx.push(pid));
            lemma_same_names_same_cgroups(*old(self), *self);
            if old(self).tasks_disjoint() {
                assert forall|i2: int, j2: int, p: u64|
                    0 <= i2 < self.cgroups@.len() && 0 <= j2 < self.cgroups@.len() && i2 != j2 && (
                    #[trigger] self.cgroups@[i2].tasks@.contains(p)) implies !(
                #[trigger] self.cgroups@[j2].tasks@.contains(p)) by {
                    if p == pid {
                        if i2 != idx {
                            assert(self.cgroups@[i2] == pre_push[i2]);
                            assert(!pre_push[i2].tasks@.contains(pid));
                            assert(false);
                        }
                        assert(j2 != idx);
                        assert(self.cgroups@[j2] == pre_push[j2]);
                    } else {
                        assert(old(self).cgroups@[i2].tasks@.contains(p));
                        assert(!old(self).cgroups@[j2].tasks@.contains(p));
                    }
                }
            }
        }
    }

    /// Whether the cgroup at `idx` currently holds `pid`.
    pub fn contains_task(&self, idx: usize, pid: u64) -> (r: bool)
        requires
            idx < self.cgroups@.len(),
        ensures
            r == self.cgroups@[idx as int].tasks@.contains(pid),
    {
        let tasks = &self.cgroups[idx].tasks;
        let mut k: usize = 0;
        while k < tasks.len()
            invariant
                0 <= k <= tasks@.len(),
                idx < self.cgroups@.len(),
                tasks@ == self.cgroups@[idx as int].tasks@,
                forall|j: int| 0 <= j < k ==> tasks@[j] != pid,
            decreases tasks@.len() - k,
        {
            if tasks[k] == pid {
                proof {
                    assert(tasks@[k as int] == pid);
                    assert(tasks@.contains(pid));
                }
                return true;
            }
            k += 1;
        }
        false
    }

    /// The tasks currently in the cgroup at `idx`.
    pub fn tasks_of(&self, idx: usize) -> (r: Vec<u64>)
        requires
            idx < self.cgroups@.len(),
        ensures
            r@ == self.cgroups@[idx as int].tasks@,
    {
        let tasks = &self.cgroups[idx].tasks;
        let mut out: Vec<u64> = Vec::new();
        let mut k: usize = 0;
        while k < tasks.len()
            invariant
                0 <= k <= tasks@.len(),
                out@ == tasks@.take(k as int),
            decreases tasks@.len() - k,
        {
            out.push(tasks[k]);
            proof {
                assert(tasks@.take(k + 1) =~= tasks@.take(k as int).push(tasks@[k as int]));
            }
            k += 1;
        }
        proof {
            assert(tasks@.take(tasks@.len() as int) =~= tasks@);
        }
        out
    }

    /// Engage or release the freezer of the cgroup at `idx`.
    pub fn set_frozen(&mut self, idx: usize, frozen: bool)
        requires
            idx < old(self).cgroups@.len(),
        ensures
            final(self).cgroups@.len() == old(self).cgroups@.len(),
            final(self).root_frozen == old(self).root_frozen,
            forall|i: int|
                0 <= i < final(self).cgroups@.len() && i != idx ==> final(self).cgroups@[i] == old(
                self,
            ).cgroups@[i],
            final(self).cgroups@[idx as int].name == old(self).cgroups@[idx as int].name,
            final(self).cgroups@[idx as int].tasks == old(self).cgroups@[idx as int].tasks,
            final(self).cgroups@[idx as int].frozen == frozen,
            old(self).tasks_disjoint() ==> final(self).tasks_disjoint(),
            old(self).names_unique() ==> final(self).names_unique(),
    {
        self.cgroups[idx].frozen = frozen;
    }

    /// Engage or release the freezer of the cgroup with the given name.
    pub fn set_frozen_by_name(&mut self, name: &str, frozen: bool)
        requires
            old(self).spec_has_cgroup(name@),
            old(self).names_unique(),
        ensures
            spec_with_frozen(*old(self), *final(self), name@, frozen),
            final(self).names_unique(),
            old(self).tasks_disjoint() ==> final(self).tasks_disjoint(),
            forall|n: Seq<char>|
                #[trigger] final(self).spec_has_cgroup(n) == old(self).spec_has_cgroup(n),
    {
        match self.find_cgroup(name) {
            Some(i) => {
                self.set_frozen(i, frozen);
                proof {
                    assert forall|k: int|
                        0 <= k < old(self).cgroups@.len() && old(self).cgroups@[k].name@
                            == name@ implies (#[trigger] self.cgroups@[k]).name == old(
                        self,
                    ).cgroups@[k].name && self.cgroups@[k].tasks == old(self).cgroups@[k].tasks
                        && self.cgroups@[k].frozen == frozen by {
                        if k != i {
                            assert(old(self).cgroups@[k].name@ == old(self).cgroups@[
                                i as int
                            ].name@);
                            assert(false);
                        }
                    }
                    lemma_same_names_same_cgroups(*old(self), *self);
                }
            },
            None => {
                proof {
                    assert(false);
                }
            },
        }
    }

    /// Decide whether no two cgroups share a name.
    pub fn check_names_unique(&self) -> (r: bool)
        ensures
            r == self.names_unique(),
    {
        let n = self.cgroups.len();
        let mut i: usize = 0;
        while i < n
            invariant
                0 <= i <= n,
                n == self.cgroups@.len(),
                forall|a: int, b: int|
                    0 <= a < b < n && a < i ==> (#[trigger] self.cgroups@[a].name@) != (
                    #[trigger] self.cgroups@[b].name@),
            decreases n - i,
        {
            let mut j: usize = i + 1;
            while j < n
                invariant
                    i < n,
                    i < j <= n,
                    n == self.cgroups@.len(),
                    forall|a: int, b: int|
                        0 <= a < b < n && a < i ==> (#[trigger] self.cgroups@[a].name@) != (
                        #[trigger] self.cgroups@[b].name@),
                    forall|b: int|
                        i < b < j ==> (#[trigger] self.cgroups@[b].name@) != self.cgroups@[
                            i as int
                        ].name@,
                decreases n - j,
            {
                if self.cgroups[i].name == self.cgroups[j].name {
                    proof {
                        assert(self.cgroups@[i as int].name@ == self.cgroups@[j as int].name@);
                        assert(!self.names_unique());
                    }
                    return false;
                }
                j += 1;
            }
            i += 1;
        }
        true
    }

    /// Decide whether no task sits in two cgroups.
    pub fn check_tasks_disjoint(&self) -> (r: bool)
        ensures
            r == self.tasks_disjoint(),
    {
        let n = self.cgroups.len();
        let mut i: usize = 0;
        while i < n
            invariant
                0 <= i <= n,
                n == self.cgroups@.len(),
                forall|a: int, b: int, p: u64|
                    0 <= a < n && 0 <= b < n && a != b && a < i && (
                    #[trigger] self.cgroups@[a].tasks@.contains(p)) ==> !(
                    #[trigger] self.cgroups@[b].tasks@.contains(p)),
            decreases n - i,
        {
            let m = self.cgroups[i].tasks.len();
            let mut k: usize = 0;
            while k < m
                invariant
                    0 <= k <= m,
                    i < n,
                    n == self.cgroups@.len(),
                    m == self.cgroups@[i as int].tasks@.len(),
                    forall|a: int, b: int, p: u64|
                        0 <= a < n && 0 <= b < n && a != b && a < i && (
                        #[trigger] self.cgroups@[a].tasks@.contains(p)) ==> !(
                        #[trigger] self.cgroups@[b].tasks@.contains(p)),
                    forall|idx: int, b: int|
                        0 <= idx < k && 0 <= b < n && b != i ==> !(
                        #[trigger] self.cgroups@[b].tasks@.contains(
                            #[trigger] self.cgroups@[i as int].tasks@[idx],
                        )),
                decreases m - k,
            {
                let t = self.cgroups[i].tasks[k];
                let mut j: usize = 0;
                while j < n
                    invariant
                        0 <= j <= n,
                        i < n,
                        k < m,
                        n == self.cgroups@.len(),
                        m == self.cgroups@[i as int].tasks@.len(),
                        t == self.cgroups@[i as int].tasks@[k as int],
                        forall|b: int|
                            0 <= b < j && b != i ==> !(#[trigger] self.cgroups@[b].tasks@.contains(
                                t,
                            )),
                    decreases n - j,
                {
                    if j != i && self.contains_task(j, t) {
                        proof {
                            assert(self.cgroups@[i as int].tasks@.contains(t));
                            assert(!self.tasks_disjoint());
                        }
                        return false;
                    }
                    j += 1;
                }
                k += 1;
            }
            proof {
                assert forall|a: int, b: int, p: u64|
                    0 <= a < n && 0 <= b < n && a != b && a < i + 1 && (
                    #[trigger] self.cgroups@[a].tasks@.contains(p)) implies !(
                #[trigger] self.cgroups@[b].tasks@.contains(p)) by {
                    if a == i {
                        let idx = choose|idx: int|
                            0 <= idx < self.cgroups@[a].tasks@.len() && self.cgroups@[a].tasks@[idx]
                                == p;
                        assert(!self.cgroups@[b].tasks@.contains(self.cgroups@[i as int].tasks@[idx]));
                    }
                }
            }
            i += 1;
        }
        proof {
            assert forall|a: int, b: int, p: u64|
                0 <= a < self.cgroups@.len() && 0 <= b < self.cgroups@.len() && a != b && (
                #[trigger] self.cgroups@[a].tasks@.contains(p)) implies !(
            #[trigger] self.cgroups@[b].tasks@.contains(p)) by {}
        }
        true
    }

    /// Remove the cgroup with the given name, if it exists.  Removing one
    /// that does not exist is a no-op: cleanup is best-effort.
    pub fn remove_cgroup(&mut self, name: &str)
        requires
            old(self).names_unique(),
        ensures
            final(self).root_frozen == old(self).root_frozen,
            final(self).names_unique(),
            old(self).tasks_disjoint() ==> final(self).tasks_disjoint(),
            forall|n: Seq<char>|
                #[trigger] final(self).spec_has_cgroup(n) == (old(self).spec_has_cgroup(n) && n
                    != name@),
    {
        match self.find_cgroup(name) {
            Some(i) => {
                self.cgroups.remove(i);
                proof {
                    let pre = old(self).cgroups@;
                    let post = self.cgroups@;
                    assert forall|j: int| 0 <= j < post.len() implies post[j] == pre[
                        if j < i {
                            j
                        } else {
                            j + 1
                        }
                    ] by {}
                    assert forall|n: Seq<char>|
                        #[trigger] self.spec_has_cgroup(n) == (old(self).spec_has_cgroup(n) && n
                            != name@) by {
                        if self.spec_has_cgroup(n) {
                            let w = choose|w: int| 0 <= w < post.len() && post[w].name@ == n;
                            let w0 = if w < i {
                                w
                            } else {
                                w + 1
                            };
                            assert(pre[w0].name@ == n);
                            assert(w0 != i);
                            assert(n != name@);
                        }
                        if old(self).spec_has_cgroup(n) && n != name@ {
                            let w0 = choose|w0: int| 0 <= w0 < pre.len() && pre[w0].name@ == n;
                            assert(w0 != i);
                            let w = if w0 < i {
                                w0
                            } else {
                                w0 - 1
                            };
                            assert(post[w].name@ == n);
                        }
                    }
                    if old(self).tasks_disjoint() {
                        assert forall|i2: int, j2: int, p: u64|
                            0 <= i2 < post.len() && 0 <= j2 < post.len() && i2 != j2 && (
                            #[trigger] post[i2].tasks@.contains(p)) implies !(
                        #[trigger] post[j2].tasks@.contains(p)) by {
                            let a = if i2 < i {
                                i2
                            } else {
                                i2 + 1
                            };
                            let b = if j2 < i {
                                j2
                            } else {
                                j2 + 1
                            };
                            assert(pre[a].tasks@.contains(p));
                            assert(a != b);
                        }
                    }
                    assert forall|i2: int, j2: int|
                        0 <= i2 < j2 < post.len() implies (#[trigger] post[i2].name@) != (
                    #[trigger] post[j2].name@) by {
                        let a = if i2 < i {
                            i2
                        } else {
                            i2 + 1
                        };
                        let b = if j2 < i {
                            j2
                        } else {
                            j2 + 1
                        };
                        assert(a < b);
                        assert(pre[a].name@ == post[i2].name@ && pre[b].name@ == post[j2].name@);
                    }
                }
            },
            None => {
                proof {
                    assert forall|n: Seq<char>|
                        #[trigger] self.spec_has_cgroup(n) == (old(self).spec_has_cgroup(n) && n
                            != name@) by {
                        if self.spec_has_cgroup(n) && n == name@ {
                            let w = choose|w: int|
                                0 <= w < self.cgroups@.len() && self.cgroups@[w].name@ == n;
                        }
                    }
                }
            },
        }
    }

    /// Freeze or thaw the whole subtree by writing the freezer state of the
    /// top-level grouping cgroup.
    pub fn freeze_all(&mut self, active: bool)
        ensures
            final(self).cgroups == old(self).cgroups,
            final(self).root_frozen == active,
    {
        self.root_frozen = active;
    }
}

/// The relation between handler states before and after the freezer of the
/// cgroup named `name` is set to `fr`: that cgroup keeps its name and tasks,
/// every other cgroup and the root freezer are untouched.
pub open spec fn spec_with_frozen(pre: CGHandler, post: CGHandler, name: Seq<char>, fr: bool) -> bool {
    &&& post.cgroups@.len() == pre.cgroups@.len()
    &&& post.root_frozen == pre.root_frozen
    &&& forall|i: int|
        0 <= i < pre.cgroups@.len() && pre.cgroups@[i].name@ == name ==> (
        #[trigger] post.cgroups@[i]).name == pre.cgroups@[i].name && post.cgroups@[i].tasks
            == pre.cgroups@[i].tasks && post.cgroups@[i].frozen == fr
    &&& forall|i: int|
        0 <= i < pre.cgroups@.len() && pre.cgroups@[i].name@ != name ==> #[trigger] post.cgroups@[i]
            == pre.cgroups@[i]
}

/// Freezing a cgroup and then thawing it returns the handler to exactly the
/// state it started in, provided the cgroup was thawed to begin with.
pub proof fn lemma_freeze_then_thaw_restores(
    h0: CGHandler,
    h1: CGHandler,
    h2: CGHandler,
    name: Seq<char>,
)
    requires
        spec_with_frozen(h0, h1, name, true),
        spec_with_frozen(h1, h2, name, false),
        forall|i: int|
            0 <= i < h0.cgroups@.len() && (#[trigger] h0.cgroups@[i].name@) == name
                ==> !h0.cgroups@[i].frozen,
    ensures
        h2.cgroups@ =~= h0.cgroups@,
        h2.root_frozen == h0.root_frozen,
{
    assert forall|i: int| 0 <= i < h0.cgroups@.len() implies h2.cgroups@[i] == h0.cgroups@[i] by {
        if h0.cgroups@[i].name@ == name {
            assert(h1.cgroups@[i].name@ == name);
            assert(h2.cgroups@[i].name == h0.cgroups@[i].name);
            assert(h2.cgroups@[i].tasks == h0.cgroups@[i].tasks);
            assert(h2.cgroups@[i].frozen == h0.cgroups@[i].frozen);
        } else {
            assert(h1.cgroups@[i] == h0.cgroups@[i]);
        }
    }
}

/// Two handlers whose cgroups carry the same names (pointwise) have the same
/// named cgroups.
proof fn lemma_same_names_same_cgroups(pre: CGHandler, post: CGHandler)
    requires
        post.cgroups@.len() == pre.cgroups@.len(),
        forall|i: int|
            0 <= i < pre.cgroups@.len() ==> (#[trigger] post.cgroups@[i]).name@
                == pre.cgroups@[i].name@,
    ensures
        forall|n: Seq<char>| #[trigger] post.spec_has_cgroup(n) == pre.spec_has_cgroup(n),
{
    assert forall|n: Seq<char>| #[trigger] post.spec_has_cgroup(n) == pre.spec_has_cgroup(n) by {
        if pre.spec_has_cgroup(n) {
            let w = choose|w: int| 0 <= w < pre.cgroups@.len() && pre.cgroups@[w].name@ == n;
            assert(post.cgroups@[w].name@ == n);
        }
        if post.spec_has_cgroup(n) {
            let w = choose|w: int| 0 <= w < post.cgroups@.len() && post.cgroups@[w].name@ == n;
            assert(pre.cgroups@[w].name@ == n);
        }
    }
}

/// Membership in a sequence extended by one element.
proof fn lemma_push_contains_all(s: Seq<u64>, x: u64)
    ensures
        forall|q: u64| #[trigger] s.push(x).contains(q) == (s.contains(q) || q == x),
{
    assert forall|q: u64| #[trigger] s.push(x).contains(q) == (s.contains(q) || q == x) by {
        if s.contains(q) {
            let w = choose|w: int| 0 <= w < s.len() && s[w] == q;
            assert(s.push(x)[w] == q);
            assert(s.push(x).contains(q));
        }
        if q == x {
            assert(s.push(x)[s.len() as int] == q);
            assert(s.push(x).contains(q));
        }
        if s.push(x).contains(q) {
            let w = choose|w: int| 0 <= w < s.push(x).len() && s.push(x)[w] == q;
            if w < s.len() {
                assert(s[w] == q);
                assert(s.contains(q));
            }
        }
    }
}

impl Default for CGHandler {
    /// The default handler is a fresh one.
    fn default() -> (r: Self)
        ensures
            r.cgroups@.len() == 0,
            !r.root_frozen,
    {
        CGHandler::new()
    }
}

} // verus!
