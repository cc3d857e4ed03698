//! The wake-cause probe.
//!
//! Each wake source is a sysfs device whose `wakeup_count` advances when it
//! wakes the system.  The probe remembers the last seen counters; given a
//! fresh reading of all counters (taken by the unverified shell), the cause
//! of the last resume is the first source whose counter advanced.  When none
//! advanced, the previously cached cause is reported.

use vstd::prelude::*;

verus! {

/// The kind of hardware event that woke the system.
#[derive(Debug, Clone, Copy, PartialEq, Eq, Structural)]
pub enum WakeupType {
    Button,
    Motion,
    Charger,
    Modem,
    Notification,
}

/// One configured wake source.
#[derive(Debug)]
pub struct WakeupSource {
    /// A human-readable name for diagnostics.
    pub name: String,
    /// The kind of wake event this source stands for.
    pub wakeup_type: WakeupType,
    /// The sysfs device directory name the shell reads the counter from.
    pub device: String,
    /// The counter value as of the last probe.
    pub count: u32,
}

impl WakeupSource {
    /// Describe a wake source; the shell supplies the resolved device name
    /// and the initial counter reading.
    pub fn new(name: &str, wakeup_type: WakeupType, device: String, count: u32) -> (r: Self)
        ensures
            r.name@ == name@,
            r.wakeup_type == wakeup_type,
            r.device@ == device@,
            r.count == count,
    {
        WakeupSource { name: name.to_owned(), wakeup_type, device, count }
    }

    /// Whether a fresh counter reading shows this source woke the system;
    /// the reading becomes the remembered value.
    pub fn did_cause_wakeup(&mut self, count: u32) -> (r: bool)
        ensures
            r == (count > old(self).count),
            final(self).count == count,
            final(self).name == old(self).name,
            final(self).wakeup_type == old(self).wakeup_type,
            final(self).device == old(self).device,
    {
        let v = count > self.count;
        self.count = count;
        v
    }
}

/// The index of the first source whose fresh counter advanced, if any.
pub open spec fn spec_first_advanced(sources: Seq<WakeupSource>, counts: Seq<u32>, k: nat) -> Option<
    int,
>
    decreases sources.len() - k,
{
    if k >= sources.len() {
        None
    } else if counts[k as int] > sources[k as int].count {
        Some(k as int)
    } else {
        spec_first_advanced(sources, counts, k + 1)
    }
}

/// Sources that did not advance do not change which source advanced first.
proof fn lemma_first_advanced_skip(sources: Seq<WakeupSource>, counts: Seq<u32>, lo: nat, hi: nat)
    requires
        lo <= hi,
        forall|w: int| lo <= w < hi ==> !(counts[w] > sources[w].count),
    ensures
        spec_first_advanced(sources, counts, lo) == spec_first_advanced(sources, counts, hi),
    decreases hi - lo,
{
    if lo < hi {
        if lo >= sources.len() {
            assert(hi >= sources.len());
        } else {
            lemma_first_advanced_skip(sources, counts, lo + 1, hi);
        }
    }
}

/// How one probe changes the probe state: every source remembers the fresh
/// counter reading, and the source found to have caused the wake (if any)
/// becomes the cached cause.
pub open spec fn spec_probe_step(pre: Wakeup, post: Wakeup, counts: Seq<u32>) -> bool {
    &&& post.sources@.len() == pre.sources@.len()
    &&& forall|j: int|
        0 <= j < post.sources@.len() ==> (#[trigger] post.sources@[j]).name == pre.sources@[j].name
            && post.sources@[j].wakeup_type == pre.sources@[j].wakeup_type
            && post.sources@[j].device == pre.sources@[j].device && post.sources@[j].count
            == counts[j]
    &&& post.cause == match spec_first_advanced(pre.sources@, counts, 0) {
        Some(i) => i as u32,
        None => pre.cause,
    }
}

/// The wake-cause probe.
#[derive(Debug)]
pub struct Wakeup {
    /// The configured sources, in priority order.
    pub sources: Vec<WakeupSource>,
    /// The index of the cached cause reported when no counter advanced.
    pub cause: u32,
}

impl Wakeup {
    /// A probe over the given sources.
    pub fn new(sources: Vec<WakeupSource>) -> (r: Self)
        ensures
            r.sources == sources,
            r.cause == 0,
    {
        Wakeup { sources, cause: 0 }
    }

    /// The cause of the last resume: the first source whose counter
    /// advanced since the previous probe, or the previously cached cause
    /// when none did.  All counters are updated to the fresh reading, and
    /// the found source becomes the cached cause.
    pub fn get_cause(&mut self, counts: &Vec<u32>) -> (r: WakeupType)
        requires
            counts@.len() == old(self).sources@.len(),
            old(self).sources@.len() > 0,
            old(self).sources@.len() <= u32::MAX,
            old(self).cause < old(self).sources@.len(),
        ensures
            spec_probe_step(*old(self), *final(self), counts@),
            r == match spec_first_advanced(old(self).sources@, counts@, 0) {
                Some(i) => old(self).sources@[i].wakeup_type,
                None => old(self).sources@[old(self).cause as int].wakeup_type,
            },
            final(self).cause < final(self).sources@.len(),
    {
        let n = self.sources.len();
        let mut found: Option<usize> = None;
        let mut i: usize = 0;
        while i < n
            invariant
                0 <= i <= n,
                n == self.sources@.len(),
                n == old(self).sources@.len(),
                counts@.len() == n,
                self.cause == old(self).cause,
                match found {
                    Some(f) => f < i && counts@[f as int] > old(self).sources@[f as int].count
                        && forall|w: int|
                        0 <= w < f ==> !(counts@[w] > old(self).sources@[w].count),
                    None => forall|w: int|
                        0 <= w < i ==> !(counts@[w] > old(self).sources@[w].count),
                },
                forall|w: int| 0 <= w < i ==> (#[trigger] self.sources@[w]).count == counts@[w],
                forall|w: int| i <= w < n ==> (#[trigger] self.sources@[w]).count == old(self).sources@[w].count,
                forall|w: int|
                    0 <= w < n ==> (#[trigger] self.sources@[w]).name == old(self).sources@[w].name
                        && self.sources@[w].wakeup_type == old(self).sources@[w].wakeup_type
                        && self.sources@[w].device == old(self).sources@[w].device,
            decreases n - i,
        {
            let fresh = counts[i];
            let advanced = self.sources[i].did_cause_wakeup(fresh);
            if advanced && found.is_none() {
                found = Some(i);
            }
            i += 1;
        }
        match found {
            Some(f) => {
                proof {
                    lemma_first_advanced_skip(old(self).sources@, counts@, 0, f as nat);
                }
                self.cause = f as u32;
                self.sources[f].wakeup_type
            },
            None => {
                proof {
                    lemma_first_advanced_skip(old(self).sources@, counts@, 0, n as nat);
                }
                let c = self.cause as usize;
                self.sources[c].wakeup_type
            },
        }
    }
}

} // verus!
