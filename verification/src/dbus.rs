//! The decoded side of the D-Bus sources.
//!
//! The session bus announces application launches through
//! `org.gtk.gio.DesktopAppInfo.Launched`; the payload carries the launched
//! `.desktop` file path, whose basename (with any `.desktop` suffix cut off)
//! is the application identifier.  The system bus side holds a logind delay
//! inhibitor whose lifecycle is modelled by [`InhibitHandler`]: the file
//! descriptor is released when suspend begins and re-acquired on resume.

use vstd::prelude::*;
use vstd::string::StrSliceExecFns;

use crate::app_id::AppId;

verus! {

/// What a `Launched` signal tells us about an application.
#[derive(Debug)]
pub struct DesktopAppInfo {
    /// The identifier derived from the desktop file basename.
    pub app_id: AppId,
    /// The PID the launcher reported.
    pub pid: u64,
    /// The desktop file path the signal carried, without its trailing NUL.
    pub path: String,
}

impl DesktopAppInfo {
    /// Assemble a launch record from already-decoded parts.
    pub fn new(app_id: String, pid: u64, path: String) -> (r: Self)
        ensures
            r.app_id@ == Some(app_id@),
            r.pid == pid,
            r.path@ == path@,
    {
        DesktopAppInfo { app_id: AppId::from(app_id), pid, path }
    }

    /// The application identifier.
    pub fn app_id(&self) -> (r: AppId)
        ensures
            r@ == self.app_id@,
    {
        self.app_id.clone()
    }

    /// The PID the launcher reported.
    pub fn pid(&self) -> (r: u64)
        ensures
            r == self.pid,
    {
        self.pid
    }
}

/// The index of the last `/` in a path, or -1 when there is none.
pub open spec fn last_slash(s: Seq<char>) -> int
    decreases s.len(),
{
    if s.len() == 0 {
        -1
    } else if s.last() == '/' {
        s.len() - 1
    } else {
        last_slash(s.drop_last())
    }
}

/// The eight characters of the `.desktop` suffix.
pub open spec fn desktop_suffix() -> Seq<char> {
    seq!['.', 'd', 'e', 's', 'k', 't', 'o', 'p']
}

/// Whether `.desktop` occurs in `s` starting at `i`.
pub open spec fn matches_at(s: Seq<char>, i: int) -> bool {
    0 <= i && i + 8 <= s.len() && s.subrange(i, i + 8) == desktop_suffix()
}

/// Whether a component ends in the `.desktop` suffix.
pub open spec fn ends_with_desktop(s: Seq<char>) -> bool {
    s.len() >= 8 && s.subrange(s.len() - 8, s.len() as int) == desktop_suffix()
}

/// The application identifier denoted by a NUL-terminated desktop file path:
/// the final path component, with a trailing `.desktop` suffix removed and
/// otherwise unchanged.
pub open spec fn spec_launched_app_id(path: Seq<char>) -> Seq<char>
    recommends
        path.len() > 0,
{
    let stripped = path.drop_last();
    let comp = stripped.subrange(last_slash(stripped) + 1, stripped.len() as int);
    if ends_with_desktop(comp) {
        comp.take(comp.len() - 8)
    } else {
        comp
    }
}

/// `last_slash` finds the position of a `/` that nothing after it repeats.
proof fn lemma_last_slash_loc(s: Seq<char>, k: int)
    requires
        0 <= k < s.len(),
        s[k] == '/',
        forall|m: int| k < m < s.len() ==> s[m] != '/',
    ensures
        last_slash(s) == k,
    decreases s.len(),
{
    if k == s.len() - 1 {
    } else {
        assert(s.last() != '/');
        lemma_last_slash_loc(s.drop_last(), k);
    }
}

/// `last_slash` is -1 on a slash-free sequence.
proof fn lemma_last_slash_none(s: Seq<char>)
    requires
        forall|m: int| 0 <= m < s.len() ==> s[m] != '/',
    ensures
        last_slash(s) == -1,
    decreases s.len(),
{
    if s.len() > 0 {
        lemma_last_slash_none(s.drop_last());
    }
}

/// Whether `.desktop` occurs in `s` starting at `i`.
fn is_desktop_at(s: &str, i: usize) -> (r: bool)
    requires
        i + 8 <= s@.len(),
        s@.len() <= usize::MAX,
    ensures
        r == matches_at(s@, i as int),
{
    let r = s.get_char(i) == '.' && s.get_char(i + 1) == 'd' && s.get_char(i + 2) == 'e'
        && s.get_char(i + 3) == 's' && s.get_char(i + 4) == 'k' && s.get_char(i + 5) == 't'
        && s.get_char(i + 6) == 'o' && s.get_char(i + 7) == 'p';
    proof {
        let ii = i as int;
        if r {
            assert(s@.subrange(ii, ii + 8) =~= desktop_suffix());
        } else if matches_at(s@, ii) {
            assert(s@[ii + 0] == s@.subrange(ii, ii + 8)[0]);
            assert(s@[ii + 1] == s@.subrange(ii, ii + 8)[1]);
            assert(s@[ii + 2] == s@.subrange(ii, ii + 8)[2]);
            assert(s@[ii + 3] == s@.subrange(ii, ii + 8)[3]);
            assert(s@[ii + 4] == s@.subrange(ii, ii + 8)[4]);
            assert(s@[ii + 5] == s@.subrange(ii, ii + 8)[5]);
            assert(s@[ii + 6] == s@.subrange(ii, ii + 8)[6]);
            assert(s@[ii + 7] == s@.subrange(ii, ii + 8)[7]);
            assert(false);
        }
    }
    r
}

/// Decode a `Launched` signal's path into a launch record.
///
/// The path is the signal's byte string decoded character by character; its
/// trailing NUL is stripped, the final path component is taken, and the
/// identifier is that component with any trailing `.desktop` suffix removed.
/// An empty path is malformed and yields nothing: such signals are dropped,
/// never fatal.
pub fn parse_launched(path: &str, pid: u64) -> (r: Option<DesktopAppInfo>)
    ensures
        path@.len() == 0 ==> r is None,
        path@.len() > 0 ==> match r {
            Some(info) => {
                &&& info.app_id@ == Some(spec_launched_app_id(path@))
                &&& info.pid == pid
                &&& info.path@ == path@.drop_last()
            },
            None => false,
        },
{
    let n = path.unicode_len();
    if n == 0 {
        return None;
    }
    let stripped = path.substring_char(0, n - 1);
    proof {
        assert(stripped@ =~= path@.drop_last());
    }
    let sn = n - 1;

    // Find the character just after the last slash (0 when there is none).
    let mut after_slash: usize = 0;
    let mut i: usize = 0;
    while i < sn
        invariant
            0 <= i <= sn,
            sn == stripped@.len(),
            after_slash <= i,
            after_slash == 0 ==> forall|m: int| 0 <= m < i ==> stripped@[m] != '/',
            after_slash > 0 ==> stripped@[after_slash - 1] == '/' && forall|m: int|
                after_slash <= m < i ==> stripped@[m] != '/',
        decreases sn - i,
    {
        if stripped.get_char(i) == '/' {
            after_slash = i + 1;
        }
        i += 1;
    }
    proof {
        if after_slash == 0 {
            lemma_last_slash_none(stripped@);
        } else {
            lemma_last_slash_loc(stripped@, after_slash - 1);
        }
        assert(last_slash(stripped@) + 1 == after_slash);
    }

    let comp = stripped.substring_char(after_slash, sn);
    let ghost comp_seq = stripped@.subrange(last_slash(stripped@) + 1, stripped@.len() as int);
    proof {
        assert(comp@ =~= comp_seq);
    }
    let cn = sn - after_slash;

    // Cut off a trailing `.desktop` suffix; anything else stays unchanged.
    let off = if cn >= 8 && is_desktop_at(comp, cn - 8) {
        proof {
            assert(ends_with_desktop(comp@));
        }
        cn - 8
    } else {
        proof {
            assert(!ends_with_desktop(comp@));
        }
        cn
    };

    let id = comp.substring_char(0, off).to_owned();
    proof {
        assert(id@ =~= spec_launched_app_id(path@));
    }
    Some(DesktopAppInfo { app_id: AppId::from(id), pid, path: stripped.to_owned() })
}

/// The state of the logind delay inhibitor.
///
/// The unverified shell holds the actual file descriptor from
/// `org.freedesktop.login1.Manager.Inhibit` and closes or re-acquires it
/// whenever this flag changes.
#[derive(Debug)]
pub struct InhibitHandler {
    /// Whether the delay lock is currently held.
    pub held: bool,
}

#[allow(non_snake_case)]
impl InhibitHandler {
    /// Acquire the delay lock at startup.
    pub fn new() -> (r: Self)
        ensures
            r.held,
    {
        InhibitHandler { held: true }
    }

    /// Suspend is about to happen and user space is frozen: release the
    /// lock so the kernel may proceed.
    pub fn onSuspend(&mut self)
        ensures
            !final(self).held,
    {
        self.held = false;
    }

    /// The system resumed: re-acquire the lock, re-arming the delay before
    /// the next suspend.
    pub fn onResume(&mut self)
        ensures
            final(self).held,
    {
        self.held = true;
    }
}

} // verus!
