//! Verified text helpers: decimal rendering of PIDs and cgroup naming.
//!
//! A per-application cgroup is named `<app_id>-<pid>`, with `unknown`
//! standing in for an absent identifier.  The decimal rendering is specified
//! by [`dec_rep`], the canonical digit sequence of a natural number.

use vstd::prelude::*;
use vstd::string::StringExecFns;

use crate::app_id::AppId;

verus! {

/// The character for one decimal digit.
pub open spec fn dec_digit(d: nat) -> char
    recommends
        d < 10,
{
    if d == 0 {
        '0'
    } else if d == 1 {
        '1'
    } else if d == 2 {
        '2'
    } else if d == 3 {
        '3'
    } else if d == 4 {
        '4'
    } else if d == 5 {
        '5'
    } else if d == 6 {
        '6'
    } else if d == 7 {
        '7'
    } else if d == 8 {
        '8'
    } else {
        '9'
    }
}

/// The canonical decimal digit sequence of a natural number, most
/// significant digit first, without leading zeroes (except for zero itself).
pub open spec fn dec_rep(n: nat) -> Seq<char>
    decreases n,
{
    if n < 10 {
        seq![dec_digit(n)]
    } else {
        dec_rep(n / 10).push(dec_digit(n % 10))
    }
}

/// The display form of an identifier: itself when known, `unknown` otherwise.
pub open spec fn spec_display_id(id: Option<Seq<char>>) -> Seq<char> {
    match id {
        Some(s) => s,
        None => seq!['u', 'n', 'k', 'n', 'o', 'w', 'n'],
    }
}

/// The name of the cgroup owned by the application `(id, pid)`.
pub open spec fn spec_cgroup_name(id: Option<Seq<char>>, pid: u64) -> Seq<char> {
    spec_display_id(id) + seq!['-'] + dec_rep(pid as nat)
}

/// A one-character string for a decimal digit.
fn digit_str(d: u64) -> (r: &'static str)
    requires
        d < 10,
    ensures
        r@ == seq![dec_digit(d as nat)],
{
    if d == 0 {
        let s = "0";
        proof {
            reveal_strlit("0");
            assert(s@ =~= seq![dec_digit(d as nat)]);
        }
        s
    } else if d == 1 {
        let s = "1";
        proof {
            reveal_strlit("1");
            assert(s@ =~= seq![dec_digit(d as nat)]);
        }
        s
    } else if d == 2 {
        let s = "2";
        proof {
            reveal_strlit("2");
            assert(s@ =~= seq![dec_digit(d as nat)]);
        }
        s
    } else if d == 3 {
        let s = "3";
        proof {
            reveal_strlit("3");
            assert(s@ =~= seq![dec_digit(d as nat)]);
        }
        s
    } else if d == 4 {
        let s = "4";
        proof {
            reveal_strlit("4");
            assert(s@ =~= seq![dec_digit(d as nat)]);
        }
        s
    } else if d == 5 {
        let s = "5";
        proof {
            reveal_strlit("5");
            assert(s@ =~= seq![dec_digit(d as nat)]);
        }
        s
    } else if d == 6 {
        let s = "6";
        proof {
            reveal_strlit("6");
            assert(s@ =~= seq![dec_digit(d as nat)]);
        }
        s
    } else if d == 7 {
        let s = "7";
        proof {
            reveal_strlit("7");
            assert(s@ =~= seq![dec_digit(d as nat)]);
        }
        s
    } else if d == 8 {
        let s = "8";
        proof {
            reveal_strlit("8");
            assert(s@ =~= seq![dec_digit(d as nat)]);
        }
        s
    } else {
        let s = "9";
        proof {
            reveal_strlit("9");
            assert(s@ =~= seq![dec_digit(d as nat)]);
        }
        s
    }
}

/// Render a number in decimal.
pub fn u64_to_string(n: u64) -> (r: String)
    ensures
        r@ == dec_rep(n as nat),
    decreases n,
{
    if n < 10 {
        let r = digit_str(n).to_owned();
        proof {
            assert(r@ =~= dec_rep(n as nat));
        }
        r
    } else {
        let mut s = u64_to_string(n / 10);
        s.append(digit_str(n % 10));
        proof {
            assert(s@ =~= dec_rep(n as nat));
        }
        s
    }
}

/// The cgroup name for an application: `<app_id>-<pid>`.
pub fn cgroup_name(app_id: &AppId, pid: u64) -> (r: String)
    ensures
        r@ == spec_cgroup_name(app_id@, pid),
{
    let mut s = app_id.display_string();
    proof {
        reveal_strlit("unknown");
        reveal_strlit("-");
        assert("unknown"@ =~= seq!['u', 'n', 'k', 'n', 'o', 'w', 'n']);
        assert("-"@ =~= seq!['-']);
    }
    assert(s@ == spec_display_id(app_id@));
    s.append("-");
    let digits = u64_to_string(pid);
    s.append(digits.as_str());
    proof {
        assert(s@ =~= spec_cgroup_name(app_id@, pid));
    }
    s
}

} // verus!
