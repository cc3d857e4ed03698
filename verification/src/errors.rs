//! Error kinds reported by the controller core.

use vstd::prelude::*;

use crate::config::Rule;

verus! {

/// A configuration error the controller can surface at runtime.
#[derive(Debug, Clone, Copy, PartialEq, Eq, Structural)]
pub enum HammockError {
    /// No match rule is configured for this rule name.
    NoSuchRule(Rule),
    /// A toplevel has not reported an activation state yet.
    NoState,
    /// No cgroup of the requested name exists.
    NoSuchCgroup,
}

} // verus!
