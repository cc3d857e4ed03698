//! Application identifiers.
//!
//! An [`AppId`] is the reverse-DNS-style identifier derived from a `.desktop`
//! file basename.  It is nullable: a toplevel may appear before the
//! compositor has told us who it belongs to.  Equality is exact string
//! equality; the display form falls back to `"unknown"` when absent.

use vstd::prelude::*;

verus! {

/// A nullable application identifier, compared by exact string match.
#[derive(Debug)]
pub struct AppId {
    pub app_id: Option<String>,
}

impl View for AppId {
    type V = Option<Seq<char>>;

    open spec fn view(&self) -> Option<Seq<char>> {
        match self.app_id {
            Some(ref s) => Some(s@),
            None => None,
        }
    }
}

impl AppId {
    /// An identifier that is not yet known.
    pub fn unknown() -> (r: AppId)
        ensures
            r@ is None,
    {
        AppId { app_id: None }
    }

    /// Whether an identifier has been set at all.
    pub fn is_known(&self) -> (r: bool)
        ensures
            r == self@ is Some,
    {
        self.app_id.is_some()
    }

    /// The display form: the identifier itself, or `"unknown"` when absent.
    pub fn display_string(&self) -> (r: String)
        ensures
            match self@ {
                Some(s) => r@ == s,
                None => r@ == "unknown"@,
            },
    {
        match &self.app_id {
            Some(s) => s.clone(),
            None => "unknown".to_owned(),
        }
    }
}

impl Clone for AppId {
    fn clone(&self) -> (r: Self)
        ensures
            r@ == self@,
    {
        AppId {
            app_id: match &self.app_id {
                Some(s) => Some(s.clone()),
                None => None,
            },
        }
    }
}

impl Default for AppId {
    fn default() -> (r: Self)
        ensures
            r@ is None,
    {
        AppId { app_id: None }
    }
}

impl From<String> for AppId {
    fn from(app_id: String) -> (r: Self)
        ensures
            r@ == Some(app_id@),
    {
        AppId { app_id: Some(app_id) }
    }
}

impl vstd::std_specs::convert::FromSpecImpl<String> for AppId {
    open spec fn obeys_from_spec() -> bool {
        true
    }

    open spec fn from_spec(app_id: String) -> Self {
        AppId { app_id: Some(app_id) }
    }
}

impl PartialEq for AppId {
    fn eq(&self, other: &Self) -> (r: bool) {
        match (&self.app_id, &other.app_id) {
            (Some(a), Some(b)) => *a == *b,
            (None, None) => true,
            _ => false,
        }
    }
}

impl Eq for AppId {}

impl vstd::std_specs::cmp::PartialEqSpecImpl for AppId {
    open spec fn obeys_eq_spec() -> bool {
        true
    }

    open spec fn eq_spec(&self, other: &Self) -> bool {
        self@ == other@
    }
}

} // verus!
