//! Match rules: the lifecycle buckets applications are sorted into.
//!
//! Each rule carries the conditions under which an application may enter it
//! (`only_from`), must not enter it (`never_from`), and how long a selection
//! must persist before taking effect (`enter_time`).  Rule selection walks
//! the rules in configuration order: the first rule whose conditions admit
//! the application wins, and an application already in an admissible rule
//! keeps it unless an earlier rule also admits it.

use vstd::prelude::*;

use crate::application::App;
use crate::config::{eval, Conditional, Event, Rule, RuleEnterTime, CgroupConfig, Tag};
use crate::errors::HammockError;

verus! {

/// The membership conditions of one match rule.
#[derive(Debug)]
pub struct MatchConditions {
    /// The rule applies only where this holds.
    pub only_from: Option<Conditional>,
    /// The rule never applies where this holds.
    pub never_from: Option<Conditional>,
    /// The dwell times before a selection takes effect.
    pub enter_time: RuleEnterTime,
}

impl MatchConditions {
    /// Bundle the conditions of a rule.
    pub fn new(
        only_from: Option<Conditional>,
        never_from: Option<Conditional>,
        enter_time: RuleEnterTime,
    ) -> (r: Self)
        ensures
            r.only_from == only_from,
            r.never_from == never_from,
            r.enter_time == enter_time,
    {
        MatchConditions { only_from, never_from, enter_time }
    }
}

/// One configured lifecycle rule.
#[derive(Debug)]
pub struct MatchRule {
    /// Which rule this is.
    pub name: Rule,
    /// When applications may enter or must avoid it.
    pub conditions: MatchConditions,
    /// The cgroup parameters of the rule's persistent cgroup.
    pub cgroup: CgroupConfig,
}

impl MatchRule {
    /// Assemble a rule.
    pub fn new(name: Rule, conditions: MatchConditions, cgroup: CgroupConfig) -> (r: Self)
        ensures
            r.name == name,
            r.conditions == conditions,
            r.cgroup == cgroup,
    {
        MatchRule { name, conditions, cgroup }
    }
}

/// The configured rules, in configuration order.  The order is significant:
/// ties between admissible rules go to the earliest.
#[derive(Debug)]
pub struct MatchRules(pub Vec<MatchRule>);

/// Whether a rule admits an application: `only_from` is unset or true, and
/// `never_from` is unset or false.
pub open spec fn spec_candidate(m: MatchRule, rule: Rule, tags: Seq<Tag>, ev: Option<Event>) -> bool {
    &&& match m.conditions.only_from {
        Some(c) => eval(c, rule, tags, ev),
        None => true,
    }
    &&& match m.conditions.never_from {
        Some(c) => !eval(c, rule, tags, ev),
        None => true,
    }
}

/// The index of the first admissible rule at or after `k`, if any.
pub open spec fn spec_first_candidate_from(
    rules: Seq<MatchRule>,
    k: nat,
    rule: Rule,
    tags: Seq<Tag>,
    ev: Option<Event>,
) -> Option<int>
    decreases rules.len() - k,
{
    if k >= rules.len() {
        None
    } else if spec_candidate(rules[k as int], rule, tags, ev) {
        Some(k as int)
    } else {
        spec_first_candidate_from(rules, k + 1, rule, tags, ev)
    }
}

/// What rule selection yields: the first admissible rule in configuration
/// order, or the current rule when none admits the application.  An
/// application already in the first admissible rule keeps it (hysteresis).
pub open spec fn spec_select(
    rules: Seq<MatchRule>,
    rule: Rule,
    tags: Seq<Tag>,
    ev: Option<Event>,
) -> Rule {
    match spec_first_candidate_from(rules, 0, rule, tags, ev) {
        Some(i) => rules[i].name,
        None => rule,
    }
}

/// Skipping inadmissible rules leaves the first admissible one unchanged.
proof fn lemma_first_candidate_skip(
    rules: Seq<MatchRule>,
    lo: nat,
    hi: nat,
    rule: Rule,
    tags: Seq<Tag>,
    ev: Option<Event>,
)
    requires
        lo <= hi,
        forall|w: int| lo <= w < hi ==> !spec_candidate(rules[w], rule, tags, ev),
    ensures
        spec_first_candidate_from(rules, lo, rule, tags, ev) == spec_first_candidate_from(
            rules,
            hi,
            rule,
            tags,
            ev,
        ),
    decreases hi - lo,
{
    if lo < hi {
        if lo >= rules.len() {
            assert(hi >= rules.len());
        } else {
            lemma_first_candidate_skip(rules, lo + 1, hi, rule, tags, ev);
        }
    }
}

/// Hysteresis: an application whose current rule is the earliest admissible
/// one keeps it — selection never moves it to a later rule.
pub proof fn lemma_select_keeps_current(
    rules: Seq<MatchRule>,
    rule: Rule,
    tags: Seq<Tag>,
    ev: Option<Event>,
    k: int,
)
    requires
        0 <= k < rules.len(),
        spec_candidate(rules[k], rule, tags, ev),
        forall|w: int| 0 <= w < k ==> !spec_candidate(rules[w], rule, tags, ev),
        rules[k].name == rule,
    ensures
        spec_select(rules, rule, tags, ev) == rule,
{
    lemma_first_candidate_skip(rules, 0, k as nat, rule, tags, ev);
}

/// Tie-breaking is stable: whenever any rule admits the application, the
/// selection is the earliest one that does, in configuration order.
pub proof fn lemma_select_takes_first_candidate(
    rules: Seq<MatchRule>,
    rule: Rule,
    tags: Seq<Tag>,
    ev: Option<Event>,
    k: int,
)
    requires
        0 <= k < rules.len(),
        spec_candidate(rules[k], rule, tags, ev),
        forall|w: int| 0 <= w < k ==> !spec_candidate(rules[w], rule, tags, ev),
    ensures
        spec_select(rules, rule, tags, ev) == rules[k].name,
{
    lemma_first_candidate_skip(rules, 0, k as nat, rule, tags, ev);
}

impl MatchRules {
    /// The configured rule entry for a rule name; an error when the
    /// configuration has none.
    pub fn get(&self, rule: Rule) -> (r: Result<&MatchRule, HammockError>)
        ensures
            match r {
                Ok(m) => exists|i: int|
                    0 <= i < self.0@.len() && *m == self.0@[i] && self.0@[i].name == rule && forall|
                        j: int,
                    | 0 <= j < i ==> self.0@[j].name != rule,
                Err(e) => e == HammockError::NoSuchRule(rule) && forall|i: int|
                    0 <= i < self.0@.len() ==> self.0@[i].name != rule,
            },
            (r is Ok) == exists|i: int| 0 <= i < self.0@.len() && (#[trigger] self.0@[i].name) == rule,
    {
        let mut i: usize = 0;
        while i < self.0.len()
            invariant
                0 <= i <= self.0@.len(),
                forall|j: int| 0 <= j < i ==> self.0@[j].name != rule,
            decreases self.0@.len() - i,
        {
            if self.0[i].name == rule {
                return Ok(&self.0[i]);
            }
            i += 1;
        }
        Err(HammockError::NoSuchRule(rule))
    }

    /// How many rules are configured.
    pub fn len(&self) -> (r: usize)
        ensures
            r == self.0@.len(),
    {
        self.0.len()
    }

    /// Select the rule that should apply to an application, given the event
    /// (if any) that triggered the check.
    pub fn select(&self, app: &App, event: Option<&Event>) -> (r: Rule)
        ensures
            r == spec_select(
                self.0@,
                app.info.match_rule,
                app.info.tags@,
                crate::config::spec_deref_event(event),
            ),
    {
        let ghost rule = app.info.match_rule;
        let ghost tags = app.info.tags@;
        let ghost ev = crate::config::spec_deref_event(event);
        let mut i: usize = 0;
        while i < self.0.len()
            invariant
                0 <= i <= self.0@.len(),
                rule == app.info.match_rule,
                tags == app.info.tags@,
                ev == crate::config::spec_deref_event(event),
                forall|w: int| 0 <= w < i ==> !spec_candidate(self.0@[w], rule, tags, ev),
            decreases self.0@.len() - i,
        {
            let m = &self.0[i];
            let only_ok = match &m.conditions.only_from {
                Some(c) => c.evaluate(app, event),
                None => true,
            };
            let never_ok = match &m.conditions.never_from {
                Some(c) => !c.evaluate(app, event),
                None => true,
            };
            if only_ok && never_ok {
                proof {
                    lemma_first_candidate_skip(self.0@, 0, i as nat, rule, tags, ev);
                }
                return m.name;
            }
            i += 1;
        }
        proof {
            lemma_first_candidate_skip(self.0@, 0, i as nat, rule, tags, ev);
        }
        app.info.match_rule
    }
}

} // verus!
