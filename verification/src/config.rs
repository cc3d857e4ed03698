//! Declarative configuration: lifecycle rules and the conditional rule tree.
//!
//! A [`Conditional`] is a recursive boolean expression over three kinds of
//! atoms (the application's current rule, the event that triggered the check,
//! and the application's tags) combined with `not`, `any_of`, `all_of` and
//! `one_of` (exactly-one-true).  Exactly one field of a well-formed
//! conditional is populated; every other shape evaluates to `false`.

use vstd::prelude::*;

use crate::application::App;

verus! {

/// A lifecycle rule: each one is backed by a persistent cgroup.
#[derive(Debug, Clone, Copy, PartialEq, Eq, Structural)]
pub enum Rule {
    Foreground,
    Recents,
    Background,
    Snooze,
    Media,
}

/// An event that can trigger re-evaluation of an application's rule.
#[derive(Debug, Clone, Copy, PartialEq, Eq, Structural)]
pub enum Event {
    LowBattery,
    WorkReady,
    Idle,
    Sleep,
    Wake,
    NetworkRestriction,
    Touch,
}

/// A tag attached to an application while some condition holds of it.
#[derive(Debug, Clone, Copy, PartialEq, Eq, Structural)]
pub enum Tag {
    PlayingMedia,
    HammockAware,
    WorkPending,
    Busy,
    WasFocused,
}

/// The lower-case name of a rule, used for its persistent cgroup.
pub open spec fn spec_rule_name(r: Rule) -> Seq<char> {
    match r {
        Rule::Foreground => seq!['f', 'o', 'r', 'e', 'g', 'r', 'o', 'u', 'n', 'd'],
        Rule::Recents => seq!['r', 'e', 'c', 'e', 'n', 't', 's'],
        Rule::Background => seq!['b', 'a', 'c', 'k', 'g', 'r', 'o', 'u', 'n', 'd'],
        Rule::Snooze => seq!['s', 'n', 'o', 'o', 'z', 'e'],
        Rule::Media => seq!['m', 'e', 'd', 'i', 'a'],
    }
}

impl Rule {
    /// The lower-case name of the rule, naming its persistent cgroup.
    pub fn name_string(&self) -> (r: String)
        ensures
            r@ == spec_rule_name(*self),
    {
        match self {
            Rule::Foreground => {
                let s = "foreground";
                proof {
                    reveal_strlit("foreground");
                    assert(s@ =~= spec_rule_name(Rule::Foreground));
                }
                s.to_owned()
            },
            Rule::Recents => {
                let s = "recents";
                proof {
                    reveal_strlit("recents");
                    assert(s@ =~= spec_rule_name(Rule::Recents));
                }
                s.to_owned()
            },
            Rule::Background => {
                let s = "background";
                proof {
                    reveal_strlit("background");
                    assert(s@ =~= spec_rule_name(Rule::Background));
                }
                s.to_owned()
            },
            Rule::Snooze => {
                let s = "snooze";
                proof {
                    reveal_strlit("snooze");
                    assert(s@ =~= spec_rule_name(Rule::Snooze));
                }
                s.to_owned()
            },
            Rule::Media => {
                let s = "media";
                proof {
                    reveal_strlit("media");
                    assert(s@ =~= spec_rule_name(Rule::Media));
                }
                s.to_owned()
            },
        }
    }
}

/// A leaf of the conditional tree.
#[derive(Debug, Clone, Copy, PartialEq, Eq, Structural)]
pub enum Atom {
    Rule(Rule),
    Event(Event),
    Tag(Tag),
}

/// A node of the conditional tree.  At most one field may be populated;
/// any other shape evaluates to `false`.
#[derive(Debug)]
pub struct Conditional {
    pub atom: Option<Atom>,
    pub not: Option<Box<Conditional>>,
    pub any_of: Option<Vec<Conditional>>,
    pub all_of: Option<Vec<Conditional>>,
    pub one_of: Option<Vec<Conditional>>,
}

/// One entry of a rule's dwell-time table: how long the application must
/// stay selected before the rule takes effect, when coming from this atom.
#[derive(Debug, Clone, Copy, PartialEq, Eq, Structural)]
pub struct EnterTimeFrom {
    /// The source state the dwell time applies from.
    pub atom: Atom,
    /// The dwell time in milliseconds.
    pub time_ms: u32,
}

/// The dwell-time configuration of a match rule.
#[derive(Debug)]
pub struct RuleEnterTime {
    /// The dwell time in milliseconds when no entry matches.
    pub default: u32,
    /// Source-specific dwell times.
    pub from: Option<Vec<EnterTimeFrom>>,
}

/// The dwell time a table prescribes when entering from `from`: the time of
/// the first entry for that atom, or the default when no entry (or no
/// source) matches.
pub open spec fn spec_dwell_ms(t: RuleEnterTime, from: Option<Atom>) -> u32 {
    match (t.from, from) {
        (Some(entries), Some(a)) => spec_dwell_lookup(entries@, a, t.default),
        _ => t.default,
    }
}

/// The time of the first entry for `a`, or `default` when none exists.
pub open spec fn spec_dwell_lookup(entries: Seq<EnterTimeFrom>, a: Atom, default: u32) -> u32
    decreases entries.len(),
{
    if entries.len() == 0 {
        default
    } else if entries.first().atom == a {
        entries.first().time_ms
    } else {
        spec_dwell_lookup(entries.drop_first(), a, default)
    }
}

impl RuleEnterTime {
    /// How long a selection must persist before this rule takes effect,
    /// given the atom the application is coming from.  The dwell timer
    /// itself runs in the controller's loop; this is only the table lookup.
    pub fn dwell_ms(&self, from: Option<&Atom>) -> (r: u32)
        ensures
            r == spec_dwell_ms(
                *self,
                match from {
                    Some(a) => Some(*a),
                    None => None,
                },
            ),
    {
        let entries = match (&self.from, from) {
            (Some(entries), Some(_)) => entries,
            _ => {
                return self.default;
            },
        };
        let a = match from {
            Some(a) => *a,
            None => {
                return self.default;
            },
        };
        let mut i: usize = 0;
        proof {
            assert(entries@.skip(0) =~= entries@);
        }
        while i < entries.len()
            invariant
                0 <= i <= entries@.len(),
                self.from == Some(*entries),
                (match from {
                    Some(x) => *x == a,
                    None => false,
                }),
                spec_dwell_lookup(entries@, a, self.default) == spec_dwell_lookup(
                    entries@.skip(i as int),
                    a,
                    self.default,
                ),
            decreases entries@.len() - i,
        {
            proof {
                assert(entries@.skip(i as int).first() == entries@[i as int]);
                assert(entries@.skip(i as int).drop_first() =~= entries@.skip(i + 1));
            }
            if entries[i].atom == a {
                return entries[i].time_ms;
            }
            i += 1;
        }
        proof {
            assert(entries@.skip(i as int) =~= Seq::<EnterTimeFrom>::empty());
        }
        self.default
    }
}

/// The cgroup parameters a rule's cgroup is created with.
#[derive(Debug)]
pub struct CgroupConfig {
    /// The cpuset the cgroup is pinned to.
    pub cpuset: String,
    /// The cpu weight, when given.
    pub cpushares: Option<u64>,
}

/// What a single atom means, given the application's current rule, its tag
/// set, and the event (if any) that triggered the check.
pub open spec fn eval_atom(a: Atom, rule: Rule, tags: Seq<Tag>, event: Option<Event>) -> bool {
    match a {
        Atom::Rule(r) => rule == r,
        Atom::Event(e) => event == Some(e),
        Atom::Tag(t) => tags.contains(t),
    }
}

/// The meaning of a conditional tree.
pub open spec fn eval(c: Conditional, rule: Rule, tags: Seq<Tag>, event: Option<Event>) -> bool
    decreases c,
{
    if c.atom is Some && c.not is None && c.any_of is None && c.all_of is None && c.one_of is None {
        eval_atom(c.atom->0, rule, tags, event)
    } else if c.not is Some && c.atom is None && c.any_of is None && c.all_of is None
        && c.one_of is None {
        !eval(*c.not->0, rule, tags, event)
    } else if c.any_of is Some && c.atom is None && c.not is None && c.all_of is None
        && c.one_of is None {
        exists|i: int| 0 <= i < c.any_of->0@.len() && eval(#[trigger] c.any_of->0@[i], rule, tags, event)
    } else if c.all_of is Some && c.atom is None && c.not is None && c.any_of is None
        && c.one_of is None {
        forall|i: int| 0 <= i < c.all_of->0@.len() ==> eval(#[trigger] c.all_of->0@[i], rule, tags, event)
    } else if c.one_of is Some && c.atom is None && c.not is None && c.any_of is None
        && c.all_of is None {
        count_true(c.one_of->0@, rule, tags, event) == 1
    } else {
        false
    }
}

/// How many conditionals of a sequence evaluate to `true`.
pub open spec fn count_true(cs: Seq<Conditional>, rule: Rule, tags: Seq<Tag>, event: Option<Event>) -> nat
    decreases cs,
{
    if cs.len() == 0 {
        0
    } else {
        count_true(cs.drop_last(), rule, tags, event) + if eval(cs.last(), rule, tags, event) {
            1nat
        } else {
            0nat
        }
    }
}

impl Conditional {
    /// A conditional with nothing populated; it evaluates to `false`.
    pub fn empty() -> (r: Conditional)
        ensures
            r.atom is None,
            r.not is None,
            r.any_of is None,
            r.all_of is None,
            r.one_of is None,
    {
        Conditional { atom: None, not: None, any_of: None, all_of: None, one_of: None }
    }

    /// A leaf conditional.
    pub fn new_atom(a: Atom) -> (r: Conditional)
        ensures
            forall|rule: Rule, tags: Seq<Tag>, event: Option<Event>|
                #[trigger] eval(r, rule, tags, event) == eval_atom(a, rule, tags, event),
    {
        Conditional { atom: Some(a), not: None, any_of: None, all_of: None, one_of: None }
    }

    /// The negation of a conditional.
    pub fn new_not(c: Conditional) -> (r: Conditional)
        ensures
            forall|rule: Rule, tags: Seq<Tag>, event: Option<Event>|
                #[trigger] eval(r, rule, tags, event) == !eval(c, rule, tags, event),
    {
        Conditional { atom: None, not: Some(Box::new(c)), any_of: None, all_of: None, one_of: None }
    }

    /// True when at least one child is true; false for an empty list.
    pub fn new_any_of(cs: Vec<Conditional>) -> (r: Conditional)
        ensures
            r.any_of == Some(cs),
            r.atom is None && r.not is None && r.all_of is None && r.one_of is None,
    {
        Conditional { atom: None, not: None, any_of: Some(cs), all_of: None, one_of: None }
    }

    /// True when every child is true; true for an empty list.
    pub fn new_all_of(cs: Vec<Conditional>) -> (r: Conditional)
        ensures
            r.all_of == Some(cs),
            r.atom is None && r.not is None && r.any_of is None && r.one_of is None,
    {
        Conditional { atom: None, not: None, any_of: None, all_of: Some(cs), one_of: None }
    }

    /// True when exactly one child is true; false for an empty list.
    pub fn new_one_of(cs: Vec<Conditional>) -> (r: Conditional)
        ensures
            r.one_of == Some(cs),
            r.atom is None && r.not is None && r.any_of is None && r.all_of is None,
    {
        Conditional { atom: None, not: None, any_of: None, all_of: None, one_of: Some(cs) }
    }

    /// Evaluate this conditional for an application and an optional
    /// triggering event.
    pub fn evaluate(&self, app: &App, event: Option<&Event>) -> (r: bool)
        ensures
            r == eval(*self, app.info.match_rule, app.info.tags@, spec_deref_event(event)),
        decreases *self,
    {
        let ghost rule = app.info.match_rule;
        let ghost tags = app.info.tags@;
        let ghost ev = spec_deref_event(event);
        match (&self.atom, &self.not, &self.any_of, &self.all_of, &self.one_of) {
            (Some(a), None, None, None, None) => match a {
                Atom::Rule(r) => app.info.match_rule == *r,
                Atom::Event(e) => match event {
                    Some(e2) => *e2 == *e,
                    None => false,
                },
                Atom::Tag(t) => {
                    let tags_vec = &app.info.tags;
                    let mut j: usize = 0;
                    let mut found = false;
                    while j < tags_vec.len()
                        invariant
                            0 <= j <= tags_vec.len(),
                            found == exists|k: int| 0 <= k < j && tags_vec@[k] == *t,
                        decreases tags_vec.len() - j,
                    {
                        if tags_vec[j] == *t {
                            found = true;
                        }
                        j += 1;
                    }
                    assert(found == tags.contains(*t));
                    found
                },
            },
            (None, Some(c), None, None, None) => !c.evaluate(app, event),
            (None, None, Some(cs), None, None) => {
                let mut j: usize = 0;
                let mut found = false;
                while j < cs.len()
                    invariant
                        0 <= j <= cs.len(),
                        found == exists|k: int| 0 <= k < j && eval(cs@[k], rule, tags, ev),
                        rule == app.info.match_rule,
                        tags == app.info.tags@,
                        ev == spec_deref_event(event),
                        self.any_of == Some(*cs),
                        self.atom is None && self.not is None && self.all_of is None
                            && self.one_of is None,
                    decreases cs.len() - j,
                {
                    proof {
                        assert(decreases_to!(*self => self.any_of->0));
                        assert(decreases_to!(*cs => cs@));
                        assert(decreases_to!(cs@ => cs@[j as int]));
                    }
                    if cs[j].evaluate(app, event) {
                        found = true;
                    }
                    j += 1;
                }
                found
            },
            (None, None, None, Some(cs), None) => {
                let mut j: usize = 0;
                let mut all = true;
                while j < cs.len()
                    invariant
                        0 <= j <= cs.len(),
                        all == forall|k: int| 0 <= k < j ==> eval(#[trigger] cs@[k], rule, tags, ev),
                        rule == app.info.match_rule,
                        tags == app.info.tags@,
                        ev == spec_deref_event(event),
                        self.all_of == Some(*cs),
                        self.atom is None && self.not is None && self.any_of is None
                            && self.one_of is None,
                    decreases cs.len() - j,
                {
                    proof {
                        assert(decreases_to!(*self => self.all_of->0));
                        assert(decreases_to!(*cs => cs@));
                        assert(decreases_to!(cs@ => cs@[j as int]));
                    }
                    if !cs[j].evaluate(app, event) {
                        all = false;
                    }
                    j += 1;
                }
                all
            },
            (None, None, None, None, Some(cs)) => {
                let mut j: usize = 0;
                let mut count: usize = 0;
                while j < cs.len()
                    invariant
                        0 <= j <= cs.len(),
                        count <= j,
                        count == count_true(cs@.take(j as int), rule, tags, ev),
                        rule == app.info.match_rule,
                        tags == app.info.tags@,
                        ev == spec_deref_event(event),
                        self.one_of == Some(*cs),
                        self.atom is None && self.not is None && self.any_of is None
                            && self.all_of is None,
                    decreases cs.len() - j,
                {
                    proof {
                        assert(cs@.take(j + 1).drop_last() =~= cs@.take(j as int));
                        assert(cs@.take(j + 1).last() == cs@[j as int]);
                        assert(decreases_to!(*self => self.one_of->0));
                        assert(decreases_to!(*cs => cs@));
                        assert(decreases_to!(cs@ => cs@[j as int]));
                    }
                    if cs[j].evaluate(app, event) {
                        count += 1;
                    }
                    j += 1;
                }
                proof {
                    assert(cs@.take(cs@.len() as int) =~= cs@);
                }
                count == 1
            },
            _ => false,
        }
    }
}

/// The configured shape of one match rule.
#[derive(Debug)]
pub struct MatchRuleConfig {
    /// Which rule is being configured.
    pub name: Rule,
    /// The rule applies only where this holds.
    pub only_from: Option<Conditional>,
    /// The rule never applies where this holds.
    pub never_from: Option<Conditional>,
    /// The parameters of the rule's persistent cgroup.
    pub cgroup: CgroupConfig,
    /// The dwell times before the rule takes effect.
    pub enter_time: RuleEnterTime,
}

/// A parsed configuration, as the YAML loader hands it over.
#[derive(Debug)]
pub struct Config {
    /// A free-form description of the profile.
    pub description: String,
    /// How many cores the device has.
    pub cores: u32,
    /// The memory range the profile is tuned for.
    pub memory: [u32; 2],
    /// The match rules, in priority order.
    pub match_rules: Vec<MatchRuleConfig>,
}

impl Config {
    /// Turn the configured rules into live ones, creating each rule's
    /// persistent cgroup (named by the rule, in lower case) as we go.
    /// Order is preserved: it decides priority.
    pub fn parse_rules(self, handler: &mut crate::cgroups::CGHandler) -> (rules: Vec<
        crate::match_rules::MatchRule,
    >)
        requires
            old(handler).names_unique(),
        ensures
            rules@.len() == self.match_rules@.len(),
            forall|i: int|
                0 <= i < rules@.len() ==> {
                    let rc = self.match_rules@[i];
                    let m = #[trigger] rules@[i];
                    &&& m.name == rc.name
                    &&& m.conditions.only_from == rc.only_from
                    &&& m.conditions.never_from == rc.never_from
                    &&& m.conditions.enter_time == rc.enter_time
                    &&& m.cgroup == rc.cgroup
                },
            final(handler).names_unique(),
            old(handler).tasks_disjoint() ==> final(handler).tasks_disjoint(),
            final(handler).root_frozen == old(handler).root_frozen,
            forall|n: Seq<char>|
                #[trigger] final(handler).spec_has_cgroup(n) == (old(handler).spec_has_cgroup(n)
                    || exists|i: int|
                    0 <= i < self.match_rules@.len() && n == spec_rule_name(
                        #[trigger] self.match_rules@[i].name,
                    )),
    {
        let ghost orig = self.match_rules@;
        let mut cfgs = self.match_rules;
        let mut rules: Vec<crate::match_rules::MatchRule> = Vec::new();
        while cfgs.len() > 0
            invariant
                old(handler).names_unique(),
                rules@.len() + cfgs@.len() == orig.len(),
                cfgs@ =~= orig.subrange(rules@.len() as int, orig.len() as int),
                forall|i: int|
                    0 <= i < rules@.len() ==> {
                        let rc = orig[i];
                        let m = #[trigger] rules@[i];
                        &&& m.name == rc.name
                        &&& m.conditions.only_from == rc.only_from
                        &&& m.conditions.never_from == rc.never_from
                        &&& m.conditions.enter_time == rc.enter_time
                        &&& m.cgroup == rc.cgroup
                    },
                handler.names_unique(),
                old(handler).tasks_disjoint() ==> handler.tasks_disjoint(),
                handler.root_frozen == old(handler).root_frozen,
                forall|n: Seq<char>|
                    #[trigger] handler.spec_has_cgroup(n) == (old(handler).spec_has_cgroup(n)
                        || exists|i: int|
                        0 <= i < rules@.len() && n == spec_rule_name(#[trigger] orig[i].name)),
            decreases cfgs@.len(),
        {
            let ghost k = rules@.len() as int;
            let ghost pre_handler = *handler;
            let rc = cfgs.remove(0);
            proof {
                assert(rc == orig[k]);
                assert(cfgs@ =~= orig.subrange(k + 1, orig.len() as int));
            }
            let rule_name = rc.name.name_string();
            handler.new_cgroup(rule_name.as_str(), Some(&rc.cgroup));
            let conds = crate::match_rules::MatchConditions::new(
                rc.only_from,
                rc.never_from,
                rc.enter_time,
            );
            rules.push(crate::match_rules::MatchRule::new(rc.name, conds, rc.cgroup));
            proof {
                assert forall|n: Seq<char>|
                    #[trigger] handler.spec_has_cgroup(n) == (old(handler).spec_has_cgroup(n)
                        || exists|i: int|
                        0 <= i < rules@.len() && n == spec_rule_name(#[trigger] orig[i].name)) by {
                    assert(handler.spec_has_cgroup(n) == (pre_handler.spec_has_cgroup(n) || n
                        == spec_rule_name(orig[k].name)));
                    if handler.spec_has_cgroup(n) && !old(handler).spec_has_cgroup(n) {
                        if pre_handler.spec_has_cgroup(n) {
                            let i = choose|i: int|
                                0 <= i < k && n == spec_rule_name(#[trigger] orig[i].name);
                            assert(0 <= i < rules@.len() && n == spec_rule_name(orig[i].name));
                        } else {
                            assert(n == spec_rule_name(orig[k].name));
                        }
                    }
                    if exists|i: int|
                        0 <= i < rules@.len() && n == spec_rule_name(#[trigger] orig[i].name) {
                        let i = choose|i: int|
                            0 <= i < rules@.len() && n == spec_rule_name(#[trigger] orig[i].name);
                        if i < k {
                            assert(pre_handler.spec_has_cgroup(n));
                        } else {
                            assert(i == k);
                            assert(handler.spec_has_cgroup(spec_rule_name(orig[k].name)));
                        }
                    }
                }
            }
        }
        proof {
            assert(rules@.len() == orig.len());
        }
        rules
    }
}

/// The event a caller passed by reference, as a spec-level value.
pub open spec fn spec_deref_event(event: Option<&Event>) -> Option<Event> {
    match event {
        Some(e) => Some(*e),
        None => None,
    }
}

} // verus!
