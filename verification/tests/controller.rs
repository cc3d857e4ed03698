//! End-to-end scenarios against the lifecycle controller.

use hammock::app_id::AppId;
use hammock::application::AppFilter;
use hammock::cgroups::CGHandler;
use hammock::config::{CgroupConfig, EnterTimeFrom, Rule, RuleEnterTime};
use hammock::dbus::DesktopAppInfo;
use hammock::errors::HammockError;
use hammock::events::HammockEvent;
use hammock::hal::Hal;
use hammock::hammock::{Hammock, HammockAction};
use hammock::match_rules::{MatchConditions, MatchRule, MatchRules};
use hammock::config::{Atom, Conditional, Event, Tag};
use hammock::toplevel::{TopLevelInner, TopLevelState};
use hammock::wakeup::{Wakeup, WakeupSource, WakeupType};

fn rule(name: Rule) -> MatchRule {
    MatchRule::new(
        name,
        MatchConditions::new(None, None, RuleEnterTime { default: 0, from: None }),
        CgroupConfig { cpuset: "0-7".to_string(), cpushares: None },
    )
}

fn controller() -> Hammock {
    let rules = MatchRules(vec![rule(Rule::Foreground), rule(Rule::Background)]);
    let hal = Hal::new(Wakeup::new(Vec::new()), None);
    Hammock::new(rules, CGHandler::new(), hal)
}

fn controller_with_button_wakeup(initial_count: u32) -> Hammock {
    let src = WakeupSource::new("Power Button", WakeupType::Button, "pwrkey".to_string(), initial_count);
    let rules = MatchRules(vec![rule(Rule::Foreground), rule(Rule::Background)]);
    let hal = Hal::new(Wakeup::new(vec![src]), None);
    Hammock::new(rules, CGHandler::new(), hal)
}

fn snapshot(app_id: &str, state: Option<TopLevelState>, pid: u64, generation: u64) -> TopLevelInner {
    TopLevelInner {
        new: generation,
        title: String::new(),
        app_id: AppId::from(app_id.to_string()),
        state,
        pid,
    }
}

fn frozen_state(h: &Hammock, cgroup: &str) -> bool {
    let i = h.handler.find_cgroup(cgroup).expect("cgroup should exist");
    h.handler.cgroups[i].frozen
}

#[test]
fn launch_and_focus() {
    let mut h = controller();
    let info = DesktopAppInfo::new(
        "org.foo".to_string(),
        42,
        "/usr/share/applications/org.foo.desktop".to_string(),
    );
    let acts = h
        .handle_event(HammockEvent::NewApplication(info), &Vec::new())
        .expect("launch must succeed");
    assert_eq!(acts.len(), 2);
    match &acts[0] {
        HammockAction::CreateCgroup(s) => assert_eq!(s, "org.foo-42"),
        other => panic!("expected CreateCgroup, got {:?}", other),
    }
    match &acts[1] {
        HammockAction::AddTask(s, p) => {
            assert_eq!(s, "org.foo-42");
            assert_eq!(*p, 42);
        }
        other => panic!("expected AddTask, got {:?}", other),
    }
    assert_eq!(h.apps.len(), 1);
    assert_eq!(h.apps[0].pid, 42);
    assert_eq!(h.apps[0].info.app_id, AppId::from("org.foo".to_string()));

    let acts = h
        .handle_event(
            HammockEvent::NewTopLevel(snapshot("org.foo", Some(TopLevelState::Activated), 42, 1)),
            &Vec::new(),
        )
        .expect("focus must succeed");
    assert_eq!(h.apps.len(), 1);
    assert_eq!(h.apps[0].info.match_rule, Rule::Foreground);
    assert!(!frozen_state(&h, "org.foo-42"));
    assert_eq!(acts.len(), 1);
    match &acts[0] {
        HammockAction::ThawCgroup(s) => assert_eq!(s, "org.foo-42"),
        other => panic!("expected ThawCgroup, got {:?}", other),
    }
    let i = h.handler.find_cgroup("org.foo-42").unwrap();
    assert!(h.handler.contains_task(i, 42));
}

#[test]
fn background_on_defocus() {
    let mut h = controller();
    let info = DesktopAppInfo::new("org.foo".to_string(), 42, "/a/org.foo.desktop".to_string());
    h.handle_event(HammockEvent::NewApplication(info), &Vec::new()).unwrap();
    h.handle_event(
        HammockEvent::NewTopLevel(snapshot("org.foo", Some(TopLevelState::Activated), 42, 1)),
        &Vec::new(),
    )
    .unwrap();

    let acts = h
        .handle_event(
            HammockEvent::TopLevelChanged(snapshot("org.foo", Some(TopLevelState::Background), 0, 2)),
            &Vec::new(),
        )
        .expect("defocus must succeed");
    assert_eq!(h.apps.len(), 1);
    assert_eq!(h.apps[0].info.match_rule, Rule::Background);
    assert!(frozen_state(&h, "org.foo-42"));
    assert_eq!(acts.len(), 1);
    match &acts[0] {
        HammockAction::FreezeCgroup(s) => assert_eq!(s, "org.foo-42"),
        other => panic!("expected FreezeCgroup, got {:?}", other),
    }
}

#[test]
fn close_removes_app_and_cgroup() {
    let mut h = controller();
    let info = DesktopAppInfo::new("org.foo".to_string(), 42, "/a/org.foo.desktop".to_string());
    h.handle_event(HammockEvent::NewApplication(info), &Vec::new()).unwrap();
    h.handle_event(
        HammockEvent::NewTopLevel(snapshot("org.foo", Some(TopLevelState::Activated), 42, 1)),
        &Vec::new(),
    )
    .unwrap();
    h.handle_event(
        HammockEvent::TopLevelChanged(snapshot("org.foo", Some(TopLevelState::Background), 0, 2)),
        &Vec::new(),
    )
    .unwrap();

    let acts = h
        .handle_event(HammockEvent::TopLevelClosed(snapshot("org.foo", None, 0, 3)), &Vec::new())
        .expect("close must succeed");
    assert_eq!(h.apps.len(), 0);
    assert!(h.handler.find_cgroup("org.foo-42").is_none());
    assert_eq!(acts.len(), 1);
    match &acts[0] {
        HammockAction::RemoveCgroup(s) => assert_eq!(s, "org.foo-42"),
        other => panic!("expected RemoveCgroup, got {:?}", other),
    }
}

#[test]
fn dbus_activated_app_without_prior_launch() {
    let mut h = controller();
    let acts = h
        .handle_event(
            HammockEvent::NewTopLevel(snapshot("org.bar", Some(TopLevelState::Activated), 77, 1)),
            &Vec::new(),
        )
        .expect("registration must succeed");
    assert_eq!(h.apps.len(), 1);
    assert_eq!(h.apps[0].pid, 77);
    assert_eq!(h.apps[0].info.cgroup, "org.bar-77");
    assert!(h.handler.find_cgroup("org.bar-77").is_some());
    assert_eq!(acts.len(), 1);
    match &acts[0] {
        HammockAction::CreateCgroup(s) => assert_eq!(s, "org.bar-77"),
        other => panic!("expected CreateCgroup, got {:?}", other),
    }
}

#[test]
fn suspend_cycle_button_wake() {
    let mut h = controller_with_button_wakeup(5);
    let acts = h
        .handle_event(HammockEvent::SystemSuspend(true), &Vec::new())
        .expect("suspend must succeed");
    assert_eq!(acts.len(), 3);
    assert!(matches!(acts[0], HammockAction::Settle(400)));
    assert!(matches!(acts[1], HammockAction::FreezeAll));
    assert!(matches!(acts[2], HammockAction::ReleaseInhibitor));
    assert!(h.handler.root_frozen);
    assert!(!h.inhib.held);

    let counts = vec![6];
    let acts = h
        .handle_event(HammockEvent::SystemSuspend(false), &counts)
        .expect("resume must succeed");
    assert_eq!(acts.len(), 2);
    assert!(matches!(acts[0], HammockAction::ThawAll));
    assert!(matches!(acts[1], HammockAction::RearmInhibitor));
    assert!(!h.handler.root_frozen);
    assert!(h.inhib.held);
}

#[test]
fn modem_wake_stays_frozen() {
    let src = WakeupSource::new("Modem", WakeupType::Modem, "mdm".to_string(), 3);
    let rules = MatchRules(vec![rule(Rule::Foreground), rule(Rule::Background)]);
    let hal = Hal::new(Wakeup::new(vec![src]), None);
    let mut h = Hammock::new(rules, CGHandler::new(), hal);

    h.handle_event(HammockEvent::SystemSuspend(true), &Vec::new()).unwrap();
    let acts = h.handle_event(HammockEvent::SystemSuspend(false), &vec![4]).unwrap();
    assert_eq!(acts.len(), 1);
    assert!(matches!(acts[0], HammockAction::RearmInhibitor));
    assert!(h.handler.root_frozen);
    assert!(h.inhib.held);
}

#[test]
fn repeated_launch_is_noop() {
    let mut h = controller();
    let info = DesktopAppInfo::new("org.foo".to_string(), 42, "/a/org.foo.desktop".to_string());
    h.handle_event(HammockEvent::NewApplication(info), &Vec::new()).unwrap();
    let info_again =
        DesktopAppInfo::new("org.foo".to_string(), 42, "/a/org.foo.desktop".to_string());
    let acts = h.handle_event(HammockEvent::NewApplication(info_again), &Vec::new()).unwrap();
    assert_eq!(acts.len(), 0);
    assert_eq!(h.apps.len(), 1);
}

#[test]
fn close_of_unknown_app_is_noop() {
    let mut h = controller();
    let info = DesktopAppInfo::new("org.foo".to_string(), 42, "/a/org.foo.desktop".to_string());
    h.handle_event(HammockEvent::NewApplication(info), &Vec::new()).unwrap();
    let acts = h
        .handle_event(HammockEvent::TopLevelClosed(snapshot("org.baz", None, 0, 1)), &Vec::new())
        .unwrap();
    assert_eq!(acts.len(), 0);
    assert_eq!(h.apps.len(), 1);
    assert!(h.handler.find_cgroup("org.foo-42").is_some());
}

#[test]
fn freeze_then_thaw_restores_state() {
    let mut handler = CGHandler::new();
    let app = hammock::application::App::new(AppId::from("org.x".to_string()), 9, &mut handler);
    let i = handler.find_cgroup("org.x-9").unwrap();
    assert!(!handler.cgroups[i].frozen);
    app.freeze(&mut handler);
    assert!(handler.cgroups[i].frozen);
    app.thaw(&mut handler);
    assert!(!handler.cgroups[i].frozen);
}

#[test]
fn find_by_pid_returns_owner() {
    let mut h = controller();
    let a = DesktopAppInfo::new("org.a".to_string(), 10, "/a/org.a.desktop".to_string());
    let b = DesktopAppInfo::new("org.b".to_string(), 20, "/a/org.b.desktop".to_string());
    h.handle_event(HammockEvent::NewApplication(a), &Vec::new()).unwrap();
    h.handle_event(HammockEvent::NewApplication(b), &Vec::new()).unwrap();

    assert_eq!(h.find(&AppFilter::Pid(20)), Some(1));
    assert_eq!(h.find(&AppFilter::Pid(10)), Some(0));
    assert_eq!(h.find(&AppFilter::Pid(30)), None);
    let id = AppId::from("org.b".to_string());
    assert_eq!(h.find(&AppFilter::AppId(&id)), Some(1));
    assert!(h.has_app(&AppFilter::Rule(Rule::Foreground)));
}

#[test]
fn toplevel_without_rule_config_is_an_error() {
    let rules = MatchRules(vec![rule(Rule::Foreground)]);
    let hal = Hal::new(Wakeup::new(Vec::new()), None);
    let mut h = Hammock::new(rules, CGHandler::new(), hal);
    let info = DesktopAppInfo::new("org.foo".to_string(), 42, "/a/org.foo.desktop".to_string());
    h.handle_event(HammockEvent::NewApplication(info), &Vec::new()).unwrap();

    let r = h.handle_event(
        HammockEvent::TopLevelChanged(snapshot("org.foo", Some(TopLevelState::Background), 0, 2)),
        &Vec::new(),
    );
    assert_eq!(r.unwrap_err(), HammockError::NoSuchRule(Rule::Background));
    assert_eq!(h.apps[0].info.match_rule, Rule::Foreground);
}

#[test]
fn inhibitor_stays_released_until_resume() {
    let mut h = controller_with_button_wakeup(5);
    h.handle_event(HammockEvent::SystemSuspend(true), &Vec::new()).unwrap();
    assert!(!h.inhib.held);
    // Unrelated events between suspend and resume leave the lock released.
    let info = DesktopAppInfo::new("org.foo".to_string(), 42, "/a/org.foo.desktop".to_string());
    h.handle_event(HammockEvent::NewApplication(info), &Vec::new()).unwrap();
    assert!(!h.inhib.held);
    h.handle_event(HammockEvent::TopLevelClosed(snapshot("org.none", None, 0, 1)), &Vec::new())
        .unwrap();
    assert!(!h.inhib.held);
    h.handle_event(HammockEvent::SystemSuspend(false), &vec![9]).unwrap();
    assert!(h.inhib.held);
}

#[test]
fn task_moves_between_cgroups() {
    let mut h = controller();
    let a = DesktopAppInfo::new("org.a".to_string(), 42, "/a/org.a.desktop".to_string());
    h.handle_event(HammockEvent::NewApplication(a), &Vec::new()).unwrap();
    // A second launch reusing the PID moves the task: a task belongs to
    // exactly one cgroup.
    let b = DesktopAppInfo::new("org.b".to_string(), 42, "/a/org.b.desktop".to_string());
    h.handle_event(HammockEvent::NewApplication(b), &Vec::new()).unwrap();

    let i_a = h.handler.find_cgroup("org.a-42").unwrap();
    let i_b = h.handler.find_cgroup("org.b-42").unwrap();
    assert!(!h.handler.contains_task(i_a, 42));
    assert!(h.handler.contains_task(i_b, 42));
    assert_eq!(h.find(&AppFilter::Pid(42)), Some(1));
}

#[test]
fn unknown_identifier_toplevel_uses_fallback_name() {
    let mut h = controller();
    let tl = TopLevelInner {
        new: 1,
        title: "mystery".to_string(),
        app_id: AppId::unknown(),
        state: Some(TopLevelState::Activated),
        pid: 77,
    };
    h.handle_event(HammockEvent::NewTopLevel(tl), &Vec::new()).unwrap();
    assert_eq!(h.apps.len(), 1);
    assert_eq!(h.apps[0].info.cgroup, "unknown-77");
    // The same window reported again does not create a second record.
    let tl_again = TopLevelInner {
        new: 2,
        title: "mystery".to_string(),
        app_id: AppId::unknown(),
        state: Some(TopLevelState::Background),
        pid: 77,
    };
    h.handle_event(HammockEvent::TopLevelChanged(tl_again), &Vec::new()).unwrap();
    assert_eq!(h.apps.len(), 1);
}

#[test]
fn registry_invariant_is_checkable() {
    let mut h = controller();
    assert!(h.check_wf());
    let info = DesktopAppInfo::new("org.foo".to_string(), 42, "/a/org.foo.desktop".to_string());
    h.handle_event(HammockEvent::NewApplication(info), &Vec::new()).unwrap();
    assert!(h.check_wf());
    // Corrupting the registry by hand is detected.
    let rogue = hammock::application::App::new_with_cgroup(
        AppId::from("org.foo".to_string()),
        42,
        "org.foo-42".to_string(),
    );
    h.apps.push(rogue);
    assert!(!h.check_wf());
}

#[test]
fn toplevel_without_id_or_pid_is_dropped() {
    let mut h = controller();
    let tl = TopLevelInner {
        new: 1,
        title: "mystery".to_string(),
        app_id: AppId::unknown(),
        state: Some(TopLevelState::Activated),
        pid: 0,
    };
    let acts = h.handle_event(HammockEvent::NewTopLevel(tl), &Vec::new()).unwrap();
    assert_eq!(acts.len(), 0);
    assert_eq!(h.apps.len(), 0);
}

#[test]
fn wake_cause_prefers_first_advanced_source() {
    let sources = vec![
        WakeupSource::new("Power Button", WakeupType::Button, "pwrkey".to_string(), 5),
        WakeupSource::new("Charger", WakeupType::Charger, "chg".to_string(), 2),
    ];
    let mut w = Wakeup::new(sources);
    // Only the charger advanced; it becomes the cached cause.
    assert_eq!(w.get_cause(&vec![5, 3]), WakeupType::Charger);
    // Nothing advanced since: the previously cached cause is reported.
    assert_eq!(w.get_cause(&vec![5, 3]), WakeupType::Charger);
    // Both advanced: the first source wins and is cached.
    assert_eq!(w.get_cause(&vec![9, 9]), WakeupType::Button);
    // All counters were remembered, so the same reading shows no advance.
    assert_eq!(w.get_cause(&vec![9, 9]), WakeupType::Button);
}

#[test]
fn load_cgroup_does_not_create() {
    let mut handler = CGHandler::new();
    assert_eq!(handler.load_cgroup("org.gone-1"), Err(HammockError::NoSuchCgroup));
    assert!(handler.find_cgroup("org.gone-1").is_none());
    let idx = handler.new_cgroup("org.here-2", None);
    assert_eq!(handler.load_cgroup("org.here-2"), Ok(idx));
}

#[test]
fn parse_rules_creates_rule_cgroups() {
    let config = hammock::config::Config {
        description: "test profile".to_string(),
        cores: 8,
        memory: [2048, 4096],
        match_rules: vec![
            hammock::config::MatchRuleConfig {
                name: Rule::Foreground,
                only_from: None,
                never_from: None,
                cgroup: CgroupConfig { cpuset: "0-7".to_string(), cpushares: None },
                enter_time: RuleEnterTime { default: 0, from: None },
            },
            hammock::config::MatchRuleConfig {
                name: Rule::Snooze,
                only_from: None,
                never_from: None,
                cgroup: CgroupConfig { cpuset: "0-1".to_string(), cpushares: Some(512) },
                enter_time: RuleEnterTime { default: 1000, from: None },
            },
        ],
    };
    let mut handler = CGHandler::new();
    let rules = config.parse_rules(&mut handler);
    assert_eq!(rules.len(), 2);
    assert_eq!(rules[0].name, Rule::Foreground);
    assert_eq!(rules[1].name, Rule::Snooze);
    assert_eq!(rules[1].cgroup.cpuset, "0-1");
    assert!(handler.find_cgroup("foreground").is_some());
    assert!(handler.find_cgroup("snooze").is_some());
    assert!(handler.find_cgroup("background").is_none());
}

#[test]
fn dwell_time_lookup() {
    let table = RuleEnterTime {
        default: 250,
        from: Some(vec![
            EnterTimeFrom { atom: Atom::Rule(Rule::Foreground), time_ms: 1000 },
            EnterTimeFrom { atom: Atom::Event(Event::Wake), time_ms: 50 },
            EnterTimeFrom { atom: Atom::Rule(Rule::Foreground), time_ms: 9 },
        ]),
    };
    // The first matching entry wins.
    assert_eq!(table.dwell_ms(Some(&Atom::Rule(Rule::Foreground))), 1000);
    assert_eq!(table.dwell_ms(Some(&Atom::Event(Event::Wake))), 50);
    // No entry, or no source atom: the default applies.
    assert_eq!(table.dwell_ms(Some(&Atom::Rule(Rule::Media))), 250);
    assert_eq!(table.dwell_ms(None), 250);
    let bare = RuleEnterTime { default: 400, from: None };
    assert_eq!(bare.dwell_ms(Some(&Atom::Event(Event::Wake))), 400);
}

#[test]
fn configured_engine_overrides_degenerate_policy() {
    // A profile with conditions engages the rule engine: the foreground
    // rule admits only tagged applications, everything else falls through
    // to the background rule regardless of window state.
    let fg = MatchRule::new(
        Rule::Foreground,
        MatchConditions::new(
            Some(Conditional::new_atom(Atom::Tag(Tag::WasFocused))),
            None,
            RuleEnterTime { default: 0, from: None },
        ),
        CgroupConfig { cpuset: "0-7".to_string(), cpushares: None },
    );
    let rules = MatchRules(vec![fg, rule(Rule::Background)]);
    let hal = Hal::new(Wakeup::new(Vec::new()), None);
    let mut h = Hammock::new(rules, CGHandler::new(), hal);

    let info = DesktopAppInfo::new("org.play".to_string(), 5, "/a/org.play.desktop".to_string());
    h.handle_event(HammockEvent::NewApplication(info), &Vec::new()).unwrap();

    // An activated window is not enough: the engine sends the untagged
    // application to the background.
    h.handle_event(
        HammockEvent::TopLevelChanged(snapshot("org.play", Some(TopLevelState::Activated), 0, 2)),
        &Vec::new(),
    )
    .unwrap();
    assert_eq!(h.apps[0].info.match_rule, Rule::Background);
    assert!(frozen_state(&h, "org.play-5"));

    // Once tagged, the foreground rule is the first that admits it.
    h.apps[0].info.tags.push(Tag::WasFocused);
    h.handle_event(
        HammockEvent::TopLevelChanged(snapshot("org.play", Some(TopLevelState::Background), 0, 3)),
        &Vec::new(),
    )
    .unwrap();
    assert_eq!(h.apps[0].info.match_rule, Rule::Foreground);
    assert!(!frozen_state(&h, "org.play-5"));
}

#[test]
fn match_rules_get_and_select() {
    let fg = MatchRule::new(
        Rule::Foreground,
        MatchConditions::new(
            Some(Conditional::new_atom(Atom::Event(Event::Wake))),
            None,
            RuleEnterTime { default: 0, from: None },
        ),
        CgroupConfig { cpuset: "0-7".to_string(), cpushares: None },
    );
    let rules = MatchRules(vec![fg, rule(Rule::Background)]);
    assert!(rules.get(Rule::Foreground).is_ok());
    assert!(rules.get(Rule::Background).is_ok());
    assert_eq!(rules.get(Rule::Media).unwrap_err(), HammockError::NoSuchRule(Rule::Media));

    let mut handler = CGHandler::new();
    let app = hammock::application::App::new(AppId::from("a".to_string()), 1, &mut handler);
    // Without the triggering event only the background rule admits the app.
    assert_eq!(rules.select(&app, None), Rule::Background);
    // With the wake event the foreground rule is the first candidate.
    assert_eq!(rules.select(&app, Some(&Event::Wake)), Rule::Foreground);
}
