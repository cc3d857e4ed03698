//! Decoding and pure-computation behaviour: state arrays, launch paths,
//! conditionals, naming and the toplevel aggregator.

use hammock::app_id::AppId;
use hammock::backlight::Backlight;
use hammock::application::App;
use hammock::cgroups::CGHandler;
use hammock::config::{Atom, Conditional, Event, Rule, Tag};
use hammock::dbus::{parse_launched, InhibitHandler};
use hammock::events::HammockEvent;
use hammock::strings::{cgroup_name, u64_to_string};
use hammock::toplevel::{TopLevel, TopLevelCommit, TopLevelProp, TopLevelState};

fn test_app() -> App {
    let mut handler = CGHandler::new();
    App::new(AppId::from("org.test".to_string()), 1, &mut handler)
}

#[test]
fn parse_state_ignores_partial_chunk() {
    // Seven bytes: one full little-endian chunk (2 = Activated) and three
    // trailing bytes that do not fill a chunk and must be ignored.
    let arr = vec![2, 0, 0, 0, 1, 0, 0];
    assert_eq!(TopLevel::parse_state(arr), TopLevelState::Activated);
}

#[test]
fn parse_state_last_recognized_wins() {
    let arr = vec![1, 0, 0, 0, 3, 0, 0, 0];
    assert_eq!(TopLevel::parse_state(arr), TopLevelState::Fullscreen);
    let arr = vec![3, 0, 0, 0, 7, 0, 0, 0];
    assert_eq!(TopLevel::parse_state(arr), TopLevelState::Fullscreen);
}

#[test]
fn parse_state_unrecognized_is_background() {
    assert_eq!(TopLevel::parse_state(Vec::new()), TopLevelState::Background);
    assert_eq!(TopLevel::parse_state(vec![9, 9, 9, 9]), TopLevelState::Background);
    assert_eq!(TopLevel::parse_state(vec![0, 0, 0]), TopLevelState::Background);
}

#[test]
fn launched_path_with_desktop_suffix() {
    let info = parse_launched("/usr/share/applications/org.foo.desktop\0", 42).unwrap();
    assert_eq!(info.app_id, AppId::from("org.foo".to_string()));
    assert_eq!(info.pid, 42);
    assert_eq!(info.path, "/usr/share/applications/org.foo.desktop");
}

#[test]
fn launched_path_without_desktop_suffix() {
    // The final component is used unchanged when no `.desktop` occurs.
    let info = parse_launched("/opt/apps/bar\0", 7).unwrap();
    assert_eq!(info.app_id, AppId::from("bar".to_string()));
    assert_eq!(info.path, "/opt/apps/bar");
}

#[test]
fn launched_path_strips_one_trailing_suffix() {
    // Only a trailing `.desktop` is removed, and only once.
    let info = parse_launched("/a/org.foo.desktop.desktop\0", 1).unwrap();
    assert_eq!(info.app_id, AppId::from("org.foo.desktop".to_string()));
}

#[test]
fn launched_path_keeps_interior_desktop() {
    // `.desktop` occurring anywhere but as the suffix is not a suffix.
    let info = parse_launched("/a/org.desktopx\0", 1).unwrap();
    assert_eq!(info.app_id, AppId::from("org.desktopx".to_string()));
}

#[test]
fn launched_path_without_slash() {
    let info = parse_launched("org.solo.desktop\0", 3).unwrap();
    assert_eq!(info.app_id, AppId::from("org.solo".to_string()));
}

#[test]
fn launched_empty_path_is_dropped() {
    assert!(parse_launched("", 1).is_none());
}

#[test]
fn conditional_empty_lists() {
    let app = test_app();
    assert!(!Conditional::new_any_of(Vec::new()).evaluate(&app, None));
    assert!(Conditional::new_all_of(Vec::new()).evaluate(&app, None));
    assert!(!Conditional::new_one_of(Vec::new()).evaluate(&app, None));
}

#[test]
fn conditional_one_of_is_exactly_one() {
    let app = test_app();
    // The app starts in the foreground rule, so this atom is true.
    let t = || Conditional::new_atom(Atom::Rule(Rule::Foreground));
    assert!(Conditional::new_one_of(vec![t()]).evaluate(&app, None));
    assert!(!Conditional::new_one_of(vec![t(), t()]).evaluate(&app, None));
}

#[test]
fn conditional_atoms_and_combinators() {
    let mut app = test_app();
    let cond = Conditional::new_all_of(vec![
        Conditional::new_atom(Atom::Event(Event::Wake)),
        Conditional::new_not(Conditional::new_atom(Atom::Tag(Tag::Busy))),
    ]);
    assert!(cond.evaluate(&app, Some(&Event::Wake)));
    app.info.tags.push(Tag::Busy);
    assert!(!cond.evaluate(&app, Some(&Event::Wake)));
    // An event atom never matches without a triggering event.
    assert!(!cond.evaluate(&app, None));
}

#[test]
fn conditional_malformed_shapes_are_false() {
    let app = test_app();
    assert!(!Conditional::empty().evaluate(&app, None));
    let two_fields = Conditional {
        atom: Some(Atom::Rule(Rule::Foreground)),
        not: Some(Box::new(Conditional::empty())),
        any_of: None,
        all_of: None,
        one_of: None,
    };
    assert!(!two_fields.evaluate(&app, None));
}

#[test]
fn decimal_rendering() {
    assert_eq!(u64_to_string(0), "0");
    assert_eq!(u64_to_string(7), "7");
    assert_eq!(u64_to_string(1024), "1024");
    assert_eq!(u64_to_string(u64::MAX), "18446744073709551615");
}

#[test]
fn cgroup_names() {
    assert_eq!(cgroup_name(&AppId::from("org.foo".to_string()), 42), "org.foo-42");
    assert_eq!(cgroup_name(&AppId::unknown(), 7), "unknown-7");
    assert_eq!(AppId::unknown().display_string(), "unknown");
    assert_eq!(AppId::from("x".to_string()).display_string(), "x");
}

#[test]
fn aggregator_publishes_only_on_done() {
    let mut tl = TopLevel::new();
    assert!(tl.event(TopLevelProp::Title("Inbox".to_string())).is_none());
    assert!(tl.event(TopLevelProp::AppId("org.mail".to_string())).is_none());
    assert!(tl.event(TopLevelProp::State(TopLevelState::Activated)).is_none());
    assert!(tl.event(TopLevelProp::Credentials(42)).is_none());
    // Nothing is visible before the commit.
    assert!(!tl.app_id().is_known());
    assert_eq!(tl.pid(), 0);
    assert!(tl.state().is_err());
    assert!(!tl.is_new());

    let commit = tl.event(TopLevelProp::Done).expect("Done must publish");
    match commit {
        TopLevelCommit::Done(snap) => {
            assert_eq!(snap.new, 1);
            assert_eq!(snap.title, "Inbox");
            assert_eq!(snap.app_id, AppId::from("org.mail".to_string()));
            assert_eq!(snap.state, Some(TopLevelState::Activated));
            assert_eq!(snap.pid, 42);
        }
        other => panic!("expected Done, got {:?}", other),
    }
    assert!(tl.is_new());
    assert_eq!(tl.pid(), 42);
}

#[test]
fn aggregator_generation_counts_commits() {
    let mut tl = TopLevel::new();
    tl.event(TopLevelProp::AppId("org.mail".to_string()));
    tl.event(TopLevelProp::Done);
    tl.event(TopLevelProp::State(TopLevelState::Background));
    let commit = tl.event(TopLevelProp::Done).unwrap();
    match commit {
        TopLevelCommit::Done(snap) => {
            assert_eq!(snap.new, 2);
            // The second commit keeps the earlier identifier.
            assert_eq!(snap.app_id, AppId::from("org.mail".to_string()));
            assert_eq!(snap.state, Some(TopLevelState::Background));
        }
        other => panic!("expected Done, got {:?}", other),
    }
    assert!(!tl.is_new());
}

#[test]
fn aggregator_closed_is_terminal() {
    let mut tl = TopLevel::new();
    tl.event(TopLevelProp::AppId("org.mail".to_string()));
    tl.event(TopLevelProp::Done);
    let commit = tl.event(TopLevelProp::Closed).expect("Closed must publish");
    match commit {
        TopLevelCommit::Closed(snap) => {
            assert_eq!(snap.app_id, AppId::from("org.mail".to_string()));
        }
        other => panic!("expected Closed, got {:?}", other),
    }
    // Events after destruction are ignored.
    assert!(tl.event(TopLevelProp::Done).is_none());
    assert!(tl.event(TopLevelProp::Title("late".to_string())).is_none());
}

#[test]
fn commit_to_event_mapping() {
    let snap = |generation: u64| hammock::toplevel::TopLevelInner {
        new: generation,
        title: String::new(),
        app_id: AppId::from("a".to_string()),
        state: None,
        pid: 0,
    };
    assert!(matches!(
        HammockEvent::from_commit(TopLevelCommit::Done(snap(1))),
        HammockEvent::NewTopLevel(_)
    ));
    assert!(matches!(
        HammockEvent::from_commit(TopLevelCommit::Done(snap(2))),
        HammockEvent::TopLevelChanged(_)
    ));
    assert!(matches!(
        HammockEvent::from_commit(TopLevelCommit::Closed(snap(2))),
        HammockEvent::TopLevelClosed(_)
    ));
}

#[test]
fn inhibitor_lifecycle() {
    let mut inhib = InhibitHandler::new();
    assert!(inhib.held);
    inhib.onSuspend();
    assert!(!inhib.held);
    inhib.onResume();
    assert!(inhib.held);
}

#[test]
fn backlight_percentages() {
    let b = Backlight::new(50, 100);
    assert_eq!(b.get_brightness(), 50);
    assert_eq!(b.get_max_brightness(), 100);
    assert_eq!(b.get_percent(), 50);

    let mut b = Backlight::new(0, 200);
    assert!(b.set_percent(50));
    assert_eq!(b.get_brightness(), 100);
    assert!(b.set_brightness(300));
    assert_eq!(b.get_brightness(), 200);
    assert!(b.set_brightness(-5));
    assert_eq!(b.get_brightness(), 0);
    assert!(b.set_percent(100));
    assert_eq!(b.get_brightness(), 200);
    assert_eq!(b.get_percent(), 100);
    // Out-of-range percentages clamp rather than being rejected.
    assert!(b.set_percent(150));
    assert_eq!(b.get_brightness(), 200);
    assert!(b.set_percent(-20));
    assert_eq!(b.get_brightness(), 0);
}
