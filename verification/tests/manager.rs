use stasis::action::Action;
use stasis::manager::{status_labels, Manager, RenderedInfo, State};

fn state() -> State<u8> {
    State {
        locked: false,
        manually_paused: false,
        system_paused: false,
        paused: false,
        inhibitors_active: false,
        debounce_pending: false,
        active_profile: None,
        plan_source: 7,
    }
}

#[test]
fn labels_by_priority() {
    let mut s = state();
    assert_eq!(status_labels(&s), ("active", "idle_active"));
    s.debounce_pending = true;
    assert_eq!(status_labels(&s), ("waiting", "idle_waiting"));
    s.system_paused = true;
    assert_eq!(status_labels(&s), ("inhibited", "idle_inhibited"));
    s.system_paused = false;
    s.inhibitors_active = true;
    assert_eq!(status_labels(&s), ("inhibited", "idle_inhibited"));
    s.manually_paused = true;
    assert_eq!(status_labels(&s), ("manual", "manually_inhibited"));
    s.locked = true;
    assert_eq!(status_labels(&s), ("locked", "locked"));
}

#[test]
fn snapshot_shows_the_state() {
    let lookup = |profile: Option<&str>, source: &u8| profile.map(|p| format!("{p}{source}"));
    let manager = Manager::new(lookup);
    let mut s = state();
    s.active_profile = Some("work".to_string());
    s.manually_paused = true;
    let render = |cfg: Option<&String>, s: &State<u8>, now: u64| RenderedInfo {
        tooltip: format!("{cfg:?} {now}"),
        pretty: format!("{}", s.manually_paused),
    };
    let info = manager.snapshot(&s, 99, render);
    assert_eq!(info.waybar.text, "manual");
    assert_eq!(info.waybar.alt, "manually_inhibited");
    assert_eq!(info.waybar.class, "manually_inhibited");
    assert_eq!(info.waybar.tooltip, "Some(\"work7\") 99");
    assert_eq!(info.waybar.profile, Some("work".to_string()));
    assert_eq!(info.pretty, "true");
    assert!(info.manually_paused);
}

#[test]
fn snapshot_without_profile_or_configuration() {
    let lookup = |_: Option<&str>, _: &u8| None::<String>;
    let manager = Manager::new(lookup);
    let render = |cfg: Option<&String>, _: &State<u8>, _: u64| RenderedInfo {
        tooltip: format!("{cfg:?}"),
        pretty: String::new(),
    };
    let info = manager.snapshot(&state(), 0, render);
    assert_eq!(info.waybar.profile, Some("default".to_string()));
    assert_eq!(info.waybar.tooltip, "None");
    assert!(!info.manually_paused);
}

#[test]
fn watchers_are_told_what_the_bar_shows() {
    let manager = Manager::new(());
    let mut s = state();
    s.paused = true;
    s.system_paused = true;
    let event = manager.watch_event(&s);
    assert_eq!(event.state, "inhibited");
    assert!(event.paused);
    assert!(!event.manually_paused);
    assert_eq!(event.profile, "default");
    let rendered = RenderedInfo { tooltip: "t".to_string(), pretty: "p".to_string() };
    let info = manager.describe(&s, rendered);
    assert_eq!(info.waybar.text, event.state);
    assert_eq!(info.waybar.profile, Some(event.profile));
    assert_eq!(info.manually_paused, event.manually_paused);
}

#[test]
fn actions_compare_by_content() {
    let a = Action::Notify { message: "m".to_string(), icon: None };
    assert_eq!(a.clone(), a);
    assert_ne!(a, Action::RunCommand { command: "m".to_string() });
    assert_ne!(Action::EnterLowPower, Action::ExitLowPower);
}
