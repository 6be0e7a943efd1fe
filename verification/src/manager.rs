//! How the manager's state is shown: to a status bar, to the user, and to
//! those who watch it.

use vstd::prelude::*;
use vstd::string::*;

verus! {

/// What the manager's state shows. `S` tells which power source's plan is in
/// effect.
#[derive(Debug)]
pub struct State<S> {
    /// The session is locked.
    pub locked: bool,
    /// The user paused idle handling.
    pub manually_paused: bool,
    /// The system paused idle handling.
    pub system_paused: bool,
    /// Idle handling is paused, for whatever reason.
    pub paused: bool,
    /// Something inhibits idling.
    pub inhibitors_active: bool,
    /// Idling begins once activity has settled.
    pub debounce_pending: bool,
    /// The profile in effect, if not the default.
    pub active_profile: Option<String>,
    /// The power source whose plan is in effect.
    pub plan_source: S,
}

/// The rendered description of a state.
#[derive(Debug)]
pub struct RenderedInfo {
    pub tooltip: String,
    pub pretty: String,
}

/// What a Waybar module shows.
#[derive(Debug)]
pub struct WaybarInfo {
    pub text: String,
    pub alt: String,
    pub class: String,
    pub tooltip: String,
    pub profile: Option<String>,
}

/// A state as it is shown to the user.
#[derive(Debug)]
pub struct InfoSnapshot {
    pub waybar: WaybarInfo,
    pub pretty: String,
    pub manually_paused: bool,
}

/// A state as it is told to those who watch.
#[derive(Debug, Clone)]
pub struct WatchEvent {
    pub state: String,
    pub paused: bool,
    pub manually_paused: bool,
    pub profile: String,
}

/// A `WaybarInfo` with its texts as sequences.
pub struct WaybarView {
    pub text: Seq<char>,
    pub alt: Seq<char>,
    pub class: Seq<char>,
    pub tooltip: Seq<char>,
    pub profile: Option<Seq<char>>,
}

/// An `InfoSnapshot` with its texts as sequences.
pub struct InfoView {
    pub waybar: WaybarView,
    pub pretty: Seq<char>,
    pub manually_paused: bool,
}

/// A `WatchEvent` with its texts as sequences.
pub struct WatchEventView {
    pub state: Seq<char>,
    pub paused: bool,
    pub manually_paused: bool,
    pub profile: Seq<char>,
}

impl View for WaybarInfo {
    type V = WaybarView;

    open spec fn view(&self) -> WaybarView {
        WaybarView {
            text: self.text@,
            alt: self.alt@,
            class: self.class@,
            tooltip: self.tooltip@,
            profile: match self.profile {
                Some(name) => Some(name@),
                None => None,
            },
        }
    }
}

impl View for InfoSnapshot {
    type V = InfoView;

    open spec fn view(&self) -> InfoView {
        InfoView {
            waybar: self.waybar@,
            pretty: self.pretty@,
            manually_paused: self.manually_paused,
        }
    }
}

impl View for WatchEvent {
    type V = WatchEventView;

    open spec fn view(&self) -> WatchEventView {
        WatchEventView {
            state: self.state@,
            paused: self.paused,
            manually_paused: self.manually_paused,
            profile: self.profile@,
        }
    }
}

/// The name of a state and the class under which a status bar shows it. A lock
/// goes before a pause of the user's, that before an inhibitor or a pause of
/// the system's, and that before waiting.
pub open spec fn labels_of<S>(state: State<S>) -> (Seq<char>, Seq<char>) {
    if state.locked {
        ("locked"@, "locked"@)
    } else if state.manually_paused {
        ("manual"@, "manually_inhibited"@)
    } else if state.inhibitors_active || state.system_paused {
        ("inhibited"@, "idle_inhibited"@)
    } else if state.debounce_pending {
        ("waiting"@, "idle_waiting"@)
    } else {
        ("active"@, "idle_active"@)
    }
}

/// A configuration, if there is one, to be read.
pub open spec fn borrowed<C>(cfg: &Option<C>) -> Option<&C> {
    match cfg {
        Some(c) => Some(c),
        None => None,
    }
}

/// The name of the profile in effect.
pub open spec fn profile_of<S>(state: State<S>) -> Seq<char> {
    match state.active_profile {
        Some(name) => name@,
        None => "default"@,
    }
}

/// What is shown of `state`, described by `rendered`.
pub open spec fn info_of<S>(state: State<S>, rendered: RenderedInfo) -> InfoView {
    InfoView {
        waybar: WaybarView {
            text: labels_of(state).0,
            alt: labels_of(state).1,
            class: labels_of(state).1,
            tooltip: rendered.tooltip@,
            profile: Some(profile_of(state)),
        },
        pretty: rendered.pretty@,
        manually_paused: state.manually_paused,
    }
}

/// What is told of `state`.
pub open spec fn event_of<S>(state: State<S>) -> WatchEventView {
    WatchEventView {
        state: labels_of(state).0,
        paused: state.paused,
        manually_paused: state.manually_paused,
        profile: profile_of(state),
    }
}

/// The name of a state and the class under which a status bar shows it.
pub fn status_labels<S>(state: &State<S>) -> (r: (&'static str, &'static str))
    ensures
        (r.0@, r.1@) == labels_of(*state),
{
    if state.locked {
        ("locked", "locked")
    } else if state.manually_paused {
        ("manual", "manually_inhibited")
    } else if state.inhibitors_active || state.system_paused {
        ("inhibited", "idle_inhibited")
    } else if state.debounce_pending {
        ("waiting", "idle_waiting")
    } else {
        ("active", "idle_active")
    }
}

impl InfoSnapshot {
    pub fn new(waybar: WaybarInfo, pretty: String, manually_paused: bool) -> (r: InfoSnapshot)
        ensures
            r@ == (InfoView { waybar: waybar@, pretty: pretty@, manually_paused }),
    {
        InfoSnapshot { waybar, pretty, manually_paused }
    }
}

impl<S> State<S> {
    /// The profile in effect, if not the default.
    pub fn active_profile(&self) -> (r: Option<&str>)
        ensures
            r is Some == self.active_profile is Some,
            r is Some ==> r->0@ == self.active_profile->0@,
    {
        match &self.active_profile {
            Some(name) => Some(name.as_str()),
            None => None,
        }
    }

    fn profile_name(&self) -> (r: String)
        ensures
            r@ == profile_of(*self),
    {
        match &self.active_profile {
            Some(name) => name.clone(),
            None => "default".to_owned(),
        }
    }
}

/// The manager. `cfg_file` looks up the configuration in effect for a profile
/// and a power source.
pub struct Manager<L> {
    pub cfg_file: L,
}

impl<L> Manager<L> {
    pub fn new(cfg_file: L) -> (r: Manager<L>)
        ensures
            r.cfg_file == cfg_file,
    {
        Manager { cfg_file }
    }

    /// What is shown of `state`, which `rendered` describes.
    pub fn describe<S>(&self, state: &State<S>, rendered: RenderedInfo) -> (r: InfoSnapshot)
        ensures
            r@ == info_of(*state, rendered),
    {
        let (text, alt) = status_labels(state);
        let waybar = WaybarInfo {
            text: text.to_owned(),
            alt: alt.to_owned(),
            class: alt.to_owned(),
            tooltip: rendered.tooltip,
            profile: Some(state.profile_name()),
        };
        InfoSnapshot::new(waybar, rendered.pretty, state.manually_paused)
    }

    /// What is shown of `state` at `now_ms`, as `render_info` describes it under
    /// the configuration in effect.
    pub fn snapshot<S, C, R>(&self, state: &State<S>, now_ms: u64, render_info: R) -> (r:
        InfoSnapshot) where
        L: Fn(Option<&str>, &S) -> Option<C>,
        R: Fn(Option<&C>, &State<S>, u64) -> RenderedInfo,

        requires
            forall|profile: Option<&str>|
                call_requires(self.cfg_file, (profile, &state.plan_source)),
            forall|cfg: Option<&C>| call_requires(render_info, (cfg, state, now_ms)),
        ensures
            exists|profile: Option<&str>, cfg: Option<C>, rendered: RenderedInfo|
                {
                    &&& profile is Some == state.active_profile is Some
                    &&& profile is Some ==> profile->0@ == state.active_profile->0@
                    &&& #[trigger] call_ensures(self.cfg_file, (profile, &state.plan_source), cfg)
                    &&& #[trigger] call_ensures(
                        render_info,
                        (borrowed(&cfg), state, now_ms),
                        rendered,
                    )
                    &&& r@ == info_of(*state, rendered)
                },
    {
        let cfg = (self.cfg_file)(state.active_profile(), &state.plan_source);
        let in_effect = cfg.as_ref();
        assert(in_effect == borrowed(&cfg));
        let rendered = render_info(in_effect, state, now_ms);
        self.describe(state, rendered)
    }

    /// What is told of `state` to those who watch.
    pub fn watch_event<S>(&self, state: &State<S>) -> (r: WatchEvent)
        ensures
            r@ == event_of(*state),
    {
        let (name, _) = status_labels(state);
        WatchEvent {
            state: name.to_owned(),
            paused: state.paused,
            manually_paused: state.manually_paused,
            profile: state.profile_name(),
        }
    }
}

/// The state that is shown is the first of these that holds: the session is
/// locked, the user paused, something inhibits or the system paused, idling waits
/// for activity to settle. It is shown as active exactly if none of them holds.
/// Each state is shown under one class.
pub proof fn law_first_reason_is_shown<S>(state: State<S>)
    ensures
        ({
            let (name, class) = labels_of(state);
            &&& name == "locked"@ <==> state.locked
            &&& name == "manual"@ <==> !state.locked && state.manually_paused
            &&& name == "inhibited"@ <==> !state.locked && !state.manually_paused && (
            state.inhibitors_active || state.system_paused)
            &&& name == "waiting"@ <==> !state.locked && !state.manually_paused
                && !state.inhibitors_active && !state.system_paused && state.debounce_pending
            &&& name == "active"@ <==> !(state.locked || state.manually_paused
                || state.inhibitors_active || state.system_paused || state.debounce_pending)
            &&& name == "locked"@ ==> class == "locked"@
            &&& name == "manual"@ ==> class == "manually_inhibited"@
            &&& name == "inhibited"@ ==> class == "idle_inhibited"@
            &&& name == "waiting"@ ==> class == "idle_waiting"@
            &&& name == "active"@ ==> class == "idle_active"@
        }),
{
    reveal_strlit("locked");
    reveal_strlit("manual");
    reveal_strlit("inhibited");
    reveal_strlit("waiting");
    reveal_strlit("active");
    assert("locked"@[0] == 'l' && "manual"@[0] == 'm' && "inhibited"@[0] == 'i' && "waiting"@[0]
        == 'w' && "active"@[0] == 'a');
}

/// A status bar is shown the state's name, its class both as such and as the
/// alternative text, the description that was rendered, and the profile, which is
/// `default` if none is set.
pub proof fn law_snapshot_shows_the_state<S>(
    state: State<S>,
    rendered: RenderedInfo,
    shown: InfoSnapshot,
)
    requires
        shown@ == info_of(state, rendered),
    ensures
        shown.waybar.text@ == labels_of(state).0,
        shown.waybar.alt@ == labels_of(state).1,
        shown.waybar.class@ == labels_of(state).1,
        shown.waybar.tooltip@ == rendered.tooltip@,
        shown.pretty@ == rendered.pretty@,
        shown.manually_paused == state.manually_paused,
        shown.waybar.profile is Some,
        state.active_profile is Some ==> shown.waybar.profile->0@ == state.active_profile->0@,
        state.active_profile is None ==> shown.waybar.profile->0@ == "default"@,
{
}

/// Those who watch are told the state's name, whether idle handling is paused and
/// whether by the user, and the profile, which is `default` if none is set.
pub proof fn law_event_tells_the_state<S>(state: State<S>, event: WatchEvent)
    requires
        event@ == event_of(state),
    ensures
        event.state@ == labels_of(state).0,
        event.paused == state.paused,
        event.manually_paused == state.manually_paused,
        state.active_profile is Some ==> event.profile@ == state.active_profile->0@,
        state.active_profile is None ==> event.profile@ == "default"@,
{
}

/// The labels of a state are those of the first reason that holds.
pub proof fn law_labels_tell_the_first_reason<S>(
    state: State<S>,
    labels: (&'static str, &'static str),
)
    requires
        call_ensures(status_labels::<S>, (&state,), labels),
    ensures
        state.locked ==> labels.0@ == "locked"@ && labels.1@ == "locked"@,
        !state.locked && state.manually_paused ==> labels.0@ == "manual"@ && labels.1@
            == "manually_inhibited"@,
        !state.locked && !state.manually_paused && (state.inhibitors_active || state.system_paused)
            ==> labels.0@ == "inhibited"@ && labels.1@ == "idle_inhibited"@,
        !state.locked && !state.manually_paused && !state.inhibitors_active && !state.system_paused
            && state.debounce_pending ==> labels.0@ == "waiting"@ && labels.1@ == "idle_waiting"@,
        !state.locked && !state.manually_paused && !state.inhibitors_active && !state.system_paused
            && !state.debounce_pending ==> labels.0@ == "active"@ && labels.1@ == "idle_active"@,
{
}

/// A description and an event of the same state show what `status_labels` gives
/// for it.
pub proof fn law_shown_labels_are_those_of_the_state<L, S>(
    manager: Manager<L>,
    state: State<S>,
    rendered: RenderedInfo,
    labels: (&'static str, &'static str),
    shown: InfoSnapshot,
    event: WatchEvent,
)
    requires
        call_ensures(status_labels::<S>, (&state,), labels),
        call_ensures(Manager::<L>::describe::<S>, (&manager, &state, rendered), shown),
        call_ensures(Manager::<L>::watch_event::<S>, (&manager, &state), event),
    ensures
        shown.waybar.text@ == labels.0@,
        shown.waybar.alt@ == labels.1@,
        shown.waybar.class@ == labels.1@,
        shown.waybar.tooltip@ == rendered.tooltip@,
        shown.pretty@ == rendered.pretty@,
        shown.manually_paused == state.manually_paused,
        event.state@ == labels.0@,
        event.paused == state.paused,
        event.manually_paused == state.manually_paused,
        shown.waybar.profile is Some && shown.waybar.profile->0@ == event.profile@,
        state.active_profile is Some ==> event.profile@ == state.active_profile->0@,
        state.active_profile is None ==> event.profile@ == "default"@,
{
    law_snapshot_shows_the_state(state, rendered, shown);
}

/// A snapshot holds what it is made of.
pub proof fn law_snapshot_holds_its_parts(
    waybar: WaybarInfo,
    pretty: String,
    manually_paused: bool,
    shown: InfoSnapshot,
)
    requires
        call_ensures(InfoSnapshot::new, (waybar, pretty, manually_paused), shown),
    ensures
        shown.waybar.text@ == waybar.text@,
        shown.waybar.alt@ == waybar.alt@,
        shown.waybar.class@ == waybar.class@,
        shown.waybar.tooltip@ == waybar.tooltip@,
        shown.waybar.profile is Some <==> waybar.profile is Some,
        waybar.profile is Some ==> shown.waybar.profile->0@ == waybar.profile->0@,
        shown.pretty@ == pretty@,
        shown.manually_paused == manually_paused,
{
    assert(shown@.waybar == waybar@);
    assert(shown.waybar@ == waybar@);
}

/// A status bar and those who watch are told the same state name, the same
/// profile and the same pause of the user's, however the state is rendered.
pub proof fn law_views_agree<S>(state: State<S>, rendered: RenderedInfo)
    ensures
        info_of(state, rendered).waybar.text == event_of(state).state,
        info_of(state, rendered).waybar.profile == Some(event_of(state).profile),
        info_of(state, rendered).manually_paused == event_of(state).manually_paused,
        info_of(state, rendered).waybar.class == info_of(state, rendered).waybar.alt,
{
}

} // verus!
