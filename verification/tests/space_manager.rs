use std::sync::Arc;

use glide_wm::actor::space_manager::{Event, Message, SpaceManager};
use glide_wm::actor::wm_controller::WmEvent;
use glide_wm::actor::{group_bars, mouse, reactor, status, window_server};
use glide_wm::config::{
    CenterMode, Config, Experimental, GroupBars, HorizontalPlacement, NewWindowPlacement,
    ScrollConfig, Settings, StatusIcon, StatusIconExperimental, VerticalPlacement,
};
use glide_wm::model::{LayoutKind, RootOrientation};
use glide_wm::sys::geometry::{CGFloat, CGRect};
use glide_wm::sys::screen::{CoordinateConverter, ScreenId, SpaceId};
use glide_wm::sys::window_server::WindowsOnScreen;

fn number(x: f64) -> CGFloat {
    CGFloat { bits: x.to_bits() }
}

fn settings(default_disable: bool) -> Settings {
    Settings {
        animate: true,
        default_disable,
        mouse_follows_focus: true,
        mouse_hides_on_focus: true,
        focus_follows_mouse: true,
        outer_gap: number(0.0),
        inner_gap: number(0.0),
        default_keys: true,
        default_layout_kind: LayoutKind::Tree,
        default_root_orientation: RootOrientation::Horizontal,
        group_bars: GroupBars {
            enable: false,
            thickness: number(6.0),
            horizontal_placement: HorizontalPlacement::Top,
            vertical_placement: VerticalPlacement::Right,
        },
        status_icon: StatusIcon { enable: true },
        experimental: Experimental {
            status_icon: StatusIconExperimental { space_index: false, color: false, enable: true },
            scroll: ScrollConfig {
                enable: false,
                center_focused_column: CenterMode::Never,
                visible_columns: 2,
                column_width_presets: vec![number(0.5)],
                new_window_in_column: NewWindowPlacement::NewColumn,
                scroll_sensitivity: number(20.0),
                invert_scroll_direction: false,
                infinite_loop: false,
                single_column_aspect_ratio: String::new(),
            },
        },
    }
}

fn config(default_disable: bool) -> Config {
    Config { settings: settings(default_disable), window_rules: vec![], keys: vec![] }
}

#[derive(Default)]
struct Sent {
    reactor: Vec<reactor::Event>,
    ws: Vec<window_server::Event>,
    wm: Vec<WmEvent>,
    status: Vec<status::Event>,
    group_bars: Vec<group_bars::Event>,
    mouse: Vec<mouse::Request>,
}

struct Harness {
    sm: SpaceManager,
    sent: Sent,
}

impl Harness {
    fn new() -> Self {
        Self::new_with(false, config(true))
    }

    fn new_with(one_space: bool, config: Config) -> Self {
        let (sm, messages) = SpaceManager::new(one_space, Arc::new(config));
        let mut h = Harness { sm, sent: Sent::default() };
        h.receive(messages);
        h
    }

    fn receive(&mut self, messages: Vec<Message>) {
        for message in messages {
            match message {
                Message::Reactor(e) => self.sent.reactor.push(e),
                Message::WindowServer(e) => self.sent.ws.push(e),
                Message::Wm(e) => self.sent.wm.push(e),
                Message::Status(e) => self.sent.status.push(e),
                Message::GroupBars(e) => self.sent.group_bars.push(e),
                Message::Mouse(e) => self.sent.mouse.push(e),
            }
        }
    }

    fn on_event(&mut self, event: Event) {
        let messages = self.sm.on_event(event);
        self.receive(messages);
    }

    fn screen_parameters(&mut self, screen: ScreenId, space: SpaceId) {
        self.on_event(Event::ScreenParametersChanged {
            screens: vec![screen],
            frames: vec![CGRect::default()],
            spaces: vec![Some(space)],
            scale_factors: vec![number(1.0)],
            converter: CoordinateConverter::default(),
            on_screen: WindowsOnScreen::new(vec![]),
        });
    }

    /// Send a ScreenParametersChanged event with one screen/space.
    fn setup_space(&mut self, screen: ScreenId, space: SpaceId) {
        self.screen_parameters(screen, space);
        self.drain();
    }

    fn send_space_changed(&mut self, spaces: Vec<Option<SpaceId>>) {
        self.on_event(Event::SpaceChanged(spaces, WindowsOnScreen::new(vec![])));
    }

    fn drain(&mut self) -> Sent {
        std::mem::take(&mut self.sent)
    }
}

/// Extract the spaces from a reactor SpaceChanged event.
fn space_changed_spaces(events: &[reactor::Event]) -> Option<&Vec<Option<SpaceId>>> {
    events.iter().find_map(|e| match e {
        reactor::Event::SpaceChanged(spaces, _) => Some(spaces),
        _ => None,
    })
}

fn screen(id: u32) -> ScreenId {
    ScreenId::new(id)
}

fn space(id: u64) -> SpaceId {
    SpaceId::new(id)
}

/// With default_disable=true, spaces start disabled. ToggleSpace enables the
/// current space.
#[test]
fn toggle_enables_space_when_default_disable() {
    let mut h = Harness::new();
    h.setup_space(screen(1), space(10));

    // Space is disabled by default.
    h.send_space_changed(vec![Some(space(10))]);
    let events = h.drain().reactor;
    assert_eq!(*space_changed_spaces(&events).unwrap(), vec![None]);

    // Toggle to enable.
    h.on_event(Event::ToggleSpace(screen(1)));
    h.drain();

    h.send_space_changed(vec![Some(space(10))]);
    let events = h.drain().reactor;
    assert_eq!(*space_changed_spaces(&events).unwrap(), vec![Some(space(10))]);
}

/// Toggle twice returns to the original state.
#[test]
fn toggle_space_twice_restores_state() {
    let mut h = Harness::new();
    h.setup_space(screen(1), space(10));

    // Enable then disable again.
    h.on_event(Event::ToggleSpace(screen(1)));
    h.drain();
    h.on_event(Event::ToggleSpace(screen(1)));
    h.drain();

    h.send_space_changed(vec![Some(space(10))]);
    let events = h.drain().reactor;
    assert_eq!(*space_changed_spaces(&events).unwrap(), vec![None]);
}

/// With default_disable=false, spaces start enabled. ToggleSpace disables.
#[test]
fn toggle_disables_space_when_default_enable() {
    let mut h = Harness::new_with(false, config(false));
    h.setup_space(screen(1), space(10));

    // Space is enabled by default.
    h.send_space_changed(vec![Some(space(10))]);
    let events = h.drain().reactor;
    assert_eq!(*space_changed_spaces(&events).unwrap(), vec![Some(space(10))]);

    // Toggle to disable.
    h.on_event(Event::ToggleSpace(screen(1)));
    h.drain();

    h.send_space_changed(vec![Some(space(10))]);
    let events = h.drain().reactor;
    assert_eq!(*space_changed_spaces(&events).unwrap(), vec![None]);
}

#[test]
fn global_disable_nones_all_spaces() {
    let mut h = Harness::new();
    h.setup_space(screen(1), space(10));
    // Enable the space first so we can verify global disable overrides it.
    h.on_event(Event::ToggleSpace(screen(1)));
    h.drain();

    h.on_event(Event::ToggleGlobalEnabled);
    h.drain();

    h.send_space_changed(vec![Some(space(10))]);
    let events = h.drain().reactor;
    assert_eq!(*space_changed_spaces(&events).unwrap(), vec![None]);
}

#[test]
fn one_space_disables_non_starting_space() {
    let mut h = Harness::new_with(true, config(true));
    // Enable the space and establish it as starting_space.
    h.screen_parameters(screen(1), space(10));
    h.on_event(Event::ToggleSpace(screen(1)));
    h.drain();

    // Starting space is enabled.
    h.send_space_changed(vec![Some(space(10))]);
    let events = h.drain().reactor;
    assert_eq!(*space_changed_spaces(&events).unwrap(), vec![Some(space(10))]);

    // Switch to a different space: disabled because one_space mode.
    h.send_space_changed(vec![Some(space(20))]);
    let events = h.drain().reactor;
    assert_eq!(*space_changed_spaces(&events).unwrap(), vec![None]);

    // Switch back to starting space: still enabled.
    h.send_space_changed(vec![Some(space(10))]);
    let events = h.drain().reactor;
    assert_eq!(*space_changed_spaces(&events).unwrap(), vec![Some(space(10))]);
}

#[test]
fn login_window_disables_all() {
    let mut h = Harness::new();
    h.setup_space(screen(1), space(10));
    h.on_event(Event::ToggleSpace(screen(1)));
    h.drain();

    h.on_event(Event::LoginWindowActive(true));
    h.drain();

    h.send_space_changed(vec![Some(space(10))]);
    let events = h.drain().reactor;
    assert_eq!(*space_changed_spaces(&events).unwrap(), vec![None]);
}

#[test]
fn expose_suppresses_space_changed() {
    let mut h = Harness::new();
    h.setup_space(screen(1), space(10));
    h.on_event(Event::ToggleSpace(screen(1)));
    h.drain();

    h.on_event(Event::ExposeActive(true));

    // SpaceChanged should NOT reach reactor.
    h.send_space_changed(vec![Some(space(10))]);
    let events = h.drain().reactor;
    assert!(space_changed_spaces(&events).is_none());

    // Exiting expose sends RequestSpaceRefresh to the window server.
    h.on_event(Event::ExposeActive(false));
    let ws_events = h.drain().ws;
    assert!(ws_events.iter().any(|e| matches!(e, window_server::Event::RequestSpaceRefresh)));
}

#[test]
fn hotkey_state_activates_on_first_space() {
    let mut h = Harness::new();
    h.screen_parameters(screen(1), space(10));
    let wm_events = h.drain().wm;
    assert!(
        wm_events.iter().any(|e| matches!(e, WmEvent::HotkeysActive(true))),
        "Expected HotkeysActive(true), got {wm_events:?}"
    );
}

#[test]
fn one_space_hotkeys_deactivate_on_different_space() {
    let mut h = Harness::new_with(true, config(true));

    // First space activates hotkeys.
    h.screen_parameters(screen(1), space(10));
    let wm_events = h.drain().wm;
    assert!(wm_events.iter().any(|e| matches!(e, WmEvent::HotkeysActive(true))));

    // Switch to different space deactivates hotkeys.
    h.send_space_changed(vec![Some(space(20))]);
    let wm_events = h.drain().wm;
    assert!(
        wm_events.iter().any(|e| matches!(e, WmEvent::HotkeysActive(false))),
        "Expected HotkeysActive(false), got {wm_events:?}"
    );
}

#[test]
fn a_new_manager_reports_that_it_is_enabled() {
    let mut h = Harness::new();
    let sent = h.drain();
    assert!(matches!(sent.status.as_slice(), [status::Event::GlobalEnabledChanged(true)]));
    assert!(sent.reactor.is_empty() && sent.wm.is_empty());
}

#[test]
fn screen_parameters_reach_everyone() {
    let mut h = Harness::new_with(false, config(false));
    h.drain();
    let frame = CGRect::default();
    h.on_event(Event::ScreenParametersChanged {
        screens: vec![screen(1), screen(2)],
        frames: vec![frame, frame],
        spaces: vec![Some(space(10)), None],
        scale_factors: vec![number(1.0), number(2.0)],
        converter: CoordinateConverter { screen_height: Some(number(900.0)) },
        on_screen: WindowsOnScreen::new(vec![]),
    });
    let sent = h.drain();
    match sent.reactor.as_slice() {
        [
            reactor::Event::ScreenParametersChanged { frames, spaces, converter, scale_factors },
            reactor::Event::WindowsOnScreenUpdated { pid: None, .. },
        ] => {
            assert_eq!(frames.len(), 2);
            assert_eq!(*spaces, vec![Some(space(10)), None]);
            assert_eq!(converter.screen_height, Some(number(900.0)));
            assert_eq!(*scale_factors, vec![number(1.0), number(2.0)]);
        }
        other => panic!("unexpected events {other:?}"),
    }
    assert!(matches!(
        sent.status.as_slice(),
        [status::Event::SpaceChanged(_), status::Event::SpaceEnabledChanged(true)]
    ));
    assert!(matches!(
        sent.mouse.as_slice(),
        [mouse::Request::ScreenParametersChanged(frames, _)] if frames.len() == 2
    ));
    assert!(matches!(sent.wm.as_slice(), [WmEvent::HotkeysActive(true)]));
}

#[test]
fn the_status_icon_sees_disabled_spaces() {
    let mut h = Harness::new();
    h.setup_space(screen(1), space(10));
    h.send_space_changed(vec![Some(space(10))]);
    match h.drain().status.as_slice() {
        [status::Event::SpaceChanged(spaces), status::Event::SpaceEnabledChanged(false)] => {
            assert_eq!(*spaces, vec![Some(space(10))]);
        }
        other => panic!("unexpected events {other:?}"),
    }
}

#[test]
fn turning_a_space_off_reaches_the_group_bars() {
    let mut h = Harness::new_with(false, config(false));
    h.setup_space(screen(1), space(10));
    h.on_event(Event::ToggleSpace(screen(1)));
    let sent = h.drain();
    assert_eq!(sent.group_bars, vec![group_bars::Event::SpaceDisabled(space(10))]);
    assert!(matches!(sent.status.as_slice(), [status::Event::SpaceEnabledChanged(false)]));
    assert!(matches!(sent.ws.as_slice(), [window_server::Event::RequestSpaceRefresh]));

    h.on_event(Event::ToggleSpace(screen(1)));
    let sent = h.drain();
    assert!(sent.group_bars.is_empty());
    assert!(matches!(sent.status.as_slice(), [status::Event::SpaceEnabledChanged(true)]));
}

#[test]
fn an_unknown_screen_toggles_nothing() {
    let mut h = Harness::new();
    h.setup_space(screen(1), space(10));
    h.on_event(Event::ToggleSpace(screen(7)));
    let sent = h.drain();
    assert!(sent.status.is_empty() && sent.ws.is_empty() && sent.group_bars.is_empty());
}

#[test]
fn turning_everything_off_twice_restores_the_spaces() {
    let mut h = Harness::new_with(false, config(false));
    h.setup_space(screen(1), space(10));
    h.on_event(Event::ToggleGlobalEnabled);
    let sent = h.drain();
    assert_eq!(sent.group_bars, vec![group_bars::Event::GlobalDisabled]);
    assert!(matches!(
        sent.status.as_slice(),
        [status::Event::GlobalEnabledChanged(false), status::Event::SpaceEnabledChanged(true)]
    ));
    h.on_event(Event::ToggleGlobalEnabled);
    let sent = h.drain();
    assert!(sent.group_bars.is_empty());
    h.send_space_changed(vec![Some(space(10))]);
    let events = h.drain().reactor;
    assert_eq!(*space_changed_spaces(&events).unwrap(), vec![Some(space(10))]);
}

#[test]
fn the_focused_screen_decides_what_the_status_says() {
    let mut h = Harness::new_with(false, config(false));
    h.on_event(Event::ScreenParametersChanged {
        screens: vec![screen(1), screen(2)],
        frames: vec![CGRect::default(), CGRect::default()],
        spaces: vec![Some(space(10)), Some(space(20))],
        scale_factors: vec![number(1.0), number(1.0)],
        converter: CoordinateConverter::default(),
        on_screen: WindowsOnScreen::new(vec![]),
    });
    h.on_event(Event::ToggleSpace(screen(2)));
    h.drain();
    h.on_event(Event::FocusedScreenChanged(screen(2)));
    assert!(matches!(h.drain().status.as_slice(), [status::Event::SpaceEnabledChanged(false)]));
    h.on_event(Event::FocusedScreenChanged(screen(1)));
    assert!(matches!(h.drain().status.as_slice(), [status::Event::SpaceEnabledChanged(true)]));
    // A screen that is not known falls back on the first one.
    h.on_event(Event::FocusedScreenChanged(screen(9)));
    assert!(matches!(h.drain().status.as_slice(), [status::Event::SpaceEnabledChanged(true)]));
}

#[test]
fn a_new_configuration_keeps_choices_and_repeats_the_hotkey_state() {
    let mut h = Harness::new();
    h.setup_space(screen(1), space(10));
    h.on_event(Event::ToggleSpace(screen(1)));
    h.drain();
    h.on_event(Event::ConfigUpdated(Arc::new(config(true))));
    let sent = h.drain();
    assert!(matches!(sent.reactor.as_slice(), [reactor::Event::ConfigChanged(_)]));
    assert!(matches!(sent.wm.as_slice(), [WmEvent::HotkeysActive(true)]));
    assert!(matches!(sent.ws.as_slice(), [window_server::Event::RequestSpaceRefresh]));
    h.send_space_changed(vec![Some(space(10))]);
    let events = h.drain().reactor;
    assert_eq!(*space_changed_spaces(&events).unwrap(), vec![Some(space(10))]);
}

#[test]
fn a_space_turned_off_under_one_default_stays_off_under_the_other() {
    let mut h = Harness::new_with(false, config(false));
    h.setup_space(screen(1), space(10));
    h.on_event(Event::ToggleSpace(screen(1)));
    h.on_event(Event::ConfigUpdated(Arc::new(config(true))));
    h.on_event(Event::ToggleSpace(screen(1)));
    h.drain();
    h.send_space_changed(vec![Some(space(10))]);
    let sent = h.drain();
    assert_eq!(*space_changed_spaces(&sent.reactor).unwrap(), vec![None]);
    assert!(matches!(sent.status.last(), Some(status::Event::SpaceEnabledChanged(true))));
}

#[test]
fn reactor_events_and_commands_pass_through() {
    let mut h = Harness::new();
    h.drain();
    h.on_event(Event::ReactorEvent(reactor::Event::StartupComplete));
    h.on_event(Event::ReactorCommand(reactor::Command::Debug));
    assert!(matches!(
        h.drain().reactor.as_slice(),
        [
            reactor::Event::StartupComplete,
            reactor::Event::Command(reactor::Command::Debug)
        ]
    ));
}

#[test]
fn the_starting_space_does_not_change() {
    let mut h = Harness::new_with(true, config(false));
    h.setup_space(screen(1), space(10));
    h.send_space_changed(vec![Some(space(20))]);
    h.send_space_changed(vec![Some(space(30))]);
    h.drain();
    h.send_space_changed(vec![Some(space(10))]);
    let sent = h.drain();
    assert_eq!(*space_changed_spaces(&sent.reactor).unwrap(), vec![Some(space(10))]);
    assert!(matches!(sent.wm.as_slice(), [WmEvent::HotkeysActive(true)]));
}
