//! The space manager keeps track of which spaces are enabled and acts as a
//! filter for space changes before they get to the reactor, removing disabled
//! spaces so that the reactor does not manage them.

use std::collections::HashSet;
use std::sync::Arc;

use vstd::prelude::*;

use crate::actor::wm_controller::WmEvent;
use crate::actor::{group_bars, mouse, reactor, status, window_server};
use crate::config::{share, Config};
use crate::sys::geometry::{CGFloat, CGRect};
use crate::sys::screen::{CoordinateConverter, ScreenId, SpaceId};
use crate::sys::window_server::{WindowsOnScreen, WindowsOnScreenView};

verus! {

broadcast use vstd::std_specs::hash::group_hash_axioms;

/// What the space manager is told.
#[derive(Debug)]
pub enum Event {
    // From the window server.
    ScreenParametersChanged {
        screens: Vec<ScreenId>,
        frames: Vec<CGRect>,
        spaces: Vec<Option<SpaceId>>,
        scale_factors: Vec<CGFloat>,
        converter: CoordinateConverter,
        on_screen: WindowsOnScreen,
    },
    SpaceChanged(Vec<Option<SpaceId>>, WindowsOnScreen),
    /// Forwarded directly to the reactor.
    ReactorEvent(reactor::Event),
    // From the WM controller.
    FocusedScreenChanged(ScreenId),
    ToggleSpace(ScreenId),
    ToggleGlobalEnabled,
    LoginWindowActive(bool),
    ExposeActive(bool),
    ReactorCommand(reactor::Command),
    ConfigUpdated(Arc<Config>),
}

/// What an [`Event`] says.
pub enum EventView {
    ScreenParametersChanged {
        screens: Seq<ScreenId>,
        frames: Seq<CGRect>,
        spaces: Seq<Option<SpaceId>>,
        scale_factors: Seq<CGFloat>,
        converter: CoordinateConverter,
        on_screen: WindowsOnScreenView,
    },
    SpaceChanged(Seq<Option<SpaceId>>, WindowsOnScreenView),
    ReactorEvent(reactor::EventView),
    FocusedScreenChanged(ScreenId),
    ToggleSpace(ScreenId),
    ToggleGlobalEnabled,
    LoginWindowActive(bool),
    ExposeActive(bool),
    ReactorCommand(reactor::Command),
    ConfigUpdated(Arc<Config>),
}

impl View for Event {
    type V = EventView;

    open spec fn view(&self) -> EventView {
        match *self {
            Event::ScreenParametersChanged {
                screens,
                frames,
                spaces,
                scale_factors,
                converter,
                on_screen,
            } => EventView::ScreenParametersChanged {
                screens: screens@,
                frames: frames@,
                spaces: spaces@,
                scale_factors: scale_factors@,
                converter,
                on_screen: on_screen@,
            },
            Event::SpaceChanged(spaces, on_screen) => EventView::SpaceChanged(spaces@, on_screen@),
            Event::ReactorEvent(event) => EventView::ReactorEvent(event@),
            Event::FocusedScreenChanged(screen) => EventView::FocusedScreenChanged(screen),
            Event::ToggleSpace(screen) => EventView::ToggleSpace(screen),
            Event::ToggleGlobalEnabled => EventView::ToggleGlobalEnabled,
            Event::LoginWindowActive(active) => EventView::LoginWindowActive(active),
            Event::ExposeActive(active) => EventView::ExposeActive(active),
            Event::ReactorCommand(command) => EventView::ReactorCommand(command),
            Event::ConfigUpdated(config) => EventView::ConfigUpdated(config),
        }
    }
}

/// A message that the space manager sends, by the actor that it goes to.
#[derive(Debug)]
pub enum Message {
    Reactor(reactor::Event),
    WindowServer(window_server::Event),
    Wm(WmEvent),
    Status(status::Event),
    GroupBars(group_bars::Event),
    Mouse(mouse::Request),
}

/// What a [`Message`] says.
pub enum MessageView {
    Reactor(reactor::EventView),
    WindowServer(window_server::Event),
    Wm(WmEvent),
    Status(status::EventView),
    GroupBars(group_bars::Event),
    Mouse(mouse::RequestView),
}

impl View for Message {
    type V = MessageView;

    open spec fn view(&self) -> MessageView {
        match *self {
            Message::Reactor(event) => MessageView::Reactor(event@),
            Message::WindowServer(event) => MessageView::WindowServer(event),
            Message::Wm(event) => MessageView::Wm(event),
            Message::Status(event) => MessageView::Status(event@),
            Message::GroupBars(event) => MessageView::GroupBars(event),
            Message::Mouse(request) => MessageView::Mouse(request@),
        }
    }
}

/// What the messages of a list say.
pub open spec fn said(messages: Seq<Message>) -> Seq<MessageView> {
    messages.map_values(|m: Message| m@)
}

fn send(out: &mut Vec<Message>, message: Message)
    ensures
        said(final(out)@) == said(old(out)@).push(message@),
{
    out.push(message);
    assert(said(out@) =~= said(old(out)@).push(message@));
}

/// The state that decides which spaces are managed.
pub struct SpaceState {
    /// Whether only the first space ever seen is managed.
    pub one_space: bool,
    pub config: Arc<Config>,
    /// The first space ever seen.
    pub starting_space: Option<SpaceId>,
    /// The space that each screen shows.
    pub cur_space: Seq<Option<SpaceId>>,
    pub cur_screen_id: Seq<ScreenId>,
    /// The spaces that the user turned off.
    pub disabled: Set<u64>,
    /// The spaces that the user turned on.
    pub enabled: Set<u64>,
    pub focused_screen: Option<ScreenId>,
    pub login_window_active: bool,
    pub expose_active: bool,
    pub is_globally_enabled: bool,
    pub hotkeys_active: bool,
}

/// `set` with `x` taken out where it was in, and put in where it was not.
pub open spec fn toggled(set: Set<u64>, x: u64) -> Set<u64> {
    if set.contains(x) {
        set.remove(x)
    } else {
        set.insert(x)
    }
}

impl SpaceState {
    /// Whether spaces are off until the user turns them on.
    pub open spec fn default_disable(self) -> bool {
        self.config.settings.default_disable
    }

    /// The space of the first screen.
    pub open spec fn first_space(self) -> Option<SpaceId> {
        if self.cur_space.len() > 0 {
            self.cur_space[0]
        } else {
            None
        }
    }

    /// Whether the screen at position `i` is `screen`, and no earlier one is.
    pub open spec fn screen_at(self, screen: ScreenId, i: int) -> bool {
        &&& 0 <= i < self.cur_screen_id.len()
        &&& i < self.cur_space.len()
        &&& self.cur_screen_id[i] == screen
        &&& forall|j: int| 0 <= j < i ==> self.cur_screen_id[j] != screen
    }

    /// The space that `screen` shows.
    pub open spec fn space_for_screen(self, screen: ScreenId) -> Option<SpaceId> {
        if exists|i: int| self.screen_at(screen, i) {
            self.cur_space[choose|i: int| self.screen_at(screen, i)]
        } else {
            None
        }
    }

    /// Whether the user has `space` turned on.
    pub open spec fn is_space_enabled(self, space: SpaceId) -> bool {
        if self.default_disable() {
            self.enabled.contains(space.id)
        } else {
            !self.disabled.contains(space.id)
        }
    }

    /// Whether the reactor may manage `space`.
    pub open spec fn managed(self, space: SpaceId) -> bool {
        &&& self.is_globally_enabled
        &&& !self.login_window_active
        &&& self.one_space ==> self.starting_space == Some(space)
        &&& !self.disabled.contains(space.id)
        &&& self.default_disable() ==> self.enabled.contains(space.id)
    }

    /// The spaces that the screens show, with those that are not managed left
    /// out.
    pub open spec fn active_spaces(self) -> Seq<Option<SpaceId>> {
        Seq::new(
            self.cur_space.len(),
            |i: int|
                match self.cur_space[i] {
                    Some(space) if self.managed(space) => Some(space),
                    _ => None,
                },
        )
    }

    /// The space that has the focus: that of the focused screen, or else that
    /// of the first screen.
    pub open spec fn focused_space(self) -> Option<SpaceId> {
        let on_screen = match self.focused_screen {
            Some(screen) => self.space_for_screen(screen),
            None => None,
        };
        if on_screen is Some {
            on_screen
        } else {
            self.first_space()
        }
    }

    /// Whether hotkeys should work: once a first space is known and, where only
    /// that one is managed, while it is shown on the first screen.
    pub open spec fn hotkeys_wanted(self) -> bool {
        &&& self.starting_space is Some
        &&& self.one_space ==> self.starting_space == self.first_space()
    }

    /// The state with other spaces on the screens.
    pub open spec fn with_spaces(self, spaces: Seq<Option<SpaceId>>) -> SpaceState {
        let moved = SpaceState { cur_space: spaces, ..self };
        let started = SpaceState {
            starting_space: if self.starting_space is None {
                moved.first_space()
            } else {
                self.starting_space
            },
            ..moved
        };
        SpaceState { hotkeys_active: started.hotkeys_wanted(), ..started }
    }

    /// The state with one space turned over.
    pub open spec fn with_space_toggled(self, space: SpaceId) -> SpaceState {
        if self.default_disable() {
            SpaceState { enabled: toggled(self.enabled, space.id), ..self }
        } else {
            SpaceState { disabled: toggled(self.disabled, space.id), ..self }
        }
    }

    /// The state after `event`.
    #[verifier::opaque]
    pub open spec fn after(self, event: EventView) -> SpaceState {
        match event {
            EventView::ScreenParametersChanged { screens, spaces, .. } => {
                (SpaceState { cur_screen_id: screens, ..self }).with_spaces(spaces)
            },
            EventView::SpaceChanged(spaces, _) => self.with_spaces(spaces),
            EventView::ReactorEvent(_) => self,
            EventView::FocusedScreenChanged(screen) => SpaceState {
                focused_screen: Some(screen),
                ..self
            },
            EventView::ToggleSpace(screen) => match self.space_for_screen(screen) {
                Some(space) => self.with_space_toggled(space),
                None => self,
            },
            EventView::ToggleGlobalEnabled => SpaceState {
                is_globally_enabled: !self.is_globally_enabled,
                ..self
            },
            EventView::LoginWindowActive(active) => SpaceState {
                login_window_active: active,
                ..self
            },
            EventView::ExposeActive(active) => SpaceState { expose_active: active, ..self },
            EventView::ReactorCommand(_) => self,
            EventView::ConfigUpdated(config) => SpaceState { config, ..self },
        }
    }

    /// The report of whether the focused space is turned on.
    pub open spec fn space_enabled_status(self) -> MessageView {
        MessageView::Status(
            status::EventView::SpaceEnabledChanged(
                match self.focused_space() {
                    Some(space) => self.is_space_enabled(space),
                    None => false,
                },
            ),
        )
    }

    /// The report of whether hotkeys work.
    pub open spec fn hotkey_state(self) -> MessageView {
        MessageView::Wm(WmEvent::HotkeysActive(self.hotkeys_active))
    }

    /// What is sent when the state becomes `next`: nothing, or that hotkeys
    /// start or stop working.
    pub open spec fn hotkey_change(self, next: SpaceState) -> Seq<MessageView> {
        if next.hotkeys_active != self.hotkeys_active {
            seq![next.hotkey_state()]
        } else {
            seq![]
        }
    }

    /// The messages that `event` makes the space manager send, in their order.
    #[verifier::opaque]
    pub open spec fn sends(self, event: EventView) -> Seq<MessageView> {
        let next = self.after(event);
        match event {
            EventView::ScreenParametersChanged {
                frames,
                spaces,
                scale_factors,
                converter,
                on_screen,
                ..
            } => self.hotkey_change(next) + seq![
                MessageView::Reactor(
                    reactor::EventView::ScreenParametersChanged {
                        frames,
                        spaces: next.active_spaces(),
                        converter,
                        scale_factors,
                    },
                ),
                MessageView::Reactor(
                    reactor::EventView::WindowsOnScreenUpdated { pid: None, on_screen },
                ),
                MessageView::Status(status::EventView::SpaceChanged(spaces)),
                next.space_enabled_status(),
                MessageView::Mouse(mouse::RequestView::ScreenParametersChanged(frames, converter)),
            ],
            EventView::SpaceChanged(spaces, on_screen) => self.hotkey_change(next) + (
            if self.expose_active {
                seq![]
            } else {
                seq![
                    MessageView::Reactor(
                        reactor::EventView::SpaceChanged(next.active_spaces(), on_screen),
                    ),
                ]
            }) + seq![
                MessageView::Status(status::EventView::SpaceChanged(spaces)),
                next.space_enabled_status(),
            ],
            EventView::ReactorEvent(inner) => seq![MessageView::Reactor(inner)],
            EventView::FocusedScreenChanged(_) => seq![next.space_enabled_status()],
            EventView::ToggleSpace(screen) => match self.space_for_screen(screen) {
                Some(space) => (if next.is_space_enabled(space) {
                    seq![]
                } else {
                    seq![MessageView::GroupBars(group_bars::Event::SpaceDisabled(space))]
                }) + seq![
                    MessageView::Status(
                        status::EventView::SpaceEnabledChanged(next.is_space_enabled(space)),
                    ),
                    MessageView::WindowServer(window_server::Event::RequestSpaceRefresh),
                ],
                None => seq![],
            },
            EventView::ToggleGlobalEnabled => (if next.is_globally_enabled {
                seq![]
            } else {
                seq![MessageView::GroupBars(group_bars::Event::GlobalDisabled)]
            }) + seq![
                MessageView::Status(
                    status::EventView::GlobalEnabledChanged(next.is_globally_enabled),
                ),
                next.space_enabled_status(),
                MessageView::WindowServer(window_server::Event::RequestSpaceRefresh),
            ],
            EventView::LoginWindowActive(_) => seq![
                MessageView::WindowServer(window_server::Event::RequestSpaceRefresh),
            ],
            // The reactor gets up-to-date visible windows once the overview is
            // gone.
            EventView::ExposeActive(active) => if active {
                seq![]
            } else {
                seq![MessageView::WindowServer(window_server::Event::RequestSpaceRefresh)]
            },
            EventView::ReactorCommand(command) => seq![
                MessageView::Reactor(reactor::EventView::Command(command)),
            ],
            // Hotkey state goes out even where it is unchanged: a new
            // configuration makes the controller drop all its hotkeys.
            EventView::ConfigUpdated(config) => seq![
                MessageView::Reactor(reactor::EventView::ConfigChanged(config)),
                next.hotkey_state(),
                next.space_enabled_status(),
                MessageView::WindowServer(window_server::Event::RequestSpaceRefresh),
            ],
        }
    }

    /// What holds in every state that the space manager reaches.
    pub open spec fn wf(self) -> bool {
        self.hotkeys_active == self.hotkeys_wanted()
    }
}

/// Decides which spaces are managed.
pub struct SpaceManager {
    one_space: bool,
    config: Arc<Config>,
    starting_space: Option<SpaceId>,
    cur_space: Vec<Option<SpaceId>>,
    cur_screen_id: Vec<ScreenId>,
    disabled_spaces: HashSet<u64>,
    enabled_spaces: HashSet<u64>,
    focused_screen: Option<ScreenId>,
    login_window_active: bool,
    expose_active: bool,
    is_globally_enabled: bool,
    hotkeys_active: bool,
}

impl View for SpaceManager {
    type V = SpaceState;

    closed spec fn view(&self) -> SpaceState {
        SpaceState {
            one_space: self.one_space,
            config: self.config,
            starting_space: self.starting_space,
            cur_space: self.cur_space@,
            cur_screen_id: self.cur_screen_id@,
            disabled: self.disabled_spaces@,
            enabled: self.enabled_spaces@,
            focused_screen: self.focused_screen,
            login_window_active: self.login_window_active,
            expose_active: self.expose_active,
            is_globally_enabled: self.is_globally_enabled,
            hotkeys_active: self.hotkeys_active,
        }
    }
}

impl SpaceManager {
    /// A space manager that has seen no screen yet, and the messages that it
    /// sends at once.
    pub fn new(one_space: bool, config: Arc<Config>) -> (started: (SpaceManager, Vec<Message>))
        ensures
            started.0@ == (SpaceState {
                one_space,
                config,
                starting_space: None,
                cur_space: seq![],
                cur_screen_id: seq![],
                disabled: set![],
                enabled: set![],
                focused_screen: None,
                login_window_active: false,
                expose_active: false,
                is_globally_enabled: true,
                hotkeys_active: false,
            }),
            started.0@.wf(),
            said(started.1@) == seq![
                MessageView::Status(status::EventView::GlobalEnabledChanged(true)),
            ],
    {
        let mut messages: Vec<Message> = Vec::new();
        messages.push(Message::Status(status::Event::GlobalEnabledChanged(true)));
        let manager = SpaceManager {
            one_space,
            config,
            starting_space: None,
            cur_space: Vec::new(),
            cur_screen_id: Vec::new(),
            disabled_spaces: HashSet::new(),
            enabled_spaces: HashSet::new(),
            focused_screen: None,
            login_window_active: false,
            expose_active: false,
            is_globally_enabled: true,
            hotkeys_active: false,
        };
        assert(said(messages@) =~= seq![
            MessageView::Status(status::EventView::GlobalEnabledChanged(true)),
        ]);
        (manager, messages)
    }

    /// Takes in one event and returns the messages to send, in their order.
    pub fn on_event(&mut self, event: Event) -> (messages: Vec<Message>)
        requires
            old(self)@.wf(),
        ensures
            final(self)@ == old(self)@.after(event@),
            final(self)@.wf(),
            said(messages@) == old(self)@.sends(event@),
    {
        match event {
            Event::ScreenParametersChanged {
                screens,
                frames,
                spaces,
                scale_factors,
                converter,
                on_screen,
            } => self.on_screen_parameters_changed(
                screens,
                frames,
                spaces,
                scale_factors,
                converter,
                on_screen,
            ),
            Event::SpaceChanged(spaces, on_screen) => self.on_space_changed(spaces, on_screen),
            Event::ReactorEvent(inner) => self.on_reactor_event(inner),
            Event::FocusedScreenChanged(screen) => self.on_focused_screen_changed(screen),
            Event::ToggleSpace(screen) => self.on_toggle_space(screen),
            Event::ToggleGlobalEnabled => self.on_toggle_global_enabled(),
            Event::LoginWindowActive(active) => self.on_login_window_active(active),
            Event::ExposeActive(active) => self.on_expose_active(active),
            Event::ReactorCommand(command) => self.on_reactor_command(command),
            Event::ConfigUpdated(config) => self.on_config_updated(config),
        }
    }

    #[verifier::rlimit(30)]
    fn on_screen_parameters_changed(
        &mut self,
        screens: Vec<ScreenId>,
        frames: Vec<CGRect>,
        spaces: Vec<Option<SpaceId>>,
        scale_factors: Vec<CGFloat>,
        converter: CoordinateConverter,
        on_screen: WindowsOnScreen,
    ) -> (messages: Vec<Message>)
        requires
            old(self)@.wf(),
        ensures
            final(self)@ == old(self)@.after(EventView::ScreenParametersChanged {
                    screens: screens@,
                    frames: frames@,
                    spaces: spaces@,
                    scale_factors: scale_factors@,
                    converter,
                    on_screen: on_screen@,
                }),
            said(messages@) == old(self)@.sends(EventView::ScreenParametersChanged {
                    screens: screens@,
                    frames: frames@,
                    spaces: spaces@,
                    scale_factors: scale_factors@,
                    converter,
                    on_screen: on_screen@,
                }),
            final(self)@.wf(),
    {
        reveal(SpaceState::after);
        reveal(SpaceState::sends);
        let mut out: Vec<Message> = Vec::new();
        self.cur_screen_id = screens;
        self.handle_space_changed(&spaces, &mut out);
        let active = self.active_spaces();
        send(
            &mut out,
            Message::Reactor(
                reactor::Event::ScreenParametersChanged {
                    frames: frames.clone(),
                    spaces: active,
                    converter,
                    scale_factors,
                },
            ),
        );
        send(
            &mut out,
            Message::Reactor(reactor::Event::WindowsOnScreenUpdated { pid: None, on_screen }),
        );
        send(&mut out, Message::Status(status::Event::SpaceChanged(spaces)));
        self.send_space_enabled_status(&mut out);
        send(&mut out, Message::Mouse(mouse::Request::ScreenParametersChanged(frames, converter)));
        assert(said(out@) =~= old(self)@.sends(EventView::ScreenParametersChanged {
                    screens: screens@,
                    frames: frames@,
                    spaces: spaces@,
                    scale_factors: scale_factors@,
                    converter,
                    on_screen: on_screen@,
                }));
        out
    }

    fn on_space_changed(&mut self, spaces: Vec<Option<SpaceId>>, on_screen: WindowsOnScreen) -> (
    messages: Vec<Message>)
        requires
            old(self)@.wf(),
        ensures
            final(self)@ == old(self)@.after(EventView::SpaceChanged(spaces@, on_screen@)),
            said(messages@) == old(self)@.sends(EventView::SpaceChanged(spaces@, on_screen@)),
            final(self)@.wf(),
    {
        reveal(SpaceState::after);
        reveal(SpaceState::sends);
        let mut out: Vec<Message> = Vec::new();
        self.handle_space_changed(&spaces, &mut out);
        if !self.expose_active {
            let active = self.active_spaces();
            send(&mut out, Message::Reactor(reactor::Event::SpaceChanged(active, on_screen)));
        }
        send(&mut out, Message::Status(status::Event::SpaceChanged(spaces)));
        self.send_space_enabled_status(&mut out);
        assert(said(out@) =~= old(self)@.sends(EventView::SpaceChanged(spaces@, on_screen@)));
        out
    }

    fn on_focused_screen_changed(&mut self, screen: ScreenId) -> (messages: Vec<Message>)
        requires
            old(self)@.wf(),
        ensures
            final(self)@ == old(self)@.after(EventView::FocusedScreenChanged(screen)),
            said(messages@) == old(self)@.sends(EventView::FocusedScreenChanged(screen)),
            final(self)@.wf(),
    {
        reveal(SpaceState::after);
        reveal(SpaceState::sends);
        let mut out: Vec<Message> = Vec::new();
        self.focused_screen = Some(screen);
        self.send_space_enabled_status(&mut out);
        assert(said(out@) =~= old(self)@.sends(EventView::FocusedScreenChanged(screen)));
        out
    }

    #[verifier::rlimit(30)]
    fn on_toggle_space(&mut self, screen: ScreenId) -> (messages: Vec<Message>)
        requires
            old(self)@.wf(),
        ensures
            final(self)@ == old(self)@.after(EventView::ToggleSpace(screen)),
            said(messages@) == old(self)@.sends(EventView::ToggleSpace(screen)),
            final(self)@.wf(),
    {
        reveal(SpaceState::after);
        reveal(SpaceState::sends);
        let mut out: Vec<Message> = Vec::new();
        if let Some(space) = self.space_for_screen(screen) {
            if self.config.settings.default_disable {
                if !self.enabled_spaces.remove(&space.id) {
                    self.enabled_spaces.insert(space.id);
                }
                assert(self.enabled_spaces@ =~= toggled(old(self)@.enabled, space.id));
            } else {
                if !self.disabled_spaces.remove(&space.id) {
                    self.disabled_spaces.insert(space.id);
                }
                assert(self.disabled_spaces@ =~= toggled(old(self)@.disabled, space.id));
            }
            let enabled = self.is_space_enabled(space);
            if !enabled {
                send(&mut out, Message::GroupBars(group_bars::Event::SpaceDisabled(space)));
            }
            send(&mut out, Message::Status(status::Event::SpaceEnabledChanged(enabled)));
            self.request_space_refresh(&mut out);
        }
        assert(said(out@) =~= old(self)@.sends(EventView::ToggleSpace(screen)));
        out
    }

    fn on_toggle_global_enabled(&mut self) -> (messages: Vec<Message>)
        requires
            old(self)@.wf(),
        ensures
            final(self)@ == old(self)@.after(EventView::ToggleGlobalEnabled),
            said(messages@) == old(self)@.sends(EventView::ToggleGlobalEnabled),
            final(self)@.wf(),
    {
        reveal(SpaceState::after);
        reveal(SpaceState::sends);
        let mut out: Vec<Message> = Vec::new();
        self.is_globally_enabled = !self.is_globally_enabled;
        if !self.is_globally_enabled {
            send(&mut out, Message::GroupBars(group_bars::Event::GlobalDisabled));
        }
        send(
            &mut out,
            Message::Status(status::Event::GlobalEnabledChanged(self.is_globally_enabled)),
        );
        self.send_space_enabled_status(&mut out);
        self.request_space_refresh(&mut out);
        assert(said(out@) =~= old(self)@.sends(EventView::ToggleGlobalEnabled));
        out
    }

    fn on_expose_active(&mut self, active: bool) -> (messages: Vec<Message>)
        requires
            old(self)@.wf(),
        ensures
            final(self)@ == old(self)@.after(EventView::ExposeActive(active)),
            said(messages@) == old(self)@.sends(EventView::ExposeActive(active)),
            final(self)@.wf(),
    {
        reveal(SpaceState::after);
        reveal(SpaceState::sends);
        let mut out: Vec<Message> = Vec::new();
        self.expose_active = active;
        if !active {
            self.request_space_refresh(&mut out);
        }
        assert(said(out@) =~= old(self)@.sends(EventView::ExposeActive(active)));
        out
    }

    fn on_config_updated(&mut self, config: Arc<Config>) -> (messages: Vec<Message>)
        requires
            old(self)@.wf(),
        ensures
            final(self)@ == old(self)@.after(EventView::ConfigUpdated(config)),
            said(messages@) == old(self)@.sends(EventView::ConfigUpdated(config)),
            final(self)@.wf(),
    {
        reveal(SpaceState::after);
        reveal(SpaceState::sends);
        let mut out: Vec<Message> = Vec::new();
        self.config = share(&config);
        send(&mut out, Message::Reactor(reactor::Event::ConfigChanged(config)));
        self.send_hotkey_state(&mut out);
        self.send_space_enabled_status(&mut out);
        self.request_space_refresh(&mut out);
        assert(said(out@) =~= old(self)@.sends(EventView::ConfigUpdated(config)));
        out
    }

    fn on_reactor_event(&mut self, inner: reactor::Event) -> (messages: Vec<Message>)
        requires
            old(self)@.wf(),
        ensures
            final(self)@ == old(self)@.after(EventView::ReactorEvent(inner@)),
            said(messages@) == old(self)@.sends(EventView::ReactorEvent(inner@)),
            final(self)@.wf(),
    {
        reveal(SpaceState::after);
        reveal(SpaceState::sends);
        let mut out: Vec<Message> = Vec::new();
        send(&mut out, Message::Reactor(inner));
        assert(said(out@) =~= old(self)@.sends(EventView::ReactorEvent(inner@)));
        out
    }

    fn on_reactor_command(&mut self, command: reactor::Command) -> (messages: Vec<Message>)
        requires
            old(self)@.wf(),
        ensures
            final(self)@ == old(self)@.after(EventView::ReactorCommand(command)),
            said(messages@) == old(self)@.sends(EventView::ReactorCommand(command)),
            final(self)@.wf(),
    {
        reveal(SpaceState::after);
        reveal(SpaceState::sends);
        let mut out: Vec<Message> = Vec::new();
        send(&mut out, Message::Reactor(reactor::Event::Command(command)));
        assert(said(out@) =~= old(self)@.sends(EventView::ReactorCommand(command)));
        out
    }

    fn on_login_window_active(&mut self, active: bool) -> (messages: Vec<Message>)
        requires
            old(self)@.wf(),
        ensures
            final(self)@ == old(self)@.after(EventView::LoginWindowActive(active)),
            said(messages@) == old(self)@.sends(EventView::LoginWindowActive(active)),
            final(self)@.wf(),
    {
        reveal(SpaceState::after);
        reveal(SpaceState::sends);
        let mut out: Vec<Message> = Vec::new();
        self.login_window_active = active;
        self.request_space_refresh(&mut out);
        assert(said(out@) =~= old(self)@.sends(EventView::LoginWindowActive(active)));
        out
    }

    fn handle_space_changed(&mut self, spaces: &Vec<Option<SpaceId>>, out: &mut Vec<Message>)
        requires
            old(self)@.wf(),
        ensures
            final(self)@ == old(self)@.with_spaces(spaces@),
            said(final(out)@) == said(old(out)@) + old(self)@.hotkey_change(final(self)@),
    {
        self.cur_space = spaces.clone();
        if self.starting_space.is_none() {
            self.starting_space = self.first_space();
        }
        self.update_hotkey_state(out);
    }

    fn first_space(&self) -> (space: Option<SpaceId>)
        ensures
            space == self@.first_space(),
    {
        if self.cur_space.len() > 0 {
            self.cur_space[0]
        } else {
            None
        }
    }

    fn space_for_screen(&self, screen: ScreenId) -> (space: Option<SpaceId>)
        ensures
            space == self@.space_for_screen(screen),
    {
        let mut i: usize = 0;
        while i < self.cur_screen_id.len() && i < self.cur_space.len()
            invariant
                forall|j: int| 0 <= j < i ==> self.cur_screen_id@[j] != screen,
                i <= self.cur_screen_id@.len(),
                i <= self.cur_space@.len(),
            decreases self.cur_screen_id@.len() - i,
        {
            if self.cur_screen_id[i] == screen {
                assert(self@.screen_at(screen, i as int));
                return self.cur_space[i];
            }
            i = i + 1;
        }
        None
    }

    fn is_space_enabled(&self, space: SpaceId) -> (enabled: bool)
        ensures
            enabled == self@.is_space_enabled(space),
    {
        if self.config.settings.default_disable {
            self.enabled_spaces.contains(&space.id)
        } else {
            !self.disabled_spaces.contains(&space.id)
        }
    }

    fn active_spaces(&self) -> (active: Vec<Option<SpaceId>>)
        ensures
            active@ == self@.active_spaces(),
    {
        let mut active: Vec<Option<SpaceId>> = Vec::new();
        let mut i: usize = 0;
        while i < self.cur_space.len()
            invariant
                i <= self.cur_space@.len(),
                active@ == self@.active_spaces().take(i as int),
            decreases self.cur_space@.len() - i,
        {
            let shown = match self.cur_space[i] {
                Some(space) => if self.is_managed(space) {
                    Some(space)
                } else {
                    None
                },
                None => None,
            };
            active.push(shown);
            i = i + 1;
            assert(active@ =~= self@.active_spaces().take(i as int));
        }
        assert(self@.active_spaces().take(i as int) =~= self@.active_spaces());
        active
    }

    fn is_managed(&self, space: SpaceId) -> (managed: bool)
        ensures
            managed == self@.managed(space),
    {
        if !self.is_globally_enabled || self.login_window_active {
            return false;
        }
        if self.one_space {
            match self.starting_space {
                Some(starting) => {
                    if starting != space {
                        return false;
                    }
                },
                None => {
                    return false;
                },
            }
        }
        if self.disabled_spaces.contains(&space.id) {
            return false;
        }
        self.enabled_spaces.contains(&space.id) || !self.config.settings.default_disable
    }

    fn focused_space(&self) -> (space: Option<SpaceId>)
        ensures
            space == self@.focused_space(),
    {
        if let Some(screen) = self.focused_screen {
            if let Some(space) = self.space_for_screen(screen) {
                return Some(space);
            }
        }
        self.first_space()
    }

    fn send_space_enabled_status(&self, out: &mut Vec<Message>)
        ensures
            said(final(out)@) == said(old(out)@).push(self@.space_enabled_status()),
    {
        let enabled = match self.focused_space() {
            Some(space) => self.is_space_enabled(space),
            None => false,
        };
        send(out, Message::Status(status::Event::SpaceEnabledChanged(enabled)));
    }

    fn request_space_refresh(&self, out: &mut Vec<Message>)
        ensures
            said(final(out)@) == said(old(out)@).push(
                MessageView::WindowServer(window_server::Event::RequestSpaceRefresh),
            ),
    {
        send(out, Message::WindowServer(window_server::Event::RequestSpaceRefresh));
    }

    fn update_hotkey_state(&mut self, out: &mut Vec<Message>)
        ensures
            final(self)@ == (SpaceState {
                hotkeys_active: old(self)@.hotkeys_wanted(),
                ..old(self)@
            }),
            said(final(out)@) == said(old(out)@) + old(self)@.hotkey_change(final(self)@),
    {
        let active = match self.starting_space {
            Some(starting) => !self.one_space || match self.first_space() {
                Some(first) => starting == first,
                None => false,
            },
            None => false,
        };
        if active != self.hotkeys_active {
            self.hotkeys_active = active;
            self.send_hotkey_state(out);
        }
        assert(said(out@) =~= said(old(out)@) + old(self)@.hotkey_change(self@));
    }

    fn send_hotkey_state(&self, out: &mut Vec<Message>)
        ensures
            said(final(out)@) == said(old(out)@).push(self@.hotkey_state()),
    {
        send(out, Message::Wm(WmEvent::HotkeysActive(self.hotkeys_active)));
    }
}

/// Toggling the space of a screen twice restores the state.
pub proof fn toggling_a_space_twice_restores_the_state(state: SpaceState, screen: ScreenId)
    ensures
        state.after(EventView::ToggleSpace(screen)).after(EventView::ToggleSpace(screen)) == state,
{
    reveal(SpaceState::after);
    let once = state.after(EventView::ToggleSpace(screen));
    assert forall|i: int| once.screen_at(screen, i) == state.screen_at(screen, i) by {}
    if exists|i: int| state.screen_at(screen, i) {
        let i = choose|i: int| state.screen_at(screen, i);
        assert(once.screen_at(screen, i));
        let k = choose|i: int| once.screen_at(screen, i);
        assert(i == k);
    }
    assert(once.space_for_screen(screen) == state.space_for_screen(screen));
    if let Some(space) = state.space_for_screen(screen) {
        let twice = once.after(EventView::ToggleSpace(screen));
        assert(twice.enabled =~= state.enabled);
        assert(twice.disabled =~= state.disabled);
    }
}

/// Toggling the whole window manager twice restores the state.
pub proof fn toggling_everything_twice_restores_the_state(state: SpaceState)
    ensures
        state.after(EventView::ToggleGlobalEnabled).after(EventView::ToggleGlobalEnabled) == state,
{
    reveal(SpaceState::after);
}

/// The reactor is only ever given spaces that a screen shows, each in the place
/// of its screen.
pub proof fn active_spaces_are_shown(state: SpaceState, i: int)
    requires
        0 <= i < state.cur_space.len(),
    ensures
        state.active_spaces().len() == state.cur_space.len(),
        state.active_spaces()[i] is Some ==> state.active_spaces()[i] == state.cur_space[i],
{
}

/// While the window manager is turned off, or the login window is up, no space
/// is active.
pub proof fn nothing_is_active_while_off(state: SpaceState, i: int)
    requires
        !state.is_globally_enabled || state.login_window_active,
        0 <= i < state.cur_space.len(),
    ensures
        state.active_spaces()[i] is None,
{
}

/// Where only one space is managed, no space but the starting one is active.
pub proof fn only_the_starting_space_is_active(state: SpaceState, i: int)
    requires
        state.one_space,
        0 <= i < state.cur_space.len(),
        state.active_spaces()[i] is Some,
    ensures
        state.active_spaces()[i] == state.starting_space,
{
}

/// A space that is turned off is never active.
pub proof fn spaces_turned_off_are_not_active(state: SpaceState, i: int)
    requires
        0 <= i < state.cur_space.len(),
        state.active_spaces()[i] is Some,
    ensures
        state.is_space_enabled(state.active_spaces()[i]->0),
{
}

/// A space that is turned on is active wherever it is shown, as long as nothing
/// turns all spaces off, the space was not turned off under another default and,
/// where only one space is managed, it is that one.
pub proof fn spaces_turned_on_are_active(state: SpaceState, i: int)
    requires
        0 <= i < state.cur_space.len(),
        state.is_globally_enabled,
        !state.login_window_active,
        state.cur_space[i] is Some,
        state.one_space ==> state.starting_space == state.cur_space[i],
        state.is_space_enabled(state.cur_space[i]->0),
        !state.disabled.contains(state.cur_space[i]->0.id),
    ensures
        state.active_spaces()[i] == state.cur_space[i],
{
}

/// Every list of spaces that reaches the reactor, other than in an event that
/// is only passed through, holds none but managed spaces.
#[verifier::rlimit(30)]
pub proof fn the_reactor_gets_managed_spaces_only(
    state: SpaceState,
    event: EventView,
    k: int,
    i: int,
)
    requires
        !(event is ReactorEvent),
        0 <= k < state.sends(event).len(),
    ensures
        state.sends(event)[k] matches MessageView::Reactor(
            reactor::EventView::SpaceChanged(spaces, _),
        ) ==> 0 <= i < spaces.len() ==> spaces[i] is Some ==> state.after(event).managed(
            spaces[i]->0,
        ),
        state.sends(event)[k] matches MessageView::Reactor(
            reactor::EventView::ScreenParametersChanged { spaces, .. },
        ) ==> 0 <= i < spaces.len() ==> spaces[i] is Some ==> state.after(event).managed(
            spaces[i]->0,
        ),
{
    reveal(SpaceState::after);
    reveal(SpaceState::sends);
}

/// While Mission Control is up, a change of spaces does not reach the reactor.
pub proof fn space_changes_are_held_back_during_expose(
    state: SpaceState,
    spaces: Seq<Option<SpaceId>>,
    on_screen: WindowsOnScreenView,
    k: int,
)
    requires
        state.expose_active,
        0 <= k < state.sends(EventView::SpaceChanged(spaces, on_screen)).len(),
    ensures
        !(state.sends(EventView::SpaceChanged(spaces, on_screen))[k] is Reactor),
{
    reveal(SpaceState::after);
    reveal(SpaceState::sends);
}

/// Whatever can change which spaces are managed, and the end of Mission
/// Control, make the space manager ask for a fresh look at the windows.
pub proof fn changes_ask_for_a_refresh(state: SpaceState, event: EventView)
    requires
        match event {
            EventView::ToggleSpace(screen) => state.space_for_screen(screen) is Some,
            EventView::ToggleGlobalEnabled => true,
            EventView::LoginWindowActive(_) => true,
            EventView::ExposeActive(active) => !active,
            EventView::ConfigUpdated(_) => true,
            _ => false,
        },
    ensures
        state.sends(event).len() > 0,
        state.sends(event).last() == MessageView::WindowServer(
            window_server::Event::RequestSpaceRefresh,
        ),
{
    reveal(SpaceState::after);
    reveal(SpaceState::sends);
}

/// A change of spaces is taken in as it is. The starting space is the first space
/// of the first change that has one, and no later change makes it another.
pub proof fn a_change_of_spaces_is_taken_in(
    state: SpaceState,
    spaces: Seq<Option<SpaceId>>,
    later: Seq<Option<SpaceId>>,
)
    ensures
        state.with_spaces(spaces).cur_space == spaces,
        state.with_spaces(spaces).starting_space == (if state.starting_space is Some {
            state.starting_space
        } else if spaces.len() > 0 {
            spaces[0]
        } else {
            None
        }),
        state.with_spaces(spaces).starting_space is Some ==> state.with_spaces(spaces).with_spaces(
            later,
        ).starting_space == state.with_spaces(spaces).starting_space,
{
}

/// The starting space never changes once it is known.
pub proof fn the_starting_space_stays(state: SpaceState, event: EventView)
    requires
        state.starting_space is Some,
    ensures
        state.after(event).starting_space == state.starting_space,
{
    reveal(SpaceState::after);
}

/// The status icon is told of all spaces, managed or not.
#[verifier::rlimit(30)]
pub proof fn the_status_icon_gets_all_spaces(
    state: SpaceState,
    event: EventView,
    spaces: Seq<Option<SpaceId>>,
)
    requires
        match event {
            EventView::SpaceChanged(shown, _) => shown == spaces,
            EventView::ScreenParametersChanged { spaces: shown, .. } => shown == spaces,
            _ => false,
        },
    ensures
        state.sends(event).contains(MessageView::Status(status::EventView::SpaceChanged(spaces))),
{
    reveal(SpaceState::after);
    reveal(SpaceState::sends);
    let sent = state.sends(event);
    let k = if event is SpaceChanged {
        sent.len() - 2
    } else {
        sent.len() - 3
    };
    assert(sent[k] == MessageView::Status(status::EventView::SpaceChanged(spaces)));
}

/// Events keep the state well formed: hotkeys work exactly when they should.
pub proof fn events_keep_the_state_well_formed(state: SpaceState, event: EventView)
    requires
        state.wf(),
    ensures
        state.after(event).wf(),
{
    reveal(SpaceState::after);
}

/// The controller hears of every change of the hotkey state, and what it hears
/// is the state.
#[verifier::rlimit(30)]
pub proof fn hotkey_changes_are_reported(state: SpaceState, event: EventView, k: int)
    ensures
        state.after(event).hotkeys_active != state.hotkeys_active ==> state.sends(event).contains(
            state.after(event).hotkey_state(),
        ),
        0 <= k < state.sends(event).len() && state.sends(event)[k] is Wm ==> state.sends(event)[k]
            == state.after(event).hotkey_state(),
{
    reveal(SpaceState::after);
    reveal(SpaceState::sends);
    if state.after(event).hotkeys_active != state.hotkeys_active {
        assert(state.sends(event)[0] == state.after(event).hotkey_state());
    }
}

/// A new configuration keeps what the user turned on and off, and everything
/// else that was learned.
pub proof fn a_new_configuration_keeps_the_users_choices(state: SpaceState, config: Arc<Config>)
    ensures
        state.after(EventView::ConfigUpdated(config)) == (SpaceState { config, ..state }),
{
    reveal(SpaceState::after);
}

/// A new configuration makes the space manager repeat the hotkey state, so that
/// the controller, which drops all hotkeys for it, registers them again.
pub proof fn a_new_configuration_repeats_the_hotkey_state(state: SpaceState, config: Arc<Config>)
    ensures
        state.sends(EventView::ConfigUpdated(config)).contains(
            MessageView::Wm(WmEvent::HotkeysActive(state.hotkeys_active)),
        ),
{
    reveal(SpaceState::after);
    reveal(SpaceState::sends);
    assert(state.sends(EventView::ConfigUpdated(config))[1] == MessageView::Wm(
        WmEvent::HotkeysActive(state.hotkeys_active),
    ));
}

proof fn spoken_one_by_one(messages: Seq<Message>)
    ensures
        said(messages).len() == messages.len(),
        forall|k: int| 0 <= k < messages.len() ==> said(messages)[k] == (#[trigger] messages[k])@,
{
}

/// Whether the user's choices leave a space on.
pub open spec fn turned_on(state: SpaceState, space: SpaceId) -> bool {
    &&& state.config.settings.default_disable ==> state.enabled.contains(space.id)
    &&& !state.config.settings.default_disable ==> !state.disabled.contains(space.id)
}

/// Whether `list` is `spaces` without those that must be left alone: all of them
/// while the window manager is off or the login window is up, all but the
/// starting one where only that is managed, those that were turned off, and those
/// that were not turned on where that is needed.
pub open spec fn without_unmanaged(
    state: SpaceState,
    spaces: Seq<Option<SpaceId>>,
    list: Seq<Option<SpaceId>>,
) -> bool {
    &&& list.len() == spaces.len()
    &&& forall|i: int|
        0 <= i < spaces.len() ==> {
            let kept = {
                &&& spaces[i] is Some
                &&& state.is_globally_enabled
                &&& !state.login_window_active
                &&& !(state.one_space && state.starting_space != spaces[i])
                &&& !state.disabled.contains(spaces[i]->0.id)
                &&& (state.enabled.contains(spaces[i]->0.id)
                    || !state.config.settings.default_disable)
            };
            &&& kept ==> #[trigger] list[i] == spaces[i]
            &&& !kept ==> list[i] is None
        }
}

/// Whether the first place where `screen` stands is `i`, and a space is known
/// there.
pub open spec fn shows_at(state: SpaceState, screen: ScreenId, i: int) -> bool {
    &&& 0 <= i < state.cur_space.len()
    &&& i < state.cur_screen_id.len()
    &&& state.cur_screen_id[i] == screen
    &&& !state.cur_screen_id.take(i).contains(screen)
    &&& state.cur_space[i] is Some
}

proof fn shown_spaces_are_found(state: SpaceState, screen: ScreenId)
    ensures
        forall|i: int| #[trigger]
            shows_at(state, screen, i) ==> state.space_for_screen(screen) == state.cur_space[i],
        (forall|i: int| !#[trigger] shows_at(state, screen, i)) ==> state.space_for_screen(screen)
            is None,
{
    assert forall|i: int| #[trigger] shows_at(state, screen, i) implies state.space_for_screen(
        screen,
    ) == state.cur_space[i] by {
        assert forall|j: int| 0 <= j < i implies state.cur_screen_id[j] != screen by {
            assert(state.cur_screen_id.take(i)[j] == state.cur_screen_id[j]);
        }
        assert(state.screen_at(screen, i));
        let k = choose|k: int| state.screen_at(screen, k);
        assert(k == i);
    }
    if forall|i: int| !#[trigger] shows_at(state, screen, i) {
        if state.space_for_screen(screen) is Some {
            let k = choose|k: int| state.screen_at(screen, k);
            assert(!state.cur_screen_id.take(k).contains(screen)) by {
                if state.cur_screen_id.take(k).contains(screen) {
                    let j = choose|j: int|
                        0 <= j < k && state.cur_screen_id.take(k)[j] == screen;
                    assert(state.cur_screen_id[j] == screen);
                }
            }
            assert(shows_at(state, screen, k));
        }
    }
}

/// Whether `message` tells the status icon whether the space that the user looks
/// at is on: the space of the focused screen or, where none is known for it, that
/// of the first screen. Without either, it counts as off.
pub open spec fn reports_the_focused_space(state: SpaceState, message: Message) -> bool {
    message matches Message::Status(status::Event::SpaceEnabledChanged(on)) && {
        let first = state.cur_space.len() > 0 && state.cur_space[0] is Some;
        let unknown = state.focused_screen is None || forall|i: int|
            !#[trigger] shows_at(state, state.focused_screen->0, i);
        &&& forall|i: int|
            state.focused_screen is Some && #[trigger] shows_at(state, state.focused_screen->0, i)
                ==> on == turned_on(state, state.cur_space[i]->0)
        &&& unknown && first ==> on == turned_on(state, state.cur_space[0]->0)
        &&& unknown && !first ==> !on
    }
}

proof fn the_focused_space_is_reported(state: SpaceState, message: Message)
    requires
        message@ == state.space_enabled_status(),
    ensures
        reports_the_focused_space(state, message),
{
    if state.focused_screen is Some {
        shown_spaces_are_found(state, state.focused_screen->0);
    }
}

/// Whether a message asks the window server for a fresh look at the windows.
pub open spec fn asks_for_refresh(message: Message) -> bool {
    message == Message::WindowServer(window_server::Event::RequestSpaceRefresh)
}

/// How many messages about hotkeys a change of state makes: one if they start or
/// stop working.
pub open spec fn hotkey_messages(before: SpaceState, after: SpaceState) -> int {
    if before.hotkeys_active == after.hotkeys_active {
        0
    } else {
        1
    }
}

/// Whether `after` is `before` with `spaces` on the screens: the first space that
/// is ever seen on the first screen is the starting space for good, and hotkeys
/// work from then on, or while it is there where only it is managed.
pub open spec fn takes_in(
    before: SpaceState,
    after: SpaceState,
    spaces: Seq<Option<SpaceId>>,
) -> bool {
    &&& after.cur_space == spaces
    &&& before.starting_space is Some ==> after.starting_space == before.starting_space
    &&& before.starting_space is None && spaces.len() > 0 ==> after.starting_space == spaces[0]
    &&& before.starting_space is None && spaces.len() == 0 ==> after.starting_space is None
    &&& after.hotkeys_active <==> {
        &&& after.starting_space is Some
        &&& after.one_space ==> spaces.len() > 0 && spaces[0] == after.starting_space
    }
    &&& after.one_space == before.one_space
    &&& after.config == before.config
    &&& after.disabled == before.disabled
    &&& after.enabled == before.enabled
    &&& after.focused_screen == before.focused_screen
    &&& after.login_window_active == before.login_window_active
    &&& after.expose_active == before.expose_active
    &&& after.is_globally_enabled == before.is_globally_enabled
}

/// Whether two snapshots hold the same windows.
pub open spec fn same_windows(a: WindowsOnScreen, b: WindowsOnScreen) -> bool {
    a.visible@ == b.visible@ && a.windows@ == b.windows@
}

/// A change of spaces reaches the reactor, unless Mission Control is up, as one
/// message with the windows as they came and the spaces that may be managed, each
/// in the place of its screen. The status icon hears of all the spaces, and of the
/// focused one.
#[verifier::rlimit(40)]
pub proof fn a_change_of_spaces_is_passed_on(
    manager: &mut SpaceManager,
    spaces: Vec<Option<SpaceId>>,
    on_screen: WindowsOnScreen,
    messages: Vec<Message>,
)
    requires
        call_ensures(SpaceManager::on_event, (manager, Event::SpaceChanged(spaces, on_screen)), messages),
    ensures
        ({
            let before = old(manager)@;
            let after = final(manager)@;
            let h = hotkey_messages(before, after);
            let n = if before.expose_active {
                h
            } else {
                h + 1
            };
            &&& takes_in(before, after, spaces@)
            &&& after.cur_screen_id == before.cur_screen_id
            &&& messages@.len() == n + 2
            &&& h == 1 ==> messages@[0] == Message::Wm(
                WmEvent::HotkeysActive(after.hotkeys_active),
            )
            &&& !before.expose_active ==> {
                &&& messages@[h] matches Message::Reactor(
                    reactor::Event::SpaceChanged(list, seen),
                )
                &&& without_unmanaged(after, spaces@, list@)
                &&& same_windows(seen, on_screen)
            }
            &&& messages@[n] matches Message::Status(status::Event::SpaceChanged(all))
            &&& all@ == spaces@
            &&& reports_the_focused_space(after, messages@[n + 1])
        }),
{
    reveal(SpaceState::after);
    reveal(SpaceState::sends);
    spoken_one_by_one(messages@);
    let after = final(manager)@;
    the_focused_space_is_reported(after, messages@[messages@.len() - 1]);
}

/// New screens reach the reactor and the mouse as they came, with the spaces that
/// may be managed, also while Mission Control is up. The reactor hears of the
/// windows after that, and the status icon of all the spaces and of the focused
/// one.
#[verifier::rlimit(40)]
pub proof fn a_change_of_screens_is_passed_on(
    manager: &mut SpaceManager,
    screens: Vec<ScreenId>,
    frames: Vec<CGRect>,
    spaces: Vec<Option<SpaceId>>,
    scale_factors: Vec<CGFloat>,
    converter: CoordinateConverter,
    on_screen: WindowsOnScreen,
    messages: Vec<Message>,
)
    requires
        call_ensures(SpaceManager::on_event, (manager, Event::ScreenParametersChanged {
            screens,
            frames,
            spaces,
            scale_factors,
            converter,
            on_screen,
        }), messages),
    ensures
        ({
            let before = old(manager)@;
            let after = final(manager)@;
            let h = hotkey_messages(before, after);
            &&& takes_in(before, after, spaces@)
            &&& after.cur_screen_id == screens@
            &&& messages@.len() == h + 5
            &&& h == 1 ==> messages@[0] == Message::Wm(
                WmEvent::HotkeysActive(after.hotkeys_active),
            )
            &&& messages@[h] matches Message::Reactor(
                reactor::Event::ScreenParametersChanged {
                    frames: told_frames,
                    spaces: list,
                    converter: told_converter,
                    scale_factors: told_factors,
                },
            )
            &&& told_frames@ == frames@
            &&& without_unmanaged(after, spaces@, list@)
            &&& told_converter == converter
            &&& told_factors@ == scale_factors@
            &&& messages@[h + 1] matches Message::Reactor(
                reactor::Event::WindowsOnScreenUpdated { pid, on_screen: seen },
            )
            &&& pid is None
            &&& same_windows(seen, on_screen)
            &&& messages@[h + 2] matches Message::Status(status::Event::SpaceChanged(all))
            &&& all@ == spaces@
            &&& reports_the_focused_space(after, messages@[h + 3])
            &&& messages@[h + 4] matches Message::Mouse(
                mouse::Request::ScreenParametersChanged(mouse_frames, mouse_converter),
            )
            &&& mouse_frames@ == frames@
            &&& mouse_converter == converter
        }),
{
    reveal(SpaceState::after);
    reveal(SpaceState::sends);
    spoken_one_by_one(messages@);
    let before = old(manager)@;
    let after = final(manager)@;
    let h = hotkey_messages(before, after);
    assert(said(messages@).len() == h + 5);
    assert(messages@[h + 3]@ == said(messages@)[h + 3]);
    the_focused_space_is_reported(after, messages@[h + 3]);
}

/// Toggling the screen of a space turns that space over and no other, in the
/// choices that count under the current default. The bars go where it is turned
/// off, the status icon hears of it, and the windows are looked at anew.
#[verifier::rlimit(40)]
pub proof fn a_space_is_toggled(
    manager: &mut SpaceManager,
    screen: ScreenId,
    i: int,
    messages: Vec<Message>,
)
    requires
        call_ensures(SpaceManager::on_event, (manager, Event::ToggleSpace(screen)), messages),
        shows_at(old(manager)@, screen, i),
    ensures
        ({
            let before = old(manager)@;
            let after = final(manager)@;
            let space = before.cur_space[i]->0;
            let on = turned_on(after, space);
            let n = messages@.len() as int;
            &&& on == !turned_on(before, space)
            &&& forall|x: u64|
                x != space.id ==> #[trigger] after.enabled.contains(x) == before.enabled.contains(x)
            &&& forall|x: u64|
                x != space.id ==> #[trigger] after.disabled.contains(x) == before.disabled.contains(
                    x,
                )
            &&& before.config.settings.default_disable ==> after.disabled == before.disabled
            &&& !before.config.settings.default_disable ==> after.enabled == before.enabled
            &&& after == (SpaceState { enabled: after.enabled, disabled: after.disabled, ..before })
            &&& n == (if on {
                2int
            } else {
                3
            })
            &&& !on ==> messages@[0] == Message::GroupBars(group_bars::Event::SpaceDisabled(space))
            &&& messages@[n - 2] == Message::Status(status::Event::SpaceEnabledChanged(on))
            &&& asks_for_refresh(messages@[n - 1])
        }),
{
    reveal(SpaceState::after);
    reveal(SpaceState::sends);
    spoken_one_by_one(messages@);
    shown_spaces_are_found(old(manager)@, screen);
}

/// Toggling a screen that shows no known space does nothing.
pub proof fn unknown_screens_are_not_toggled(
    manager: &mut SpaceManager,
    screen: ScreenId,
    messages: Vec<Message>,
)
    requires
        call_ensures(SpaceManager::on_event, (manager, Event::ToggleSpace(screen)), messages),
        forall|i: int| !#[trigger] shows_at(old(manager)@, screen, i),
    ensures
        ({
            let before = old(manager)@;
            let after = final(manager)@;
            &&& after == before
            &&& messages@.len() == 0
        }),
{
    reveal(SpaceState::after);
    reveal(SpaceState::sends);
    spoken_one_by_one(messages@);
    shown_spaces_are_found(old(manager)@, screen);
}

/// Toggling the window manager turns it over. The bars go where it is turned off,
/// the status icon hears of it and of the focused space, and the windows are
/// looked at anew.
#[verifier::rlimit(40)]
pub proof fn the_window_manager_is_toggled(
    manager: &mut SpaceManager,
    messages: Vec<Message>,
)
    requires
        call_ensures(SpaceManager::on_event, (manager, Event::ToggleGlobalEnabled), messages),
    ensures
        ({
            let before = old(manager)@;
            let after = final(manager)@;
            let n = messages@.len() as int;
            &&& after == (SpaceState { is_globally_enabled: !before.is_globally_enabled, ..before })
            &&& n == (if after.is_globally_enabled {
                3int
            } else {
                4
            })
            &&& !after.is_globally_enabled ==> messages@[0] == Message::GroupBars(
                group_bars::Event::GlobalDisabled,
            )
            &&& messages@[n - 3] == Message::Status(
                status::Event::GlobalEnabledChanged(after.is_globally_enabled),
            )
            &&& reports_the_focused_space(after, messages@[n - 2])
            &&& asks_for_refresh(messages@[n - 1])
        }),
{
    reveal(SpaceState::after);
    reveal(SpaceState::sends);
    spoken_one_by_one(messages@);
    the_focused_space_is_reported(final(manager)@, messages@[messages@.len() - 2]);
}

/// The login window is taken note of, and the windows are looked at anew, whether
/// it comes or goes.
pub proof fn the_login_window_is_taken_note_of(
    manager: &mut SpaceManager,
    active: bool,
    messages: Vec<Message>,
)
    requires
        call_ensures(SpaceManager::on_event, (manager, Event::LoginWindowActive(active)), messages),
    ensures
        ({
            let before = old(manager)@;
            let after = final(manager)@;
            &&& after == (SpaceState { login_window_active: active, ..before })
            &&& messages@.len() == 1
            &&& asks_for_refresh(messages@[0])
        }),
{
    reveal(SpaceState::after);
    reveal(SpaceState::sends);
    spoken_one_by_one(messages@);
}

/// Mission Control is taken note of. Only when it goes are the windows looked at
/// anew.
pub proof fn mission_control_is_taken_note_of(
    manager: &mut SpaceManager,
    active: bool,
    messages: Vec<Message>,
)
    requires
        call_ensures(SpaceManager::on_event, (manager, Event::ExposeActive(active)), messages),
    ensures
        ({
            let before = old(manager)@;
            let after = final(manager)@;
            &&& after == (SpaceState { expose_active: active, ..before })
            &&& active ==> messages@.len() == 0
            &&& !active ==> messages@.len() == 1 && asks_for_refresh(messages@[0])
        }),
{
    reveal(SpaceState::after);
    reveal(SpaceState::sends);
    spoken_one_by_one(messages@);
}

/// The focused screen is taken note of, and the status icon hears of its space.
pub proof fn the_focused_screen_is_taken_note_of(
    manager: &mut SpaceManager,
    screen: ScreenId,
    messages: Vec<Message>,
)
    requires
        call_ensures(SpaceManager::on_event, (manager, Event::FocusedScreenChanged(screen)), messages),
    ensures
        ({
            let before = old(manager)@;
            let after = final(manager)@;
            &&& after == (SpaceState { focused_screen: Some(screen), ..before })
            &&& messages@.len() == 1
            &&& reports_the_focused_space(after, messages@[0])
        }),
{
    reveal(SpaceState::after);
    reveal(SpaceState::sends);
    spoken_one_by_one(messages@);
    the_focused_space_is_reported(final(manager)@, messages@[0]);
}

/// A command reaches the reactor as it came, in every state.
pub proof fn commands_reach_the_reactor(
    manager: &mut SpaceManager,
    command: reactor::Command,
    messages: Vec<Message>,
)
    requires
        call_ensures(SpaceManager::on_event, (manager, Event::ReactorCommand(command)), messages),
    ensures
        ({
            let before = old(manager)@;
            let after = final(manager)@;
            &&& after == before
            &&& messages@.len() == 1
            &&& messages@[0] == Message::Reactor(reactor::Event::Command(command))
        }),
{
    reveal(SpaceState::after);
    reveal(SpaceState::sends);
    spoken_one_by_one(messages@);
}

/// An event for the reactor reaches it as it came, in every state.
pub proof fn events_reach_the_reactor(
    manager: &mut SpaceManager,
    event: reactor::Event,
    messages: Vec<Message>,
)
    requires
        call_ensures(SpaceManager::on_event, (manager, Event::ReactorEvent(event)), messages),
    ensures
        ({
            let before = old(manager)@;
            let after = final(manager)@;
            &&& after == before
            &&& messages@.len() == 1
            &&& messages@[0] matches Message::Reactor(passed)
            &&& passed@ == event@
        }),
{
    reveal(SpaceState::after);
    reveal(SpaceState::sends);
    spoken_one_by_one(messages@);
}

/// A new configuration is taken over and passed on to the reactor. The controller
/// is told again whether hotkeys work, the status icon hears of the focused space
/// under the new default, and the windows are looked at anew.
pub proof fn a_new_configuration_is_passed_on(
    manager: &mut SpaceManager,
    config: Arc<Config>,
    messages: Vec<Message>,
)
    requires
        call_ensures(SpaceManager::on_event, (manager, Event::ConfigUpdated(config)), messages),
    ensures
        ({
            let before = old(manager)@;
            let after = final(manager)@;
            &&& after == (SpaceState { config, ..before })
            &&& messages@.len() == 4
            &&& messages@[0] == Message::Reactor(reactor::Event::ConfigChanged(config))
            &&& messages@[1] == Message::Wm(WmEvent::HotkeysActive(before.hotkeys_active))
            &&& reports_the_focused_space(after, messages@[2])
            &&& asks_for_refresh(messages@[3])
        }),
{
    reveal(SpaceState::after);
    reveal(SpaceState::sends);
    spoken_one_by_one(messages@);
    the_focused_space_is_reported(final(manager)@, messages@[2]);
}

/// A space manager starts without screens, spaces or choices, with everything
/// turned on, and says so to the status icon.
pub proof fn a_space_manager_starts_from_nothing(
    one_space: bool,
    config: Arc<Config>,
    started: (SpaceManager, Vec<Message>),
)
    requires
        call_ensures(SpaceManager::new, (one_space, config), started),
    ensures
        started.0@.one_space == one_space,
        started.0@.config == config,
        started.0@.starting_space is None,
        started.0@.cur_space.len() == 0,
        started.0@.cur_screen_id.len() == 0,
        forall|x: u64| !#[trigger] started.0@.disabled.contains(x),
        forall|x: u64| !#[trigger] started.0@.enabled.contains(x),
        started.0@.focused_screen is None,
        !started.0@.login_window_active,
        !started.0@.expose_active,
        started.0@.is_globally_enabled,
        !started.0@.hotkeys_active,
        started.1@.len() == 1,
        started.1@[0] == Message::Status(status::Event::GlobalEnabledChanged(true)),
{
    spoken_one_by_one(started.1@);
}

} // verus!
