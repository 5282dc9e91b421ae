//! Takes events from app actors and adds information from the window server
//! before sending them on to the reactor by way of the space manager.

use std::collections::HashMap;

use vstd::multiset::Multiset;
use vstd::prelude::*;

use crate::actor::app::{AppThreadHandle, Quiet, Request, WindowId};
use crate::actor::{reactor, space_manager};
use crate::sys::app::{pid_t, AppInfo, AppInfoView, WindowInfo, WindowInfoView};
use crate::sys::event::MouseState;
use crate::sys::geometry::{CGFloat, CGRect};
use crate::sys::screen::{CoordinateConverter, ScreenId, ScreenInfo, SpaceId};
use crate::sys::window_server::{
    ids_of, snapshot, window_ids, SkylightConnection, WindowList, WindowServerId, WindowServerInfo,
    WindowsOnScreen,
};

verus! {

broadcast use vstd::std_specs::hash::group_hash_axioms;

// The levels of windows we care about. Everything else (e.g. status bar items,
// screensavers, system overlays) is filtered out early.

/// The level of ordinary windows.
pub const LAYER_NORMAL: i32 = 0;

/// The level of floating windows.
pub const LAYER_FLOATING: i32 = 3;

/// The level of status windows, which some panels use.
pub const LAYER_STATUS: i32 = 8;

/// What the window server actor is told.
#[derive(Debug)]
pub enum Event {
    // Sent by the notification center.
    /// Screen configuration changed.
    ScreenParametersChanged(Vec<ScreenInfo>),
    /// The active space changed.
    SpaceChanged,
    // Sent by app actors.
    /// A window whose destruction should be watched for: the notification that
    /// an application should send of it does not always come.
    RegisterWindow(WindowServerId, WindowId, AppThreadHandle),
    /// A new window was created.
    WindowCreated(WindowId, WindowInfo, MouseState),
    /// The main window of an application changed.
    ApplicationMainWindowChanged(pid_t, Option<WindowId>, Quiet),
    /// A window was minimized or unminimized.
    WindowVisibilityChanged(WindowId),
    ApplicationLaunched {
        pid: pid_t,
        handle: AppThreadHandle,
        info: AppInfo,
        is_frontmost: bool,
        main_window: Option<WindowId>,
        visible_windows: Vec<(WindowId, WindowInfo)>,
    },
    /// Passed through to the reactor.
    ///
    /// All reactor events come this way so that they reach the reactor in the
    /// correct order with respect to the other events above.
    ReactorEvent(reactor::Event),
    /// Sent by the space manager when it needs a fresh window list (e.g. after
    /// toggling a space or leaving Mission Control).
    RequestSpaceRefresh,
}

/// What an [`Event`] says.
pub enum EventView {
    ScreenParametersChanged(Seq<ScreenInfo>),
    SpaceChanged,
    RegisterWindow(WindowServerId, WindowId, AppThreadHandle),
    WindowCreated(WindowId, WindowInfoView, MouseState),
    ApplicationMainWindowChanged(pid_t, Option<WindowId>, Quiet),
    WindowVisibilityChanged(WindowId),
    ApplicationLaunched {
        pid: pid_t,
        handle: AppThreadHandle,
        info: AppInfoView,
        is_frontmost: bool,
        main_window: Option<WindowId>,
        visible_windows: Seq<(WindowId, WindowInfoView)>,
    },
    ReactorEvent(reactor::EventView),
    RequestSpaceRefresh,
}

impl View for Event {
    type V = EventView;

    open spec fn view(&self) -> EventView {
        match *self {
            Event::ScreenParametersChanged(screens) => {
                EventView::ScreenParametersChanged(screens@)
            },
            Event::SpaceChanged => EventView::SpaceChanged,
            Event::RegisterWindow(wsid, wid, handle) => {
                EventView::RegisterWindow(wsid, wid, handle)
            },
            Event::WindowCreated(wid, info, mouse) => EventView::WindowCreated(wid, info@, mouse),
            Event::ApplicationMainWindowChanged(pid, wid, quiet) => {
                EventView::ApplicationMainWindowChanged(pid, wid, quiet)
            },
            Event::WindowVisibilityChanged(wid) => EventView::WindowVisibilityChanged(wid),
            Event::ApplicationLaunched {
                pid,
                handle,
                info,
                is_frontmost,
                main_window,
                visible_windows,
            } => EventView::ApplicationLaunched {
                pid,
                handle,
                info: info@,
                is_frontmost,
                main_window,
                visible_windows: reactor::described(visible_windows@),
            },
            Event::ReactorEvent(event) => EventView::ReactorEvent(event@),
            Event::RequestSpaceRefresh => EventView::RequestSpaceRefresh,
        }
    }
}

/// A window to be watched, for the part that has to stay on the main thread.
#[derive(Clone, Copy, PartialEq, Eq, Structural, Debug)]
pub enum SkylightRequest {
    TrackWindow(WindowServerId, WindowId, AppThreadHandle),
}

/// A message that the actor sends, by whom it goes to.
#[derive(Debug)]
pub enum Message {
    SpaceManager(space_manager::Event),
    Skylight(SkylightRequest),
}

/// What a [`Message`] says.
pub enum MessageView {
    SpaceManager(space_manager::EventView),
    Skylight(SkylightRequest),
}

impl View for Message {
    type V = MessageView;

    open spec fn view(&self) -> MessageView {
        match *self {
            Message::SpaceManager(event) => MessageView::SpaceManager(event@),
            Message::Skylight(request) => MessageView::Skylight(request),
        }
    }
}

/// What the messages of a list say.
pub open spec fn said(messages: Seq<Message>) -> Seq<MessageView> {
    messages.map_values(|m: Message| m@)
}

/// What an event makes the actor look up in the system.
#[derive(Clone, Copy, PartialEq, Eq, Structural, Debug)]
pub struct Lookups {
    /// The screens, as the screen cache makes them out of those of the event.
    pub screens: bool,
    /// The spaces that the screens show.
    pub spaces: bool,
    /// The visible windows.
    pub windows: bool,
}

/// What the system says when an event comes in. Parts that the event does not
/// look up can be left empty.
#[derive(Debug)]
pub struct Reading {
    /// The screens and how to convert between their coordinates, unless that
    /// cannot be told.
    pub screens: Option<(Vec<ScreenInfo>, CoordinateConverter)>,
    /// The space that each screen shows.
    pub spaces: Vec<Option<SpaceId>>,
    /// All visible windows, frontmost first.
    pub windows: Vec<WindowServerInfo>,
}

/// Whether windows at `layer` are of interest.
pub open spec fn relevant(layer: i32) -> bool {
    layer == LAYER_NORMAL || layer == LAYER_FLOATING || layer == LAYER_STATUS
}

/// The windows of interest.
pub open spec fn relevant_windows(windows: Seq<WindowServerInfo>) -> Seq<WindowServerInfo> {
    windows.filter(|w: WindowServerInfo| relevant(w.layer))
}

/// What the system says, as far as events are concerned.
pub struct ReadingView {
    pub screens: Option<(Seq<ScreenInfo>, CoordinateConverter)>,
    pub spaces: Seq<Option<SpaceId>>,
    pub windows: Seq<WindowServerInfo>,
}

impl View for Reading {
    type V = ReadingView;

    open spec fn view(&self) -> ReadingView {
        ReadingView {
            screens: match self.screens {
                Some((screens, converter)) => Some((screens@, converter)),
                None => None,
            },
            spaces: self.spaces@,
            windows: self.windows@,
        }
    }
}

/// What an event looks up.
pub open spec fn lookups(event: EventView) -> Lookups {
    Lookups {
        screens: event is ScreenParametersChanged,
        spaces: event is ScreenParametersChanged || event is SpaceChanged
            || event is RequestSpaceRefresh,
        windows: event is ScreenParametersChanged || event is SpaceChanged
            || event is RequestSpaceRefresh || event is WindowCreated
            || event is WindowVisibilityChanged || event is ApplicationLaunched,
    }
}

impl Event {
    /// What the event looks up in the system.
    pub fn lookups(&self) -> (what: Lookups)
        ensures
            what == lookups(self@),
    {
        match self {
            Event::ScreenParametersChanged(_) => Lookups {
                screens: true,
                spaces: true,
                windows: true,
            },
            Event::SpaceChanged | Event::RequestSpaceRefresh => Lookups {
                screens: false,
                spaces: true,
                windows: true,
            },
            Event::WindowCreated(..)
            | Event::WindowVisibilityChanged(_)
            | Event::ApplicationLaunched { .. } => Lookups {
                screens: false,
                spaces: false,
                windows: true,
            },
            Event::RegisterWindow(..)
            | Event::ApplicationMainWindowChanged(..)
            | Event::ReactorEvent(_) => Lookups { screens: false, spaces: false, windows: false },
        }
    }
}

/// The report of an event to the reactor.
pub open spec fn to_reactor(event: reactor::EventView) -> MessageView {
    MessageView::SpaceManager(space_manager::EventView::ReactorEvent(event))
}

/// The report of the windows on the screen.
pub open spec fn windows_report(pid: pid_t, windows: Seq<WindowServerInfo>) -> MessageView {
    to_reactor(
        reactor::EventView::WindowsOnScreenUpdated {
            pid: Some(pid),
            on_screen: snapshot(relevant_windows(windows)),
        },
    )
}

/// The report of the windows on the screen, where they are others than before.
pub open spec fn change_report(
    visible: Seq<WindowServerId>,
    pid: pid_t,
    windows: Seq<WindowServerInfo>,
) -> Seq<MessageView> {
    if window_ids(relevant_windows(windows)) != visible {
        seq![windows_report(pid, windows)]
    } else {
        seq![]
    }
}

/// The windows that are known to be visible after `event`, if `visible` were
/// before.
#[verifier::opaque]
pub open spec fn visible_after(
    visible: Seq<WindowServerId>,
    event: EventView,
    reading: ReadingView,
) -> Seq<WindowServerId> {
    if lookups(event).windows && !(event is ScreenParametersChanged && reading.screens is None) {
        window_ids(relevant_windows(reading.windows))
    } else {
        visible
    }
}

/// The messages that `event` makes the actor send, in their order.
#[verifier::opaque]
pub open spec fn sends(
    visible: Seq<WindowServerId>,
    event: EventView,
    reading: ReadingView,
) -> Seq<MessageView> {
    let on_screen = snapshot(relevant_windows(reading.windows));
    match event {
        EventView::RegisterWindow(wsid, wid, handle) => seq![
            MessageView::Skylight(SkylightRequest::TrackWindow(wsid, wid, handle)),
        ],
        EventView::ScreenParametersChanged(_) => match reading.screens {
            Some((screens, converter)) => seq![
                MessageView::SpaceManager(
                    space_manager::EventView::ScreenParametersChanged {
                        screens: screens.map_values(|s: ScreenInfo| s.id),
                        frames: screens.map_values(|s: ScreenInfo| s.visible_frame),
                        spaces: reading.spaces,
                        scale_factors: screens.map_values(|s: ScreenInfo| s.scale_factor),
                        converter,
                        on_screen,
                    },
                ),
            ],
            None => seq![],
        },
        EventView::SpaceChanged | EventView::RequestSpaceRefresh => seq![
            MessageView::SpaceManager(
                space_manager::EventView::SpaceChanged(reading.spaces, on_screen),
            ),
        ],
        EventView::WindowCreated(wid, info, mouse) => seq![
            to_reactor(reactor::EventView::WindowCreated(wid, info, mouse)),
        ] + change_report(visible, wid.pid, reading.windows) + seq![
            to_reactor(reactor::EventView::WindowBecameVisible(wid)),
        ],
        EventView::ApplicationMainWindowChanged(pid, wid, quiet) => seq![
            to_reactor(reactor::EventView::ApplicationMainWindowChanged(pid, wid, quiet)),
        ],
        EventView::WindowVisibilityChanged(wid) => change_report(visible, wid.pid, reading.windows),
        EventView::ApplicationLaunched {
            pid,
            handle,
            info,
            is_frontmost,
            main_window,
            visible_windows,
        } => seq![
            windows_report(pid, reading.windows),
            to_reactor(
                reactor::EventView::ApplicationLaunched {
                    pid,
                    info,
                    handle,
                    is_frontmost,
                    main_window,
                    visible_windows,
                },
            ),
        ],
        EventView::ReactorEvent(inner) => seq![to_reactor(inner)],
    }
}

fn send(out: &mut Vec<Message>, message: Message)
    ensures
        said(final(out)@) == said(old(out)@).push(message@),
{
    out.push(message);
    assert(said(out@) =~= said(old(out)@).push(message@));
}

fn send_reactor_event(out: &mut Vec<Message>, event: reactor::Event)
    ensures
        said(final(out)@) == said(old(out)@).push(to_reactor(event@)),
{
    send(out, Message::SpaceManager(space_manager::Event::ReactorEvent(event)));
}

fn same_ids(a: &Vec<WindowServerId>, b: &Vec<WindowServerId>) -> (same: bool)
    ensures
        same == (a@ == b@),
{
    if a.len() != b.len() {
        return false;
    }
    let mut i: usize = 0;
    while i < a.len()
        invariant
            a@.len() == b@.len(),
            i <= a@.len(),
            forall|j: int| 0 <= j < i ==> a@[j] == b@[j],
        decreases a@.len() - i,
    {
        if a[i] != b[i] {
            return false;
        }
        i = i + 1;
    }
    assert(a@ =~= b@);
    true
}

fn screen_ids(screens: &Vec<ScreenInfo>) -> (ids: Vec<ScreenId>)
    ensures
        ids@ == screens@.map_values(|s: ScreenInfo| s.id),
{
    let mut ids: Vec<ScreenId> = Vec::new();
    let mut i: usize = 0;
    while i < screens.len()
        invariant
            i <= screens@.len(),
            ids@ == screens@.map_values(|s: ScreenInfo| s.id).take(i as int),
        decreases screens@.len() - i,
    {
        ids.push(screens[i].id);
        i = i + 1;
        assert(ids@ =~= screens@.map_values(|s: ScreenInfo| s.id).take(i as int));
    }
    ids
}

fn screen_frames(screens: &Vec<ScreenInfo>) -> (frames: Vec<CGRect>)
    ensures
        frames@ == screens@.map_values(|s: ScreenInfo| s.visible_frame),
{
    let mut frames: Vec<CGRect> = Vec::new();
    let mut i: usize = 0;
    while i < screens.len()
        invariant
            i <= screens@.len(),
            frames@ == screens@.map_values(|s: ScreenInfo| s.visible_frame).take(i as int),
        decreases screens@.len() - i,
    {
        frames.push(screens[i].visible_frame);
        i = i + 1;
        assert(frames@ =~= screens@.map_values(|s: ScreenInfo| s.visible_frame).take(i as int));
    }
    frames
}

fn screen_scale_factors(screens: &Vec<ScreenInfo>) -> (factors: Vec<CGFloat>)
    ensures
        factors@ == screens@.map_values(|s: ScreenInfo| s.scale_factor),
{
    let mut factors: Vec<CGFloat> = Vec::new();
    let mut i: usize = 0;
    while i < screens.len()
        invariant
            i <= screens@.len(),
            factors@ == screens@.map_values(|s: ScreenInfo| s.scale_factor).take(i as int),
        decreases screens@.len() - i,
    {
        factors.push(screens[i].scale_factor);
        i = i + 1;
        assert(factors@ =~= screens@.map_values(|s: ScreenInfo| s.scale_factor).take(i as int));
    }
    factors
}

/// Adds information from the window server to the events of app actors.
#[derive(Debug)]
pub struct WindowServer {
    /// The windows known to be visible on screen.
    visible_window_ids: Vec<WindowServerId>,
}

impl View for WindowServer {
    type V = Seq<WindowServerId>;

    closed spec fn view(&self) -> Seq<WindowServerId> {
        self.visible_window_ids@
    }
}

impl WindowServer {
    /// An actor that knows of no visible window yet.
    pub fn new() -> (server: WindowServer)
        ensures
            server@ == Seq::<WindowServerId>::empty(),
    {
        WindowServer { visible_window_ids: Vec::new() }
    }

    /// Takes in one event, with what the system says at the time, and returns
    /// the messages to send, in their order.
    pub fn on_event(&mut self, event: Event, reading: Reading) -> (messages: Vec<Message>)
        ensures
            final(self)@ == visible_after(old(self)@, event@, reading@),
            said(messages@) == sends(old(self)@, event@, reading@),
    {
        reveal(visible_after);
        reveal(sends);
        let mut out: Vec<Message> = Vec::new();
        match event {
            Event::RegisterWindow(wsid, wid, handle) => {
                send(&mut out, Message::Skylight(SkylightRequest::TrackWindow(wsid, wid, handle)));
            },
            Event::ScreenParametersChanged(_) => {
                if let Some((screens, converter)) = reading.screens {
                    let on_screen = self.get_windows_on_screen(&reading.windows);
                    let changed = space_manager::Event::ScreenParametersChanged {
                        screens: screen_ids(&screens),
                        frames: screen_frames(&screens),
                        spaces: reading.spaces,
                        scale_factors: screen_scale_factors(&screens),
                        converter,
                        on_screen,
                    };
                    send(&mut out, Message::SpaceManager(changed));
                }
            },
            Event::SpaceChanged | Event::RequestSpaceRefresh => {
                let on_screen = self.get_windows_on_screen(&reading.windows);
                let changed = space_manager::Event::SpaceChanged(reading.spaces, on_screen);
                send(&mut out, Message::SpaceManager(changed));
            },
            Event::WindowCreated(wid, info, mouse) => {
                let pid: pid_t = wid.pid;
                send_reactor_event(&mut out, reactor::Event::WindowCreated(wid, info, mouse));
                self.send_windows_on_screen_if_changed(pid, &reading.windows, &mut out);
                send_reactor_event(&mut out, reactor::Event::WindowBecameVisible(wid));
            },
            Event::ApplicationMainWindowChanged(pid, wid, quiet) => {
                send_reactor_event(
                    &mut out,
                    reactor::Event::ApplicationMainWindowChanged(pid, wid, quiet),
                );
            },
            Event::WindowVisibilityChanged(wid) => {
                self.send_windows_on_screen_if_changed(wid.pid, &reading.windows, &mut out);
            },
            Event::ApplicationLaunched {
                pid,
                handle,
                info,
                is_frontmost,
                main_window,
                visible_windows,
            } => {
                let on_screen = self.get_windows_on_screen(&reading.windows);
                send_reactor_event(
                    &mut out,
                    reactor::Event::WindowsOnScreenUpdated { pid: Some(pid), on_screen },
                );
                send_reactor_event(
                    &mut out,
                    reactor::Event::ApplicationLaunched {
                        pid,
                        info,
                        handle,
                        is_frontmost,
                        main_window,
                        visible_windows,
                    },
                );
            },
            Event::ReactorEvent(inner) => {
                send_reactor_event(&mut out, inner);
            },
        }
        assert(said(out@) =~= sends(old(self)@, event@, reading@));
        out
    }

    /// Sends the windows on the screen if they are others than before.
    fn send_windows_on_screen_if_changed(
        &mut self,
        pid: pid_t,
        windows: &Vec<WindowServerInfo>,
        out: &mut Vec<Message>,
    )
        ensures
            final(self)@ == window_ids(relevant_windows(windows@)),
            said(final(out)@) == said(old(out)@) + change_report(old(self)@, pid, windows@),
    {
        let before = self.visible_window_ids.clone();
        let on_screen = self.get_windows_on_screen(windows);
        if !same_ids(&self.visible_window_ids, &before) {
            send_reactor_event(
                out,
                reactor::Event::WindowsOnScreenUpdated { pid: Some(pid), on_screen },
            );
        }
        assert(said(out@) =~= said(old(out)@) + change_report(old(self)@, pid, windows@));
    }

    /// Takes a snapshot of the windows of interest.
    fn get_windows_on_screen(&mut self, windows: &Vec<WindowServerInfo>) -> (on_screen:
        WindowsOnScreen)
        ensures
            final(self)@ == window_ids(relevant_windows(windows@)),
            on_screen@ == snapshot(relevant_windows(windows@)),
    {
        let ghost keep = |w: WindowServerInfo| relevant(w.layer);
        let mut kept: Vec<WindowServerInfo> = Vec::new();
        let mut i: usize = 0;
        reveal(Seq::filter);
        assert(windows@.take(0) =~= seq![]);
        while i < windows.len()
            invariant
                i <= windows@.len(),
                keep == (|w: WindowServerInfo| relevant(w.layer)),
                kept@ == windows@.take(i as int).filter(keep),
            decreases windows@.len() - i,
        {
            let window = windows[i];
            reveal(Seq::filter);
            assert(windows@.take(i as int + 1).drop_last() =~= windows@.take(i as int));
            if window.layer == LAYER_NORMAL || window.layer == LAYER_FLOATING || window.layer
                == LAYER_STATUS {
                kept.push(window);
            }
            i = i + 1;
        }
        assert(windows@.take(i as int) =~= windows@);
        self.visible_window_ids = ids_of(&kept);
        WindowsOnScreen::new(kept)
    }
}

proof fn filtered_windows_are_relevant(windows: Seq<WindowServerInfo>, i: int)
    requires
        0 <= i < relevant_windows(windows).len(),
    ensures
        relevant(relevant_windows(windows)[i].layer),
        windows.contains(relevant_windows(windows)[i]),
    decreases windows.len(),
{
    reveal(Seq::filter);
    if windows.len() > 0 {
        let front = windows.drop_last();
        if i < relevant_windows(front).len() {
            filtered_windows_are_relevant(front, i);
            let k = choose|k: int| 0 <= k < front.len() && front[k] == relevant_windows(front)[i];
            assert(windows[k] == relevant_windows(windows)[i]);
        } else {
            assert(windows[windows.len() - 1] == relevant_windows(windows)[i]);
        }
    }
}

/// A snapshot holds only windows of interest, all of them windows that the
/// system reported.
pub proof fn snapshots_hold_relevant_windows(windows: Seq<WindowServerInfo>, i: int)
    requires
        0 <= i < snapshot(relevant_windows(windows)).windows.len(),
    ensures
        relevant(snapshot(relevant_windows(windows)).windows[i].layer),
        windows.contains(snapshot(relevant_windows(windows)).windows[i]),
        snapshot(relevant_windows(windows)).visible[i] == snapshot(
            relevant_windows(windows),
        ).windows[i].id,
{
    filtered_windows_are_relevant(windows, i);
}

/// Windows that stay the same since the last event that looked them up are not
/// reported again. Where the screens cannot be told, their windows are not looked
/// at.
pub proof fn unchanged_windows_are_not_reported(
    visible: Seq<WindowServerId>,
    event: EventView,
    reading: ReadingView,
    wid: WindowId,
    later: ReadingView,
)
    requires
        lookups(event).windows,
        !(event is ScreenParametersChanged && reading.screens is None),
        window_ids(relevant_windows(later.windows)) == window_ids(
            relevant_windows(reading.windows),
        ),
    ensures
        sends(
            visible_after(visible, event, reading),
            EventView::WindowVisibilityChanged(wid),
            later,
        ) == Seq::<MessageView>::empty(),
{
    reveal(visible_after);
    reveal(sends);
}

/// Windows that are others than before are reported.
pub proof fn changed_windows_are_reported(
    visible: Seq<WindowServerId>,
    wid: WindowId,
    reading: ReadingView,
)
    requires
        window_ids(relevant_windows(reading.windows)) != visible,
    ensures
        sends(visible, EventView::WindowVisibilityChanged(wid), reading) == seq![
            windows_report(wid.pid, reading.windows),
        ],
{
    reveal(sends);
}

/// The reactor hears of a new window before it hears of the windows on the
/// screen, and that the window is visible after that.
pub proof fn new_windows_are_reported_in_order(
    visible: Seq<WindowServerId>,
    wid: WindowId,
    info: WindowInfoView,
    mouse: MouseState,
    reading: ReadingView,
)
    ensures
        ({
            let sent = sends(visible, EventView::WindowCreated(wid, info, mouse), reading);
            &&& sent.len() >= 2
            &&& sent.first() == to_reactor(reactor::EventView::WindowCreated(wid, info, mouse))
            &&& sent.last() == to_reactor(reactor::EventView::WindowBecameVisible(wid))
        }),
{
    reveal(sends);
}

/// An event depends on nothing but what it looks up.
pub proof fn only_lookups_matter(
    visible: Seq<WindowServerId>,
    event: EventView,
    one: ReadingView,
    other: ReadingView,
)
    requires
        lookups(event).screens ==> one.screens == other.screens,
        lookups(event).spaces ==> one.spaces == other.spaces,
        lookups(event).windows ==> one.windows == other.windows,
    ensures
        sends(visible, event, one) == sends(visible, event, other),
        visible_after(visible, event, one) == visible_after(visible, event, other),
{
    reveal(visible_after);
    reveal(sends);
}

/// Which windows are watched for their destruction.
pub struct WatcherState {
    /// The registered windows: their owners and whom to tell.
    pub registered: Map<u32, (WindowId, AppThreadHandle)>,
    /// The windows that the connection is subscribed to.
    pub watched: Multiset<u32>,
}

/// Watches for the destruction of windows. Its state lives on the main thread.
#[derive(Debug)]
pub struct SkylightWatcher {
    connection: SkylightConnection,
    registered_windows: HashMap<u32, (WindowId, AppThreadHandle)>,
}

impl View for SkylightWatcher {
    type V = WatcherState;

    closed spec fn view(&self) -> WatcherState {
        WatcherState {
            registered: self.registered_windows@,
            watched: self.connection.windows(),
        }
    }
}

impl WatcherState {
    /// Whether the connection watches every registered window.
    pub open spec fn wf(self) -> bool {
        forall|id: u32| #[trigger] self.registered.contains_key(id) ==> self.watched.count(id) > 0
    }

    /// The state once a window is registered.
    pub open spec fn tracking(
        self,
        wsid: WindowServerId,
        wid: WindowId,
        handle: AppThreadHandle,
    ) -> WatcherState {
        WatcherState {
            registered: self.registered.insert(wsid.0, (wid, handle)),
            watched: self.watched.insert(wsid.0),
        }
    }

    /// The state once a window is gone. A window that is not registered changes
    /// nothing.
    pub open spec fn without(self, wsid: WindowServerId) -> WatcherState {
        if self.registered.contains_key(wsid.0) {
            WatcherState {
                registered: self.registered.remove(wsid.0),
                watched: self.watched.remove(wsid.0),
            }
        } else {
            self
        }
    }
}

/// The number that four bytes stand for, the lowest first.
pub open spec fn from_low(bytes: Seq<u8>) -> int {
    bytes[0] + 0x100 * bytes[1] + 0x1_0000 * bytes[2] + 0x100_0000 * bytes[3]
}

/// `u32::from_ne_bytes`: the number that the bytes stand for on this machine,
/// which has the lowest byte either first or last.
#[verifier::external_body]
fn native_number(bytes: [u8; 4]) -> (n: u32)
    ensures
        n == from_low(bytes@) || n == from_low(bytes@.reverse()),
{
    u32::from_ne_bytes(bytes)
}

/// The window that a notification is about: none where it is another than was
/// asked for.
pub fn notified_window(expected_event: u32, event: u32, data: &Vec<u8>) -> (wsid: Option<
    WindowServerId,
>)
    requires
        event == expected_event ==> data@.len() == 4,
    ensures
        match wsid {
            Some(wsid) => event == expected_event && (wsid.0 == from_low(data@) || wsid.0
                == from_low(data@.reverse())),
            None => event != expected_event,
        },
{
    if event != expected_event {
        return None;
    }
    let bytes: [u8; 4] = [data[0], data[1], data[2], data[3]];
    assert(bytes@ =~= data@);
    Some(WindowServerId(native_number(bytes)))
}

impl SkylightWatcher {
    /// A watcher that knows of no window.
    pub fn new() -> (watcher: SkylightWatcher)
        ensures
            watcher@ == (WatcherState { registered: map![], watched: Multiset::empty() }),
            watcher@.wf(),
    {
        SkylightWatcher {
            connection: SkylightConnection::new(),
            registered_windows: HashMap::new(),
        }
    }

    /// Takes in a request. Returns the list of windows to subscribe to.
    pub fn on_command(&mut self, command: SkylightRequest) -> (list: WindowList)
        ensures
            match command {
                SkylightRequest::TrackWindow(wsid, wid, handle) => final(self)@ == old(
                    self,
                )@.tracking(wsid, wid, handle),
            },
            old(self)@.wf() ==> final(self)@.wf(),
            list.lists(final(self)@.watched),
    {
        broadcast use vstd::multiset::group_multiset_axioms;

        match command {
            SkylightRequest::TrackWindow(wsid, wid, handle) => {
                self.registered_windows.insert(wsid.0, (wid, handle));
                self.connection.add_window(wsid)
            },
        }
    }

    /// Takes note that a window is gone. Returns whom to tell, and what.
    pub fn on_window_destroyed(&mut self, wsid: WindowServerId) -> (told: Option<
        (AppThreadHandle, Request),
    >)
        ensures
            final(self)@ == old(self)@.without(wsid),
            told == (if old(self)@.registered.contains_key(wsid.0) {
                let (wid, handle) = old(self)@.registered[wsid.0];
                Some((handle, Request::WindowDestroyed(wid)))
            } else {
                None
            }),
    {
        match self.registered_windows.remove(&wsid.0) {
            Some((wid, handle)) => {
                self.connection.on_window_destroyed(wsid);
                Some((handle, Request::WindowDestroyed(wid)))
            },
            None => {
                assert(self.registered_windows@ =~= old(self)@.registered);
                None
            },
        }
    }
}

/// The destruction of a window is reported once: after that, the window is not
/// registered any more.
pub proof fn destruction_is_reported_once(state: WatcherState, wsid: WindowServerId)
    ensures
        !state.without(wsid).registered.contains_key(wsid.0),
        state.without(wsid).without(wsid) == state.without(wsid),
{
}

/// Windows stay watched as long as they are registered, whatever happens to
/// other windows.
pub proof fn other_windows_stay_watched(state: WatcherState, wsid: WindowServerId)
    requires
        state.wf(),
    ensures
        state.without(wsid).wf(),
{
    broadcast use vstd::multiset::group_multiset_axioms;

}

/// Registering a window that was not known and losing it again restores the
/// state.
pub proof fn tracking_and_losing_restores(
    state: WatcherState,
    wsid: WindowServerId,
    wid: WindowId,
    handle: AppThreadHandle,
)
    requires
        !state.registered.contains_key(wsid.0),
    ensures
        state.tracking(wsid, wid, handle).without(wsid) == state,
{
    broadcast use vstd::multiset::group_multiset_axioms;

    let after = state.tracking(wsid, wid, handle).without(wsid);
    assert(after.registered =~= state.registered);
    assert(after.watched =~= state.watched);
}

proof fn spoken_one_by_one(messages: Seq<Message>)
    ensures
        said(messages).len() == messages.len(),
        forall|k: int| 0 <= k < messages.len() ==> said(messages)[k] == (#[trigger] messages[k])@,
{
}

/// The windows of a list at the ordinary, the floating and the status level, in
/// their order.
pub open spec fn windows_that_count(windows: Seq<WindowServerInfo>) -> Seq<WindowServerInfo> {
    windows.filter(|w: WindowServerInfo| w.layer == 0 || w.layer == 3 || w.layer == 8)
}

/// The identifiers of the windows of a list, in their order.
pub open spec fn identifiers(windows: Seq<WindowServerInfo>) -> Seq<WindowServerId> {
    Seq::new(windows.len(), |i: int| windows[i].id)
}

/// Whether a snapshot holds exactly `windows`, and their identifiers.
pub open spec fn shows_exactly(on_screen: WindowsOnScreen, windows: Seq<WindowServerInfo>) -> bool {
    &&& on_screen.windows@ == windows
    &&& on_screen.visible@ == identifiers(windows)
}

proof fn the_windows_that_count(windows: Seq<WindowServerInfo>)
    ensures
        relevant_windows(windows) == windows_that_count(windows),
        window_ids(windows_that_count(windows)) == identifiers(windows_that_count(windows)),
    decreases windows.len(),
{
    reveal(Seq::filter);
    if windows.len() > 0 {
        the_windows_that_count(windows.drop_last());
    }
    assert(relevant_windows(windows) =~= windows_that_count(windows));
    assert(window_ids(windows_that_count(windows)) =~= identifiers(windows_that_count(windows)));
}

/// Which windows count is settled by the level alone: those at the ordinary, the
/// floating and the status level are kept in their order, and nothing else is.
pub proof fn levels_decide_which_windows_count(windows: Seq<WindowServerInfo>, i: int)
    requires
        0 <= i < windows.len(),
    ensures
        windows_that_count(windows.take(i + 1)) == (if windows[i].layer == 0 || windows[i].layer
            == 3 || windows[i].layer == 8 {
            windows_that_count(windows.take(i)).push(windows[i])
        } else {
            windows_that_count(windows.take(i))
        }),
        windows_that_count(windows.take(0)) == Seq::<WindowServerInfo>::empty(),
{
    reveal(Seq::filter);
    assert(windows.take(i + 1).drop_last() =~= windows.take(i));
}

/// Whether a message is the report of all windows that count to the reactor, on
/// behalf of the process `pid`.
pub open spec fn reports_windows(message: Message, pid: pid_t, windows: Seq<WindowServerInfo>) -> bool {
    &&& message matches Message::SpaceManager(
        space_manager::Event::ReactorEvent(
            reactor::Event::WindowsOnScreenUpdated { pid: told_pid, on_screen },
        ),
    )
    &&& told_pid == Some(pid)
    &&& shows_exactly(on_screen, windows)
}

/// A new window is reported first, and that it is visible last. In between comes
/// the list of windows, exactly where its identifiers are others than before,
/// whatever was known.
pub proof fn a_new_window_brings_the_changed_list(
    server: &mut WindowServer,
    wid: WindowId,
    info: WindowInfo,
    mouse: MouseState,
    reading: Reading,
    messages: Vec<Message>,
)
    requires
        call_ensures(WindowServer::on_event, (server, Event::WindowCreated(wid, info, mouse), reading), messages),
    ensures
        ({
            let before = old(server)@;
            let after = final(server)@;
            let seen = windows_that_count(reading.windows@);
            let changed = identifiers(seen) != before;
            let n = messages@.len() as int;
            &&& after == identifiers(seen)
            &&& n == (if changed {
                3int
            } else {
                2
            })
            &&& messages@[0] matches Message::SpaceManager(
                space_manager::Event::ReactorEvent(
                    reactor::Event::WindowCreated(told_wid, told_info, told_mouse),
                ),
            )
            &&& told_wid == wid
            &&& told_info@ == info@
            &&& told_mouse == mouse
            &&& changed ==> reports_windows(messages@[1], wid.pid, seen)
            &&& messages@[n - 1] == Message::SpaceManager(
                space_manager::Event::ReactorEvent(reactor::Event::WindowBecameVisible(wid)),
            )
        }),
{
    reveal(visible_after);
    reveal(sends);
    spoken_one_by_one(messages@);
    the_windows_that_count(reading.windows@);
    assert(said(messages@)[0] == messages@[0]@);
    assert(said(messages@).last() == messages@[messages@.len() - 1]@);
}

/// A window that comes or goes brings the list of windows, exactly where its
/// identifiers are others than before.
pub proof fn a_change_of_visibility_brings_the_changed_list(
    server: &mut WindowServer,
    wid: WindowId,
    reading: Reading,
    messages: Vec<Message>,
)
    requires
        call_ensures(WindowServer::on_event, (server, Event::WindowVisibilityChanged(wid), reading), messages),
    ensures
        ({
            let before = old(server)@;
            let after = final(server)@;
            let seen = windows_that_count(reading.windows@);
            let changed = identifiers(seen) != before;
            &&& after == identifiers(seen)
            &&& changed ==> messages@.len() == 1 && reports_windows(messages@[0], wid.pid, seen)
            &&& !changed ==> messages@.len() == 0
        }),
{
    reveal(visible_after);
    reveal(sends);
    spoken_one_by_one(messages@);
    the_windows_that_count(reading.windows@);
}

/// A change of spaces, or the request for a fresh look, sends the spaces as they
/// are and all windows that count.
pub proof fn spaces_are_sent_with_their_windows(
    server: &mut WindowServer,
    event: Event,
    reading: Reading,
    messages: Vec<Message>,
)
    requires
        call_ensures(WindowServer::on_event, (server, event, reading), messages),
        event is SpaceChanged || event is RequestSpaceRefresh,
    ensures
        ({
            let after = final(server)@;
            let seen = windows_that_count(reading.windows@);
            &&& after == identifiers(seen)
            &&& messages@.len() == 1
            &&& messages@[0] matches Message::SpaceManager(
                space_manager::Event::SpaceChanged(spaces, on_screen),
            )
            &&& spaces@ == reading.spaces@
            &&& shows_exactly(on_screen, seen)
        }),
{
    reveal(visible_after);
    reveal(sends);
    spoken_one_by_one(messages@);
    the_windows_that_count(reading.windows@);
}

/// New screens are sent with what is known of each of them, one list for each
/// fact, with their spaces and all windows that count.
#[verifier::rlimit(40)]
pub proof fn screens_are_sent_with_all_that_is_known(
    server: &mut WindowServer,
    given: Vec<ScreenInfo>,
    screens: Vec<ScreenInfo>,
    converter: CoordinateConverter,
    reading: Reading,
    messages: Vec<Message>,
)
    requires
        call_ensures(WindowServer::on_event, (server, Event::ScreenParametersChanged(given), reading), messages),
        reading.screens == Some((screens, converter)),
    ensures
        ({
            let after = final(server)@;
            let seen = windows_that_count(reading.windows@);
            &&& after == identifiers(seen)
            &&& messages@.len() == 1
            &&& messages@[0] matches Message::SpaceManager(
                space_manager::Event::ScreenParametersChanged {
                    screens: ids,
                    frames,
                    spaces,
                    scale_factors,
                    converter: told_converter,
                    on_screen,
                },
            )
            &&& ids@.len() == screens@.len()
            &&& frames@.len() == screens@.len()
            &&& scale_factors@.len() == screens@.len()
            &&& forall|i: int|
                0 <= i < screens@.len() ==> (#[trigger] screens@[i]).id == ids@[i]
                    && screens@[i].visible_frame == frames@[i] && screens@[i].scale_factor
                    == scale_factors@[i]
            &&& spaces@ == reading.spaces@
            &&& told_converter == converter
            &&& shows_exactly(on_screen, seen)
        }),
{
    reveal(visible_after);
    reveal(sends);
    spoken_one_by_one(messages@);
    the_windows_that_count(reading.windows@);
}

/// Where the screens cannot be told, nothing is sent and nothing is learned.
pub proof fn unknown_screens_are_not_sent(
    server: &mut WindowServer,
    given: Vec<ScreenInfo>,
    reading: Reading,
    messages: Vec<Message>,
)
    requires
        call_ensures(WindowServer::on_event, (server, Event::ScreenParametersChanged(given), reading), messages),
        reading.screens is None,
    ensures
        ({
            let before = old(server)@;
            let after = final(server)@;
            &&& after == before
            &&& messages@.len() == 0
        }),
{
    reveal(visible_after);
    reveal(sends);
    spoken_one_by_one(messages@);
}

/// An application that is launched is reported with all its windows as they came,
/// after the windows that count.
#[verifier::rlimit(40)]
pub proof fn a_launch_follows_its_windows(
    server: &mut WindowServer,
    pid: pid_t,
    handle: AppThreadHandle,
    info: AppInfo,
    is_frontmost: bool,
    main_window: Option<WindowId>,
    visible_windows: Vec<(WindowId, WindowInfo)>,
    reading: Reading,
    messages: Vec<Message>,
)
    requires
        call_ensures(WindowServer::on_event, (server, Event::ApplicationLaunched {
            pid,
            handle,
            info,
            is_frontmost,
            main_window,
            visible_windows,
        }, reading), messages),
    ensures
        ({
            let after = final(server)@;
            let seen = windows_that_count(reading.windows@);
            &&& after == identifiers(seen)
            &&& messages@.len() == 2
            &&& reports_windows(messages@[0], pid, seen)
            &&& messages@[1] matches Message::SpaceManager(
                space_manager::Event::ReactorEvent(
                    reactor::Event::ApplicationLaunched {
                        pid: told_pid,
                        info: told_info,
                        handle: told_handle,
                        is_frontmost: told_front,
                        main_window: told_main,
                        visible_windows: told_windows,
                    },
                ),
            )
            &&& told_pid == pid
            &&& told_info@ == info@
            &&& told_handle == handle
            &&& told_front == is_frontmost
            &&& told_main == main_window
            &&& told_windows@.len() == visible_windows@.len()
            &&& forall|i: int|
                0 <= i < visible_windows@.len() ==> (#[trigger] told_windows@[i]).0
                    == visible_windows@[i].0 && told_windows@[i].1@ == visible_windows@[i].1@
        }),
{
    reveal(visible_after);
    reveal(sends);
    spoken_one_by_one(messages@);
    the_windows_that_count(reading.windows@);
    if let Message::SpaceManager(
        space_manager::Event::ReactorEvent(
            reactor::Event::ApplicationLaunched { visible_windows: told_windows, .. },
        ),
    ) = messages@[1] {
        let told = reactor::described(told_windows@);
        let given = reactor::described(visible_windows@);
        assert(told == given);
        assert(told.len() == told_windows@.len());
        assert forall|i: int| 0 <= i < visible_windows@.len() implies (
        #[trigger] told_windows@[i]).0 == visible_windows@[i].0 && told_windows@[i].1@
            == visible_windows@[i].1@ by {
            assert(told[i] == given[i]);
        }
    }
}

/// A window that is registered is handed on to be watched, and nothing else
/// happens.
pub proof fn a_registered_window_is_handed_on(
    server: &mut WindowServer,
    wsid: WindowServerId,
    wid: WindowId,
    handle: AppThreadHandle,
    reading: Reading,
    messages: Vec<Message>,
)
    requires
        call_ensures(WindowServer::on_event, (server, Event::RegisterWindow(wsid, wid, handle), reading), messages),
    ensures
        ({
            let before = old(server)@;
            let after = final(server)@;
            &&& after == before
            &&& messages@.len() == 1
            &&& messages@[0] == Message::Skylight(SkylightRequest::TrackWindow(wsid, wid, handle))
        }),
{
    reveal(visible_after);
    reveal(sends);
    spoken_one_by_one(messages@);
}

/// A change of the main window reaches the reactor as it came.
pub proof fn a_change_of_the_main_window_is_passed_on(
    server: &mut WindowServer,
    pid: pid_t,
    wid: Option<WindowId>,
    quiet: Quiet,
    reading: Reading,
    messages: Vec<Message>,
)
    requires
        call_ensures(WindowServer::on_event, (server, Event::ApplicationMainWindowChanged(pid, wid, quiet), reading), messages),
    ensures
        ({
            let before = old(server)@;
            let after = final(server)@;
            &&& after == before
            &&& messages@.len() == 1
            &&& messages@[0] == Message::SpaceManager(
                space_manager::Event::ReactorEvent(
                    reactor::Event::ApplicationMainWindowChanged(pid, wid, quiet),
                ),
            )
        }),
{
    reveal(visible_after);
    reveal(sends);
    spoken_one_by_one(messages@);
}

/// An event for the reactor is passed on as it came.
pub proof fn events_for_the_reactor_are_passed_on(
    server: &mut WindowServer,
    event: reactor::Event,
    reading: Reading,
    messages: Vec<Message>,
)
    requires
        call_ensures(WindowServer::on_event, (server, Event::ReactorEvent(event), reading), messages),
    ensures
        ({
            let before = old(server)@;
            let after = final(server)@;
            &&& after == before
            &&& messages@.len() == 1
            &&& messages@[0] matches Message::SpaceManager(
                space_manager::Event::ReactorEvent(passed),
            )
            &&& passed@ == event@
        }),
{
    reveal(visible_after);
    reveal(sends);
    spoken_one_by_one(messages@);
}

/// The windows that are known to be visible only change to those of the last list
/// that was sent, by whatever event.
pub proof fn what_is_known_was_sent(
    server: &mut WindowServer,
    event: Event,
    reading: Reading,
    messages: Vec<Message>,
)
    requires
        call_ensures(WindowServer::on_event, (server, event, reading), messages),
        final(server)@ != old(server)@,
    ensures
        exists|k: int|
            0 <= k < messages@.len() && (match #[trigger] messages@[k] {
                Message::SpaceManager(
                    space_manager::Event::ReactorEvent(
                        reactor::Event::WindowsOnScreenUpdated { on_screen, .. },
                    ),
                ) => on_screen.visible@ == final(server)@,
                Message::SpaceManager(space_manager::Event::SpaceChanged(_, on_screen)) => {
                    on_screen.visible@ == final(server)@
                },
                Message::SpaceManager(
                    space_manager::Event::ScreenParametersChanged { on_screen, .. },
                ) => on_screen.visible@ == final(server)@,
                _ => false,
            }),
{
    reveal(visible_after);
    reveal(sends);
    spoken_one_by_one(messages@);
    let k = if event is WindowCreated {
        1int
    } else {
        0
    };
    assert(said(messages@)[k] == messages@[k]@);
}

/// A server knows of no window at first.
pub proof fn a_server_starts_from_nothing(server: WindowServer)
    requires
        call_ensures(WindowServer::new, (), server),
    ensures
        server@.len() == 0,
{
}

/// An event says what it needs to know: the screens when they change, the spaces
/// when they may be others, and the windows whenever a list may be sent.
pub proof fn events_say_what_they_need(event: Event, what: Lookups)
    requires
        call_ensures(Event::lookups, (&event,), what),
    ensures
        what.screens == (event is ScreenParametersChanged),
        what.spaces == (event is ScreenParametersChanged || event is SpaceChanged || event
            is RequestSpaceRefresh),
        what.windows == !(event is RegisterWindow || event is ApplicationMainWindowChanged
            || event is ReactorEvent),
{
}

/// A window that is to be watched is remembered with its owner, and watched once
/// more; the list to subscribe to holds every watched window as often as it is
/// watched.
pub proof fn tracked_windows_are_remembered(
    watcher: &mut SkylightWatcher,
    wsid: WindowServerId,
    wid: WindowId,
    handle: AppThreadHandle,
    list: WindowList,
    other: u32,
)
    requires
        call_ensures(
            SkylightWatcher::on_command,
            (watcher, SkylightRequest::TrackWindow(wsid, wid, handle)),
            list,
        ),
    ensures
        ({
            let before = old(watcher)@;
            let after = final(watcher)@;
            &&& after.registered.contains_key(wsid.0)
            &&& after.registered[wsid.0] == (wid, handle)
            &&& after.watched.count(wsid.0) == before.watched.count(wsid.0) + 1
            &&& other != wsid.0 ==> {
                &&& after.registered.contains_key(other) == before.registered.contains_key(other)
                &&& before.registered.contains_key(other) ==> after.registered[other]
                    == before.registered[other]
                &&& after.watched.count(other) == before.watched.count(other)
            }
            &&& list.windows@.to_multiset().count(other) == after.watched.count(other)
        }),
        list.count == list.windows@.len() as i32,
{
    broadcast use vstd::multiset::group_multiset_axioms;

}

/// When a registered window is gone, its owner is told so, and it is watched once
/// less; other windows stay as they are. Of a window that is not registered
/// nothing is made.
pub proof fn the_owner_of_a_lost_window_is_told(
    watcher: &mut SkylightWatcher,
    wsid: WindowServerId,
    told: Option<(AppThreadHandle, Request)>,
    other: u32,
)
    requires
        call_ensures(SkylightWatcher::on_window_destroyed, (watcher, wsid), told),
    ensures
        ({
            let before = old(watcher)@;
            let after = final(watcher)@;
            let known = before.registered.contains_key(wsid.0);
            &&& known ==> {
                &&& told == Some(
                    (
                        before.registered[wsid.0].1,
                        Request::WindowDestroyed(before.registered[wsid.0].0),
                    ),
                )
                &&& !after.registered.contains_key(wsid.0)
                &&& before.watched.count(wsid.0) > 0 ==> after.watched.count(wsid.0)
                    == before.watched.count(wsid.0) - 1
            }
            &&& !known ==> told is None && after == before
            &&& other != wsid.0 ==> {
                &&& after.registered.contains_key(other) == before.registered.contains_key(other)
                &&& before.registered.contains_key(other) ==> after.registered[other]
                    == before.registered[other]
                &&& after.watched.count(other) == before.watched.count(other)
            }
        }),
{
    broadcast use vstd::multiset::group_multiset_axioms;

}

/// The number of a window.
pub open spec fn number_of(wsid: WindowServerId) -> int {
    wsid.0 as int
}

/// A notification names its window by four bytes, in one of the two orders; one of
/// another kind names none.
pub proof fn notifications_name_their_window(
    expected_event: u32,
    event: u32,
    data: Vec<u8>,
    wsid: Option<WindowServerId>,
)
    requires
        call_ensures(notified_window, (expected_event, event, &data), wsid),
        data@.len() == 4,
    ensures
        wsid is Some <==> event == expected_event,
        wsid matches Some(named) ==> {
            let (a, b, c, d) = (data@[0] as int, data@[1] as int, data@[2] as int, data@[3] as int);
            ||| number_of(named) == a + 256 * (b + 256 * (c + 256 * d))
            ||| number_of(named) == d + 256 * (c + 256 * (b + 256 * a))
        },
{
}

} // verus!
