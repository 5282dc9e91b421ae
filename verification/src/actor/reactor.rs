//! The reactor keeps the state of the system and the layout together.

pub mod animation;
pub mod testing;

use std::sync::Arc;

use vstd::prelude::*;

use crate::actor::app::{AppThreadHandle, Quiet, WindowId};
use crate::actor::layout::LayoutCommand;
use crate::config::Config;
use crate::sys::app::{
    pid_t, same_app_info, same_window_info, AppInfo, AppInfoView, WindowInfo, WindowInfoView,
};
use crate::sys::event::MouseState;
use crate::sys::geometry::{CGFloat, CGRect};
use crate::sys::screen::{CoordinateConverter, SpaceId};
use crate::sys::window_server::{WindowsOnScreen, WindowsOnScreenView};

verus! {

/// Numbers the writes to a window, so that an answer can be matched with the
/// write it has seen.
#[derive(Clone, Copy, PartialEq, Eq, Structural, Hash, Debug)]
pub struct TransactionId(pub u32);

impl Default for TransactionId {
    fn default() -> (txid: TransactionId)
        ensures
            txid == TransactionId(0),
    {
        TransactionId(0)
    }
}

/// Whether a change of a frame answers a request of ours.
#[derive(Clone, Copy, PartialEq, Eq, Structural, Debug)]
pub struct Requested(pub bool);

/// A command to the reactor.
#[derive(Clone, Copy, PartialEq, Eq, Structural, Debug)]
pub enum Command {
    /// Logs the state of the layout.
    Debug,
    Layout(LayoutCommand),
}

/// What the reactor is told.
#[derive(Debug)]
pub enum Event {
    ApplicationLaunched {
        pid: pid_t,
        info: AppInfo,
        handle: AppThreadHandle,
        is_frontmost: bool,
        main_window: Option<WindowId>,
        visible_windows: Vec<(WindowId, WindowInfo)>,
    },
    ApplicationTerminated(pid_t),
    ApplicationGloballyActivated(pid_t),
    ApplicationGloballyDeactivated(pid_t),
    ApplicationMainWindowChanged(pid_t, Option<WindowId>, Quiet),
    WindowsDiscovered {
        pid: pid_t,
        new: Vec<(WindowId, WindowInfo)>,
        known_visible: Vec<WindowId>,
    },
    WindowCreated(WindowId, WindowInfo, MouseState),
    WindowBecameVisible(WindowId),
    WindowFrameChanged(WindowId, CGRect, TransactionId, Requested, Option<MouseState>),
    WindowsOnScreenUpdated { pid: Option<pid_t>, on_screen: WindowsOnScreen },
    ScreenParametersChanged {
        frames: Vec<CGRect>,
        spaces: Vec<Option<SpaceId>>,
        converter: CoordinateConverter,
        scale_factors: Vec<CGFloat>,
    },
    SpaceChanged(Vec<Option<SpaceId>>, WindowsOnScreen),
    StartupComplete,
    Command(Command),
    ConfigChanged(Arc<Config>),
}

/// The windows of a list, each with what is known of it.
pub open spec fn described(windows: Seq<(WindowId, WindowInfo)>) -> Seq<(WindowId, WindowInfoView)> {
    windows.map_values(|w: (WindowId, WindowInfo)| (w.0, w.1@))
}

/// What an [`Event`] says.
pub enum EventView {
    ApplicationLaunched {
        pid: pid_t,
        info: AppInfoView,
        handle: AppThreadHandle,
        is_frontmost: bool,
        main_window: Option<WindowId>,
        visible_windows: Seq<(WindowId, WindowInfoView)>,
    },
    ApplicationTerminated(pid_t),
    ApplicationGloballyActivated(pid_t),
    ApplicationGloballyDeactivated(pid_t),
    ApplicationMainWindowChanged(pid_t, Option<WindowId>, Quiet),
    WindowsDiscovered {
        pid: pid_t,
        new: Seq<(WindowId, WindowInfoView)>,
        known_visible: Seq<WindowId>,
    },
    WindowCreated(WindowId, WindowInfoView, MouseState),
    WindowBecameVisible(WindowId),
    WindowFrameChanged(WindowId, CGRect, TransactionId, Requested, Option<MouseState>),
    WindowsOnScreenUpdated { pid: Option<pid_t>, on_screen: WindowsOnScreenView },
    ScreenParametersChanged {
        frames: Seq<CGRect>,
        spaces: Seq<Option<SpaceId>>,
        converter: CoordinateConverter,
        scale_factors: Seq<CGFloat>,
    },
    SpaceChanged(Seq<Option<SpaceId>>, WindowsOnScreenView),
    StartupComplete,
    Command(Command),
    ConfigChanged(Arc<Config>),
}

impl View for Event {
    type V = EventView;

    open spec fn view(&self) -> EventView {
        match *self {
            Event::ApplicationLaunched {
                pid,
                info,
                handle,
                is_frontmost,
                main_window,
                visible_windows,
            } => EventView::ApplicationLaunched {
                pid,
                info: info@,
                handle,
                is_frontmost,
                main_window,
                visible_windows: described(visible_windows@),
            },
            Event::ApplicationTerminated(pid) => EventView::ApplicationTerminated(pid),
            Event::ApplicationGloballyActivated(pid) => {
                EventView::ApplicationGloballyActivated(pid)
            },
            Event::ApplicationGloballyDeactivated(pid) => {
                EventView::ApplicationGloballyDeactivated(pid)
            },
            Event::ApplicationMainWindowChanged(pid, wid, quiet) => {
                EventView::ApplicationMainWindowChanged(pid, wid, quiet)
            },
            Event::WindowsDiscovered { pid, new, known_visible } => EventView::WindowsDiscovered {
                pid,
                new: described(new@),
                known_visible: known_visible@,
            },
            Event::WindowCreated(wid, info, mouse) => EventView::WindowCreated(wid, info@, mouse),
            Event::WindowBecameVisible(wid) => EventView::WindowBecameVisible(wid),
            Event::WindowFrameChanged(wid, frame, txid, requested, mouse) => {
                EventView::WindowFrameChanged(wid, frame, txid, requested, mouse)
            },
            Event::WindowsOnScreenUpdated { pid, on_screen } => {
                EventView::WindowsOnScreenUpdated { pid, on_screen: on_screen@ }
            },
            Event::ScreenParametersChanged { frames, spaces, converter, scale_factors } => {
                EventView::ScreenParametersChanged {
                    frames: frames@,
                    spaces: spaces@,
                    converter,
                    scale_factors: scale_factors@,
                }
            },
            Event::SpaceChanged(spaces, on_screen) => EventView::SpaceChanged(spaces@, on_screen@),
            Event::StartupComplete => EventView::StartupComplete,
            Event::Command(command) => EventView::Command(command),
            Event::ConfigChanged(config) => EventView::ConfigChanged(config),
        }
    }
}

/// Transactions are counted from zero.
pub proof fn transactions_are_counted_from_zero(txid: TransactionId)
    requires
        call_ensures(<TransactionId as Default>::default, (), txid),
    ensures
        txid.0 == 0,
{
}

/// Whether two lists hold the same windows, described alike.
pub open spec fn same_window_lists(
    a: Seq<(WindowId, WindowInfo)>,
    b: Seq<(WindowId, WindowInfo)>,
) -> bool {
    &&& a.len() == b.len()
    &&& forall|i: int|
        #![trigger a[i]]
        #![trigger b[i]]
        0 <= i < a.len() ==> a[i].0 == b[i].0 && same_window_info(a[i].1, b[i].1)
}

proof fn descriptions_tell_lists_apart(
    a: Seq<(WindowId, WindowInfo)>,
    b: Seq<(WindowId, WindowInfo)>,
)
    requires
        described(a) == described(b),
    ensures
        same_window_lists(a, b),
{
    assert(described(a).len() == a.len());
    assert(described(b).len() == b.len());
    assert forall|i: int|
        #![trigger a[i]]
        #![trigger b[i]]
        0 <= i < a.len() implies a[i].0 == b[i].0 && same_window_info(a[i].1, b[i].1) by {
        assert(described(a)[i] == (a[i].0, a[i].1@));
        assert(described(b)[i] == (b[i].0, b[i].1@));
    }
}

/// Whether two snapshots hold the same windows and identifiers.
pub open spec fn same_snapshots(a: WindowsOnScreen, b: WindowsOnScreen) -> bool {
    a.visible@ == b.visible@ && a.windows@ == b.windows@
}

/// What an event says leaves nothing out: events that say the same are of one kind
/// and agree in all that they hold.
pub proof fn events_leave_nothing_out(a: Event, b: Event)
    requires
        a@ == b@,
    ensures
        match (a, b) {
            (
                Event::ApplicationLaunched {
                    pid: p,
                    info: i,
                    handle: h,
                    is_frontmost: f,
                    main_window: m,
                    visible_windows: v,
                },
                Event::ApplicationLaunched {
                    pid,
                    info,
                    handle,
                    is_frontmost,
                    main_window,
                    visible_windows,
                },
            ) => {
                &&& p == pid
                &&& same_app_info(i, info)
                &&& h == handle
                &&& f == is_frontmost
                &&& m == main_window
                &&& same_window_lists(v@, visible_windows@)
            },
            (
                Event::WindowsDiscovered { pid: p, new: n, known_visible: k },
                Event::WindowsDiscovered { pid, new, known_visible },
            ) => p == pid && same_window_lists(n@, new@) && k@ == known_visible@,
            (Event::WindowCreated(w, i, m), Event::WindowCreated(wid, info, mouse)) => {
                w == wid && same_window_info(i, info) && m == mouse
            },
            (
                Event::WindowsOnScreenUpdated { pid: p, on_screen: o },
                Event::WindowsOnScreenUpdated { pid, on_screen },
            ) => p == pid && same_snapshots(o, on_screen),
            (
                Event::ScreenParametersChanged {
                    frames: f,
                    spaces: s,
                    converter: c,
                    scale_factors: g,
                },
                Event::ScreenParametersChanged { frames, spaces, converter, scale_factors },
            ) => f@ == frames@ && s@ == spaces@ && c == converter && g@ == scale_factors@,
            (Event::SpaceChanged(s, o), Event::SpaceChanged(spaces, on_screen)) => {
                s@ == spaces@ && same_snapshots(o, on_screen)
            },
            _ => a == b,
        },
{
    match (a, b) {
        (
            Event::ApplicationLaunched { visible_windows: v, .. },
            Event::ApplicationLaunched { visible_windows, .. },
        ) => {
            descriptions_tell_lists_apart(v@, visible_windows@);
        },
        (Event::WindowsDiscovered { new: n, .. }, Event::WindowsDiscovered { new, .. }) => {
            descriptions_tell_lists_apart(n@, new@);
        },
        _ => {},
    }
}

} // verus!
