//! This actor manages the global notification queue, which tells us when an
//! application is launched or focused or the screen state changes.

use vstd::prelude::*;

use crate::actor::window_server;
use crate::actor::wm_controller::WmEvent;
use crate::sys::app::{pid_t, AppInfo};
use crate::sys::screen::ScreenInfo;

verus! {

/// The notifications that are listened to.
#[derive(Clone, Copy, PartialEq, Eq, Structural, Debug)]
pub enum Notification {
    ApplicationDidChangeScreenParameters,
    WorkspaceActiveSpaceDidChange,
    WorkspaceDidLaunchApplication,
    WorkspaceDidActivateApplication,
    WorkspaceDidDeactivateApplication,
    WorkspaceDidTerminateApplication,
}

/// The two functions that notifications are handed to.
#[derive(Clone, Copy, PartialEq, Eq, Structural, Debug)]
pub enum Handler {
    ScreenChangedEvent,
    AppEvent,
}

/// Where a notification comes from.
#[derive(Clone, Copy, PartialEq, Eq, Structural, Debug)]
pub enum Source {
    /// The default notification center, on behalf of this application.
    Application,
    /// The notification center of the workspace, on its behalf.
    Workspace,
}

/// A notification, where it comes from and what it is handed to.
#[derive(Clone, Copy, PartialEq, Eq, Structural, Debug)]
pub struct Registration {
    pub handler: Handler,
    pub notification: Notification,
    pub source: Source,
}

/// All registrations.
pub open spec fn registrations() -> Seq<Registration> {
    seq![
        Registration {
            handler: Handler::ScreenChangedEvent,
            notification: Notification::ApplicationDidChangeScreenParameters,
            source: Source::Application,
        },
        Registration {
            handler: Handler::ScreenChangedEvent,
            notification: Notification::WorkspaceActiveSpaceDidChange,
            source: Source::Workspace,
        },
        Registration {
            handler: Handler::AppEvent,
            notification: Notification::WorkspaceDidLaunchApplication,
            source: Source::Workspace,
        },
        Registration {
            handler: Handler::AppEvent,
            notification: Notification::WorkspaceDidActivateApplication,
            source: Source::Workspace,
        },
        Registration {
            handler: Handler::AppEvent,
            notification: Notification::WorkspaceDidDeactivateApplication,
            source: Source::Workspace,
        },
        Registration {
            handler: Handler::AppEvent,
            notification: Notification::WorkspaceDidTerminateApplication,
            source: Source::Workspace,
        },
    ]
}

/// A message that the actor sends, by whom it goes to.
#[derive(Debug)]
pub enum Message {
    Wm(WmEvent),
    WindowServer(window_server::Event),
}

/// Whether `handle_screen_changed_event` takes the notification.
pub open spec fn is_screen_event(notification: Notification) -> bool {
    notification == Notification::ApplicationDidChangeScreenParameters || notification
        == Notification::WorkspaceActiveSpaceDidChange
}

/// Whether `handle_app_event` takes the notification.
pub open spec fn is_app_event(notification: Notification) -> bool {
    notification != Notification::ApplicationDidChangeScreenParameters
}

/// Takes in a notification about the screens, with the screens as they are now,
/// and returns what the window server is told.
pub fn handle_screen_changed_event(notification: Notification, screens: Vec<ScreenInfo>) -> (event:
    window_server::Event)
    requires
        is_screen_event(notification),
    ensures
        event == (if notification == Notification::WorkspaceActiveSpaceDidChange {
            window_server::Event::SpaceChanged
        } else {
            window_server::Event::ScreenParametersChanged(screens)
        }),
{
    match notification {
        Notification::WorkspaceActiveSpaceDidChange => window_server::Event::SpaceChanged,
        _ => window_server::Event::ScreenParametersChanged(screens),
    }
}

/// What is sent for a notification about an application.
pub open spec fn app_message(notification: Notification, pid: pid_t, info: AppInfo) -> Message {
    match notification {
        Notification::WorkspaceDidLaunchApplication => Message::Wm(WmEvent::AppLaunch(pid, info)),
        Notification::WorkspaceDidActivateApplication => Message::Wm(
            WmEvent::AppGloballyActivated(pid),
        ),
        Notification::WorkspaceDidDeactivateApplication => Message::Wm(
            WmEvent::AppGloballyDeactivated(pid),
        ),
        Notification::WorkspaceDidTerminateApplication => Message::Wm(WmEvent::AppTerminated(pid)),
        _ => Message::WindowServer(window_server::Event::SpaceChanged),
    }
}

/// Takes in a notification about an application and returns what is sent:
/// nothing where the notification names no application.
pub fn handle_app_event(notification: Notification, app: Option<(pid_t, AppInfo)>) -> (message:
    Option<Message>)
    requires
        app is Some ==> is_app_event(notification),
    ensures
        message == (match app {
            Some((pid, info)) => Some(app_message(notification, pid, info)),
            None => None,
        }),
{
    match app {
        Some((pid, info)) => Some(
            match notification {
                Notification::WorkspaceDidLaunchApplication => Message::Wm(
                    WmEvent::AppLaunch(pid, info),
                ),
                Notification::WorkspaceDidActivateApplication => Message::Wm(
                    WmEvent::AppGloballyActivated(pid),
                ),
                Notification::WorkspaceDidDeactivateApplication => Message::Wm(
                    WmEvent::AppGloballyDeactivated(pid),
                ),
                Notification::WorkspaceDidTerminateApplication => Message::Wm(
                    WmEvent::AppTerminated(pid),
                ),
                _ => Message::WindowServer(window_server::Event::SpaceChanged),
            },
        ),
        None => None,
    }
}

/// Listens to notifications.
#[derive(Debug)]
pub struct NotificationCenter {
    registrations: Vec<Registration>,
}

impl NotificationCenter {
    /// What is registered for.
    pub closed spec fn registered(self) -> Seq<Registration> {
        self.registrations@
    }

    /// A center that is to be registered for all notifications.
    pub fn new() -> (center: NotificationCenter)
        ensures
            center.registered() == registrations(),
    {
        let mut all: Vec<Registration> = Vec::new();
        all.push(
            Registration {
                handler: Handler::ScreenChangedEvent,
                notification: Notification::ApplicationDidChangeScreenParameters,
                source: Source::Application,
            },
        );
        all.push(
            Registration {
                handler: Handler::ScreenChangedEvent,
                notification: Notification::WorkspaceActiveSpaceDidChange,
                source: Source::Workspace,
            },
        );
        all.push(
            Registration {
                handler: Handler::AppEvent,
                notification: Notification::WorkspaceDidLaunchApplication,
                source: Source::Workspace,
            },
        );
        all.push(
            Registration {
                handler: Handler::AppEvent,
                notification: Notification::WorkspaceDidActivateApplication,
                source: Source::Workspace,
            },
        );
        all.push(
            Registration {
                handler: Handler::AppEvent,
                notification: Notification::WorkspaceDidDeactivateApplication,
                source: Source::Workspace,
            },
        );
        all.push(
            Registration {
                handler: Handler::AppEvent,
                notification: Notification::WorkspaceDidTerminateApplication,
                source: Source::Workspace,
            },
        );
        assert(all@ =~= registrations());
        NotificationCenter { registrations: all }
    }

    /// What is registered for.
    pub fn registrations(&self) -> (all: &Vec<Registration>)
        ensures
            all@ == self.registered(),
    {
        &self.registrations
    }

    /// What is sent once everything is registered: the screens as they are, then
    /// that registration is done, then the application in front, if there is
    /// one.
    pub fn watch_for_notifications(&self, screens: Vec<ScreenInfo>, frontmost: Option<pid_t>) -> (
        messages: Vec<Message>)
        ensures
            messages@ == seq![
                Message::WindowServer(window_server::Event::ScreenParametersChanged(screens)),
                Message::Wm(WmEvent::AppEventsRegistered),
            ] + (match frontmost {
                Some(pid) => seq![Message::Wm(WmEvent::AppGloballyActivated(pid))],
                None => seq![],
            }),
    {
        let mut messages: Vec<Message> = Vec::new();
        messages.push(Message::WindowServer(window_server::Event::ScreenParametersChanged(screens)));
        messages.push(Message::Wm(WmEvent::AppEventsRegistered));
        if let Some(pid) = frontmost {
            messages.push(Message::Wm(WmEvent::AppGloballyActivated(pid)));
        }
        messages
    }
}

/// Every notification is handed to a function that takes it, and none is
/// registered for twice.
pub proof fn registrations_suit_their_handlers(i: int, j: int)
    requires
        0 <= i < registrations().len(),
        0 <= j < registrations().len(),
    ensures
        match registrations()[i].handler {
            Handler::ScreenChangedEvent => is_screen_event(registrations()[i].notification),
            Handler::AppEvent => is_app_event(registrations()[i].notification),
        },
        i != j ==> registrations()[i].notification != registrations()[j].notification,
{
}

/// Every notification is registered for.
pub proof fn all_notifications_are_registered(notification: Notification)
    ensures
        exists|i: int|
            0 <= i < registrations().len() && (#[trigger] registrations()[i]).notification
                == notification,
{
    let all = registrations();
    match notification {
        Notification::ApplicationDidChangeScreenParameters => {
            assert(all[0].notification == notification);
        },
        Notification::WorkspaceActiveSpaceDidChange => {
            assert(all[1].notification == notification);
        },
        Notification::WorkspaceDidLaunchApplication => {
            assert(all[2].notification == notification);
        },
        Notification::WorkspaceDidActivateApplication => {
            assert(all[3].notification == notification);
        },
        Notification::WorkspaceDidDeactivateApplication => {
            assert(all[4].notification == notification);
        },
        Notification::WorkspaceDidTerminateApplication => {
            assert(all[5].notification == notification);
        },
    }
}

/// A change of the active space is reported as such, and a change of the screens
/// with the screens as they are.
pub proof fn screen_notifications_are_told_apart(
    notification: Notification,
    screens: Vec<ScreenInfo>,
    event: window_server::Event,
)
    requires
        call_ensures(handle_screen_changed_event, (notification, screens), event),
    ensures
        notification is WorkspaceActiveSpaceDidChange ==> event is SpaceChanged,
        notification is ApplicationDidChangeScreenParameters ==> event
            == window_server::Event::ScreenParametersChanged(screens),
{
}

/// Each notification about an application tells the controller of that
/// application what has happened to it; without an application nothing is told.
pub proof fn application_notifications_are_told_apart(
    notification: Notification,
    app: Option<(pid_t, AppInfo)>,
    message: Option<Message>,
)
    requires
        call_ensures(handle_app_event, (notification, app), message),
    ensures
        app is None ==> message is None,
        app matches Some((pid, info)) ==> {
            &&& notification is WorkspaceDidLaunchApplication ==> message == Some(
                Message::Wm(WmEvent::AppLaunch(pid, info)),
            )
            &&& notification is WorkspaceDidActivateApplication ==> message == Some(
                Message::Wm(WmEvent::AppGloballyActivated(pid)),
            )
            &&& notification is WorkspaceDidDeactivateApplication ==> message == Some(
                Message::Wm(WmEvent::AppGloballyDeactivated(pid)),
            )
            &&& notification is WorkspaceDidTerminateApplication ==> message == Some(
                Message::Wm(WmEvent::AppTerminated(pid)),
            )
            &&& notification is WorkspaceActiveSpaceDidChange ==> message == Some(
                Message::WindowServer(window_server::Event::SpaceChanged),
            )
        },
{
}

/// A center registers for each of the six notifications once. Changes of screens
/// and spaces go to the handler of screens and all others to that of
/// applications; all but the change of screens come from the workspace.
pub proof fn a_center_registers_for_each_notification(
    center: NotificationCenter,
    all: &Vec<Registration>,
    i: int,
    j: int,
    notification: Notification,
)
    requires
        call_ensures(NotificationCenter::new, (), center),
        call_ensures(NotificationCenter::registrations, (&center,), all),
        0 <= i < all@.len(),
        0 <= j < all@.len(),
    ensures
        all@.len() == 6,
        i != j ==> all@[i].notification != all@[j].notification,
        exists|k: int| 0 <= k < 6 && (#[trigger] all@[k]).notification == notification,
        (all@[i].handler == Handler::ScreenChangedEvent) == (all@[i].notification
            is ApplicationDidChangeScreenParameters || all@[i].notification
            is WorkspaceActiveSpaceDidChange),
        (all@[i].source == Source::Application) == (all@[i].notification
            is ApplicationDidChangeScreenParameters),
{
    all_notifications_are_registered(notification);
    let k = choose|k: int|
        0 <= k < registrations().len() && (#[trigger] registrations()[k]).notification
            == notification;
    assert(all@[k].notification == notification);
}

/// Once everything is registered, the screens are sent first, then that
/// registration is done, and then the application in front, if there is one.
pub proof fn registration_is_followed_by_the_state(
    center: NotificationCenter,
    screens: Vec<ScreenInfo>,
    frontmost: Option<pid_t>,
    messages: Vec<Message>,
)
    requires
        call_ensures(
            NotificationCenter::watch_for_notifications,
            (&center, screens, frontmost),
            messages,
        ),
    ensures
        messages@[0] == Message::WindowServer(
            window_server::Event::ScreenParametersChanged(screens),
        ),
        messages@[1] == Message::Wm(WmEvent::AppEventsRegistered),
        frontmost is None ==> messages@.len() == 2,
        frontmost matches Some(pid) ==> messages@.len() == 3 && messages@[2] == Message::Wm(
            WmEvent::AppGloballyActivated(pid),
        ),
{
}

} // verus!
