use glide_wm::actor::dock::{handle_notification, Dock, DockError, DockStep};
use glide_wm::actor::notification_center::{
    handle_app_event, handle_screen_changed_event, Handler, Message, Notification,
    NotificationCenter, Source,
};
use glide_wm::actor::wm_controller::WmEvent;
use glide_wm::actor::{space_manager, window_server};
use glide_wm::sys::app::AppInfo;

fn app() -> AppInfo {
    AppInfo { bundle_id: Some("com.example".to_owned()), localized_name: None }
}

#[test]
fn dock_notifications_are_understood() {
    for name in ["AXExposeShowAllWindows", "AXExposeShowFrontWindows", "AXExposeShowDesktop"] {
        assert!(matches!(
            handle_notification(name),
            Some(space_manager::Event::ExposeActive(true))
        ));
    }
    assert!(matches!(
        handle_notification("AXExposeExit"),
        Some(space_manager::Event::ExposeActive(false))
    ));
    assert!(handle_notification("AXExpose").is_none());
}

#[test]
fn the_dock_is_watched_step_by_step() {
    let mut answers = vec![];
    let mut steps = vec![];
    let last = loop {
        match Dock::init(&vec![77], &answers) {
            DockStep::Observe(pid) => steps.push(format!("observe {pid}")),
            DockStep::AddNotification(pid, name) => steps.push(format!("add {pid} {name}")),
            other => break other,
        }
        answers.push(true);
    };
    assert_eq!(
        steps,
        vec![
            "observe 77",
            "add 77 AXExposeExit",
            "add 77 AXExposeShowAllWindows",
            "add 77 AXExposeShowFrontWindows",
            "add 77 AXExposeShowDesktop",
        ]
    );
    assert!(matches!(last, DockStep::Watching(77)));
    assert_eq!(Dock::new(&last).process(), Some(77));
}

#[test]
fn a_dock_that_cannot_be_watched_is_left_alone() {
    let step = Dock::init(&vec![], &vec![]);
    assert!(matches!(step, DockStep::Failed(DockError::Instances(0))));
    assert_eq!(Dock::new(&step).process(), None);
    assert!(matches!(
        Dock::init(&vec![1, 2], &vec![]),
        DockStep::Failed(DockError::Instances(2))
    ));
    assert!(matches!(
        Dock::init(&vec![1], &vec![false]),
        DockStep::Failed(DockError::Observer)
    ));
    match Dock::init(&vec![1], &vec![true, true, false]) {
        DockStep::Failed(DockError::Notification(name)) => {
            assert_eq!(name, "AXExposeShowAllWindows")
        }
        other => panic!("unexpected step {other:?}"),
    }
}

#[test]
fn screen_notifications_go_to_the_window_server() {
    assert!(matches!(
        handle_screen_changed_event(Notification::WorkspaceActiveSpaceDidChange, vec![]),
        window_server::Event::SpaceChanged
    ));
    assert!(matches!(
        handle_screen_changed_event(Notification::ApplicationDidChangeScreenParameters, vec![]),
        window_server::Event::ScreenParametersChanged(screens) if screens.is_empty()
    ));
}

#[test]
fn application_notifications_go_to_the_controller() {
    let send = |n| handle_app_event(n, Some((4, app())));
    assert!(matches!(
        send(Notification::WorkspaceDidLaunchApplication),
        Some(Message::Wm(WmEvent::AppLaunch(4, info)))
            if info.bundle_id.as_deref() == Some("com.example")
    ));
    assert!(matches!(
        send(Notification::WorkspaceDidActivateApplication),
        Some(Message::Wm(WmEvent::AppGloballyActivated(4)))
    ));
    assert!(matches!(
        send(Notification::WorkspaceDidDeactivateApplication),
        Some(Message::Wm(WmEvent::AppGloballyDeactivated(4)))
    ));
    assert!(matches!(
        send(Notification::WorkspaceDidTerminateApplication),
        Some(Message::Wm(WmEvent::AppTerminated(4)))
    ));
    assert!(matches!(
        send(Notification::WorkspaceActiveSpaceDidChange),
        Some(Message::WindowServer(window_server::Event::SpaceChanged))
    ));
    assert!(handle_app_event(Notification::WorkspaceDidLaunchApplication, None).is_none());
}

#[test]
fn every_registration_suits_its_handler() {
    let center = NotificationCenter::new();
    assert_eq!(center.registrations().len(), 6);
    for registration in center.registrations() {
        match registration.handler {
            Handler::ScreenChangedEvent => {
                handle_screen_changed_event(registration.notification, vec![]);
            }
            Handler::AppEvent => {
                assert_eq!(registration.source, Source::Workspace);
                assert!(handle_app_event(registration.notification, Some((1, app()))).is_some());
            }
        }
    }
    assert_eq!(center.registrations()[0].source, Source::Application);
}

#[test]
fn startup_reports_screens_then_registration_then_the_front() {
    let center = NotificationCenter::new();
    let messages = center.watch_for_notifications(vec![], Some(3));
    assert!(matches!(
        messages.as_slice(),
        [
            Message::WindowServer(window_server::Event::ScreenParametersChanged(_)),
            Message::Wm(WmEvent::AppEventsRegistered),
            Message::Wm(WmEvent::AppGloballyActivated(3))
        ]
    ));
    assert_eq!(center.watch_for_notifications(vec![], None).len(), 2);
}
