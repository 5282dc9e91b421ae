use glide_wm::actor::app::{AppThreadHandle, Request, WindowId};
use glide_wm::actor::reactor::testing::{make_window, make_windows, Apps, WindowState};
use glide_wm::actor::reactor::{Event, Requested, TransactionId};
use glide_wm::sys::geometry::{CGFloat, CGPoint, CGRect, CGSize};
use glide_wm::sys::window_server::WindowServerId;

fn number(x: f64) -> CGFloat {
    CGFloat { bits: x.to_bits() }
}

fn rect(x: f64, y: f64, w: f64, h: f64) -> CGRect {
    CGRect {
        origin: CGPoint { x: number(x), y: number(y) },
        size: CGSize { width: number(w), height: number(h) },
    }
}

fn apps() -> Apps {
    Apps::new(AppThreadHandle { id: 11 })
}

fn same(a: CGRect, b: CGRect) -> bool {
    a == b
}

fn state(apps: &Apps, wid: WindowId) -> WindowState {
    apps.windows().get(wid).unwrap()
}

#[test]
fn windows_are_made_up() {
    let window = make_window(3);
    assert_eq!(window.title, "Window3");
    assert_eq!(window.frame, rect(300.0, 100.0, 50.0, 50.0));
    assert_eq!(window.sys_id, Some(WindowServerId::new(3)));
    assert!(window.is_standard && window.is_resizable);
    let windows = make_windows(12);
    assert_eq!(windows.len(), 12);
    assert_eq!(windows[0].title, "Window1");
    assert_eq!(windows[11].title, "Window12");
    assert_eq!(windows[11].frame.origin.x, number(1200.0));
    assert_eq!(make_window(0).frame.origin.x, number(0.0));
    assert_eq!(make_window(u32::MAX as usize).frame.origin.x, number(100.0 * 4294967295.0));
    assert!(make_windows(0).is_empty());
}

#[test]
fn an_application_is_launched() {
    let mut apps = apps();
    let events = apps.make_app(5, make_windows(2));
    match events.as_slice() {
        [
            Event::WindowsOnScreenUpdated { pid: Some(5), on_screen },
            Event::ApplicationLaunched {
                pid: 5,
                info,
                handle,
                is_frontmost: false,
                main_window,
                visible_windows,
            },
        ] => {
            assert_eq!(on_screen.visible, vec![WindowServerId(1), WindowServerId(2)]);
            assert_eq!(on_screen.windows[1].pid, 5);
            assert_eq!(on_screen.windows[1].layer, 0);
            assert_eq!(info.bundle_id.as_deref(), Some("com.testapp5"));
            assert_eq!(info.localized_name.as_deref(), Some("TestApp5"));
            assert_eq!(*handle, AppThreadHandle { id: 11 });
            assert_eq!(*main_window, Some(WindowId::new(5, 1)));
            assert_eq!(visible_windows.len(), 2);
            assert_eq!(visible_windows[1].0, WindowId::new(5, 2));
            assert_eq!(visible_windows[1].1.title, "Window2");
        }
        other => panic!("unexpected events {other:?}"),
    }
    assert_eq!(state(&apps, WindowId::new(5, 2)).frame, rect(200.0, 100.0, 50.0, 50.0));
    assert_eq!(apps.windows().get(WindowId::new(5, 3)), None);
}

#[test]
fn an_application_may_be_unknown_to_the_window_server() {
    let mut apps = apps();
    let events = apps.make_app_without_ws_info(-4, make_windows(1), None, true);
    match events.as_slice() {
        [Event::ApplicationLaunched { info, is_frontmost: true, main_window: None, .. }] => {
            assert_eq!(info.bundle_id.as_deref(), Some("com.testapp-4"));
        }
        other => panic!("unexpected events {other:?}"),
    }
    let mut nameless = make_windows(2);
    nameless[0].sys_id = None;
    let events = apps.make_app_with_opts(6, nameless, None, false);
    assert!(matches!(
        &events[0],
        Event::WindowsOnScreenUpdated { on_screen, .. } if on_screen.visible.len() == 1
    ));
    assert!(matches!(
        apps.make_app(7, vec![]).as_slice(),
        [_, Event::ApplicationLaunched { main_window: None, .. }]
    ));
}

#[test]
fn one_look_finds_all_windows_by_application() {
    let mut apps = apps();
    apps.make_app(9, make_windows(1));
    apps.make_app(2, make_windows(2));
    let events = apps.simulate_events_for_requests(
        vec![Request::GetVisibleWindows, Request::GetVisibleWindows],
        same,
    );
    match events.as_slice() {
        [
            Event::WindowsDiscovered { pid: 2, known_visible: two, new },
            Event::WindowsDiscovered { pid: 9, known_visible: nine, .. },
        ] => {
            assert!(new.is_empty());
            assert_eq!(*two, vec![WindowId::new(2, 1), WindowId::new(2, 2)]);
            assert_eq!(*nine, vec![WindowId::new(9, 1)]);
        }
        other => panic!("unexpected events {other:?}"),
    }
}

#[test]
fn changed_frames_are_reported() {
    let mut apps = apps();
    let wid = WindowId::new(1, 1);
    let frame = rect(1.0, 2.0, 3.0, 4.0);
    let events = apps.simulate_events_for_requests(
        vec![
            Request::SetWindowFrame(wid, frame, TransactionId(1)),
            Request::SetWindowFrame(wid, frame, TransactionId(2)),
            Request::SetWindowPos(wid, rect(9.0, 9.0, 0.0, 0.0).origin, TransactionId(3)),
        ],
        same,
    );
    match events.as_slice() {
        [
            Event::WindowFrameChanged(_, a, TransactionId(1), Requested(true), None),
            Event::WindowFrameChanged(_, b, TransactionId(3), Requested(true), None),
        ] => {
            assert_eq!(*a, frame);
            assert_eq!(*b, rect(9.0, 9.0, 3.0, 4.0));
        }
        other => panic!("unexpected events {other:?}"),
    }
    assert_eq!(
        state(&apps, wid),
        WindowState {
            last_seen_txid: TransactionId(3),
            animating: false,
            frame: rect(9.0, 9.0, 3.0, 4.0),
        }
    );
}

#[test]
fn animated_windows_report_at_the_end() {
    let mut apps = apps();
    let wid = WindowId::new(1, 1);
    let events = apps.simulate_events_for_requests(
        vec![
            Request::BeginWindowAnimation(wid),
            Request::SetWindowPos(wid, rect(5.0, 6.0, 0.0, 0.0).origin, TransactionId(4)),
        ],
        same,
    );
    assert!(events.is_empty());
    assert!(state(&apps, wid).animating);
    let events =
        apps.simulate_events_for_requests(vec![Request::EndWindowAnimation(wid)], same);
    assert!(matches!(
        events.as_slice(),
        [Event::WindowFrameChanged(_, frame, TransactionId(4), Requested(true), None)]
            if *frame == rect(5.0, 6.0, 0.0, 0.0)
    ));
    assert!(!state(&apps, wid).animating);
}

#[test]
fn nothing_is_answered_after_termination() {
    let mut apps = apps();
    let wid = WindowId::new(1, 1);
    let events = apps.simulate_events_for_requests(
        vec![
            Request::Terminate,
            Request::SetWindowFrame(wid, rect(1.0, 1.0, 1.0, 1.0), TransactionId(1)),
            Request::Raise(wid),
        ],
        same,
    );
    assert!(events.is_empty());
    assert_eq!(apps.windows().get(wid), None);
}

#[test]
fn everything_after_the_end_is_ignored() {
    let wid = WindowId::new(5, 1);
    let moved = rect(1.0, 2.0, 3.0, 4.0);
    let before = vec![
        Request::SetWindowFrame(wid, moved, TransactionId::default()),
        Request::GetVisibleWindows,
    ];
    let mut longer = before.clone();
    longer.push(Request::Terminate);
    longer.push(Request::Raise(wid));
    longer.push(Request::WindowDestroyed(wid));
    longer.push(Request::SetWindowFrame(wid, rect(9.0, 9.0, 9.0, 9.0), TransactionId::default()));
    longer.push(Request::EndWindowAnimation(wid));
    let mut one = apps();
    one.make_app(5, make_windows(2));
    let mut other = apps();
    other.make_app(5, make_windows(2));
    let events = one.simulate_events_for_requests(before, same);
    let more = other.simulate_events_for_requests(longer, same);
    assert_eq!(events.len(), 2);
    assert_eq!(format!("{events:?}"), format!("{more:?}"));
    assert_eq!(state(&one, wid), state(&other, wid));
    assert_eq!(state(&other, wid).frame, moved);
}
