use glide_wm::actor::app::{AppThreadHandle, Quiet, Request, WindowId};
use glide_wm::actor::window_server::{
    notified_window, Event, Lookups, Message, Reading, SkylightRequest, SkylightWatcher,
    WindowServer, LAYER_FLOATING, LAYER_NORMAL, LAYER_STATUS,
};
use glide_wm::actor::{reactor, space_manager};
use glide_wm::sys::app::{AppInfo, WindowInfo};
use glide_wm::sys::event::MouseState;
use glide_wm::sys::geometry::{CGFloat, CGPoint, CGRect, CGSize};
use glide_wm::sys::screen::{CoordinateConverter, ScreenId, ScreenInfo, SpaceId};
use glide_wm::sys::window_server::{
    check, get_visible_window_ids, get_visible_windows_with_layer, get_window, get_window_at_point,
    get_windows, kCGSWindowIsTerminated, make_info, make_key_window, KeyWindowStep, RawWindow,
    SkylightConnection, WindowServerId, WindowServerInfo, WindowsOnScreen,
};

fn number(x: f64) -> CGFloat {
    CGFloat { bits: x.to_bits() }
}

fn wsid(id: u32) -> WindowServerId {
    WindowServerId::new(id)
}

fn frame() -> CGRect {
    CGRect {
        origin: CGPoint { x: number(0.0), y: number(0.0) },
        size: CGSize { width: number(100.0), height: number(100.0) },
    }
}

fn make_window(id: u32, layer: i32) -> WindowServerInfo {
    WindowServerInfo { id: wsid(id), pid: 1, layer, frame: frame() }
}

fn reading(windows: Vec<WindowServerInfo>) -> Reading {
    Reading { screens: None, spaces: vec![], windows }
}

struct Harness {
    ws: WindowServer,
    windows: Vec<WindowServerInfo>,
}

impl Harness {
    fn new(windows: Vec<WindowServerInfo>) -> Self {
        Harness { ws: WindowServer::new(), windows }
    }

    fn on_event(&mut self, event: Event) -> Vec<space_manager::Event> {
        self.ws
            .on_event(event, reading(self.windows.clone()))
            .into_iter()
            .filter_map(|m| match m {
                Message::SpaceManager(e) => Some(e),
                Message::Skylight(_) => None,
            })
            .collect()
    }
}

fn find_reactor_events(sm_events: &[space_manager::Event]) -> Vec<&reactor::Event> {
    sm_events
        .iter()
        .filter_map(|e| match e {
            space_manager::Event::ReactorEvent(re) => Some(re),
            _ => None,
        })
        .collect()
}

fn find_windows_on_screen_updated<'a>(
    reactor_events: &'a [&'a reactor::Event],
) -> Vec<&'a WindowsOnScreen> {
    reactor_events
        .iter()
        .filter_map(|e| match e {
            reactor::Event::WindowsOnScreenUpdated { on_screen, .. } => Some(on_screen),
            _ => None,
        })
        .collect()
}

#[test]
fn filters_irrelevant_layers() {
    let mut h = Harness::new(vec![
        make_window(1, LAYER_NORMAL),   // 0: keep
        make_window(2, LAYER_FLOATING), // 3: keep
        make_window(3, LAYER_STATUS),   // 8: keep
        make_window(4, 25),             // screensaver: filter
        make_window(5, -1),             // desktop: filter
    ]);
    let sm_events = h.on_event(Event::WindowVisibilityChanged(WindowId::new(1, 1)));
    let reactor_events = find_reactor_events(&sm_events);
    let updates = find_windows_on_screen_updated(&reactor_events);

    assert_eq!(updates.len(), 1);
    let visible_ids: Vec<u32> = updates[0].visible.iter().map(|id| id.as_u32()).collect();
    assert_eq!(visible_ids, vec![1, 2, 3]);
}

#[test]
fn no_event_when_visible_windows_unchanged() {
    let mut h = Harness::new(vec![make_window(1, LAYER_NORMAL)]);
    // First call: the visible windows go from [] to [1], changed.
    let sm_events = h.on_event(Event::WindowVisibilityChanged(WindowId::new(1, 1)));
    let reactor_events = find_reactor_events(&sm_events);
    assert_eq!(find_windows_on_screen_updated(&reactor_events).len(), 1);

    // Second call: still [1], no change.
    let sm_events = h.on_event(Event::WindowVisibilityChanged(WindowId::new(1, 1)));
    let reactor_events = find_reactor_events(&sm_events);
    assert_eq!(find_windows_on_screen_updated(&reactor_events).len(), 0);
}

#[test]
fn event_sent_when_visible_windows_change() {
    let mut h = Harness::new(vec![make_window(1, LAYER_NORMAL)]);
    h.on_event(Event::WindowVisibilityChanged(WindowId::new(1, 1)));

    // Change what is visible.
    h.windows = vec![make_window(1, LAYER_NORMAL), make_window(2, LAYER_NORMAL)];
    let sm_events = h.on_event(Event::WindowVisibilityChanged(WindowId::new(1, 1)));
    let reactor_events = find_reactor_events(&sm_events);
    let updates = find_windows_on_screen_updated(&reactor_events);
    assert_eq!(updates.len(), 1);
    assert_eq!(updates[0].visible.len(), 2);
}

#[test]
fn window_created_sends_windows_on_screen_if_changed() {
    let mut h = Harness::new(vec![make_window(1, LAYER_NORMAL)]);
    let wid = WindowId::new(1, 1);
    let info = WindowInfo {
        is_standard: true,
        title: String::new(),
        frame: CGRect::default(),
        sys_id: None,
        is_resizable: true,
    };
    let sm_events = h.on_event(Event::WindowCreated(wid, info, MouseState::Up));
    let reactor_events = find_reactor_events(&sm_events);

    // Should have WindowCreated, WindowsOnScreenUpdated, WindowBecameVisible.
    assert!(reactor_events.iter().any(|e| matches!(e, reactor::Event::WindowCreated(..))));
    assert_eq!(find_windows_on_screen_updated(&reactor_events).len(), 1);
    assert!(reactor_events.iter().any(|e| matches!(e, reactor::Event::WindowBecameVisible(_))));
    assert!(matches!(reactor_events[0], reactor::Event::WindowCreated(..)));
    assert!(matches!(reactor_events[2], reactor::Event::WindowBecameVisible(_)));
}

#[test]
fn screens_are_taken_apart() {
    let mut ws = WindowServer::new();
    let screen = ScreenInfo {
        id: ScreenId::new(4),
        visible_frame: frame(),
        scale_factor: number(2.0),
    };
    let sent = ws.on_event(
        Event::ScreenParametersChanged(vec![screen]),
        Reading {
            screens: Some((
                vec![screen],
                CoordinateConverter { screen_height: Some(number(800.0)) },
            )),
            spaces: vec![Some(SpaceId::new(3))],
            windows: vec![make_window(1, LAYER_NORMAL), make_window(2, 1)],
        },
    );
    match sent.as_slice() {
        [Message::SpaceManager(space_manager::Event::ScreenParametersChanged {
            screens,
            frames,
            spaces,
            scale_factors,
            converter,
            on_screen,
        })] => {
            assert_eq!(*screens, vec![ScreenId::new(4)]);
            assert_eq!(*frames, vec![frame()]);
            assert_eq!(*spaces, vec![Some(SpaceId::new(3))]);
            assert_eq!(*scale_factors, vec![number(2.0)]);
            assert_eq!(converter.screen_height, Some(number(800.0)));
            assert_eq!(on_screen.visible, vec![wsid(1)]);
        }
        other => panic!("unexpected messages {other:?}"),
    }
}

#[test]
fn screens_that_cannot_be_told_are_not_reported() {
    let mut ws = WindowServer::new();
    let sent = ws.on_event(
        Event::ScreenParametersChanged(vec![]),
        reading(vec![make_window(1, LAYER_NORMAL)]),
    );
    assert!(sent.is_empty());
}

#[test]
fn a_refresh_reports_spaces_and_windows() {
    let mut ws = WindowServer::new();
    for event in [Event::SpaceChanged, Event::RequestSpaceRefresh] {
        let sent = ws.on_event(
            event,
            Reading {
                screens: None,
                spaces: vec![None, Some(SpaceId::new(9))],
                windows: vec![make_window(7, LAYER_FLOATING)],
            },
        );
        match sent.as_slice() {
            [Message::SpaceManager(space_manager::Event::SpaceChanged(spaces, on_screen))] => {
                assert_eq!(*spaces, vec![None, Some(SpaceId::new(9))]);
                assert_eq!(on_screen.windows, vec![make_window(7, LAYER_FLOATING)]);
            }
            other => panic!("unexpected messages {other:?}"),
        }
    }
}

#[test]
fn a_launch_reports_windows_first() {
    let mut h = Harness::new(vec![make_window(1, LAYER_NORMAL)]);
    let sm_events = h.on_event(Event::ApplicationLaunched {
        pid: 5,
        handle: AppThreadHandle { id: 8 },
        info: AppInfo { bundle_id: None, localized_name: None },
        is_frontmost: true,
        main_window: None,
        visible_windows: vec![],
    });
    let events = find_reactor_events(&sm_events);
    assert!(matches!(
        events.as_slice(),
        [
            reactor::Event::WindowsOnScreenUpdated { pid: Some(5), .. },
            reactor::Event::ApplicationLaunched { pid: 5, is_frontmost: true, .. }
        ]
    ));
}

#[test]
fn other_events_pass_through() {
    let mut h = Harness::new(vec![]);
    let sm_events = h.on_event(Event::ApplicationMainWindowChanged(3, None, Quiet::Yes));
    assert!(matches!(
        find_reactor_events(&sm_events).as_slice(),
        [reactor::Event::ApplicationMainWindowChanged(3, None, Quiet::Yes)]
    ));
    let sm_events = h.on_event(Event::ReactorEvent(reactor::Event::StartupComplete));
    assert!(matches!(
        find_reactor_events(&sm_events).as_slice(),
        [reactor::Event::StartupComplete]
    ));
}

#[test]
fn registering_goes_to_the_watcher() {
    let mut ws = WindowServer::new();
    let event = Event::RegisterWindow(wsid(1), WindowId::new(2, 3), AppThreadHandle { id: 4 });
    assert_eq!(event.lookups(), Lookups { screens: false, spaces: false, windows: false });
    let sent = ws.on_event(event, reading(vec![]));
    assert!(matches!(
        sent.as_slice(),
        [Message::Skylight(SkylightRequest::TrackWindow(WindowServerId(1), wid, AppThreadHandle { id: 4 }))]
            if *wid == WindowId::new(2, 3)
    ));
    assert_eq!(
        Event::SpaceChanged.lookups(),
        Lookups { screens: false, spaces: true, windows: true }
    );
}

#[test]
fn destroyed_windows_are_reported_once() {
    let mut watcher = SkylightWatcher::new();
    let wid = WindowId::new(2, 3);
    let handle = AppThreadHandle { id: 4 };
    let list = watcher.on_command(SkylightRequest::TrackWindow(wsid(20), wid, handle));
    assert_eq!((list.windows, list.count), (vec![20], 1));
    let list = watcher.on_command(SkylightRequest::TrackWindow(wsid(10), wid, handle));
    assert_eq!((list.windows, list.count), (vec![10, 20], 2));
    assert_eq!(
        watcher.on_window_destroyed(wsid(20)),
        Some((handle, Request::WindowDestroyed(wid)))
    );
    assert_eq!(watcher.on_window_destroyed(wsid(20)), None);
    assert_eq!(watcher.on_window_destroyed(wsid(99)), None);
    let list = watcher.on_command(SkylightRequest::TrackWindow(wsid(15), wid, handle));
    assert_eq!(list.windows, vec![10, 15]);
}

#[test]
fn connections_keep_their_list_in_order() {
    let mut connection = SkylightConnection::new();
    connection.add_window(wsid(5));
    connection.add_window(wsid(1));
    let list = connection.add_window(wsid(5));
    assert_eq!(list.windows, vec![1, 5, 5]);
    let list = connection.remove_window(wsid(5));
    assert_eq!(list.windows, vec![1, 5]);
    let list = connection.remove_window(wsid(7));
    assert_eq!(list.windows, vec![1, 5]);
    connection.on_window_destroyed(wsid(1));
    let list = connection.remove_window(wsid(5));
    assert_eq!((list.windows, list.count), (vec![], 0));
}

#[test]
fn notifications_name_their_window() {
    let data = 0x0102_0304u32.to_ne_bytes().to_vec();
    assert_eq!(
        notified_window(kCGSWindowIsTerminated, kCGSWindowIsTerminated, &data),
        Some(wsid(0x0102_0304))
    );
    assert_eq!(notified_window(kCGSWindowIsTerminated, 805, &data), None);
    assert_eq!(kCGSWindowIsTerminated, 804);
}

fn raw(layer: i64, id: i64, pid: i64) -> RawWindow {
    RawWindow {
        layer: Some(layer),
        number: Some(id),
        owner_pid: Some(pid),
        bounds: Some(frame()),
    }
}

#[test]
fn listed_windows_are_read() {
    let list = vec![
        raw(0, 1, 10),
        raw(3, 2, 10),
        RawWindow { bounds: None, ..raw(0, 3, 10) },
        raw(0, -4, 10),
        raw(0, 5, 1 << 40),
        raw(1 << 33, 6, 10),
        RawWindow { layer: None, ..raw(0, 7, 10) },
    ];
    let all = get_visible_windows_with_layer(&list, None);
    assert_eq!(all.iter().map(|w| w.id.as_u32()).collect::<Vec<_>>(), vec![1, 2]);
    let front = get_visible_windows_with_layer(&list, Some(3));
    assert_eq!(
        front,
        vec![WindowServerInfo { id: wsid(2), pid: 10, layer: 3, frame: frame() }]
    );
    let ids: Vec<u32> = get_visible_window_ids(&list).iter().map(|id| id.as_u32()).collect();
    assert_eq!(ids, vec![1, 2, 3, 5, 6, 7]);
    assert_eq!(make_info(&raw(0, 1, 10), Some(1)), None);
    assert!(get_windows(&vec![], &list).is_empty());
    assert_eq!(get_windows(&vec![wsid(1)], &list).len(), 2);
    assert_eq!(get_window(&list).map(|w| w.id), Some(wsid(1)));
    assert_eq!(get_window(&vec![]), None);
}

#[test]
fn window_numbers_are_cut_to_size() {
    assert_eq!(get_window_at_point(Some(12)), Some(wsid(12)));
    assert_eq!(get_window_at_point(Some(-1)), Some(wsid(u32::MAX)));
    assert_eq!(get_window_at_point(None), None);
    assert_eq!(u32::from(wsid(3)), 3);
}

#[test]
fn answers_are_checked() {
    assert_eq!(check(0), Ok(()));
    assert_eq!(check(-25204), Err(-25204));
    assert_eq!(WindowServerId::from_answer(0, 6), Ok(wsid(6)));
    assert_eq!(WindowServerId::from_answer(1, 6), Err(1));
}

#[test]
fn a_key_window_takes_three_steps() {
    let id = wsid(0x1234_5678);
    assert!(matches!(
        make_key_window(id, &vec![]),
        KeyWindowStep::SetFrontProcess { window: 0x1234_5678, mode: 0x200 }
    ));
    let mut event1 = [0u8; 0x100];
    event1[0x04] = 0xf8;
    event1[0x08] = 0x01;
    event1[0x3a] = 0x10;
    event1[0x3c..0x3c + 4].copy_from_slice(&0x1234_5678u32.to_le_bytes());
    event1[0x20..(0x20 + 0x10)].fill(0xff);
    let mut event2 = event1;
    event2[0x08] = 0x02;
    match make_key_window(id, &vec![0]) {
        KeyWindowStep::PostEventRecord(record) => assert_eq!(record, event1.to_vec()),
        other => panic!("unexpected step {other:?}"),
    }
    match make_key_window(id, &vec![0, 0]) {
        KeyWindowStep::PostEventRecord(record) => assert_eq!(record, event2.to_vec()),
        other => panic!("unexpected step {other:?}"),
    }
    assert!(matches!(make_key_window(id, &vec![0, 0, 0]), KeyWindowStep::Done));
    assert!(matches!(make_key_window(id, &vec![1]), KeyWindowStep::Failed));
    assert!(matches!(make_key_window(id, &vec![0, 0, 9]), KeyWindowStep::Failed));
}
