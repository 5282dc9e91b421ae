use glide_wm::actor::app::{AppThreadHandle, Request, WindowId};
use glide_wm::actor::reactor::animation::{
    AnimatedWindow, Animation, AnimationManager, Blend, Message, FRAMES, INTERVAL_NANOS,
};
use glide_wm::actor::reactor::TransactionId;
use glide_wm::sys::geometry::{CGFloat, CGPoint, CGRect, CGSize};

fn number(x: f64) -> CGFloat {
    CGFloat { bits: x.to_bits() }
}

fn value(x: CGFloat) -> f64 {
    f64::from_bits(x.bits)
}

fn rect(origin_x: f64, origin_y: f64, width: f64, height: f64) -> CGRect {
    CGRect {
        origin: CGPoint { x: number(origin_x), y: number(origin_y) },
        size: CGSize { width: number(width), height: number(height) },
    }
}

fn ease(t: f64) -> f64 {
    if t < 0.5 {
        (1.0 - f64::sqrt(1.0 - f64::powi(2.0 * t, 2))) / 2.0
    } else {
        (f64::sqrt(1.0 - f64::powi(-2.0 * t + 2.0, 2)) + 1.0) / 2.0
    }
}

fn get_frame(a: CGRect, b: CGRect, t: f64) -> CGRect {
    let s = ease(t);
    let blend = |a: CGFloat, b: CGFloat| number((1.0 - s) * value(a) + s * value(b));
    CGRect {
        origin: CGPoint {
            x: blend(a.origin.x, b.origin.x),
            y: blend(a.origin.y, b.origin.y),
        },
        size: CGSize {
            width: blend(a.size.width, b.size.width),
            height: blend(a.size.height, b.size.height),
        },
    }
}

fn blended(blends: Vec<Blend>) -> Vec<CGRect> {
    blends
        .iter()
        .map(|b| get_frame(b.start, b.finish, f64::from(b.frame) / f64::from(b.frames)))
        .collect()
}

struct Harness {
    manager: AnimationManager,
}

impl Harness {
    fn new() -> Self {
        Harness { manager: AnimationManager::new() }
    }

    fn handle_message(&mut self, message: Message) -> (Option<u64>, Vec<Request>) {
        let current = blended(self.manager.current_blends());
        let (delay, sent) = self.manager.handle_message(message, &current);
        (delay, sent.into_iter().map(|(_, request)| request).collect())
    }

    fn tick(&mut self) -> (Option<u64>, Vec<Request>) {
        let next = blended(self.manager.next_blends());
        let (delay, sent) = self.manager.tick(&next);
        (delay, sent.into_iter().map(|(_, request)| request).collect())
    }

    fn current_frames(&self) -> Vec<(WindowId, CGRect)> {
        self.manager.current_frames(&blended(self.manager.current_blends()))
    }
}

fn handle() -> AppThreadHandle {
    AppThreadHandle { id: 1 }
}

fn animation(wid: WindowId, from: CGRect, to: CGRect) -> Animation {
    let mut animation = Animation::new();
    animation.add_window(&handle(), wid, from, to, false, TransactionId::default());
    animation
}

fn assert_set_window_frame(request: &Request, wid: WindowId, frame: CGRect) {
    match request {
        Request::SetWindowFrame(req_wid, req_frame, txid) => {
            assert_eq!(*req_wid, wid);
            assert_eq!(*req_frame, frame);
            assert_eq!(*txid, TransactionId::default());
        }
        _ => panic!("expected SetWindowFrame, got {request:?}"),
    }
}

fn assert_set_window_pos(request: &Request, wid: WindowId, pos: CGPoint) {
    match request {
        Request::SetWindowPos(req_wid, req_pos, txid) => {
            assert_eq!(*req_wid, wid);
            assert_eq!(*req_pos, pos);
            assert_eq!(*txid, TransactionId::default());
        }
        _ => panic!("expected SetWindowPos, got {request:?}"),
    }
}

#[test]
fn replacement_uses_last_animated_frame_for_continuing_windows() {
    let wid = WindowId::new(1, 1);
    let first = animation(wid, rect(0.0, 0.0, 10.0, 10.0), rect(50.0, 60.0, 10.0, 10.0));
    let second = animation(wid, rect(50.0, 60.0, 10.0, 10.0), rect(80.0, 90.0, 10.0, 10.0));

    let mut h = Harness::new();
    let (_, requests) = h.handle_message(Message::Replace(first));
    assert!(matches!(
        requests.as_slice(),
        [Request::BeginWindowAnimation(req_wid)] if *req_wid == wid
    ));

    let (_, requests) = h.tick();
    let continuing_frame = h.current_frames()[0].1;
    assert_set_window_pos(&requests[0], wid, continuing_frame.origin);

    let (_, requests) = h.handle_message(Message::Replace(second));
    assert!(requests.is_empty());

    let resumed_start = h.manager.windows()[0].start;
    assert_eq!(resumed_start, continuing_frame);

    let (_, requests) = h.tick();
    let expected_next = get_frame(resumed_start, rect(80.0, 90.0, 10.0, 10.0), 1.0 / 30.0);
    assert_set_window_pos(&requests[0], wid, expected_next.origin);
}

#[test]
fn replacement_only_restarts_changed_windows() {
    let wid1 = WindowId::new(1, 1);
    let wid2 = WindowId::new(1, 2);
    let wid3 = WindowId::new(1, 3);
    let mut first = Animation::new();
    first.add_window(
        &handle(),
        wid1,
        rect(0.0, 0.0, 10.0, 10.0),
        rect(50.0, 60.0, 10.0, 10.0),
        false,
        TransactionId::default(),
    );
    first.add_window(
        &handle(),
        wid2,
        rect(10.0, 0.0, 10.0, 10.0),
        rect(60.0, 60.0, 10.0, 10.0),
        false,
        TransactionId::default(),
    );
    let mut second = Animation::new();
    second.add_window(
        &handle(),
        wid1,
        rect(50.0, 60.0, 10.0, 10.0),
        rect(80.0, 90.0, 10.0, 10.0),
        false,
        TransactionId::default(),
    );
    second.add_window(
        &handle(),
        wid3,
        rect(20.0, 0.0, 10.0, 10.0),
        rect(90.0, 90.0, 10.0, 10.0),
        false,
        TransactionId::default(),
    );

    let mut h = Harness::new();
    let (_, requests) = h.handle_message(Message::Replace(first));
    assert_eq!(requests.len(), 2);
    let (_, requests) = h.handle_message(Message::Replace(second));

    assert_eq!(requests.len(), 3);
    assert!(matches!(requests[0], Request::BeginWindowAnimation(req_wid) if req_wid == wid3));
    assert_set_window_frame(&requests[1], wid2, rect(60.0, 60.0, 10.0, 10.0));
    assert!(matches!(requests[2], Request::EndWindowAnimation(req_wid) if req_wid == wid2));
}

#[test]
fn skip_to_end_finishes_active_animation_and_applies_new_layout() {
    let wid = WindowId::new(1, 1);
    let first = animation(wid, rect(0.0, 0.0, 10.0, 10.0), rect(50.0, 60.0, 10.0, 10.0));
    let second = animation(wid, rect(50.0, 60.0, 10.0, 10.0), rect(80.0, 90.0, 10.0, 10.0));

    let mut h = Harness::new();
    let (_, mut requests) = h.handle_message(Message::Replace(first));
    requests.extend(h.handle_message(Message::SkipToEnd(second)).1);

    assert_eq!(requests.len(), 4);
    assert!(matches!(requests[0], Request::BeginWindowAnimation(req_wid) if req_wid == wid));
    assert_set_window_frame(&requests[1], wid, rect(50.0, 60.0, 10.0, 10.0));
    assert!(matches!(requests[2], Request::EndWindowAnimation(req_wid) if req_wid == wid));
    assert_set_window_frame(&requests[3], wid, rect(80.0, 90.0, 10.0, 10.0));
}

#[test]
fn an_animation_runs_for_all_its_steps() {
    let wid = WindowId::new(1, 1);
    let mut h = Harness::new();
    let (delay, _) = h.handle_message(Message::Replace(animation(
        wid,
        rect(0.0, 0.0, 10.0, 10.0),
        rect(50.0, 60.0, 20.0, 20.0),
    )));
    assert_eq!(delay, Some(INTERVAL_NANOS));
    assert_eq!(INTERVAL_NANOS, 10_000_000);
    for frame in 1..FRAMES {
        let (delay, requests) = h.tick();
        assert_eq!(delay, Some(INTERVAL_NANOS));
        assert_eq!(requests.len(), 1);
        if frame == 15 {
            assert!(matches!(
                requests[0],
                Request::SetWindowFrame(_, frame, _)
                    if frame.size == rect(0.0, 0.0, 20.0, 20.0).size
            ));
        } else {
            assert!(matches!(requests[0], Request::SetWindowPos(..)));
        }
    }
    let (delay, requests) = h.tick();
    assert_eq!(delay, None);
    assert_set_window_frame(&requests[0], wid, rect(50.0, 60.0, 20.0, 20.0));
    assert_eq!(requests[1], Request::EndWindowAnimation(wid));
    assert!(!h.manager.is_active());
    assert_eq!(h.tick().1, vec![]);
}

#[test]
fn the_focused_window_has_its_size_at_once() {
    let wid = WindowId::new(1, 1);
    let mut focused = Animation::new();
    focused.add_window(
        &handle(),
        wid,
        rect(1.0, 2.0, 10.0, 10.0),
        rect(50.0, 60.0, 20.0, 20.0),
        true,
        TransactionId(7),
    );
    let mut h = Harness::new();
    let (_, requests) = h.handle_message(Message::Replace(focused));
    assert_eq!(
        requests,
        vec![
            Request::BeginWindowAnimation(wid),
            Request::SetWindowFrame(wid, rect(1.0, 2.0, 20.0, 20.0), TransactionId(7)),
        ]
    );
    assert_eq!(h.current_frames(), vec![(wid, rect(1.0, 2.0, 20.0, 20.0))]);
}

#[test]
fn sizes_change_half_way() {
    let window = AnimatedWindow {
        handle: handle(),
        wid: WindowId::new(1, 1),
        start: rect(0.0, 0.0, 10.0, 10.0),
        finish: rect(8.0, 8.0, 30.0, 30.0),
        is_focus: false,
        txid: TransactionId::default(),
    };
    let between = rect(4.0, 4.0, 20.0, 20.0);
    assert_eq!(window.frame_after(between, 0, FRAMES), rect(0.0, 0.0, 10.0, 10.0));
    assert_eq!(window.frame_after(between, 14, FRAMES), rect(4.0, 4.0, 10.0, 10.0));
    assert_eq!(window.frame_after(between, 15, FRAMES), rect(4.0, 4.0, 30.0, 30.0));
    assert_eq!(window.frame_after(between, 30, FRAMES), rect(4.0, 4.0, 30.0, 30.0));
    assert_eq!(window.frame_after(between, 15, 31), rect(4.0, 4.0, 10.0, 10.0));
    assert_eq!(window.frame_after(between, 1, 2), rect(4.0, 4.0, 30.0, 30.0));
}

#[test]
fn an_empty_animation_starts_nothing() {
    let mut h = Harness::new();
    assert_eq!(h.handle_message(Message::Replace(Animation::new())), (None, vec![]));
    assert!(Animation::new().is_empty());
    assert!(!h.manager.is_active());
}

#[test]
fn an_empty_animation_ends_what_is_under_way() {
    let wid = WindowId::new(1, 1);
    let mut h = Harness::new();
    h.handle_message(Message::Replace(animation(
        wid,
        rect(0.0, 0.0, 10.0, 10.0),
        rect(50.0, 60.0, 10.0, 10.0),
    )));
    let (delay, requests) = h.handle_message(Message::Replace(Animation::new()));
    assert_eq!(delay, Some(INTERVAL_NANOS));
    assert_set_window_frame(&requests[0], wid, rect(50.0, 60.0, 10.0, 10.0));
    assert_eq!(requests[1], Request::EndWindowAnimation(wid));
    assert!(h.manager.is_active());
    assert_eq!(h.tick().1, vec![]);
}

#[test]
fn finishing_places_every_window() {
    let wid = WindowId::new(1, 1);
    let mut h = Harness::new();
    h.handle_message(Message::Replace(animation(
        wid,
        rect(0.0, 0.0, 10.0, 10.0),
        rect(50.0, 60.0, 10.0, 10.0),
    )));
    let sent = h.manager.finish();
    assert_eq!(
        sent,
        vec![
            (
                handle(),
                Request::SetWindowFrame(
                    wid,
                    rect(50.0, 60.0, 10.0, 10.0),
                    TransactionId::default()
                )
            ),
            (handle(), Request::EndWindowAnimation(wid)),
        ]
    );
    assert!(h.manager.finish().is_empty());
}

#[test]
fn skipping_alone_places_windows() {
    let wid = WindowId::new(3, 4);
    let skipped = animation(wid, rect(0.0, 0.0, 1.0, 1.0), rect(5.0, 6.0, 7.0, 8.0));
    assert_eq!(
        skipped.skip_to_end(),
        vec![(
            handle(),
            Request::SetWindowFrame(wid, rect(5.0, 6.0, 7.0, 8.0), TransactionId::default())
        )]
    );
}

#[test]
fn an_animation_asks_the_same_of_every_window_at_every_step() {
    let finish = [rect(50.0, 60.0, 20.0, 30.0), rect(70.0, 80.0, 5.0, 6.0)];
    let wids = [WindowId::new(1, 1), WindowId::new(1, 2)];
    let mut both = Animation::new();
    for i in 0..2 {
        let start = rect(0.0, 0.0, 10.0, 10.0);
        both.add_window(&handle(), wids[i], start, finish[i], false, TransactionId::default());
    }
    let mut h = Harness::new();
    let (delay, _) = h.handle_message(Message::Replace(both));
    assert_eq!(delay, Some(INTERVAL_NANOS));
    for n in 1..=31 {
        let (delay, requests) = h.tick();
        assert_eq!(delay, if n < 30 { Some(10_000_000) } else { None });
        match n {
            15 => {
                assert_eq!(requests.len(), 2);
                assert!(matches!(&requests[1], Request::SetWindowFrame(wid, frame, _)
                    if *wid == wids[1] && frame.size == finish[1].size));
            }
            30 => {
                assert_eq!(requests.len(), 4);
                assert_set_window_frame(&requests[0], wids[0], finish[0]);
                assert_set_window_frame(&requests[1], wids[1], finish[1]);
                assert!(matches!(&requests[2], Request::EndWindowAnimation(w) if *w == wids[0]));
                assert!(matches!(&requests[3], Request::EndWindowAnimation(w) if *w == wids[1]));
            }
            31 => assert!(requests.is_empty()),
            _ => {
                assert_eq!(requests.len(), 2);
                assert!(requests.iter().all(|r| matches!(r, Request::SetWindowPos(..))));
            }
        }
    }
}

#[test]
fn ways_begin_and_end_in_turn() {
    let wids = [WindowId::new(1, 1), WindowId::new(1, 2), WindowId::new(2, 1)];
    let from = rect(0.0, 0.0, 10.0, 10.0);
    let to = rect(50.0, 60.0, 10.0, 10.0);
    let of = |which: &[usize]| {
        let mut animation = Animation::new();
        for i in which {
            animation.add_window(&handle(), wids[*i], from, to, *i == 1, TransactionId::default());
        }
        animation
    };
    let mut h = Harness::new();
    let mut sent = Vec::new();
    let mut open = [0; 3];
    for which in [vec![0, 1], vec![1, 2], vec![], vec![2], vec![0, 1, 2]] {
        sent.extend(h.handle_message(Message::Replace(of(&which))).1);
        sent.extend(h.tick().1);
        assert_eq!(h.manager.windows().len(), which.len());
    }
    sent.extend(h.handle_message(Message::SkipToEnd(of(&[0]))).1);
    for request in &sent {
        for i in 0..3 {
            match request {
                Request::BeginWindowAnimation(wid) if *wid == wids[i] => {
                    assert_eq!(open[i], 0);
                    open[i] = 1;
                }
                Request::EndWindowAnimation(wid) if *wid == wids[i] => {
                    assert_eq!(open[i], 1);
                    open[i] = 0;
                }
                _ => {}
            }
        }
    }
    assert_eq!(open, [0; 3]);
}
