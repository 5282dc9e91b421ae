//! Simulated applications, to exercise the reactor with.

use vstd::prelude::*;

use crate::actor::app::{AppThreadHandle, Request, WindowId};
use crate::actor::reactor::{described, Event, EventView, Requested, TransactionId};
use crate::sys::app::{pid_t, AppInfo, AppInfoView, WindowInfo, WindowInfoView};
use crate::sys::geometry::{is_whole, zero_rect, CGFloat, CGPoint, CGRect, CGSize};
use crate::sys::window_server::{snapshot, WindowServerId, WindowServerInfo, WindowsOnScreen};
use crate::text::{decimal, decimal_digits, decimal_i32, signed_decimal};

verus! {

/// What a made-up window looks like.
pub open spec fn sample_window(window: WindowInfoView, idx: usize) -> bool {
    &&& window.is_standard
    &&& window.is_resizable
    &&& window.title == "Window"@ + decimal_digits(idx as nat)
    &&& is_whole(window.frame.origin.x, 100 * (idx as u32))
    &&& is_whole(window.frame.origin.y, 100)
    &&& is_whole(window.frame.size.width, 50)
    &&& is_whole(window.frame.size.height, 50)
    &&& window.sys_id == Some(WindowServerId(idx as u32))
}

/// Makes up a window.
pub fn make_window(idx: usize) -> (window: WindowInfo)
    ensures
        sample_window(window@, idx),
{
    let number: u32 = idx as u32;
    let digits = decimal(idx as u64);
    WindowInfo {
        is_standard: true,
        is_resizable: true,
        title: "Window".to_owned().concat(digits.as_str()),
        frame: CGRect {
            origin: CGPoint { x: CGFloat::whole(100 * (number as u64)), y: CGFloat::whole(100) },
            size: CGSize { width: CGFloat::whole(50), height: CGFloat::whole(50) },
        },
        sys_id: Some(WindowServerId::new(number)),
    }
}

/// Makes up windows numbered from one.
pub fn make_windows(count: usize) -> (windows: Vec<WindowInfo>)
    ensures
        windows@.len() == count,
        forall|i: int|
            0 <= i < count ==> sample_window((#[trigger] windows@[i])@, (i + 1) as usize),
{
    let mut windows: Vec<WindowInfo> = Vec::new();
    let mut idx: usize = 0;
    while idx < count
        invariant
            idx <= count,
            windows@.len() == idx,
            forall|i: int|
                0 <= i < idx ==> sample_window((#[trigger] windows@[i])@, (i + 1) as usize),
        decreases count - idx,
    {
        idx = idx + 1;
        windows.push(make_window(idx));
    }
    windows
}

/// What a simulated application knows of one of its windows.
#[derive(Clone, Copy, PartialEq, Debug)]
pub struct WindowState {
    pub last_seen_txid: TransactionId,
    pub animating: bool,
    pub frame: CGRect,
}

/// A window of which nothing is known yet.
pub open spec fn unseen() -> WindowState {
    WindowState { last_seen_txid: TransactionId(0), animating: false, frame: zero_rect() }
}

impl Default for WindowState {
    fn default() -> (state: WindowState)
        ensures
            state == unseen(),
    {
        WindowState {
            last_seen_txid: TransactionId(0),
            animating: false,
            frame: CGRect::default(),
        }
    }
}

/// Windows with their states.
pub type Entries = Seq<(WindowId, WindowState)>;

/// Whether `entries` are in the order of their windows, each window once.
pub open spec fn ordered(entries: Entries) -> bool {
    forall|i: int, j: int|
        0 <= i < j < entries.len() ==> (#[trigger] entries[i]).0.before((#[trigger] entries[j]).0)
}

/// How many of the first entries come before `wid`.
pub open spec fn place(entries: Entries, wid: WindowId) -> int
    decreases entries.len(),
{
    if entries.len() == 0 || !entries[0].0.before(wid) {
        0
    } else {
        1 + place(entries.drop_first(), wid)
    }
}

/// Whether `wid` has an entry.
pub open spec fn known(entries: Entries, wid: WindowId) -> bool {
    let p = place(entries, wid);
    p < entries.len() && entries[p].0 == wid
}

/// The state of `wid`.
pub open spec fn state_of(entries: Entries, wid: WindowId) -> WindowState {
    if known(entries, wid) {
        entries[place(entries, wid)].1
    } else {
        unseen()
    }
}

/// The entries with another state for `wid`.
pub open spec fn with_state(entries: Entries, wid: WindowId, state: WindowState) -> Entries {
    let p = place(entries, wid);
    if known(entries, wid) {
        entries.update(p, (wid, state))
    } else {
        entries.insert(p, (wid, state))
    }
}

proof fn place_splits(entries: Entries, wid: WindowId)
    requires
        ordered(entries),
    ensures
        0 <= place(entries, wid) <= entries.len(),
        forall|i: int| 0 <= i < place(entries, wid) ==> (#[trigger] entries[i]).0.before(wid),
        forall|i: int|
            place(entries, wid) <= i < entries.len() ==> !(#[trigger] entries[i]).0.before(wid),
    decreases entries.len(),
{
    if entries.len() == 0 || !entries[0].0.before(wid) {
        assert forall|i: int| 0 <= i < entries.len() implies !(
        #[trigger] entries[i]).0.before(wid) by {
            if i > 0 {
                assert(entries[0].0.before(entries[i].0));
            }
        }
    } else {
        let rest = entries.drop_first();
        assert(ordered(rest)) by {
            assert forall|i: int, j: int| 0 <= i < j < rest.len() implies (
            #[trigger] rest[i]).0.before((#[trigger] rest[j]).0) by {
                assert(entries[i + 1].0.before(entries[j + 1].0));
            }
        }
        place_splits(rest, wid);
        assert forall|i: int| 0 <= i < place(entries, wid) implies (
        #[trigger] entries[i]).0.before(wid) by {
            if i > 0 {
                assert(rest[i - 1].0.before(wid));
            }
        }
        assert forall|i: int| place(entries, wid) <= i < entries.len() implies !(
        #[trigger] entries[i]).0.before(wid) by {
            assert(!rest[i - 1].0.before(wid));
        }
    }
}

proof fn place_is(entries: Entries, wid: WindowId, p: int)
    requires
        ordered(entries),
        0 <= p <= entries.len(),
        forall|i: int| 0 <= i < p ==> (#[trigger] entries[i]).0.before(wid),
        p < entries.len() ==> !entries[p].0.before(wid),
    ensures
        place(entries, wid) == p,
{
    place_splits(entries, wid);
    let q = place(entries, wid);
    if q < p {
        assert(entries[q].0.before(wid));
        assert(!entries[q].0.before(wid));
    } else if p < q {
        assert(entries[p].0.before(wid));
    }
}

/// A state that was set is the state that is found; setting it keeps the order
/// and changes the state of no other window.
#[verifier::spinoff_prover]
pub proof fn setting_a_state(
    entries: Entries,
    wid: WindowId,
    state: WindowState,
    other: WindowId,
)
    requires
        ordered(entries),
    ensures
        ordered(with_state(entries, wid, state)),
        known(with_state(entries, wid, state), wid),
        state_of(with_state(entries, wid, state), wid) == state,
        other != wid ==> known(with_state(entries, wid, state), other) == known(entries, other),
        other != wid ==> state_of(with_state(entries, wid, state), other) == state_of(
            entries,
            other,
        ),
{
    let p = place(entries, wid);
    let after = with_state(entries, wid, state);
    place_splits(entries, wid);
    assert(ordered(after)) by {
        assert forall|i: int, j: int| 0 <= i < j < after.len() implies (
        #[trigger] after[i]).0.before((#[trigger] after[j]).0) by {
            if known(entries, wid) {
                assert(entries[i].0.before(entries[j].0));
            } else {
                if i < p && j < p {
                    assert(entries[i].0.before(entries[j].0));
                } else if i < p && j > p {
                    assert(entries[i].0.before(entries[j - 1].0));
                } else if i > p {
                    assert(entries[i - 1].0.before(entries[j - 1].0));
                } else if i == p {
                    assert(!entries[j - 1].0.before(wid));
                    assert(!entries[p].0.before(wid));
                    if j - 1 > p {
                        assert(entries[p].0.before(entries[j - 1].0));
                    }
                } else {
                    assert(entries[i].0.before(wid));
                }
            }
        }
    }
    assert forall|i: int| 0 <= i < p implies (#[trigger] after[i]).0.before(wid) by {
        assert(entries[i].0.before(wid));
    }
    place_is(after, wid, p);
    if other != wid {
        let q = place(entries, other);
        place_splits(entries, other);
        if known(entries, wid) {
            assert forall|i: int| 0 <= i < q implies (#[trigger] after[i]).0.before(other) by {
                assert(entries[i].0.before(other));
            }
            if q < after.len() {
                assert(!entries[q].0.before(other));
            }
            place_is(after, other, q);
        } else if wid.before(other) {
            if q < p {
                assert(entries[q].0.before(wid));
            }
            assert forall|i: int| 0 <= i < q + 1 implies (#[trigger] after[i]).0.before(other) by {
                if i < p {
                    assert(entries[i].0.before(other));
                } else if i > p {
                    assert(entries[i - 1].0.before(other));
                }
            }
            if q + 1 < after.len() {
                assert(!entries[q].0.before(other));
            }
            place_is(after, other, q + 1);
        } else {
            if q > p {
                assert(entries[p].0.before(other));
                assert(!entries[p].0.before(wid));
            }
            assert(q <= p);
            assert forall|i: int| 0 <= i < q implies (#[trigger] after[i]).0.before(other) by {
                assert(entries[i].0.before(other));
            }
            if q < p {
                assert(!entries[q].0.before(other));
                assert(after[q] == entries[q]);
            } else {
                assert(after[q].0 == wid);
            }
            place_is(after, other, q);
            if q == p && p < entries.len() {
                assert(after[p].0 == wid);
                if entries[p].0 == other {
                    assert(!entries[p].0.before(wid));
                }
            }
        }
    }
}

/// The windows of the simulated applications, in their order.
#[derive(Debug)]
pub struct WindowMap {
    entries: Vec<(WindowId, WindowState)>,
}

impl View for WindowMap {
    type V = Entries;

    closed spec fn view(&self) -> Entries {
        self.entries@
    }
}

impl WindowMap {
    /// No windows.
    pub fn new() -> (map: WindowMap)
        ensures
            map@ == Seq::<(WindowId, WindowState)>::empty(),
            ordered(map@),
    {
        WindowMap { entries: Vec::new() }
    }

    fn place_of(&self, wid: WindowId) -> (p: usize)
        requires
            ordered(self@),
        ensures
            p == place(self@, wid),
            p <= self@.len(),
    {
        let mut p: usize = 0;
        while p < self.entries.len() && self.entries[p].0.is_before(wid)
            invariant
                p <= self.entries@.len(),
                forall|i: int| 0 <= i < p ==> (#[trigger] self.entries@[i]).0.before(wid),
            decreases self.entries@.len() - p,
        {
            p = p + 1;
        }
        proof {
            place_is(self@, wid, p as int);
        }
        p
    }

    /// The state of `wid`, if it is known.
    pub fn get(&self, wid: WindowId) -> (state: Option<WindowState>)
        requires
            ordered(self@),
        ensures
            state == (if known(self@, wid) {
                Some(state_of(self@, wid))
            } else {
                None
            }),
    {
        let p: usize = self.place_of(wid);
        if p < self.entries.len() && self.entries[p].0 == wid {
            Some(self.entries[p].1)
        } else {
            None
        }
    }

    /// The state of `wid`, which may be unseen.
    pub fn state(&self, wid: WindowId) -> (state: WindowState)
        requires
            ordered(self@),
        ensures
            state == state_of(self@, wid),
    {
        match self.get(wid) {
            Some(state) => state,
            None => WindowState::default(),
        }
    }

    /// Sets the state of `wid`.
    pub fn set(&mut self, wid: WindowId, state: WindowState)
        requires
            ordered(old(self)@),
        ensures
            final(self)@ == with_state(old(self)@, wid, state),
            ordered(final(self)@),
    {
        let p: usize = self.place_of(wid);
        proof {
            setting_a_state(self@, wid, state, wid);
        }
        if p < self.entries.len() && self.entries[p].0 == wid {
            self.entries.set(p, (wid, state));
        } else {
            self.entries.insert(p, (wid, state));
        }
    }
}

/// The window server's word on the windows that it has a name for.
pub open spec fn server_infos(pid: pid_t, windows: Seq<WindowInfo>) -> Seq<WindowServerInfo>
    decreases windows.len(),
{
    if windows.len() == 0 {
        seq![]
    } else {
        let front = server_infos(pid, windows.drop_last());
        match windows.last().sys_id {
            Some(id) => front.push(
                WindowServerInfo { id, pid, layer: 0, frame: windows.last().frame },
            ),
            None => front,
        }
    }
}

/// The windows of an application, numbered from one.
pub open spec fn numbered(pid: pid_t, windows: Seq<WindowInfo>) -> Seq<(WindowId, WindowInfoView)> {
    Seq::new(
        windows.len(),
        |i: int| (WindowId { pid, idx: (i + 1) as u32 }, windows[i]@),
    )
}

/// The entries after an application has shown its windows.
pub open spec fn with_app(entries: Entries, pid: pid_t, windows: Seq<WindowInfo>) -> Entries
    decreases windows.len(),
{
    if windows.len() == 0 {
        entries
    } else {
        with_state(
            with_app(entries, pid, windows.drop_last()),
            WindowId { pid, idx: windows.len() as u32 },
            WindowState { frame: windows.last().frame, ..unseen() },
        )
    }
}

/// What the events of a list say.
pub open spec fn said(events: Seq<Event>) -> Seq<EventView> {
    events.map_values(|e: Event| e@)
}

/// What the reactor hears when an application is launched.
pub open spec fn launch(
    handle: AppThreadHandle,
    pid: pid_t,
    windows: Seq<WindowInfo>,
    main_window: Option<WindowId>,
    is_frontmost: bool,
) -> EventView {
    EventView::ApplicationLaunched {
        pid,
        info: AppInfoView {
            bundle_id: Some("com.testapp"@ + signed_decimal(pid as int)),
            localized_name: Some("TestApp"@ + signed_decimal(pid as int)),
        },
        handle,
        is_frontmost,
        main_window,
        visible_windows: numbered(pid, windows),
    }
}

/// What the reactor hears first, where the window server is asked.
pub open spec fn first_look(pid: pid_t, windows: Seq<WindowInfo>) -> EventView {
    EventView::WindowsOnScreenUpdated {
        pid: Some(pid),
        on_screen: snapshot(server_infos(pid, windows)),
    }
}

/// The windows of one application that are seen: those of the events of a look
/// at all windows, which are in order.
pub open spec fn discovered(entries: Entries) -> Seq<(pid_t, Seq<WindowId>)>
    decreases entries.len(),
{
    if entries.len() == 0 {
        seq![]
    } else {
        let front = discovered(entries.drop_last());
        let wid = entries.last().0;
        if front.len() > 0 && front.last().0 == wid.pid {
            front.drop_last().push((wid.pid, front.last().1.push(wid)))
        } else {
            front.push((wid.pid, seq![wid]))
        }
    }
}

/// The answer to a look at all windows: one event for each application.
pub open spec fn discoveries(entries: Entries) -> Seq<EventView> {
    discovered(entries).map_values(
        |d: (pid_t, Seq<WindowId>)|
            EventView::WindowsDiscovered { pid: d.0, new: seq![], known_visible: d.1 },
    )
}

/// The report of a frame.
pub open spec fn frame_report(wid: WindowId, frame: CGRect, txid: TransactionId) -> EventView {
    EventView::WindowFrameChanged(wid, frame, txid, Requested(true), None)
}

/// A simulation in the middle of a list of requests.
pub struct Simulation {
    pub entries: Entries,
    pub events: Seq<EventView>,
    /// Whether all windows were looked at already.
    pub looked: bool,
    /// Whether the application has terminated.
    pub terminated: bool,
}

/// The simulation before the first request.
pub open spec fn beginning(entries: Entries) -> Simulation {
    Simulation { entries, events: seq![], looked: false, terminated: false }
}

/// The frame that a request gives a window whose frame is `frame`.
pub open spec fn requested_frame(request: Request, frame: CGRect) -> CGRect {
    match request {
        Request::SetWindowFrame(_, wanted, _) => wanted,
        Request::SetWindowPos(_, pos, _) => CGRect { origin: pos, ..frame },
        _ => frame,
    }
}

impl Simulation {
    /// The state after a window was given a frame. A window on its way reports
    /// nothing, and neither does one whose frame is still the `same`.
    pub open spec fn framed(
        self,
        wid: WindowId,
        frame: CGRect,
        txid: TransactionId,
        same: bool,
    ) -> Simulation {
        let state = state_of(self.entries, wid);
        Simulation {
            entries: with_state(
                self.entries,
                wid,
                WindowState { last_seen_txid: txid, frame, ..state },
            ),
            events: if state.animating || same {
                self.events
            } else {
                self.events.push(frame_report(wid, frame, txid))
            },
            ..self
        }
    }

    /// The state after one request; `same` says whether the frame that the
    /// request gives counts as the one that the window had.
    pub open spec fn after(self, request: Request, same: bool) -> Simulation {
        if self.terminated {
            self
        } else {
            match request {
                Request::Terminate => Simulation { terminated: true, ..self },
                // One look per list is enough: all applications answer it.
                Request::GetVisibleWindows => if self.looked {
                    self
                } else {
                    Simulation {
                        looked: true,
                        events: self.events + discoveries(self.entries),
                        ..self
                    }
                },
                Request::SetWindowFrame(wid, frame, txid) => self.framed(wid, frame, txid, same),
                Request::SetWindowPos(wid, pos, txid) => self.framed(
                    wid,
                    CGRect { origin: pos, ..state_of(self.entries, wid).frame },
                    txid,
                    same,
                ),
                Request::BeginWindowAnimation(wid) => Simulation {
                    entries: with_state(
                        self.entries,
                        wid,
                        WindowState { animating: true, ..state_of(self.entries, wid) },
                    ),
                    ..self
                },
                Request::EndWindowAnimation(wid) => {
                    let state = state_of(self.entries, wid);
                    Simulation {
                        entries: with_state(
                            self.entries,
                            wid,
                            WindowState { animating: false, ..state },
                        ),
                        events: self.events.push(
                            frame_report(wid, state.frame, state.last_seen_txid),
                        ),
                        ..self
                    }
                },
                Request::Raise(_) => self,
                Request::WindowDestroyed(_) => self,
            }
        }
    }

    /// The two frames that `request` makes the simulation compare.
    pub open spec fn compared(self, request: Request) -> Option<(CGRect, CGRect)> {
        match request {
            Request::SetWindowFrame(wid, _, _) | Request::SetWindowPos(wid, _, _) => {
                let state = state_of(self.entries, wid);
                if self.terminated || state.animating {
                    None
                } else {
                    Some((state.frame, requested_frame(request, state.frame)))
                }
            },
            _ => None,
        }
    }
}

/// The simulation after all `requests`, where the comparisons came out as
/// `verdicts` say.
pub open spec fn run(start: Simulation, requests: Seq<Request>, verdicts: Seq<bool>) -> Simulation
    decreases requests.len(),
{
    if requests.len() == 0 {
        start
    } else {
        run(start, requests.drop_last(), verdicts.drop_last()).after(
            requests.last(),
            verdicts.last(),
        )
    }
}

/// Whether `verdicts` are what `same` may say of the frames that `requests`
/// make the simulation compare.
pub open spec fn verdicts_of<F: Fn(CGRect, CGRect) -> bool>(
    same: F,
    start: Simulation,
    requests: Seq<Request>,
    verdicts: Seq<bool>,
) -> bool
    decreases requests.len(),
{
    &&& verdicts.len() == requests.len()
    &&& requests.len() > 0 ==> {
        &&& verdicts_of(same, start, requests.drop_last(), verdicts.drop_last())
        &&& run(start, requests.drop_last(), verdicts.drop_last()).compared(
            requests.last(),
        ) matches Some((old_frame, frame)) ==> same.ensures((old_frame, frame), verdicts.last())
    }
}

/// Whether every request is one that a simulated application answers, up to the
/// point where it terminates.
pub open spec fn answerable(requests: Seq<Request>) -> bool {
    forall|i: int|
        0 <= i < requests.len() && ((#[trigger] requests[i]) is Raise
            || requests[i] is WindowDestroyed) ==> exists|j: int|
            0 <= j < i && (#[trigger] requests[j]) is Terminate
}

/// Simulated applications with their windows.
#[derive(Debug)]
pub struct Apps {
    handle: AppThreadHandle,
    windows: WindowMap,
}

impl Apps {
    /// The handle that every simulated application is reached by.
    pub closed spec fn handle(self) -> AppThreadHandle {
        self.handle
    }

    /// The windows of all applications.
    pub closed spec fn entries(self) -> Entries {
        self.windows@
    }

    /// No applications yet; requests to them go to `handle`.
    pub fn new(handle: AppThreadHandle) -> (apps: Apps)
        ensures
            apps.handle() == handle,
            apps.entries() == Seq::<(WindowId, WindowState)>::empty(),
            ordered(apps.entries()),
    {
        Apps { handle, windows: WindowMap::new() }
    }

    /// The windows of all applications.
    pub fn windows(&self) -> (windows: &WindowMap)
        ensures
            windows@ == self.entries(),
    {
        &self.windows
    }

    /// Launches an application whose first window, if it has one, is its main
    /// window. Returns the events that the reactor gets.
    pub fn make_app(&mut self, pid: pid_t, windows: Vec<WindowInfo>) -> (events: Vec<Event>)
        requires
            ordered(old(self).entries()),
            windows@.len() < u32::MAX,
        ensures
            final(self).handle() == old(self).handle(),
            final(self).entries() == with_app(old(self).entries(), pid, windows@),
            ordered(final(self).entries()),
            said(events@) == seq![
                first_look(pid, windows@),
                launch(
                    old(self).handle(),
                    pid,
                    windows@,
                    if windows@.len() > 0 {
                        Some(WindowId { pid, idx: 1 })
                    } else {
                        None
                    },
                    false,
                ),
            ],
    {
        let main_window = if windows.len() > 0 {
            Some(WindowId::new(pid, 1))
        } else {
            None
        };
        self.make_app_with_opts(pid, windows, main_window, false)
    }

    /// Launches an application. Returns the events that the reactor gets.
    pub fn make_app_with_opts(
        &mut self,
        pid: pid_t,
        windows: Vec<WindowInfo>,
        main_window: Option<WindowId>,
        is_frontmost: bool,
    ) -> (events: Vec<Event>)
        requires
            ordered(old(self).entries()),
            windows@.len() < u32::MAX,
        ensures
            final(self).handle() == old(self).handle(),
            final(self).entries() == with_app(old(self).entries(), pid, windows@),
            ordered(final(self).entries()),
            said(events@) == seq![
                first_look(pid, windows@),
                launch(old(self).handle(), pid, windows@, main_window, is_frontmost),
            ],
    {
        self.make_app_impl(pid, windows, main_window, is_frontmost, true)
    }

    /// Launches an application without a word from the window server. Returns
    /// the events that the reactor gets.
    pub fn make_app_without_ws_info(
        &mut self,
        pid: pid_t,
        windows: Vec<WindowInfo>,
        main_window: Option<WindowId>,
        is_frontmost: bool,
    ) -> (events: Vec<Event>)
        requires
            ordered(old(self).entries()),
            windows@.len() < u32::MAX,
        ensures
            final(self).handle() == old(self).handle(),
            final(self).entries() == with_app(old(self).entries(), pid, windows@),
            ordered(final(self).entries()),
            said(events@) == seq![
                launch(old(self).handle(), pid, windows@, main_window, is_frontmost),
            ],
    {
        self.make_app_impl(pid, windows, main_window, is_frontmost, false)
    }

    fn make_app_impl(
        &mut self,
        pid: pid_t,
        windows: Vec<WindowInfo>,
        main_window: Option<WindowId>,
        is_frontmost: bool,
        with_ws_info: bool,
    ) -> (events: Vec<Event>)
        requires
            ordered(old(self).entries()),
            windows@.len() < u32::MAX,
        ensures
            final(self).handle() == old(self).handle(),
            final(self).entries() == with_app(old(self).entries(), pid, windows@),
            ordered(final(self).entries()),
            said(events@) == (if with_ws_info {
                seq![first_look(pid, windows@)]
            } else {
                seq![]
            }).push(launch(old(self).handle(), pid, windows@, main_window, is_frontmost)),
    {
        let ghost all = windows@;
        let mut i: usize = 0;
        assert(all.take(0) =~= seq![]);
        while i < windows.len()
            invariant
                i <= windows@.len(),
                windows@ == all,
                all.len() < u32::MAX,
                self.handle == old(self).handle(),
                self.windows@ == with_app(old(self).entries(), pid, all.take(i as int)),
                ordered(self.windows@),
            decreases windows@.len() - i,
        {
            let state = WindowState { frame: windows[i].frame, ..WindowState::default() };
            assert(all.take(i as int + 1).drop_last() =~= all.take(i as int));
            self.windows.set(WindowId::new(pid, (i + 1) as u32), state);
            i = i + 1;
        }
        assert(all.take(i as int) =~= all);
        let mut events: Vec<Event> = Vec::new();
        if with_ws_info {
            let ws_info = known_to_server(pid, &windows);
            events.push(
                Event::WindowsOnScreenUpdated {
                    pid: Some(pid),
                    on_screen: WindowsOnScreen::new(ws_info),
                },
            );
        }
        let digits = decimal_i32(pid);
        let launched = Event::ApplicationLaunched {
            pid,
            info: AppInfo {
                bundle_id: Some("com.testapp".to_owned().concat(digits.as_str())),
                localized_name: Some("TestApp".to_owned().concat(digits.as_str())),
            },
            handle: self.handle,
            is_frontmost,
            main_window,
            visible_windows: number_windows(pid, windows),
        };
        assert(launched@ == launch(old(self).handle(), pid, all, main_window, is_frontmost));
        events.push(launched);
        assert(said(events@) =~= (if with_ws_info {
            seq![first_look(pid, all)]
        } else {
            seq![]
        }).push(launch(old(self).handle(), pid, all, main_window, is_frontmost)));
        events
    }

    /// Answers `requests` as the applications would, up to the first that asks
    /// to terminate. Returns the events that the reactor gets. Frames are
    /// compared by `same`.
    pub fn simulate_events_for_requests<F: Fn(CGRect, CGRect) -> bool>(
        &mut self,
        requests: Vec<Request>,
        same: F,
    ) -> (events: Vec<Event>)
        requires
            ordered(old(self).entries()),
            answerable(requests@),
            forall|a: CGRect, b: CGRect| same.requires((a, b)),
        ensures
            final(self).handle() == old(self).handle(),
            ordered(final(self).entries()),
            exists|verdicts: Seq<bool>|
                {
                    &&& #[trigger] verdicts_of(
                        same,
                        beginning(old(self).entries()),
                        requests@,
                        verdicts,
                    )
                    &&& final(self).entries() == run(
                        beginning(old(self).entries()),
                        requests@,
                        verdicts,
                    ).entries
                    &&& said(events@) == run(
                        beginning(old(self).entries()),
                        requests@,
                        verdicts,
                    ).events
                },
    {
        let ghost start = beginning(self.entries());
        let ghost mut verdicts: Seq<bool> = seq![];
        let mut events: Vec<Event> = Vec::new();
        let mut looked = false;
        let mut terminated = false;
        let mut i: usize = 0;
        assert(said(events@) =~= seq![]);
        while i < requests.len()
            invariant
                i <= requests@.len(),
                answerable(requests@),
                forall|a: CGRect, b: CGRect| same.requires((a, b)),
                start == beginning(old(self).entries()),
                self.handle == old(self).handle(),
                ordered(self.windows@),
                verdicts_of(same, start, requests@.take(i as int), verdicts),
                run(start, requests@.take(i as int), verdicts) == (Simulation {
                    entries: self.windows@,
                    events: said(events@),
                    looked,
                    terminated,
                }),
                !terminated ==> forall|j: int| 0 <= j < i ==> !((#[trigger] requests@[j]) is Terminate),
            decreases requests@.len() - i,
        {
            let request = requests[i];
            let ghost before = run(start, requests@.take(i as int), verdicts);
            let mut verdict = false;
            if !terminated {
                match request {
                    Request::Terminate => {
                        terminated = true;
                    },
                    Request::GetVisibleWindows => {
                        if !looked {
                            looked = true;
                            self.windows.discover(&mut events);
                        }
                    },
                    Request::SetWindowFrame(wid, frame, txid) => {
                        verdict = self.set_frame(wid, frame, txid, &same, &mut events);
                    },
                    Request::SetWindowPos(wid, pos, txid) => {
                        let frame = CGRect { origin: pos, size: self.windows.state(wid).frame.size };
                        verdict = self.set_frame(wid, frame, txid, &same, &mut events);
                    },
                    Request::BeginWindowAnimation(wid) => {
                        let state = self.windows.state(wid);
                        self.windows.set(wid, WindowState { animating: true, ..state });
                    },
                    Request::EndWindowAnimation(wid) => {
                        let state = self.windows.state(wid);
                        self.windows.set(wid, WindowState { animating: false, ..state });
                        report_frame(wid, state.frame, state.last_seen_txid, &mut events);
                    },
                    Request::Raise(_) => {},
                    Request::WindowDestroyed(_) => {},
                }
            }
            proof {
                let now = requests@.take(i as int + 1);
                let said_now = verdicts.push(verdict);
                assert(now.drop_last() =~= requests@.take(i as int));
                assert(said_now.drop_last() =~= verdicts);
                assert(now.last() == request);
                assert(said_now.last() == verdict);
                assert(run(start, now, said_now) == before.after(request, verdict));
                verdicts = said_now;
            }
            i = i + 1;
        }
        assert(requests@.take(i as int) =~= requests@);
        events
    }

    fn set_frame<F: Fn(CGRect, CGRect) -> bool>(
        &mut self,
        wid: WindowId,
        frame: CGRect,
        txid: TransactionId,
        same: &F,
        events: &mut Vec<Event>,
    ) -> (verdict: bool)
        requires
            ordered(old(self).entries()),
            forall|a: CGRect, b: CGRect| same.requires((a, b)),
        ensures
            final(self).handle() == old(self).handle(),
            ordered(final(self).entries()),
            ({
                let state = state_of(old(self).entries(), wid);
                &&& !state.animating ==> same.ensures((state.frame, frame), verdict)
                &&& final(self).entries() == with_state(
                    old(self).entries(),
                    wid,
                    WindowState { last_seen_txid: txid, frame, ..state },
                )
                &&& said(final(events)@) == (if state.animating || verdict {
                    said(old(events)@)
                } else {
                    said(old(events)@).push(frame_report(wid, frame, txid))
                })
            }),
    {
        let state = self.windows.state(wid);
        self.windows.set(wid, WindowState { last_seen_txid: txid, frame, ..state });
        if state.animating {
            return false;
        }
        let verdict = same(state.frame, frame);
        if !verdict {
            report_frame(wid, frame, txid, events);
        }
        verdict
    }
}

fn report_frame(wid: WindowId, frame: CGRect, txid: TransactionId, events: &mut Vec<Event>)
    ensures
        said(final(events)@) == said(old(events)@).push(frame_report(wid, frame, txid)),
{
    events.push(Event::WindowFrameChanged(wid, frame, txid, Requested(true), None));
    assert(said(events@) =~= said(old(events)@).push(frame_report(wid, frame, txid)));
}

impl WindowMap {
    /// Answers a look at all windows.
    fn discover(&self, events: &mut Vec<Event>)
        ensures
            said(final(events)@) == said(old(events)@) + discoveries(self@),
    {
        let mut groups: Vec<(pid_t, Vec<WindowId>)> = Vec::new();
        let mut i: usize = 0;
        assert(self.entries@.take(0) =~= seq![]);
        assert(grouped(groups@) =~= seq![]);
        while i < self.entries.len()
            invariant
                i <= self.entries@.len(),
                grouped(groups@) == discovered(self.entries@.take(i as int)),
            decreases self.entries@.len() - i,
        {
            let wid = self.entries[i].0;
            assert(self.entries@.take(i as int + 1).drop_last() =~= self.entries@.take(i as int));
            let ghost front = grouped(groups@);
            let same_app = match groups.last() {
                Some(group) => group.0 == wid.pid,
                None => false,
            };
            if same_app {
                let ghost before = groups@;
                let (pid, mut windows) = groups.pop().unwrap();
                let ghost held = windows@;
                windows.push(wid);
                groups.push((pid, windows));
                assert(grouped(groups@) =~= front.drop_last().push((wid.pid, held.push(wid))));
            } else {
                let mut windows: Vec<WindowId> = Vec::new();
                windows.push(wid);
                groups.push((wid.pid, windows));
                assert(windows@ =~= seq![wid]);
                assert(grouped(groups@) =~= front.push((wid.pid, seq![wid])));
            }
            i = i + 1;
        }
        assert(self.entries@.take(i as int) =~= self.entries@);
        let ghost all = grouped(groups@);
        let ghost told = said(events@);
        let ghost mut k: int = 0;
        assert(said(events@) =~= told + discoveries(self@).take(0));
        assert(grouped(groups@) =~= all.skip(0));
        while groups.len() > 0
            invariant
                all == discovered(self@),
                0 <= k,
                k + groups@.len() == all.len(),
                grouped(groups@) == all.skip(k),
                said(events@) == told + discoveries(self@).take(k),
            decreases groups@.len(),
        {
            let ghost before = grouped(groups@);
            let (pid, windows) = groups.remove(0);
            assert(before[0] == (pid, windows@));
            let ghost sofar = said(events@);
            let none: Vec<(WindowId, WindowInfo)> = Vec::new();
            assert(described(none@) =~= seq![]);
            let event = Event::WindowsDiscovered { pid, new: none, known_visible: windows };
            assert(event@ == discoveries(self@)[k]);
            events.push(event);
            proof {
                assert(said(events@) =~= sofar.push(discoveries(self@)[k]));
                assert(grouped(groups@) =~= before.skip(1));
                k = k + 1;
                assert(grouped(groups@) =~= all.skip(k));
                assert(said(events@) =~= told + discoveries(self@).take(k));
            }
        }
        assert(discoveries(self@).take(k) =~= discoveries(self@));
    }
}

spec fn grouped(groups: Seq<(pid_t, Vec<WindowId>)>) -> Seq<(pid_t, Seq<WindowId>)> {
    groups.map_values(|g: (pid_t, Vec<WindowId>)| (g.0, g.1@))
}

fn known_to_server(pid: pid_t, windows: &Vec<WindowInfo>) -> (infos: Vec<WindowServerInfo>)
    ensures
        infos@ == server_infos(pid, windows@),
{
    let mut infos: Vec<WindowServerInfo> = Vec::new();
    let mut i: usize = 0;
    assert(windows@.take(0) =~= seq![]);
    while i < windows.len()
        invariant
            i <= windows@.len(),
            infos@ == server_infos(pid, windows@.take(i as int)),
        decreases windows@.len() - i,
    {
        assert(windows@.take(i as int + 1).drop_last() =~= windows@.take(i as int));
        if let Some(id) = windows[i].sys_id {
            infos.push(WindowServerInfo { id, pid, layer: 0, frame: windows[i].frame });
        }
        i = i + 1;
    }
    assert(windows@.take(i as int) =~= windows@);
    infos
}

fn number_windows(pid: pid_t, windows: Vec<WindowInfo>) -> (all: Vec<(WindowId, WindowInfo)>)
    requires
        windows@.len() < u32::MAX,
    ensures
        described(all@) == numbered(pid, windows@),
{
    let mut rest = windows;
    let ghost given = rest@;
    let mut all: Vec<(WindowId, WindowInfo)> = Vec::new();
    let mut i: usize = 0;
    while rest.len() > 0
        invariant
            given == windows@,
            given.len() < u32::MAX,
            i + rest@.len() == given.len(),
            rest@ == given.skip(i as int),
            described(all@) == numbered(pid, given).take(i as int),
        decreases rest@.len(),
    {
        let info = rest.remove(0);
        assert(info == given[i as int]);
        let ghost before = described(all@);
        all.push((WindowId::new(pid, (i + 1) as u32), info));
        assert(described(all@) =~= before.push(numbered(pid, given)[i as int]));
        i = i + 1;
        assert(described(all@) =~= numbered(pid, given).take(i as int));
        assert(rest@ =~= given.skip(i as int));
    }
    assert(numbered(pid, given).take(i as int) =~= numbered(pid, given));
    all
}

/// The windows of a list of groups, one group after the other.
pub open spec fn all_windows(groups: Seq<(pid_t, Seq<WindowId>)>) -> Seq<WindowId>
    decreases groups.len(),
{
    if groups.len() == 0 {
        seq![]
    } else {
        all_windows(groups.drop_last()) + groups.last().1
    }
}

/// A look at all windows finds every window once, in order, under the
/// application that owns it, and reports each application once.
pub proof fn every_window_is_discovered_once(entries: Entries)
    requires
        ordered(entries),
    ensures
        all_windows(discovered(entries)) == entries.map_values(|e: (WindowId, WindowState)| e.0),
        forall|g: int, k: int|
            0 <= g < discovered(entries).len() && 0 <= k < discovered(entries)[g].1.len() ==> (
            #[trigger] discovered(entries)[g].1[k]).pid == discovered(entries)[g].0,
        forall|g: int, h: int|
            0 <= g < h < discovered(entries).len() ==> (#[trigger] discovered(entries)[g]).0 < (
            #[trigger] discovered(entries)[h]).0,
        entries.len() > 0 ==> discovered(entries).len() > 0 && discovered(entries).last().0
            == entries.last().0.pid,
    decreases entries.len(),
{
    let ids = entries.map_values(|e: (WindowId, WindowState)| e.0);
    let groups = discovered(entries);
    if entries.len() == 0 {
        assert(all_windows(groups) =~= ids);
    } else {
        let front = entries.drop_last();
        let before = discovered(front);
        let wid = entries.last().0;
        assert(ordered(front)) by {
            assert forall|i: int, j: int| 0 <= i < j < front.len() implies (
            #[trigger] front[i]).0.before((#[trigger] front[j]).0) by {
                assert(entries[i].0.before(entries[j].0));
            }
        }
        every_window_is_discovered_once(front);
        assert(ids =~= front.map_values(|e: (WindowId, WindowState)| e.0).push(wid));
        if front.len() > 0 {
            assert(entries[front.len() - 1].0.before(entries[entries.len() - 1].0));
        }
        if before.len() > 0 && before.last().0 == wid.pid {
            let grown = before.last().1.push(wid);
            assert(groups.drop_last() =~= before.drop_last());
            assert(all_windows(groups) =~= ids);
            assert forall|g: int, k: int| 0 <= g < groups.len() && 0 <= k < groups[g].1.len() implies (
            #[trigger] groups[g].1[k]).pid == groups[g].0 by {
                if g < groups.len() - 1 {
                    assert(before[g].1[k].pid == before[g].0);
                } else if k < grown.len() - 1 {
                    assert(before[before.len() - 1].1[k].pid == before[before.len() - 1].0);
                }
            }
            assert forall|g: int, h: int| 0 <= g < h < groups.len() implies (
            #[trigger] groups[g]).0 < (#[trigger] groups[h]).0 by {
                assert(before[g].0 < before[h].0);
            }
        } else {
            assert(groups.drop_last() =~= before);
            assert(all_windows(groups) =~= ids);
            assert forall|g: int, k: int| 0 <= g < groups.len() && 0 <= k < groups[g].1.len() implies (
            #[trigger] groups[g].1[k]).pid == groups[g].0 by {
                if g < groups.len() - 1 {
                    assert(before[g].1[k].pid == before[g].0);
                }
            }
            assert forall|g: int, h: int| 0 <= g < h < groups.len() implies (
            #[trigger] groups[g]).0 < (#[trigger] groups[h]).0 by {
                if h < groups.len() - 1 {
                    assert(before[g].0 < before[h].0);
                } else {
                    let l = before.len() - 1;
                    assert(before[l].0 < wid.pid);
                    if g < l {
                        assert(before[g].0 < before[l].0);
                    }
                }
            }
        }
    }
}

/// Nothing is made of the requests that come after an application has
/// terminated, and nothing is compared for them.
proof fn nothing_follows_the_end<F: Fn(CGRect, CGRect) -> bool>(
    same: F,
    start: Simulation,
    first: Seq<Request>,
    rest: Seq<Request>,
    verdicts: Seq<bool>,
)
    requires
        verdicts.len() == first.len() + rest.len(),
        run(start, first, verdicts.take(first.len() as int)).terminated,
    ensures
        run(start, first + rest, verdicts) == run(
            start,
            first,
            verdicts.take(first.len() as int),
        ),
        verdicts_of(same, start, first + rest, verdicts) == verdicts_of(
            same,
            start,
            first,
            verdicts.take(first.len() as int),
        ),
    decreases rest.len(),
{
    let n = first.len() as int;
    if rest.len() == 0 {
        assert(first + rest =~= first);
        assert(verdicts.take(n) =~= verdicts);
    } else {
        let front = rest.drop_last();
        assert((first + rest).drop_last() =~= first + front);
        assert(verdicts.drop_last().take(n) =~= verdicts.take(n));
        nothing_follows_the_end(same, start, first, front, verdicts.drop_last());
    }
}

/// Everything from the request to terminate on is ignored: whatever may become of
/// requests with more after it is what may become of those before it, and the
/// other way round. The requests that are ignored can be any.
pub proof fn everything_after_the_end_is_ignored<F: Fn(CGRect, CGRect) -> bool>(
    same: F,
    start: Simulation,
    before: Seq<Request>,
    after: Seq<Request>,
    verdicts: Seq<bool>,
)
    requires
        verdicts.len() == before.len() + 1 + after.len(),
    ensures
        run(start, before + seq![Request::Terminate] + after, verdicts).entries == run(
            start,
            before,
            verdicts.take(before.len() as int),
        ).entries,
        run(start, before + seq![Request::Terminate] + after, verdicts).events == run(
            start,
            before,
            verdicts.take(before.len() as int),
        ).events,
        verdicts_of(same, start, before + seq![Request::Terminate] + after, verdicts)
            == verdicts_of(same, start, before, verdicts.take(before.len() as int)),
        answerable(before) ==> answerable(before + seq![Request::Terminate] + after),
{
    let n = before.len() as int;
    let first = before + seq![Request::Terminate];
    let heard = verdicts.take(n + 1);
    assert(first.drop_last() =~= before);
    assert(heard.drop_last() =~= verdicts.take(n));
    nothing_follows_the_end(same, start, first, after, verdicts);
    let all = first + after;
    if answerable(before) {
        assert forall|i: int|
            0 <= i < all.len() && ((#[trigger] all[i]) is Raise
                || all[i] is WindowDestroyed) implies exists|j: int|
            0 <= j < i && (#[trigger] all[j]) is Terminate by {
            if i < n {
                assert(all[i] == before[i]);
                let j = choose|j: int| 0 <= j < i && (#[trigger] before[j]) is Terminate;
                assert(all[j] is Terminate);
            } else {
                assert(all[n] is Terminate);
            }
        }
    }
}

/// Whether a window is the made-up one of a number, whose digits are `digits`.
pub open spec fn is_made_up(window: WindowInfo, idx: usize, digits: Seq<char>) -> bool {
    &&& window.is_standard
    &&& window.is_resizable
    &&& window.title@ == "Window"@ + digits
    &&& is_whole(window.frame.origin.x, 100 * (idx as u32))
    &&& is_whole(window.frame.origin.y, 100)
    &&& is_whole(window.frame.size.width, 50)
    &&& is_whole(window.frame.size.height, 50)
    &&& window.sys_id matches Some(id)
    &&& id.0 == idx as u32
}

/// Made-up windows are named and placed by their number, and a list of them counts
/// from one.
pub proof fn made_up_windows_are_told_apart_by_their_number(
    idx: usize,
    window: WindowInfo,
    digits: String,
    count: usize,
    windows: Vec<WindowInfo>,
)
    requires
        call_ensures(make_window, (idx,), window),
        call_ensures(decimal, (idx as u64,), digits),
        call_ensures(make_windows, (count,), windows),
    ensures
        is_made_up(window, idx, digits@),
        windows@.len() == count,
        1 <= idx <= count ==> is_made_up(windows@[idx - 1], idx, digits@),
{
    if 1 <= idx <= count {
        assert(sample_window(windows@[idx - 1]@, (idx - 1 + 1) as usize));
    }
}

/// Whether `entries` are in the order of their processes, and those of one process
/// in that of their numbers, no window twice.
pub open spec fn in_order(entries: Entries) -> bool {
    forall|i: int, j: int|
        #![trigger entries[i], entries[j]]
        0 <= i < j < entries.len() ==> entries[i].0.pid < entries[j].0.pid || (entries[i].0.pid
            == entries[j].0.pid && entries[i].0.idx < entries[j].0.idx)
}

proof fn in_order_is_ordered(entries: Entries)
    ensures
        in_order(entries) == ordered(entries),
{
    if in_order(entries) {
        assert(ordered(entries));
    }
    if ordered(entries) {
        assert forall|i: int, j: int|
            #![trigger entries[i], entries[j]]
            0 <= i < j < entries.len() implies entries[i].0.pid < entries[j].0.pid || (
        entries[i].0.pid == entries[j].0.pid && entries[i].0.idx < entries[j].0.idx) by {
            assert(entries[i].0.before(entries[j].0));
        }
    }
}

/// Whether `state` is what is known of a window: what stands with it or, where it
/// does not occur, that it never moved, lies nowhere and has seen no transaction.
pub open spec fn stands_with(entries: Entries, wid: WindowId, state: WindowState) -> bool {
    ||| entries.contains((wid, state))
    ||| {
        &&& forall|i: int| 0 <= i < entries.len() ==> (#[trigger] entries[i]).0 != wid
        &&& state.last_seen_txid.0 == 0
        &&& !state.animating
        &&& state.frame.origin.x.bits == 0
        &&& state.frame.origin.y.bits == 0
        &&& state.frame.size.width.bits == 0
        &&& state.frame.size.height.bits == 0
    }
}

/// Whether `after` is `before` with `state` for one window, all others as they were.
pub open spec fn only_changes(
    before: Entries,
    after: Entries,
    wid: WindowId,
    state: WindowState,
) -> bool {
    &&& in_order(after)
    &&& after.contains((wid, state))
    &&& forall|e: (WindowId, WindowState)|
        e.0 != wid ==> (#[trigger] after.contains(e) <==> before.contains(e))
}

proof fn known_windows_stand(entries: Entries, wid: WindowId, state: WindowState)
    requires
        ordered(entries),
    ensures
        stands_with(entries, wid, state) <==> state == state_of(entries, wid),
        entries.contains((wid, state)) <==> known(entries, wid) && state_of(entries, wid) == state,
{
    let p = place(entries, wid);
    place_splits(entries, wid);
    if known(entries, wid) {
        assert(entries[p] == (wid, state_of(entries, wid)));
        if entries.contains((wid, state)) {
            let i = choose|i: int| 0 <= i < entries.len() && entries[i] == (wid, state);
            if i < p {
                assert(entries[i].0.before(entries[p].0));
            } else if p < i {
                assert(entries[p].0.before(entries[i].0));
            }
        }
    } else {
        assert forall|i: int| 0 <= i < entries.len() implies (#[trigger] entries[i]).0 != wid by {
            if entries[i].0 == wid {
                assert(!entries[i].0.before(wid));
                assert(p <= i) by {
                    if i < p {
                        assert(entries[i].0.before(wid));
                    }
                }
                if p < i {
                    assert(entries[p].0.before(entries[i].0));
                    assert(!entries[p].0.before(wid));
                }
            }
        }
    }
}

proof fn setting_only_changes(entries: Entries, wid: WindowId, state: WindowState)
    requires
        ordered(entries),
    ensures
        only_changes(entries, with_state(entries, wid, state), wid, state),
{
    let after = with_state(entries, wid, state);
    setting_a_state(entries, wid, state, wid);
    in_order_is_ordered(after);
    known_windows_stand(after, wid, state);
    assert forall|e: (WindowId, WindowState)| e.0 != wid implies (#[trigger] after.contains(e)
        <==> entries.contains(e)) by {
        setting_a_state(entries, wid, state, e.0);
        known_windows_stand(after, e.0, e.1);
        known_windows_stand(entries, e.0, e.1);
    }
}

/// A map knows the windows that stand in it, each with its state, and of the others
/// that nothing happened to them.
pub proof fn windows_are_found_with_their_states(
    map: WindowMap,
    wid: WindowId,
    found: Option<WindowState>,
    state: WindowState,
)
    requires
        in_order(map@),
        call_ensures(WindowMap::get, (&map, wid), found),
        call_ensures(WindowMap::state, (&map, wid), state),
    ensures
        found is Some ==> map@.contains((wid, found->0)) && state == found->0,
        found is None ==> forall|i: int| 0 <= i < map@.len() ==> (#[trigger] map@[i]).0 != wid,
        stands_with(map@, wid, state),
{
    in_order_is_ordered(map@);
    known_windows_stand(map@, wid, state);
    if !known(map@, wid) {
        assert forall|i: int| 0 <= i < map@.len() implies (#[trigger] map@[i]).0 != wid by {
            known_windows_stand(map@, wid, map@[i].1);
            if map@[i].0 == wid {
                assert(map@.contains((wid, map@[i].1)));
            }
        }
    }
}

/// Setting the state of a window changes nothing else, whether the window was known
/// or not.
pub proof fn a_state_is_set_for_one_window(map: &mut WindowMap, wid: WindowId, state: WindowState)
    requires
        in_order(old(map)@),
        call_ensures(WindowMap::set, (map, wid, state), ()),
    ensures
        only_changes(old(map)@, final(map)@, wid, state),
{
    in_order_is_ordered(old(map)@);
    setting_only_changes(old(map)@, wid, state);
}

/// A map starts without windows, and so do the simulated applications, which are
/// reached by the handle that they are given.
pub proof fn simulations_start_without_windows(
    map: WindowMap,
    handle: AppThreadHandle,
    apps: Apps,
    windows: &WindowMap,
    state: WindowState,
)
    requires
        call_ensures(WindowMap::new, (), map),
        call_ensures(Apps::new, (handle,), apps),
        call_ensures(Apps::windows, (&apps,), windows),
        call_ensures(<WindowState as Default>::default, (), state),
    ensures
        map@.len() == 0,
        windows@.len() == 0,
        apps.entries() == windows@,
        apps.handle() == handle,
        forall|wid: WindowId| stands_with(map@, wid, state),
{
}

/// Whether `infos` are the windows of `windows` that the window server has a name
/// for, in their order, as it would list them for `pid`.
pub open spec fn lists_for_server(
    infos: Seq<WindowServerInfo>,
    pid: pid_t,
    windows: Seq<WindowInfo>,
) -> bool {
    infos == windows.filter(|w: WindowInfo| w.sys_id is Some).map_values(
        |w: WindowInfo| WindowServerInfo { id: w.sys_id->0, pid, layer: 0, frame: w.frame },
    )
}

proof fn the_server_lists_named_windows(pid: pid_t, windows: Seq<WindowInfo>)
    ensures
        lists_for_server(server_infos(pid, windows), pid, windows),
    decreases windows.len(),
{
    reveal(Seq::filter);
    let named = |w: WindowInfo| w.sys_id is Some;
    let info = |w: WindowInfo|
        WindowServerInfo { id: w.sys_id->0, pid, layer: 0, frame: w.frame };
    if windows.len() > 0 {
        let front = windows.drop_last();
        the_server_lists_named_windows(pid, front);
        if windows.last().sys_id is Some {
            assert(front.filter(named).push(windows.last()).map_values(info) =~= front.filter(
                named,
            ).map_values(info).push(info(windows.last())));
        }
    } else {
        assert(server_infos(pid, windows) =~= windows.filter(named).map_values(info));
    }
}

/// Whether an event tells of all windows of an application that the window server
/// has a name for.
pub open spec fn tells_of_windows_on_screen(
    event: Event,
    pid: pid_t,
    windows: Seq<WindowInfo>,
) -> bool {
    &&& event matches Event::WindowsOnScreenUpdated { pid: owner, on_screen }
    &&& owner == Some(pid)
    &&& lists_for_server(on_screen.windows@, pid, windows)
    &&& on_screen.visible@ == on_screen.windows@.map_values(|w: WindowServerInfo| w.id)
}

/// Whether an event tells of the launch of the application `pid`, whose number is
/// written `digits`.
pub open spec fn tells_of_launch(
    event: Event,
    handle: AppThreadHandle,
    pid: pid_t,
    digits: Seq<char>,
    windows: Seq<WindowInfo>,
    main_window: Option<WindowId>,
    is_frontmost: bool,
) -> bool {
    &&& event matches Event::ApplicationLaunched {
        pid: launched,
        info,
        handle: reached,
        is_frontmost: front,
        main_window: main,
        visible_windows,
    }
    &&& launched == pid
    &&& info.bundle_id is Some && info.bundle_id->0@ == "com.testapp"@ + digits
    &&& info.localized_name is Some && info.localized_name->0@ == "TestApp"@ + digits
    &&& reached == handle
    &&& front == is_frontmost
    &&& main == main_window
    &&& visible_windows@.len() == windows.len()
    &&& forall|i: int|
        #![trigger visible_windows@[i]]
        0 <= i < windows.len() ==> {
            &&& visible_windows@[i].0.pid == pid
            &&& visible_windows@[i].0.idx == i + 1
            &&& visible_windows@[i].1.is_standard == windows[i].is_standard
            &&& visible_windows@[i].1.is_resizable == windows[i].is_resizable
            &&& visible_windows@[i].1.title@ == windows[i].title@
            &&& visible_windows@[i].1.frame == windows[i].frame
            &&& visible_windows@[i].1.sys_id == windows[i].sys_id
        }
}

/// Whether `after` is `before` with the windows of an application: they are numbered
/// from one, lie where they are said to, do not move and have seen no transaction.
/// All others stay.
pub open spec fn gains_application(
    before: Entries,
    after: Entries,
    pid: pid_t,
    windows: Seq<WindowInfo>,
) -> bool {
    &&& in_order(after)
    &&& forall|e: (WindowId, WindowState)| #[trigger]
        after.contains(e) <==> if e.0.pid == pid && 1 <= e.0.idx <= windows.len() {
            &&& e.1.last_seen_txid.0 == 0
            &&& !e.1.animating
            &&& e.1.frame == windows[e.0.idx - 1].frame
        } else {
            before.contains(e)
        }
}

proof fn showing_windows_gains_them(entries: Entries, pid: pid_t, windows: Seq<WindowInfo>)
    requires
        ordered(entries),
        windows.len() < u32::MAX,
    ensures
        ordered(with_app(entries, pid, windows)),
        gains_application(entries, with_app(entries, pid, windows), pid, windows),
    decreases windows.len(),
{
    let after = with_app(entries, pid, windows);
    in_order_is_ordered(entries);
    if windows.len() > 0 {
        let front = windows.drop_last();
        let middle = with_app(entries, pid, front);
        showing_windows_gains_them(entries, pid, front);
        let wid = WindowId { pid, idx: windows.len() as u32 };
        let state = WindowState { frame: windows.last().frame, ..unseen() };
        setting_a_state(middle, wid, state, wid);
        setting_only_changes(middle, wid, state);
        assert forall|e: (WindowId, WindowState)| #[trigger]
            after.contains(e) <==> if e.0.pid == pid && 1 <= e.0.idx <= windows.len() {
                &&& e.1.last_seen_txid.0 == 0
                &&& !e.1.animating
                &&& e.1.frame == windows[e.0.idx - 1].frame
            } else {
                entries.contains(e)
            } by {
            if e.0 == wid {
                known_windows_stand(after, wid, e.1);
            } else {
                assert(after.contains(e) <==> middle.contains(e));
                if e.0.pid == pid && 1 <= e.0.idx < windows.len() {
                    assert(front[e.0.idx - 1] == windows[e.0.idx - 1]);
                }
            }
        }
    }
}

proof fn a_launch_is_told(
    event: Event,
    handle: AppThreadHandle,
    pid: pid_t,
    digits: Seq<char>,
    windows: Seq<WindowInfo>,
    main_window: Option<WindowId>,
    is_frontmost: bool,
)
    requires
        event@ == launch(handle, pid, windows, main_window, is_frontmost),
        digits == signed_decimal(pid as int),
        windows.len() < u32::MAX,
    ensures
        tells_of_launch(event, handle, pid, digits, windows, main_window, is_frontmost),
{
    let told = numbered(pid, windows);
    if let Event::ApplicationLaunched { visible_windows, .. } = event {
        assert(described(visible_windows@) == told);
        assert(visible_windows@.len() == told.len());
        assert forall|i: int|
            #![trigger visible_windows@[i]]
            0 <= i < windows.len() implies {
            &&& visible_windows@[i].0.pid == pid
            &&& visible_windows@[i].0.idx == i + 1
            &&& visible_windows@[i].1.is_standard == windows[i].is_standard
            &&& visible_windows@[i].1.is_resizable == windows[i].is_resizable
            &&& visible_windows@[i].1.title@ == windows[i].title@
            &&& visible_windows@[i].1.frame == windows[i].frame
            &&& visible_windows@[i].1.sys_id == windows[i].sys_id
        } by {
            assert(described(visible_windows@)[i] == (
                visible_windows@[i].0,
                visible_windows@[i].1@,
            ));
            assert(told[i] == (WindowId { pid, idx: (i + 1) as u32 }, windows[i]@));
        }
    }
}

proof fn windows_on_screen_are_told(event: Event, pid: pid_t, windows: Seq<WindowInfo>)
    requires
        event@ == first_look(pid, windows),
    ensures
        tells_of_windows_on_screen(event, pid, windows),
{
    the_server_lists_named_windows(pid, windows);
    if let Event::WindowsOnScreenUpdated { on_screen, .. } = event {
        assert(on_screen.visible@ =~= on_screen.windows@.map_values(|w: WindowServerInfo| w.id));
    }
}

/// An application that is launched brings its windows. The reactor hears first of
/// those on screen, and then of the launch.
pub proof fn a_launch_is_told_to_the_reactor(
    apps: &mut Apps,
    pid: pid_t,
    digits: String,
    windows: Vec<WindowInfo>,
    main_window: Option<WindowId>,
    is_frontmost: bool,
    events: Vec<Event>,
)
    requires
        in_order(old(apps).entries()),
        windows@.len() < u32::MAX,
        call_ensures(
            Apps::make_app_with_opts,
            (apps, pid, windows, main_window, is_frontmost),
            events,
        ),
        call_ensures(decimal_i32, (pid,), digits),
    ensures
        final(apps).handle() == old(apps).handle(),
        gains_application(old(apps).entries(), final(apps).entries(), pid, windows@),
        events@.len() == 2,
        tells_of_windows_on_screen(events@[0], pid, windows@),
        tells_of_launch(
            events@[1],
            old(apps).handle(),
            pid,
            digits@,
            windows@,
            main_window,
            is_frontmost,
        ),
{
    in_order_is_ordered(old(apps).entries());
    showing_windows_gains_them(old(apps).entries(), pid, windows@);
    assert(said(events@).len() == events@.len());
    assert(said(events@)[0] == events@[0]@);
    assert(said(events@)[1] == events@[1]@);
    windows_on_screen_are_told(events@[0], pid, windows@);
    a_launch_is_told(
        events@[1],
        old(apps).handle(),
        pid,
        digits@,
        windows@,
        main_window,
        is_frontmost,
    );
}

/// An application of which nothing else is said is launched in the background, with
/// its first window, if there is one, as its main window.
pub proof fn a_launch_makes_the_first_window_the_main_one(
    apps: &mut Apps,
    pid: pid_t,
    digits: String,
    windows: Vec<WindowInfo>,
    events: Vec<Event>,
)
    requires
        in_order(old(apps).entries()),
        windows@.len() < u32::MAX,
        call_ensures(Apps::make_app, (apps, pid, windows), events),
        call_ensures(decimal_i32, (pid,), digits),
    ensures
        final(apps).handle() == old(apps).handle(),
        gains_application(old(apps).entries(), final(apps).entries(), pid, windows@),
        events@.len() == 2,
        tells_of_windows_on_screen(events@[0], pid, windows@),
        tells_of_launch(
            events@[1],
            old(apps).handle(),
            pid,
            digits@,
            windows@,
            if windows@.len() == 0 {
                None
            } else {
                Some(WindowId { pid, idx: 1 })
            },
            false,
        ),
{
    in_order_is_ordered(old(apps).entries());
    showing_windows_gains_them(old(apps).entries(), pid, windows@);
    assert(said(events@).len() == events@.len());
    assert(said(events@)[0] == events@[0]@);
    assert(said(events@)[1] == events@[1]@);
    windows_on_screen_are_told(events@[0], pid, windows@);
    a_launch_is_told(
        events@[1],
        old(apps).handle(),
        pid,
        digits@,
        windows@,
        if windows@.len() == 0 {
            None
        } else {
            Some(WindowId { pid, idx: 1 })
        },
        false,
    );
}

/// Where the window server says nothing, the reactor hears of the launch alone.
pub proof fn a_launch_can_be_told_alone(
    apps: &mut Apps,
    pid: pid_t,
    digits: String,
    windows: Vec<WindowInfo>,
    main_window: Option<WindowId>,
    is_frontmost: bool,
    events: Vec<Event>,
)
    requires
        in_order(old(apps).entries()),
        windows@.len() < u32::MAX,
        call_ensures(
            Apps::make_app_without_ws_info,
            (apps, pid, windows, main_window, is_frontmost),
            events,
        ),
        call_ensures(decimal_i32, (pid,), digits),
    ensures
        final(apps).handle() == old(apps).handle(),
        gains_application(old(apps).entries(), final(apps).entries(), pid, windows@),
        events@.len() == 1,
        tells_of_launch(
            events@[0],
            old(apps).handle(),
            pid,
            digits@,
            windows@,
            main_window,
            is_frontmost,
        ),
{
    in_order_is_ordered(old(apps).entries());
    showing_windows_gains_them(old(apps).entries(), pid, windows@);
    assert(said(events@).len() == events@.len());
    assert(said(events@)[0] == events@[0]@);
    a_launch_is_told(
        events@[0],
        old(apps).handle(),
        pid,
        digits@,
        windows@,
        main_window,
        is_frontmost,
    );
}

/// A moment between two requests: the windows with their states, whether all windows
/// were looked at, whether the application has terminated, and how many events were
/// told.
pub struct Moment {
    pub entries: Entries,
    pub looked: bool,
    pub terminated: bool,
    pub told: int,
}

/// The windows that an event says were discovered.
pub open spec fn windows_told(event: Event) -> Seq<WindowId> {
    match event {
        Event::WindowsDiscovered { known_visible, .. } => known_visible@,
        _ => seq![],
    }
}

/// Whether events tell of all windows, in order: one event for each application,
/// with its windows, none of them new.
pub open spec fn tell_of_all(events: Seq<Event>, entries: Entries) -> bool {
    &&& forall|k: int|
        0 <= k < events.len() ==> {
            &&& (#[trigger] events[k]) matches Event::WindowsDiscovered { pid, new, known_visible }
            &&& new@.len() == 0
            &&& known_visible@.len() > 0
            &&& forall|j: int|
                0 <= j < known_visible@.len() ==> (#[trigger] known_visible@[j]).pid == pid
        }
    &&& forall|k: int, l: int|
        0 <= k < l < events.len() ==> windows_told(#[trigger] events[k])[0].pid < windows_told(
            #[trigger] events[l],
        )[0].pid
    &&& events.map_values(|e: Event| windows_told(e)).flatten() == entries.map_values(
        |e: (WindowId, WindowState)| e.0,
    )
}

/// Whether a window in `state` is given a frame between two moments: it takes the
/// frame and the transaction in. If it is not on its way, that is told, unless the
/// frame counts as the same.
pub open spec fn takes_frame<F: Fn(CGRect, CGRect) -> bool>(
    before: Moment,
    after: Moment,
    wid: WindowId,
    state: WindowState,
    frame: CGRect,
    txid: TransactionId,
    events: Seq<Event>,
    same: F,
) -> bool {
    &&& only_changes(
        before.entries,
        after.entries,
        wid,
        WindowState { last_seen_txid: txid, animating: state.animating, frame },
    )
    &&& state.animating ==> after.told == before.told
    &&& !state.animating ==> {
        ||| same.ensures((state.frame, frame), true) && after.told == before.told
        ||| {
            &&& same.ensures((state.frame, frame), false)
            &&& after.told == before.told + 1
            &&& events[before.told] == Event::WindowFrameChanged(
                wid,
                frame,
                txid,
                Requested(true),
                None,
            )
        }
    }
}

/// Whether a request is answered between two moments. Nothing is answered once the
/// application has terminated. Only the first look at all windows is answered. A
/// window that is moved keeps its size. A window on its way tells nothing until it
/// has arrived, and then where it is.
pub open spec fn answered<F: Fn(CGRect, CGRect) -> bool>(
    before: Moment,
    after: Moment,
    request: Request,
    events: Seq<Event>,
    same: F,
) -> bool {
    if before.terminated {
        after == before
    } else {
        match request {
            Request::Terminate => {
                &&& after.terminated
                &&& after.looked == before.looked
                &&& after.entries == before.entries
                &&& after.told == before.told
            },
            Request::GetVisibleWindows => {
                &&& after.looked
                &&& !after.terminated
                &&& after.entries == before.entries
                &&& before.looked ==> after.told == before.told
                &&& !before.looked ==> before.told <= after.told && tell_of_all(
                    events.subrange(before.told, after.told),
                    before.entries,
                )
            },
            Request::SetWindowFrame(wid, frame, txid) => {
                &&& after.looked == before.looked
                &&& !after.terminated
                &&& forall|state: WindowState| #[trigger]
                    stands_with(before.entries, wid, state) ==> takes_frame(
                        before,
                        after,
                        wid,
                        state,
                        frame,
                        txid,
                        events,
                        same,
                    )
            },
            Request::SetWindowPos(wid, pos, txid) => {
                &&& after.looked == before.looked
                &&& !after.terminated
                &&& forall|state: WindowState| #[trigger]
                    stands_with(before.entries, wid, state) ==> takes_frame(
                        before,
                        after,
                        wid,
                        state,
                        CGRect { origin: pos, size: state.frame.size },
                        txid,
                        events,
                        same,
                    )
            },
            Request::BeginWindowAnimation(wid) => {
                &&& after.looked == before.looked
                &&& !after.terminated
                &&& after.told == before.told
                &&& forall|state: WindowState| #[trigger]
                    stands_with(before.entries, wid, state) ==> only_changes(
                        before.entries,
                        after.entries,
                        wid,
                        WindowState {
                            last_seen_txid: state.last_seen_txid,
                            animating: true,
                            frame: state.frame,
                        },
                    )
            },
            Request::EndWindowAnimation(wid) => {
                &&& after.looked == before.looked
                &&& !after.terminated
                &&& after.told == before.told + 1
                &&& forall|state: WindowState| #[trigger]
                    stands_with(before.entries, wid, state) ==> {
                        &&& only_changes(
                            before.entries,
                            after.entries,
                            wid,
                            WindowState {
                                last_seen_txid: state.last_seen_txid,
                                animating: false,
                                frame: state.frame,
                            },
                        )
                        &&& events[before.told] == Event::WindowFrameChanged(
                            wid,
                            state.frame,
                            state.last_seen_txid,
                            Requested(true),
                            None,
                        )
                    }
            },
            Request::Raise(_) | Request::WindowDestroyed(_) => after == before,
        }
    }
}

/// The moment that a simulation is at.
spec fn moment(simulation: Simulation) -> Moment {
    Moment {
        entries: simulation.entries,
        looked: simulation.looked,
        terminated: simulation.terminated,
        told: simulation.events.len() as int,
    }
}

proof fn requests_keep_order_and_events(simulation: Simulation, request: Request, same: bool)
    requires
        ordered(simulation.entries),
    ensures
        ordered(simulation.after(request, same).entries),
        simulation.events.len() <= simulation.after(request, same).events.len(),
        simulation.after(request, same).events.take(simulation.events.len() as int)
            == simulation.events,
{
    let after = simulation.after(request, same);
    match request {
        Request::SetWindowFrame(wid, _, _) | Request::SetWindowPos(wid, _, _)
        | Request::BeginWindowAnimation(wid) | Request::EndWindowAnimation(wid) => {
            assert forall|state: WindowState| ordered(
                #[trigger] with_state(simulation.entries, wid, state),
            ) by {
                setting_a_state(simulation.entries, wid, state, wid);
            }
        },
        _ => {},
    }
    assert(after.events.take(simulation.events.len() as int) =~= simulation.events);
}

proof fn running_keeps_order_and_events<F: Fn(CGRect, CGRect) -> bool>(
    start: Simulation,
    requests: Seq<Request>,
    verdicts: Seq<bool>,
    i: int,
    same: F,
)
    requires
        ordered(start.entries),
        verdicts_of(same, start, requests, verdicts),
        0 <= i <= requests.len(),
    ensures
        ordered(run(start, requests, verdicts).entries),
        ({
            let some = run(start, requests.take(i), verdicts.take(i));
            let all = run(start, requests, verdicts);
            &&& ordered(some.entries)
            &&& some.events.len() <= all.events.len()
            &&& all.events.take(some.events.len() as int) == some.events
        }),
        verdicts_of(same, start, requests.take(i), verdicts.take(i)),
    decreases requests.len(),
{
    let all = run(start, requests, verdicts);
    if requests.len() > 0 {
        let front = run(start, requests.drop_last(), verdicts.drop_last());
        let k = if i < requests.len() {
            i
        } else {
            i - 1
        };
        running_keeps_order_and_events(start, requests.drop_last(), verdicts.drop_last(), k, same);
        requests_keep_order_and_events(front, requests.last(), verdicts.last());
        if i < requests.len() {
            assert(requests.drop_last().take(i) =~= requests.take(i));
            assert(verdicts.drop_last().take(i) =~= verdicts.take(i));
            let some = run(start, requests.take(i), verdicts.take(i));
            let n = some.events.len() as int;
            assert(all.events.take(n) =~= all.events.take(front.events.len() as int).take(n));
        } else {
            assert(requests.take(i) =~= requests);
            assert(verdicts.take(i) =~= verdicts);
            assert(all.events.take(all.events.len() as int) =~= all.events);
        }
    } else {
        assert(requests.take(i) =~= requests);
        assert(verdicts.take(i) =~= verdicts);
        assert(all.events.take(all.events.len() as int) =~= all.events);
    }
}

proof fn groups_are_not_empty(entries: Entries, g: int)
    requires
        0 <= g < discovered(entries).len(),
    ensures
        discovered(entries)[g].1.len() > 0,
    decreases entries.len(),
{
    let front = discovered(entries.drop_last());
    if g < front.len() {
        groups_are_not_empty(entries.drop_last(), g);
    }
}

proof fn groups_flatten(groups: Seq<(pid_t, Seq<WindowId>)>)
    ensures
        all_windows(groups) == groups.map_values(|g: (pid_t, Seq<WindowId>)| g.1).flatten(),
    decreases groups.len(),
{
    let lists = groups.map_values(|g: (pid_t, Seq<WindowId>)| g.1);
    lists.lemma_flatten_and_flatten_alt_are_equivalent();
    if groups.len() > 0 {
        groups_flatten(groups.drop_last());
        let front = groups.drop_last().map_values(|g: (pid_t, Seq<WindowId>)| g.1);
        assert(lists.drop_last() =~= front);
        front.lemma_flatten_and_flatten_alt_are_equivalent();
    }
}

proof fn discoveries_tell_of_all(events: Seq<Event>, entries: Entries)
    requires
        ordered(entries),
        said(events) == discoveries(entries),
    ensures
        tell_of_all(events, entries),
{
    let groups = discovered(entries);
    every_window_is_discovered_once(entries);
    groups_flatten(groups);
    assert(said(events).len() == events.len());
    assert(discoveries(entries).len() == groups.len());
    assert forall|k: int| 0 <= k < events.len() implies {
        &&& (#[trigger] events[k]) matches Event::WindowsDiscovered { pid, new, known_visible }
        &&& new@.len() == 0
        &&& pid == groups[k].0
        &&& known_visible@ == groups[k].1
        &&& known_visible@.len() > 0
        &&& forall|j: int|
            0 <= j < known_visible@.len() ==> (#[trigger] known_visible@[j]).pid == pid
    } by {
        assert(said(events)[k] == events[k]@);
        assert(discoveries(entries)[k] == (EventView::WindowsDiscovered {
            pid: groups[k].0,
            new: seq![],
            known_visible: groups[k].1,
        }));
        groups_are_not_empty(entries, k);
        if let Event::WindowsDiscovered { new, known_visible, .. } = events[k] {
            assert(described(new@).len() == new@.len());
            assert forall|j: int| 0 <= j < known_visible@.len() implies (
            #[trigger] known_visible@[j]).pid == groups[k].0 by {
                assert(groups[k].1[j].pid == groups[k].0);
            }
        }
    }
    assert forall|k: int, l: int| 0 <= k < l < events.len() implies windows_told(
        #[trigger] events[k],
    )[0].pid < windows_told(#[trigger] events[l])[0].pid by {
        assert(windows_told(events[k]) == groups[k].1);
        assert(windows_told(events[l]) == groups[l].1);
        groups_are_not_empty(entries, k);
        groups_are_not_empty(entries, l);
        assert(groups[k].1[0].pid == groups[k].0);
        assert(groups[l].1[0].pid == groups[l].0);
        assert(groups[k].0 < groups[l].0);
    }
    assert forall|k: int| 0 <= k < events.len() implies windows_told(#[trigger] events[k])
        == groups[k].1 by {}
    assert(events.map_values(|e: Event| windows_told(e)) =~= groups.map_values(
        |g: (pid_t, Seq<WindowId>)| g.1,
    ));
}

proof fn one_request_is_answered<F: Fn(CGRect, CGRect) -> bool>(
    before: Simulation,
    request: Request,
    verdict: bool,
    events: Seq<Event>,
    same: F,
)
    requires
        ordered(before.entries),
        before.compared(request) matches Some((old_frame, frame)) ==> same.ensures(
            (old_frame, frame),
            verdict,
        ),
        before.after(request, verdict).events.len() <= events.len(),
        said(events).take(before.after(request, verdict).events.len() as int) == before.after(
            request,
            verdict,
        ).events,
    ensures
        answered(moment(before), moment(before.after(request, verdict)), request, events, same),
{
    let after = before.after(request, verdict);
    let n = before.events.len() as int;
    if !before.terminated {
        if after.events.len() > n {
            assert(said(events).take(after.events.len() as int)[n] == events[n]@);
        }
        match request {
            Request::GetVisibleWindows => {
                if !before.looked {
                    let part = events.subrange(n, after.events.len() as int);
                    assert(said(part) =~= discoveries(before.entries)) by {
                        assert forall|k: int| 0 <= k < part.len() implies said(part)[k]
                            == discoveries(before.entries)[k] by {
                            assert(said(events).take(after.events.len() as int)[n + k] == events[n
                                + k]@);
                            assert(after.events[n + k] == discoveries(before.entries)[k]);
                        }
                    }
                    discoveries_tell_of_all(part, before.entries);
                }
            },
            Request::SetWindowFrame(wid, _, _) | Request::SetWindowPos(wid, _, _)
            | Request::BeginWindowAnimation(wid) | Request::EndWindowAnimation(wid) => {
                assert forall|state: WindowState| #[trigger]
                    stands_with(before.entries, wid, state) implies state == state_of(
                    before.entries,
                    wid,
                ) by {
                    known_windows_stand(before.entries, wid, state);
                }
                assert forall|state: WindowState| only_changes(
                    before.entries,
                    #[trigger] with_state(before.entries, wid, state),
                    wid,
                    state,
                ) by {
                    setting_only_changes(before.entries, wid, state);
                }
            },
            _ => {},
        }
    }
}

/// Whether `moments` lead from `first` to `last`, with `requests` answered between
/// them one after the other, and `events` told in all.
pub open spec fn lead_through<F: Fn(CGRect, CGRect) -> bool>(
    moments: Seq<Moment>,
    first: Entries,
    last: Entries,
    requests: Seq<Request>,
    events: Seq<Event>,
    same: F,
) -> bool {
    let n = requests.len() as int;
    &&& moments.len() == n + 1
    &&& moments[0].entries == first
    &&& !moments[0].looked
    &&& !moments[0].terminated
    &&& moments[0].told == 0
    &&& forall|i: int|
        0 <= i < n ==> answered(
            moments[i],
            moments[i + 1],
            #[trigger] requests[i],
            events,
            same,
        )
    &&& moments[n].entries == last
    &&& moments[n].told == events.len()
}

/// Simulated applications answer requests one after the other: there are moments,
/// from the one before the first request to the one after the last, between which
/// each request is answered, and what is told in all is what the reactor hears.
pub proof fn requests_are_answered_in_turn<F: Fn(CGRect, CGRect) -> bool>(
    apps: &mut Apps,
    requests: Vec<Request>,
    same: F,
    events: Vec<Event>,
)
    requires
        in_order(old(apps).entries()),
        call_ensures(
            Apps::simulate_events_for_requests::<F>,
            (apps, requests, same),
            events,
        ),
    ensures
        final(apps).handle() == old(apps).handle(),
        exists|moments: Seq<Moment>| #[trigger]
            lead_through(
                moments,
                old(apps).entries(),
                final(apps).entries(),
                requests@,
                events@,
                same,
            ),
{
    let start = beginning(old(apps).entries());
    let all = requests@;
    in_order_is_ordered(old(apps).entries());
    let verdicts = choose|verdicts: Seq<bool>|
        {
            &&& #[trigger] verdicts_of(same, start, all, verdicts)
            &&& final(apps).entries() == run(start, all, verdicts).entries
            &&& said(events@) == run(start, all, verdicts).events
        };
    let moments = Seq::new(
        all.len() + 1,
        |i: int| moment(run(start, all.take(i), verdicts.take(i))),
    );
    assert(all.take(all.len() as int) =~= all);
    assert(verdicts.take(all.len() as int) =~= verdicts);
    assert forall|i: int| 0 <= i < all.len() implies answered(
        moments[i],
        moments[i + 1],
        #[trigger] all[i],
        events@,
        same,
    ) by {
        running_keeps_order_and_events(start, all, verdicts, i, same);
        running_keeps_order_and_events(start, all, verdicts, i + 1, same);
        let now = all.take(i + 1);
        let heard = verdicts.take(i + 1);
        assert(now.drop_last() =~= all.take(i));
        assert(heard.drop_last() =~= verdicts.take(i));
        assert(now.last() == all[i]);
        assert(heard.last() == verdicts[i]);
        assert(verdicts_of(same, start, now, heard));
        one_request_is_answered(
            run(start, all.take(i), verdicts.take(i)),
            all[i],
            verdicts[i],
            events@,
            same,
        );
    }
    assert(said(events@).len() == events@.len());
    assert(moments[0].entries == old(apps).entries());
    assert(lead_through(
        moments,
        old(apps).entries(),
        final(apps).entries(),
        all,
        events@,
        same,
    ));
}

} // verus!
