//! Moves windows to their places in steps.
//!
//! The manager decides what is asked of which window at which step. Where a
//! window stands between its two ends is a matter of floating point, and the
//! caller works it out: [`AnimationManager::next_blends`] and
//! [`AnimationManager::current_blends`] say what is wanted, and the answers are
//! handed back as rectangles.

use vstd::prelude::*;

use crate::actor::app::{AppThreadHandle, Request, WindowId};
use crate::actor::reactor::TransactionId;
use crate::sys::geometry::{CGPoint, CGRect};

verus! {

/// How many steps an animation has.
pub const FRAMES: u32 = 30;

/// How much time lies between two steps, in nanoseconds.
pub const INTERVAL_NANOS: u64 = 10_000_000;

/// What the animation manager is told.
#[derive(Debug)]
pub enum Message {
    /// Animate, going on from where the windows are.
    Replace(Animation),
    /// Put every window in its place at once.
    SkipToEnd(Animation),
}

/// One window on its way.
#[derive(Clone, Copy, PartialEq, Debug)]
pub struct AnimatedWindow {
    pub handle: AppThreadHandle,
    pub wid: WindowId,
    pub start: CGRect,
    pub finish: CGRect,
    /// The focused window has its final size from the first step on.
    pub is_focus: bool,
    pub txid: TransactionId,
}

/// A point on the way from one rectangle to another: `frame` steps of `frames`
/// have been taken.
#[derive(Clone, Copy, PartialEq, Debug)]
pub struct Blend {
    pub start: CGRect,
    pub finish: CGRect,
    pub frame: u32,
    pub frames: u32,
}

/// A request, with the application thread that it goes to.
pub type Sent = (AppThreadHandle, Request);

/// The requests of all windows, one window after the other.
pub open spec fn each(
    windows: Seq<AnimatedWindow>,
    f: spec_fn(int, AnimatedWindow) -> Seq<Sent>,
) -> Seq<Sent>
    decreases windows.len(),
{
    if windows.len() == 0 {
        seq![]
    } else {
        each(windows.drop_last(), f) + f(windows.len() - 1, windows.last())
    }
}

/// The windows that `windows` animate.
pub open spec fn wids(windows: Seq<AnimatedWindow>) -> Set<WindowId> {
    Set::new(|wid: WindowId| exists|i: int| 0 <= i < windows.len() && #[trigger] windows[i].wid == wid)
}

impl AnimatedWindow {
    /// The frame of the window before the first step.
    pub open spec fn first_frame(self) -> CGRect {
        if self.is_focus {
            CGRect { origin: self.start.origin, size: self.finish.size }
        } else {
            self.start
        }
    }

    /// The frame of the window after `frame` steps of `total_frames`, where
    /// `blended` lies that far between its two ends. The size changes once, half
    /// way.
    pub open spec fn frame_at(self, blended: CGRect, frame: int, total_frames: int) -> CGRect {
        if frame == 0 {
            self.first_frame()
        } else if self.is_focus || frame * 2 >= total_frames {
            CGRect { origin: blended.origin, size: self.finish.size }
        } else {
            CGRect { origin: blended.origin, size: self.start.size }
        }
    }

    /// What starts the window on its way.
    pub open spec fn begin(self) -> Seq<Sent> {
        let begin = seq![(self.handle, Request::BeginWindowAnimation(self.wid))];
        if self.is_focus {
            begin.push(
                (self.handle, Request::SetWindowFrame(self.wid, self.first_frame(), self.txid)),
            )
        } else {
            begin
        }
    }

    /// What puts the window in its place.
    pub open spec fn place(self) -> Seq<Sent> {
        seq![(self.handle, Request::SetWindowFrame(self.wid, self.finish, self.txid))]
    }

    /// What ends the window's way.
    pub open spec fn end(self) -> Seq<Sent> {
        seq![(self.handle, Request::EndWindowAnimation(self.wid))]
    }

    /// What takes the window one step further, to `blended`: the window is
    /// resized half way and at the end, and only moved at the other steps.
    pub open spec fn step(self, blended: CGRect, frame: int) -> Seq<Sent> {
        if frame * 2 == FRAMES || frame == FRAMES {
            seq![
                (
                    self.handle,
                    Request::SetWindowFrame(
                        self.wid,
                        CGRect { origin: blended.origin, size: self.finish.size },
                        self.txid,
                    ),
                ),
            ]
        } else {
            seq![(self.handle, Request::SetWindowPos(self.wid, blended.origin, self.txid))]
        }
    }

    /// The frame of the window after `frame` steps of `total_frames`, where
    /// `blended` lies that far between its two ends.
    pub fn frame_after(&self, blended: CGRect, frame: u32, total_frames: u32) -> (rect: CGRect)
        requires
            self.is_focus || frame * 2 <= u32::MAX,
        ensures
            rect == self.frame_at(blended, frame as int, total_frames as int),
    {
        if frame == 0 {
            if self.is_focus {
                CGRect { origin: self.start.origin, size: self.finish.size }
            } else {
                self.start
            }
        } else if self.is_focus || frame * 2 >= total_frames {
            CGRect { origin: blended.origin, size: self.finish.size }
        } else {
            CGRect { origin: blended.origin, size: self.start.size }
        }
    }
}

/// What starts the windows outside `skip` on their way.
pub open spec fn begins(windows: Seq<AnimatedWindow>, skip: Set<WindowId>) -> Seq<Sent> {
    each(
        windows,
        |i: int, w: AnimatedWindow|
            if skip.contains(w.wid) {
                seq![]
            } else {
                w.begin()
            },
    )
}

/// What puts the windows outside `keep` in their places and ends their way.
pub open spec fn finishes(windows: Seq<AnimatedWindow>, keep: Set<WindowId>) -> Seq<Sent> {
    each(
        windows,
        |i: int, w: AnimatedWindow|
            if keep.contains(w.wid) {
                seq![]
            } else {
                w.place() + w.end()
            },
    )
}

/// What puts all windows in their places.
pub open spec fn places(windows: Seq<AnimatedWindow>) -> Seq<Sent> {
    each(windows, |i: int, w: AnimatedWindow| w.place())
}

/// What ends the way of all windows.
pub open spec fn ends(windows: Seq<AnimatedWindow>) -> Seq<Sent> {
    each(windows, |i: int, w: AnimatedWindow| w.end())
}

/// What takes all windows one step further.
pub open spec fn steps(
    windows: Seq<AnimatedWindow>,
    blended: Seq<CGRect>,
    frame: int,
) -> Seq<Sent> {
    each(windows, |i: int, w: AnimatedWindow| w.step(blended[i], frame))
}

/// The last frame that `frames` gives for `wid`.
pub open spec fn last_frame(frames: Seq<(WindowId, CGRect)>, wid: WindowId) -> Option<CGRect>
    decreases frames.len(),
{
    if frames.len() == 0 {
        None
    } else if frames.last().0 == wid {
        Some(frames.last().1)
    } else {
        last_frame(frames.drop_last(), wid)
    }
}

/// Whether no window before position `j` is the same as that at `j`.
pub open spec fn first_of_its_kind(windows: Seq<AnimatedWindow>, j: int) -> bool {
    forall|k: int| 0 <= k < j ==> (#[trigger] windows[k]).wid != windows[j].wid
}

/// The windows with each start moved to where the window is now. Of a window
/// that occurs twice, only the first occurrence is moved.
pub open spec fn patched(
    windows: Seq<AnimatedWindow>,
    frames: Seq<(WindowId, CGRect)>,
) -> Seq<AnimatedWindow> {
    Seq::new(
        windows.len(),
        |j: int|
            match last_frame(frames, windows[j].wid) {
                Some(frame) if first_of_its_kind(windows, j) => AnimatedWindow {
                    start: frame,
                    ..windows[j]
                },
                _ => windows[j],
            },
    )
}

/// An animation that is under way.
pub struct Running {
    pub windows: Seq<AnimatedWindow>,
    /// The step that comes next.
    pub next_frame: int,
}

impl Running {
    /// Where the windows are, if `blended` lies as far between their ends as
    /// the steps that were taken.
    pub open spec fn current_frames(self, blended: Seq<CGRect>) -> Seq<(WindowId, CGRect)> {
        Seq::new(
            self.windows.len(),
            |i: int|
                (
                    self.windows[i].wid,
                    self.windows[i].frame_at(blended[i], self.next_frame - 1, FRAMES as int),
                ),
        )
    }

    /// Whether the next step is one of the animation.
    pub open spec fn wf(self) -> bool {
        1 <= self.next_frame <= FRAMES
    }

    /// The points that the windows reach after `frame` steps.
    pub open spec fn blends(self, frame: int) -> Seq<Blend> {
        Seq::new(
            self.windows.len(),
            |i: int|
                Blend {
                    start: self.windows[i].start,
                    finish: self.windows[i].finish,
                    frame: frame as u32,
                    frames: FRAMES,
                },
        )
    }
}

/// What a manager is doing: nothing, or running one animation.
pub type AnimationState = Option<Running>;

/// Whether a state is one that a manager reaches.
pub open spec fn state_wf(state: AnimationState) -> bool {
    state is Some ==> state->0.wf()
}

/// The windows that are on their way.
pub open spec fn moving(state: AnimationState) -> Seq<AnimatedWindow> {
    match state {
        Some(running) => running.windows,
        None => seq![],
    }
}

/// The windows of both `running` and `next`.
pub open spec fn continuing(running: Running, next: Seq<AnimatedWindow>) -> Set<WindowId> {
    wids(running.windows).intersect(wids(next))
}

/// The state once `next` replaces what is under way.
pub open spec fn replaced(
    state: AnimationState,
    next: Seq<AnimatedWindow>,
    blended: Seq<CGRect>,
) -> AnimationState {
    match state {
        Some(running) => Some(
            Running { windows: patched(next, running.current_frames(blended)), next_frame: 1 },
        ),
        None => if next.len() == 0 {
            None
        } else {
            Some(Running { windows: next, next_frame: 1 })
        },
    }
}

/// What is asked when `next` replaces what is under way: windows that are in
/// both go on undisturbed.
pub open spec fn replacing(
    state: AnimationState,
    next: Seq<AnimatedWindow>,
    blended: Seq<CGRect>,
) -> Seq<Sent> {
    match state {
        Some(running) => begins(
            patched(next, running.current_frames(blended)),
            continuing(running, next),
        ) + finishes(running.windows, continuing(running, next)),
        None => begins(next, set![]),
    }
}

/// The state after one step.
pub open spec fn stepped(state: AnimationState) -> AnimationState {
    match state {
        Some(running) => if running.next_frame == FRAMES {
            None
        } else {
            Some(Running { next_frame: running.next_frame + 1, ..running })
        },
        None => None,
    }
}

/// What is asked in one step.
pub open spec fn stepping(state: AnimationState, blended: Seq<CGRect>) -> Seq<Sent> {
    match state {
        Some(running) => steps(running.windows, blended, running.next_frame) + (
        if running.next_frame == FRAMES {
            ends(running.windows)
        } else {
            seq![]
        }),
        None => seq![],
    }
}

/// What is asked when whatever is under way is brought to its end at once.
pub open spec fn finishing(state: AnimationState) -> Seq<Sent> {
    places(moving(state)) + ends(moving(state))
}

/// How long to wait for the next step.
pub open spec fn delay(state: AnimationState) -> Option<u64> {
    if state is Some {
        Some(INTERVAL_NANOS)
    } else {
        None
    }
}

proof fn each_step(
    windows: Seq<AnimatedWindow>,
    f: spec_fn(int, AnimatedWindow) -> Seq<Sent>,
    i: int,
)
    requires
        0 <= i < windows.len(),
    ensures
        each(windows.take(i + 1), f) == each(windows.take(i), f) + f(i, windows[i]),
{
    assert(windows.take(i + 1).drop_last() =~= windows.take(i));
}

fn holds(ids: &Vec<WindowId>, wid: WindowId) -> (yes: bool)
    ensures
        yes == ids@.contains(wid),
{
    let mut i: usize = 0;
    while i < ids.len()
        invariant
            i <= ids@.len(),
            forall|j: int| 0 <= j < i ==> ids@[j] != wid,
        decreases ids@.len() - i,
    {
        if ids[i] == wid {
            return true;
        }
        i = i + 1;
    }
    false
}

/// Windows to be moved together.
#[derive(Debug)]
pub struct Animation {
    windows: Vec<AnimatedWindow>,
}

impl View for Animation {
    type V = Seq<AnimatedWindow>;

    closed spec fn view(&self) -> Seq<AnimatedWindow> {
        self.windows@
    }
}

impl Animation {
    /// An animation of no window.
    pub fn new() -> (animation: Animation)
        ensures
            animation@ == Seq::<AnimatedWindow>::empty(),
    {
        Animation { windows: Vec::new() }
    }

    /// Adds a window.
    pub fn add_window(
        &mut self,
        handle: &AppThreadHandle,
        wid: WindowId,
        start: CGRect,
        finish: CGRect,
        is_focus: bool,
        txid: TransactionId,
    )
        ensures
            final(self)@ == old(self)@.push(
                AnimatedWindow { handle: *handle, wid, start, finish, is_focus, txid },
            ),
    {
        self.windows.push(AnimatedWindow { handle: *handle, wid, start, finish, is_focus, txid });
    }

    /// Whether there is no window.
    pub fn is_empty(&self) -> (empty: bool)
        ensures
            empty == (self@.len() == 0),
    {
        self.windows.len() == 0
    }

    /// What puts every window in its place.
    pub fn skip_to_end(&self) -> (sent: Vec<Sent>)
        ensures
            sent@ == places(self@),
    {
        let mut sent: Vec<Sent> = Vec::new();
        self.send_places(&mut sent);
        sent
    }

    fn send_places(&self, sent: &mut Vec<Sent>)
        ensures
            final(sent)@ == old(sent)@ + places(self@),
    {
        let ghost f = |i: int, w: AnimatedWindow| w.place();
        let mut i: usize = 0;
        assert(self.windows@.take(0) =~= seq![]);
        while i < self.windows.len()
            invariant
                i <= self.windows@.len(),
                f == (|i: int, w: AnimatedWindow| w.place()),
                sent@ == old(sent)@ + each(self.windows@.take(i as int), f),
            decreases self.windows@.len() - i,
        {
            let window = self.windows[i];
            sent.push((window.handle, Request::SetWindowFrame(window.wid, window.finish, window.txid)));
            proof {
                each_step(self.windows@, f, i as int);
            }
            i = i + 1;
            assert(sent@ =~= old(sent)@ + each(self.windows@.take(i as int), f));
        }
        assert(self.windows@.take(i as int) =~= self.windows@);
    }

    fn begin_windows_not_in(&self, skip: &Vec<WindowId>, sent: &mut Vec<Sent>)
        ensures
            final(sent)@ == old(sent)@ + begins(self@, skip@.to_set()),
    {
        let ghost ids = skip@.to_set();
        let ghost f = |i: int, w: AnimatedWindow|
            if ids.contains(w.wid) {
                seq![]
            } else {
                w.begin()
            };
        let mut i: usize = 0;
        assert(self.windows@.take(0) =~= seq![]);
        while i < self.windows.len()
            invariant
                i <= self.windows@.len(),
                ids == skip@.to_set(),
                f == (|i: int, w: AnimatedWindow|
                    if ids.contains(w.wid) {
                        seq![]
                    } else {
                        w.begin()
                    }),
                sent@ == old(sent)@ + each(self.windows@.take(i as int), f),
            decreases self.windows@.len() - i,
        {
            let window = self.windows[i];
            let ghost before = sent@;
            if !holds(skip, window.wid) {
                sent.push((window.handle, Request::BeginWindowAnimation(window.wid)));
                if window.is_focus {
                    let frame = CGRect { origin: window.start.origin, size: window.finish.size };
                    sent.push(
                        (window.handle, Request::SetWindowFrame(window.wid, frame, window.txid)),
                    );
                }
                assert(sent@ =~= before + window.begin());
            } else {
                assert(sent@ =~= before + seq![]);
            }
            proof {
                each_step(self.windows@, f, i as int);
            }
            i = i + 1;
            assert(sent@ =~= old(sent)@ + each(self.windows@.take(i as int), f));
        }
        assert(self.windows@.take(i as int) =~= self.windows@);
    }

    fn finish_windows_not_in(&self, keep: &Vec<WindowId>, sent: &mut Vec<Sent>)
        ensures
            final(sent)@ == old(sent)@ + finishes(self@, keep@.to_set()),
    {
        let ghost ids = keep@.to_set();
        let ghost f = |i: int, w: AnimatedWindow|
            if ids.contains(w.wid) {
                seq![]
            } else {
                w.place() + w.end()
            };
        let mut i: usize = 0;
        assert(self.windows@.take(0) =~= seq![]);
        while i < self.windows.len()
            invariant
                i <= self.windows@.len(),
                ids == keep@.to_set(),
                f == (|i: int, w: AnimatedWindow|
                    if ids.contains(w.wid) {
                        seq![]
                    } else {
                        w.place() + w.end()
                    }),
                sent@ == old(sent)@ + each(self.windows@.take(i as int), f),
            decreases self.windows@.len() - i,
        {
            let window = self.windows[i];
            let ghost before = sent@;
            if !holds(keep, window.wid) {
                sent.push(
                    (window.handle, Request::SetWindowFrame(window.wid, window.finish, window.txid)),
                );
                sent.push((window.handle, Request::EndWindowAnimation(window.wid)));
                assert(sent@ =~= before + (window.place() + window.end()));
            } else {
                assert(sent@ =~= before + seq![]);
            }
            proof {
                each_step(self.windows@, f, i as int);
            }
            i = i + 1;
            assert(sent@ =~= old(sent)@ + each(self.windows@.take(i as int), f));
        }
        assert(self.windows@.take(i as int) =~= self.windows@);
    }

    fn send_frame(&self, blended: &Vec<CGRect>, frame: u32, sent: &mut Vec<Sent>)
        requires
            frame <= FRAMES,
            blended@.len() == self@.len(),
        ensures
            final(sent)@ == old(sent)@ + steps(self@, blended@, frame as int),
    {
        let ghost f = |i: int, w: AnimatedWindow| w.step(blended@[i], frame as int);
        let mut i: usize = 0;
        assert(self.windows@.take(0) =~= seq![]);
        while i < self.windows.len()
            invariant
                i <= self.windows@.len(),
                frame <= FRAMES,
                blended@.len() == self.windows@.len(),
                f == (|i: int, w: AnimatedWindow| w.step(blended@[i], frame as int)),
                sent@ == old(sent)@ + each(self.windows@.take(i as int), f),
            decreases self.windows@.len() - i,
        {
            let window = self.windows[i];
            let ghost before = sent@;
            let origin: CGPoint = blended[i].origin;
            if frame * 2 == FRAMES || frame == FRAMES {
                let rect = CGRect { origin, size: window.finish.size };
                sent.push((window.handle, Request::SetWindowFrame(window.wid, rect, window.txid)));
            } else {
                sent.push((window.handle, Request::SetWindowPos(window.wid, origin, window.txid)));
            }
            assert(sent@ =~= before + window.step(blended@[i as int], frame as int));
            proof {
                each_step(self.windows@, f, i as int);
            }
            i = i + 1;
            assert(sent@ =~= old(sent)@ + each(self.windows@.take(i as int), f));
        }
        assert(self.windows@.take(i as int) =~= self.windows@);
    }

    fn end(&self, sent: &mut Vec<Sent>)
        ensures
            final(sent)@ == old(sent)@ + ends(self@),
    {
        let ghost f = |i: int, w: AnimatedWindow| w.end();
        let mut i: usize = 0;
        assert(self.windows@.take(0) =~= seq![]);
        while i < self.windows.len()
            invariant
                i <= self.windows@.len(),
                f == (|i: int, w: AnimatedWindow| w.end()),
                sent@ == old(sent)@ + each(self.windows@.take(i as int), f),
            decreases self.windows@.len() - i,
        {
            let window = self.windows[i];
            sent.push((window.handle, Request::EndWindowAnimation(window.wid)));
            proof {
                each_step(self.windows@, f, i as int);
            }
            i = i + 1;
            assert(sent@ =~= old(sent)@ + each(self.windows@.take(i as int), f));
        }
        assert(self.windows@.take(i as int) =~= self.windows@);
    }

    fn skip_to_end_and_end(&self, sent: &mut Vec<Sent>)
        ensures
            final(sent)@ == old(sent)@ + places(self@) + ends(self@),
    {
        self.send_places(sent);
        self.end(sent);
    }

    /// Moves the starts of the windows to `frames`, and returns the windows
    /// that are in both.
    fn patch_starts_from(&mut self, frames: &Vec<(WindowId, CGRect)>) -> (both: Vec<WindowId>)
        ensures
            final(self)@ == patched(old(self)@, frames@),
            both@.to_set() == named(frames@).intersect(wids(old(self)@)),
    {
        let ghost before = self.windows@;
        let mut both: Vec<WindowId> = Vec::new();
        let mut k: usize = 0;
        assert(self.windows@ =~= patched(before, frames@.take(0)));
        assert(both@.to_set() =~= named(frames@.take(0)).intersect(wids(before)));
        while k < frames.len()
            invariant
                k <= frames@.len(),
                before == old(self)@,
                self.windows@ == patched(before, frames@.take(k as int)),
                both@.to_set() == named(frames@.take(k as int)).intersect(wids(before)),
            decreases frames@.len() - k,
        {
            let (wid, frame) = frames[k];
            let ghost seen = frames@.take(k as int);
            let ghost now = frames@.take(k as int + 1);
            assert(now.drop_last() =~= seen);
            assert(now.last() == (wid, frame));
            let ghost ids = both@;
            match self.position(wid) {
                Some(j) => {
                    let mut window = self.windows[j];
                    window.start = frame;
                    self.windows.set(j, window);
                    both.push(wid);
                    proof {
                        assert(before[j as int].wid == wid);
                        assert(first_of_its_kind(before, j as int)) by {
                            assert forall|m: int| 0 <= m < j implies (#[trigger] before[m]).wid
                                != before[j as int].wid by {
                                assert(patched(before, seen)[m].wid == before[m].wid);
                            }
                        }
                        assert forall|m: int| 0 <= m < before.len() implies patched(before, now)[m]
                            == self.windows@[m] by {
                            if m != j && before[m].wid == wid {
                                assert(!first_of_its_kind(before, m)) by {
                                    if m < j {
                                        assert(before[m].wid != before[j as int].wid);
                                    } else {
                                        assert(before[j as int].wid == before[m].wid);
                                    }
                                }
                            }
                        }
                        assert(self.windows@ =~= patched(before, now));
                        named_push(frames@, k as int);
                        assert(wids(before).contains(wid));
                        assert(both@.to_set() =~= named(now).intersect(wids(before))) by {
                            ids.lemma_push_to_set_commute(wid);
                        }
                    }
                },
                None => {
                    proof {
                        assert forall|m: int| 0 <= m < before.len() implies (
                        #[trigger] before[m]).wid != wid by {
                            assert(patched(before, seen)[m].wid == before[m].wid);
                        }
                        assert(self.windows@ =~= patched(before, now));
                        named_push(frames@, k as int);
                        assert(!wids(before).contains(wid));
                        assert(both@.to_set() =~= named(now).intersect(wids(before)));
                    }
                },
            }
            k = k + 1;
        }
        assert(frames@.take(k as int) =~= frames@);
        both
    }

    /// The position of the first window that is `wid`.
    fn position(&self, wid: WindowId) -> (position: Option<usize>)
        ensures
            match position {
                Some(j) => {
                    &&& j < self.windows@.len()
                    &&& self.windows@[j as int].wid == wid
                    &&& forall|m: int| 0 <= m < j ==> (#[trigger] self.windows@[m]).wid != wid
                },
                None => forall|m: int|
                    0 <= m < self.windows@.len() ==> (#[trigger] self.windows@[m]).wid != wid,
            },
    {
        let mut j: usize = 0;
        while j < self.windows.len()
            invariant
                j <= self.windows@.len(),
                forall|m: int| 0 <= m < j ==> (#[trigger] self.windows@[m]).wid != wid,
            decreases self.windows@.len() - j,
        {
            if self.windows[j].wid == wid {
                return Some(j);
            }
            j = j + 1;
        }
        None
    }
}

/// The windows that `frames` names.
spec fn named(frames: Seq<(WindowId, CGRect)>) -> Set<WindowId> {
    Set::new(|wid: WindowId| exists|i: int| 0 <= i < frames.len() && #[trigger] frames[i].0 == wid)
}

proof fn named_push(frames: Seq<(WindowId, CGRect)>, k: int)
    requires
        0 <= k < frames.len(),
    ensures
        named(frames.take(k + 1)) == named(frames.take(k)).insert(frames[k].0),
{
    let longer = frames.take(k + 1);
    let shorter = frames.take(k);
    assert forall|wid: WindowId| named(longer).contains(wid) == named(shorter).insert(
        frames[k].0,
    ).contains(wid) by {
        if named(longer).contains(wid) {
            let i = choose|i: int| 0 <= i < longer.len() && #[trigger] longer[i].0 == wid;
            if i < k {
                assert(shorter[i].0 == wid);
            }
        }
        if named(shorter).contains(wid) {
            let i = choose|i: int| 0 <= i < shorter.len() && #[trigger] shorter[i].0 == wid;
            assert(longer[i].0 == wid);
        }
        if wid == frames[k].0 {
            assert(longer[k].0 == wid);
        }
    }
    assert(named(longer) =~= named(shorter).insert(frames[k].0));
}

#[derive(Debug)]
struct ActiveAnimation {
    animation: Animation,
    next_frame: u32,
}

impl ActiveAnimation {
    spec fn running(self) -> Running {
        Running { windows: self.animation@, next_frame: self.next_frame as int }
    }

    fn start(animation: Animation, sent: &mut Vec<Sent>) -> (active: Option<ActiveAnimation>)
        ensures
            state_of(active) == replaced(None, animation@, seq![]),
            final(sent)@ == old(sent)@ + begins(animation@, set![]),
    {
        if animation.is_empty() {
            assert(animation@ =~= seq![]);
            assert(sent@ =~= old(sent)@ + begins(animation@, set![]));
            return None;
        }
        let none: Vec<WindowId> = Vec::new();
        assert(none@.to_set() =~= set![]);
        animation.begin_windows_not_in(&none, sent);
        Some(ActiveAnimation { animation, next_frame: 1 })
    }

    fn replace_with(
        self,
        next: Animation,
        blended: &Vec<CGRect>,
        sent: &mut Vec<Sent>,
    ) -> (active: ActiveAnimation)
        requires
            self.running().wf(),
            blended@.len() == self.animation@.len(),
        ensures
            Some(active.running()) == replaced(Some(self.running()), next@, blended@),
            final(sent)@ == old(sent)@ + replacing(Some(self.running()), next@, blended@),
    {
        let mut next = next;
        let ghost fresh = next@;
        let frames = self.current_frames(blended);
        let both = next.patch_starts_from(&frames);
        assert(both@.to_set() =~= continuing(self.running(), fresh)) by {
            assert forall|wid: WindowId| named(frames@).contains(wid) == wids(
                self.animation@,
            ).contains(wid) by {
                if named(frames@).contains(wid) {
                    let i = choose|i: int| 0 <= i < frames@.len() && #[trigger] frames@[i].0 == wid;
                    assert(self.animation@[i].wid == wid);
                }
                if wids(self.animation@).contains(wid) {
                    let i = choose|i: int|
                        0 <= i < self.animation@.len() && #[trigger] self.animation@[i].wid == wid;
                    assert(frames@[i].0 == wid);
                }
            }
        }
        next.begin_windows_not_in(&both, sent);
        self.animation.finish_windows_not_in(&both, sent);
        assert(sent@ =~= old(sent)@ + replacing(Some(self.running()), fresh, blended@));
        ActiveAnimation { animation: next, next_frame: 1 }
    }

    fn is_complete(&self) -> (complete: bool)
        ensures
            complete == (self.next_frame > FRAMES),
    {
        self.next_frame > FRAMES
    }

    fn current_frames(&self, blended: &Vec<CGRect>) -> (frames: Vec<(WindowId, CGRect)>)
        requires
            self.running().wf(),
            blended@.len() == self.animation@.len(),
        ensures
            frames@ == self.running().current_frames(blended@),
    {
        let frame: u32 = self.next_frame - 1;
        let mut frames: Vec<(WindowId, CGRect)> = Vec::new();
        let mut i: usize = 0;
        while i < self.animation.windows.len()
            invariant
                i <= self.animation@.len(),
                frame == self.next_frame - 1,
                self.running().wf(),
                blended@.len() == self.animation@.len(),
                frames@ == self.running().current_frames(blended@).take(i as int),
            decreases self.animation@.len() - i,
        {
            let window = self.animation.windows[i];
            frames.push((window.wid, window.frame_after(blended[i], frame, FRAMES)));
            i = i + 1;
            assert(frames@ =~= self.running().current_frames(blended@).take(i as int));
        }
        assert(frames@ =~= self.running().current_frames(blended@));
        frames
    }

    fn blends(&self, frame: u32) -> (blends: Vec<Blend>)
        ensures
            blends@ == self.running().blends(frame as int),
    {
        let mut blends: Vec<Blend> = Vec::new();
        let mut i: usize = 0;
        while i < self.animation.windows.len()
            invariant
                i <= self.animation@.len(),
                blends@ == self.running().blends(frame as int).take(i as int),
            decreases self.animation@.len() - i,
        {
            let window = self.animation.windows[i];
            blends.push(Blend { start: window.start, finish: window.finish, frame, frames: FRAMES });
            i = i + 1;
            assert(blends@ =~= self.running().blends(frame as int).take(i as int));
        }
        assert(blends@ =~= self.running().blends(frame as int));
        blends
    }
}

spec fn state_of(active: Option<ActiveAnimation>) -> AnimationState {
    match active {
        Some(active) => Some(active.running()),
        None => None,
    }
}

/// Runs one animation at a time.
#[derive(Debug)]
pub struct AnimationManager {
    active: Option<ActiveAnimation>,
}

impl View for AnimationManager {
    type V = AnimationState;

    closed spec fn view(&self) -> AnimationState {
        state_of(self.active)
    }
}

impl AnimationManager {
    /// A manager that runs no animation.
    pub fn new() -> (manager: AnimationManager)
        ensures
            manager@ is None,
    {
        AnimationManager { active: None }
    }

    /// Whether an animation is under way.
    pub fn is_active(&self) -> (active: bool)
        ensures
            active == (self@ is Some),
    {
        self.active.is_some()
    }

    /// The windows of the animation that is under way.
    pub fn windows(&self) -> (windows: Vec<AnimatedWindow>)
        ensures
            windows@ == moving(self@),
    {
        match &self.active {
            Some(active) => active.animation.windows.clone(),
            None => Vec::new(),
        }
    }

    /// The points where the windows are now, one for each window.
    pub fn current_blends(&self) -> (blends: Vec<Blend>)
        requires
            state_wf(self@),
        ensures
            blends@ == (match self@ {
                Some(running) => running.blends(running.next_frame - 1),
                None => seq![],
            }),
    {
        match &self.active {
            Some(active) => active.blends(active.next_frame - 1),
            None => Vec::new(),
        }
    }

    /// The points that the windows reach in the next step, one for each window.
    pub fn next_blends(&self) -> (blends: Vec<Blend>)
        requires
            state_wf(self@),
        ensures
            blends@ == (match self@ {
                Some(running) => running.blends(running.next_frame),
                None => seq![],
            }),
    {
        match &self.active {
            Some(active) => active.blends(active.next_frame),
            None => Vec::new(),
        }
    }

    /// Where the windows are, given the rectangles for `current_blends`.
    pub fn current_frames(&self, blended: &Vec<CGRect>) -> (frames: Vec<(WindowId, CGRect)>)
        requires
            state_wf(self@),
            blended@.len() == moving(self@).len(),
        ensures
            frames@ == (match self@ {
                Some(running) => running.current_frames(blended@),
                None => seq![],
            }),
    {
        match &self.active {
            Some(active) => active.current_frames(blended),
            None => Vec::new(),
        }
    }

    /// Takes in one message, with the rectangles for `current_blends`. Returns
    /// how long to wait for the first step, and the requests to send.
    pub fn handle_message(&mut self, message: Message, blended: &Vec<CGRect>) -> (answer: (
        Option<u64>,
        Vec<Sent>,
    ))
        requires
            state_wf(old(self)@),
            blended@.len() == moving(old(self)@).len(),
        ensures
            state_wf(final(self)@),
            answer.0 == delay(final(self)@),
            match message {
                Message::Replace(animation) => {
                    &&& final(self)@ == replaced(old(self)@, animation@, blended@)
                    &&& answer.1@ == replacing(old(self)@, animation@, blended@)
                },
                Message::SkipToEnd(animation) => {
                    &&& final(self)@ is None
                    &&& answer.1@ == finishing(old(self)@) + places(animation@)
                },
            },
    {
        let mut sent: Vec<Sent> = Vec::new();
        match message {
            Message::Replace(animation) => {
                self.active = match self.active.take() {
                    Some(active) => Some(active.replace_with(animation, blended, &mut sent)),
                    None => ActiveAnimation::start(animation, &mut sent),
                };
                assert(sent@ =~= replacing(old(self)@, animation@, blended@));
                let wait: Option<u64> = if self.active.is_some() {
                    Some(INTERVAL_NANOS)
                } else {
                    None
                };
                (wait, sent)
            },
            Message::SkipToEnd(animation) => {
                self.finish_active(&mut sent);
                animation.send_places(&mut sent);
                assert(sent@ =~= finishing(old(self)@) + places(animation@));
                (None, sent)
            },
        }
    }

    /// Takes one step, to the rectangles for `next_blends`. Returns how long to
    /// wait for the next step, and the requests to send.
    pub fn tick(&mut self, blended: &Vec<CGRect>) -> (answer: (Option<u64>, Vec<Sent>))
        requires
            state_wf(old(self)@),
            blended@.len() == moving(old(self)@).len(),
        ensures
            state_wf(final(self)@),
            final(self)@ == stepped(old(self)@),
            answer.0 == delay(final(self)@),
            answer.1@ == stepping(old(self)@, blended@),
    {
        let mut sent: Vec<Sent> = Vec::new();
        match self.active.take() {
            Some(active) => {
                active.animation.send_frame(blended, active.next_frame, &mut sent);
                let active = ActiveAnimation {
                    next_frame: active.next_frame + 1,
                    animation: active.animation,
                };
                if active.is_complete() {
                    active.animation.end(&mut sent);
                    assert(sent@ =~= stepping(old(self)@, blended@));
                    (None, sent)
                } else {
                    self.active = Some(active);
                    assert(sent@ =~= stepping(old(self)@, blended@));
                    (Some(INTERVAL_NANOS), sent)
                }
            },
            None => (None, sent),
        }
    }

    /// Brings whatever is under way to its end at once. Returns the requests to
    /// send.
    pub fn finish(&mut self) -> (sent: Vec<Sent>)
        ensures
            final(self)@ is None,
            sent@ == finishing(old(self)@),
    {
        let mut sent: Vec<Sent> = Vec::new();
        self.finish_active(&mut sent);
        assert(sent@ =~= finishing(old(self)@));
        sent
    }

    fn finish_active(&mut self, sent: &mut Vec<Sent>)
        ensures
            final(self)@ is None,
            final(sent)@ == old(sent)@ + finishing(old(self)@),
    {
        match self.active.take() {
            Some(active) => {
                active.animation.skip_to_end_and_end(sent);
            },
            None => {},
        }
        assert(sent@ =~= old(sent)@ + finishing(old(self)@));
    }
}

/// The windows that applications hold to be on their way after `sent`, if
/// those in `before` were.
pub open spec fn animating_after(before: Set<WindowId>, sent: Seq<Sent>) -> Set<WindowId>
    decreases sent.len(),
{
    if sent.len() == 0 {
        before
    } else {
        let rest = animating_after(before, sent.drop_last());
        match sent.last().1 {
            Request::BeginWindowAnimation(wid) => rest.insert(wid),
            Request::EndWindowAnimation(wid) => rest.remove(wid),
            _ => rest,
        }
    }
}

proof fn animating_in_turn(before: Set<WindowId>, a: Seq<Sent>, b: Seq<Sent>)
    ensures
        animating_after(before, a + b) == animating_after(animating_after(before, a), b),
    decreases b.len(),
{
    if b.len() == 0 {
        assert(a + b =~= a);
    } else {
        assert((a + b).drop_last() =~= a + b.drop_last());
        animating_in_turn(before, a, b.drop_last());
    }
}

proof fn wids_grow(windows: Seq<AnimatedWindow>)
    requires
        windows.len() > 0,
    ensures
        wids(windows) == wids(windows.drop_last()).insert(windows.last().wid),
{
    let front = windows.drop_last();
    assert forall|wid: WindowId| wids(windows).contains(wid) == wids(front).insert(
        windows.last().wid,
    ).contains(wid) by {
        if wids(windows).contains(wid) {
            let i = choose|i: int| 0 <= i < windows.len() && #[trigger] windows[i].wid == wid;
            if i < front.len() {
                assert(front[i].wid == wid);
            }
        }
        if wids(front).contains(wid) {
            let i = choose|i: int| 0 <= i < front.len() && #[trigger] front[i].wid == wid;
            assert(windows[i].wid == wid);
        }
        if wid == windows.last().wid {
            assert(windows[windows.len() - 1].wid == wid);
        }
    }
    assert(wids(windows) =~= wids(front).insert(windows.last().wid));
}

proof fn begins_mark(before: Set<WindowId>, windows: Seq<AnimatedWindow>, skip: Set<WindowId>)
    ensures
        animating_after(before, begins(windows, skip)) == before.union(
            wids(windows).difference(skip),
        ),
    decreases windows.len(),
{
    if windows.len() == 0 {
        assert(wids(windows) =~= set![]);
        assert(before.union(wids(windows).difference(skip)) =~= before);
    } else {
        let front = windows.drop_last();
        let last = windows.last();
        begins_mark(before, front, skip);
        wids_grow(windows);
        let middle = animating_after(before, begins(front, skip));
        if skip.contains(last.wid) {
            assert(begins(windows, skip) =~= begins(front, skip));
        } else {
            assert(begins(windows, skip) == begins(front, skip) + last.begin());
            animating_in_turn(before, begins(front, skip), last.begin());
            assert(animating_after(middle, last.begin()) =~= middle.insert(last.wid)) by {
                reveal_with_fuel(animating_after, 3);
                assert(last.begin().drop_last().len() == 0 || last.begin().drop_last().drop_last().len() == 0);
            }
        }
        assert(animating_after(before, begins(windows, skip)) =~= before.union(
            wids(windows).difference(skip),
        ));
    }
}

proof fn finishes_unmark(before: Set<WindowId>, windows: Seq<AnimatedWindow>, keep: Set<WindowId>)
    ensures
        animating_after(before, finishes(windows, keep)) == before.difference(
            wids(windows).difference(keep),
        ),
    decreases windows.len(),
{
    if windows.len() == 0 {
        assert(wids(windows) =~= set![]);
        assert(before.difference(wids(windows).difference(keep)) =~= before);
    } else {
        let front = windows.drop_last();
        let last = windows.last();
        finishes_unmark(before, front, keep);
        wids_grow(windows);
        let middle = animating_after(before, finishes(front, keep));
        if keep.contains(last.wid) {
            assert(finishes(windows, keep) =~= finishes(front, keep));
        } else {
            let tail = last.place() + last.end();
            assert(finishes(windows, keep) == finishes(front, keep) + tail);
            animating_in_turn(before, finishes(front, keep), tail);
            animating_in_turn(middle, last.place(), last.end());
            assert(animating_after(middle, tail) =~= middle.remove(last.wid)) by {
                reveal_with_fuel(animating_after, 2);
            }
        }
        assert(animating_after(before, finishes(windows, keep)) =~= before.difference(
            wids(windows).difference(keep),
        ));
    }
}

proof fn places_mark_nothing(before: Set<WindowId>, windows: Seq<AnimatedWindow>)
    ensures
        animating_after(before, places(windows)) == before,
    decreases windows.len(),
{
    if windows.len() > 0 {
        let front = windows.drop_last();
        places_mark_nothing(before, front);
        assert(places(windows) == places(front) + windows.last().place());
        animating_in_turn(before, places(front), windows.last().place());
        reveal_with_fuel(animating_after, 2);
    }
}

proof fn steps_mark_nothing(
    before: Set<WindowId>,
    windows: Seq<AnimatedWindow>,
    blended: Seq<CGRect>,
    frame: int,
)
    ensures
        animating_after(before, steps(windows, blended, frame)) == before,
    decreases windows.len(),
{
    if windows.len() > 0 {
        let front = windows.drop_last();
        let tail = windows.last().step(blended[windows.len() - 1], frame);
        steps_mark_nothing(before, front, blended, frame);
        assert(steps(windows, blended, frame) == steps(front, blended, frame) + tail);
        animating_in_turn(before, steps(front, blended, frame), tail);
        reveal_with_fuel(animating_after, 2);
    }
}

proof fn ends_unmark(before: Set<WindowId>, windows: Seq<AnimatedWindow>)
    ensures
        animating_after(before, ends(windows)) == before.difference(wids(windows)),
    decreases windows.len(),
{
    if windows.len() == 0 {
        assert(wids(windows) =~= set![]);
        assert(before.difference(wids(windows)) =~= before);
    } else {
        let front = windows.drop_last();
        let tail = windows.last().end();
        ends_unmark(before, front);
        wids_grow(windows);
        assert(ends(windows) == ends(front) + tail);
        animating_in_turn(before, ends(front), tail);
        reveal_with_fuel(animating_after, 2);
        assert(animating_after(before, ends(windows)) =~= before.difference(wids(windows)));
    }
}

/// Replacing one animation by another leaves exactly the windows of the new one
/// marked as being on their way.
pub proof fn replacing_marks_the_new_windows(
    state: AnimationState,
    next: Seq<AnimatedWindow>,
    blended: Seq<CGRect>,
)
    ensures
        animating_after(wids(moving(state)), replacing(state, next, blended)) == wids(
            moving(replaced(state, next, blended)),
        ),
{
    match state {
        Some(running) => {
            let old_ids = wids(running.windows);
            let both = continuing(running, next);
            let windows = patched(next, running.current_frames(blended));
            assert forall|wid: WindowId| wids(windows).contains(wid) == wids(next).contains(wid) by {
                if wids(windows).contains(wid) {
                    let i = choose|i: int| 0 <= i < windows.len() && #[trigger] windows[i].wid == wid;
                    assert(next[i].wid == wid);
                }
                if wids(next).contains(wid) {
                    let i = choose|i: int| 0 <= i < next.len() && #[trigger] next[i].wid == wid;
                    assert(windows[i].wid == wid);
                }
            }
            assert(wids(windows) =~= wids(next));
            begins_mark(old_ids, windows, both);
            let middle = animating_after(old_ids, begins(windows, both));
            finishes_unmark(middle, running.windows, both);
            animating_in_turn(old_ids, begins(windows, both), finishes(running.windows, both));
            assert(middle.difference(old_ids.difference(both)) =~= wids(next));
        },
        None => {
            assert(wids(seq![]) =~= set![]);
            begins_mark(set![], next, set![]);
            assert(Set::<WindowId>::empty().union(wids(next).difference(set![])) =~= wids(next));
            if next.len() == 0 {
                assert(wids(next) =~= set![]);
            }
        },
    }
}

/// A step leaves exactly the windows that still move marked as being on their
/// way; the last step leaves none.
pub proof fn stepping_marks_the_moving_windows(state: AnimationState, blended: Seq<CGRect>)
    ensures
        animating_after(wids(moving(state)), stepping(state, blended)) == wids(
            moving(stepped(state)),
        ),
{
    if let Some(running) = state {
        let before = wids(running.windows);
        let first = steps(running.windows, blended, running.next_frame);
        steps_mark_nothing(before, running.windows, blended, running.next_frame);
        if running.next_frame == FRAMES {
            animating_in_turn(before, first, ends(running.windows));
            ends_unmark(before, running.windows);
            assert(before.difference(before) =~= set![]);
            assert(wids(seq![]) =~= set![]);
        } else {
            assert(stepping(state, blended) =~= first);
        }
    }
}

/// Bringing an animation to its end, or skipping to the end of another, leaves
/// no window marked as being on its way.
pub proof fn finishing_marks_nothing(state: AnimationState, next: Seq<AnimatedWindow>)
    ensures
        animating_after(wids(moving(state)), finishing(state)) == Set::<WindowId>::empty(),
        animating_after(wids(moving(state)), finishing(state) + places(next)) == Set::<
            WindowId,
        >::empty(),
{
    let before = wids(moving(state));
    places_mark_nothing(before, moving(state));
    ends_unmark(before, moving(state));
    animating_in_turn(before, places(moving(state)), ends(moving(state)));
    assert(before.difference(before) =~= set![]);
    places_mark_nothing(set![], next);
    animating_in_turn(before, finishing(state), places(next));
}

/// Whether requests begin and end the way of windows in turn, if those in
/// `before` are on their way at first: a window is only begun while it is not on
/// its way, and only ended while it is.
pub open spec fn alternates(before: Set<WindowId>, sent: Seq<Sent>) -> bool
    decreases sent.len(),
{
    sent.len() == 0 || {
        let rest = sent.drop_last();
        &&& alternates(before, rest)
        &&& match sent.last().1 {
            Request::BeginWindowAnimation(wid) => !animating_after(before, rest).contains(wid),
            Request::EndWindowAnimation(wid) => animating_after(before, rest).contains(wid),
            _ => true,
        }
    }
}

/// Whether no window occurs twice.
pub open spec fn unique(windows: Seq<AnimatedWindow>) -> bool {
    forall|j: int| 0 <= j < windows.len() ==> #[trigger] first_of_its_kind(windows, j)
}

proof fn alternates_in_turn(before: Set<WindowId>, a: Seq<Sent>, b: Seq<Sent>)
    ensures
        alternates(before, a + b) == (alternates(before, a) && alternates(
            animating_after(before, a),
            b,
        )),
    decreases b.len(),
{
    if b.len() == 0 {
        assert(a + b =~= a);
    } else {
        let front = b.drop_last();
        assert((a + b).drop_last() =~= a + front);
        alternates_in_turn(before, a, front);
        animating_in_turn(before, a, front);
    }
}

proof fn other_requests_alternate(before: Set<WindowId>, sent: Seq<Sent>)
    requires
        forall|k: int|
            0 <= k < sent.len() ==> !((#[trigger] sent[k]).1 is BeginWindowAnimation)
                && !(sent[k].1 is EndWindowAnimation),
    ensures
        alternates(before, sent),
    decreases sent.len(),
{
    if sent.len() > 0 {
        assert(!(sent[sent.len() - 1].1 is BeginWindowAnimation));
        other_requests_alternate(before, sent.drop_last());
    }
}

proof fn front_is_unique(windows: Seq<AnimatedWindow>)
    requires
        unique(windows),
        windows.len() > 0,
    ensures
        unique(windows.drop_last()),
        !wids(windows.drop_last()).contains(windows.last().wid),
{
    let front = windows.drop_last();
    assert forall|j: int| 0 <= j < front.len() implies #[trigger] first_of_its_kind(front, j) by {
        assert(first_of_its_kind(windows, j));
        assert forall|k: int| 0 <= k < j implies (#[trigger] front[k]).wid != front[j].wid by {
            assert(windows[k].wid != windows[j].wid);
        }
    }
    assert(first_of_its_kind(windows, windows.len() - 1));
    if wids(front).contains(windows.last().wid) {
        let i = choose|i: int| 0 <= i < front.len() && #[trigger] front[i].wid == windows.last().wid;
        assert(windows[i].wid == windows.last().wid);
    }
}

proof fn begins_alternate(before: Set<WindowId>, windows: Seq<AnimatedWindow>, skip: Set<WindowId>)
    requires
        unique(windows),
        before.disjoint(wids(windows).difference(skip)),
    ensures
        alternates(before, begins(windows, skip)),
    decreases windows.len(),
{
    if windows.len() > 0 {
        let front = windows.drop_last();
        let last = windows.last();
        front_is_unique(windows);
        wids_grow(windows);
        begins_alternate(before, front, skip);
        begins_mark(before, front, skip);
        if skip.contains(last.wid) {
            assert(begins(windows, skip) =~= begins(front, skip));
        } else {
            let middle = animating_after(before, begins(front, skip));
            assert(wids(windows).difference(skip).contains(last.wid));
            assert(!middle.contains(last.wid));
            assert(begins(windows, skip) == begins(front, skip) + last.begin());
            alternates_in_turn(before, begins(front, skip), last.begin());
            let first = seq![(last.handle, Request::BeginWindowAnimation(last.wid))];
            assert(first.drop_last() =~= seq![]);
            assert(alternates(middle, first)) by {
                reveal_with_fuel(alternates, 2);
            }
            if last.is_focus {
                assert(last.begin().drop_last() =~= first);
            }
            assert(alternates(middle, last.begin()));
        }
    }
}

proof fn finishes_alternate(
    before: Set<WindowId>,
    windows: Seq<AnimatedWindow>,
    keep: Set<WindowId>,
)
    requires
        unique(windows),
        wids(windows).difference(keep).subset_of(before),
    ensures
        alternates(before, finishes(windows, keep)),
    decreases windows.len(),
{
    if windows.len() > 0 {
        let front = windows.drop_last();
        let last = windows.last();
        front_is_unique(windows);
        wids_grow(windows);
        finishes_alternate(before, front, keep);
        finishes_unmark(before, front, keep);
        if keep.contains(last.wid) {
            assert(finishes(windows, keep) =~= finishes(front, keep));
        } else {
            let middle = animating_after(before, finishes(front, keep));
            assert(wids(windows).difference(keep).contains(last.wid));
            assert(middle.contains(last.wid));
            let tail = last.place() + last.end();
            assert(finishes(windows, keep) == finishes(front, keep) + tail);
            alternates_in_turn(before, finishes(front, keep), tail);
            assert(tail.drop_last() =~= last.place());
            other_requests_alternate(middle, last.place());
            assert(animating_after(middle, last.place()) == middle) by {
                reveal_with_fuel(animating_after, 2);
            }
        }
    }
}

proof fn ends_alternate(before: Set<WindowId>, windows: Seq<AnimatedWindow>)
    requires
        unique(windows),
        wids(windows).subset_of(before),
    ensures
        alternates(before, ends(windows)),
    decreases windows.len(),
{
    if windows.len() > 0 {
        let front = windows.drop_last();
        let last = windows.last();
        front_is_unique(windows);
        wids_grow(windows);
        ends_alternate(before, front);
        ends_unmark(before, front);
        let middle = animating_after(before, ends(front));
        assert(wids(windows).contains(last.wid));
        assert(middle.contains(last.wid));
        assert(ends(windows) == ends(front) + last.end());
        alternates_in_turn(before, ends(front), last.end());
        assert(last.end().drop_last() =~= seq![]);
        assert(alternates(middle, last.end())) by {
            reveal_with_fuel(alternates, 2);
        }
    }
}

proof fn places_mark_no_window(windows: Seq<AnimatedWindow>, k: int)
    requires
        0 <= k < places(windows).len(),
    ensures
        places(windows)[k].1 is SetWindowFrame,
    decreases windows.len(),
{
    let front = windows.drop_last();
    if k < places(front).len() {
        places_mark_no_window(front, k);
    }
}

proof fn steps_mark_no_window(
    windows: Seq<AnimatedWindow>,
    blended: Seq<CGRect>,
    frame: int,
    k: int,
)
    requires
        0 <= k < steps(windows, blended, frame).len(),
    ensures
        steps(windows, blended, frame)[k].1 is SetWindowFrame || steps(
            windows,
            blended,
            frame,
        )[k].1 is SetWindowPos,
    decreases windows.len(),
{
    let front = windows.drop_last();
    if k < steps(front, blended, frame).len() {
        steps_mark_no_window(front, blended, frame, k);
    }
}

proof fn places_alternate(before: Set<WindowId>, windows: Seq<AnimatedWindow>)
    ensures
        alternates(before, places(windows)),
{
    assert forall|k: int| 0 <= k < places(windows).len() implies !((#[trigger] places(
        windows,
    )[k]).1 is BeginWindowAnimation) && !(places(windows)[k].1 is EndWindowAnimation) by {
        places_mark_no_window(windows, k);
    }
    other_requests_alternate(before, places(windows));
}

/// Replacing one animation by another begins and ends the way of windows in turn.
pub proof fn replacing_alternates(
    state: AnimationState,
    next: Seq<AnimatedWindow>,
    blended: Seq<CGRect>,
)
    requires
        unique(moving(state)),
        unique(next),
    ensures
        alternates(wids(moving(state)), replacing(state, next, blended)),
        unique(moving(replaced(state, next, blended))),
{
    match state {
        Some(running) => {
            let before = wids(running.windows);
            let both = continuing(running, next);
            let windows = patched(next, running.current_frames(blended));
            assert forall|j: int| 0 <= j < windows.len() implies #[trigger] first_of_its_kind(
                windows,
                j,
            ) by {
                assert(first_of_its_kind(next, j));
                assert forall|k: int| 0 <= k < j implies (#[trigger] windows[k]).wid
                    != windows[j].wid by {
                    assert(next[k].wid != next[j].wid);
                }
            }
            assert forall|wid: WindowId| wids(windows).contains(wid) implies wids(next).contains(
                wid,
            ) by {
                let i = choose|i: int| 0 <= i < windows.len() && #[trigger] windows[i].wid == wid;
                assert(next[i].wid == wid);
            }
            assert(before.disjoint(wids(windows).difference(both)));
            begins_alternate(before, windows, both);
            begins_mark(before, windows, both);
            let middle = animating_after(before, begins(windows, both));
            finishes_alternate(middle, running.windows, both);
            alternates_in_turn(before, begins(windows, both), finishes(running.windows, both));
        },
        None => {
            assert(wids(seq![]) =~= set![]);
            begins_alternate(set![], next, set![]);
        },
    }
}

/// A step ends the way of windows that are on their way, and begins none.
pub proof fn stepping_alternates(state: AnimationState, blended: Seq<CGRect>)
    requires
        unique(moving(state)),
    ensures
        alternates(wids(moving(state)), stepping(state, blended)),
        unique(moving(stepped(state))),
{
    if let Some(running) = state {
        let before = wids(running.windows);
        let first = steps(running.windows, blended, running.next_frame);
        assert forall|k: int| 0 <= k < first.len() implies !((
        #[trigger] first[k]).1 is BeginWindowAnimation) && !(first[k].1 is EndWindowAnimation) by {
            steps_mark_no_window(running.windows, blended, running.next_frame, k);
        }
        other_requests_alternate(before, first);
        steps_mark_nothing(before, running.windows, blended, running.next_frame);
        if running.next_frame == FRAMES {
            ends_alternate(before, running.windows);
            alternates_in_turn(before, first, ends(running.windows));
        } else {
            assert(stepping(state, blended) =~= first);
        }
    }
}

/// Bringing an animation to its end, and skipping to the end of another, ends the
/// way of windows that are on their way, and begins none.
pub proof fn finishing_alternates(state: AnimationState, next: Seq<AnimatedWindow>)
    requires
        unique(moving(state)),
    ensures
        alternates(wids(moving(state)), finishing(state)),
        alternates(wids(moving(state)), finishing(state) + places(next)),
{
    let before = wids(moving(state));
    places_alternate(before, moving(state));
    places_mark_nothing(before, moving(state));
    ends_alternate(before, moving(state));
    alternates_in_turn(before, places(moving(state)), ends(moving(state)));
    places_alternate(animating_after(before, finishing(state)), next);
    alternates_in_turn(before, finishing(state), places(next));
}

/// Something that a manager is made to do, with the rectangles that it is given.
pub enum Call {
    Replace(Seq<AnimatedWindow>, Seq<CGRect>),
    SkipToEnd(Seq<AnimatedWindow>),
    Tick(Seq<CGRect>),
    Finish,
}

/// The state after one call.
pub open spec fn after_call(state: AnimationState, call: Call) -> AnimationState {
    match call {
        Call::Replace(next, blended) => replaced(state, next, blended),
        Call::SkipToEnd(_) => None,
        Call::Tick(_) => stepped(state),
        Call::Finish => None,
    }
}

/// What is asked in one call.
pub open spec fn asked_by(state: AnimationState, call: Call) -> Seq<Sent> {
    match call {
        Call::Replace(next, blended) => replacing(state, next, blended),
        Call::SkipToEnd(next) => finishing(state) + places(next),
        Call::Tick(blended) => stepping(state, blended),
        Call::Finish => finishing(state),
    }
}

/// The state that a new manager reaches by `calls`.
pub open spec fn reached(calls: Seq<Call>) -> AnimationState
    decreases calls.len(),
{
    if calls.len() == 0 {
        None
    } else {
        after_call(reached(calls.drop_last()), calls.last())
    }
}

/// All that a new manager asks in `calls`.
pub open spec fn asked(calls: Seq<Call>) -> Seq<Sent>
    decreases calls.len(),
{
    if calls.len() == 0 {
        seq![]
    } else {
        asked(calls.drop_last()) + asked_by(reached(calls.drop_last()), calls.last())
    }
}

/// The requests that begin and end the way of `wid`, in their order: true where
/// the way begins.
pub open spec fn marks(sent: Seq<Sent>, wid: WindowId) -> Seq<bool>
    decreases sent.len(),
{
    if sent.len() == 0 {
        seq![]
    } else {
        let rest = marks(sent.drop_last(), wid);
        match sent.last().1 {
            Request::BeginWindowAnimation(begun) if begun == wid => rest.push(true),
            Request::EndWindowAnimation(ended) if ended == wid => rest.push(false),
            _ => rest,
        }
    }
}

proof fn marks_alternate(sent: Seq<Sent>, wid: WindowId)
    requires
        alternates(set![], sent),
    ensures
        forall|k: int|
            0 <= k < marks(sent, wid).len() ==> #[trigger] marks(sent, wid)[k] == (k % 2 == 0),
        animating_after(set![], sent).contains(wid) == (marks(sent, wid).len() % 2 == 1),
    decreases sent.len(),
{
    if sent.len() > 0 {
        marks_alternate(sent.drop_last(), wid);
    }
}

proof fn calls_alternate(calls: Seq<Call>)
    requires
        forall|i: int|
            0 <= i < calls.len() ==> ((#[trigger] calls[i]) matches Call::Replace(next, _) ==> unique(
                next,
            )),
    ensures
        alternates(set![], asked(calls)),
        animating_after(set![], asked(calls)) == wids(moving(reached(calls))),
        unique(moving(reached(calls))),
    decreases calls.len(),
{
    if calls.len() == 0 {
        assert(wids(seq![]) =~= set![]);
    } else {
        let front = calls.drop_last();
        assert forall|i: int| 0 <= i < front.len() implies ((
        #[trigger] front[i]) matches Call::Replace(next, _) ==> unique(next)) by {
            assert(front[i] == calls[i]);
        }
        calls_alternate(front);
        let state = reached(front);
        let last = calls.last();
        assert(last == calls[calls.len() - 1]);
        alternates_in_turn(set![], asked(front), asked_by(state, last));
        animating_in_turn(set![], asked(front), asked_by(state, last));
        assert(wids(seq![]) =~= set![]);
        match last {
            Call::Replace(next, blended) => {
                replacing_alternates(state, next, blended);
                replacing_marks_the_new_windows(state, next, blended);
            },
            Call::SkipToEnd(next) => {
                finishing_alternates(state, next);
                finishing_marks_nothing(state, next);
            },
            Call::Tick(blended) => {
                stepping_alternates(state, blended);
                stepping_marks_the_moving_windows(state, blended);
            },
            Call::Finish => {
                finishing_alternates(state, seq![]);
                finishing_marks_nothing(state, seq![]);
            },
        }
    }
}

/// Whatever a manager is made to do from its beginning, as long as no animation
/// holds a window twice: for each window, requests to begin its way and to end it
/// alternate, starting with one to begin it, and its way is still open exactly
/// while the window is part of the animation that is under way.
pub proof fn ways_begin_and_end_in_turn(calls: Seq<Call>, wid: WindowId)
    requires
        forall|i: int|
            0 <= i < calls.len() ==> ((#[trigger] calls[i]) matches Call::Replace(next, _) ==> unique(
                next,
            )),
    ensures
        forall|k: int|
            0 <= k < marks(asked(calls), wid).len() ==> #[trigger] marks(asked(calls), wid)[k] == (k
                % 2 == 0),
        (marks(asked(calls), wid).len() % 2 == 1) == wids(moving(reached(calls))).contains(wid),
{
    calls_alternate(calls);
    marks_alternate(asked(calls), wid);
}

/// The window that a request is about.
pub open spec fn about(request: Request) -> Option<WindowId> {
    match request {
        Request::SetWindowFrame(wid, _, _) => Some(wid),
        Request::SetWindowPos(wid, _, _) => Some(wid),
        Request::BeginWindowAnimation(wid) => Some(wid),
        Request::EndWindowAnimation(wid) => Some(wid),
        Request::Raise(wid) => Some(wid),
        Request::WindowDestroyed(wid) => Some(wid),
        Request::Terminate => None,
        Request::GetVisibleWindows => None,
    }
}

proof fn begins_skip(windows: Seq<AnimatedWindow>, skip: Set<WindowId>, k: int)
    requires
        0 <= k < begins(windows, skip).len(),
    ensures
        about(begins(windows, skip)[k].1) is Some,
        !skip.contains(about(begins(windows, skip)[k].1)->0),
    decreases windows.len(),
{
    let front = windows.drop_last();
    if k < begins(front, skip).len() {
        begins_skip(front, skip, k);
    }
}

proof fn finishes_keep(windows: Seq<AnimatedWindow>, keep: Set<WindowId>, k: int)
    requires
        0 <= k < finishes(windows, keep).len(),
    ensures
        about(finishes(windows, keep)[k].1) is Some,
        !keep.contains(about(finishes(windows, keep)[k].1)->0),
    decreases windows.len(),
{
    let front = windows.drop_last();
    if k < finishes(front, keep).len() {
        finishes_keep(front, keep, k);
    }
}

/// Nothing is asked of a window that is in both the old and the new animation:
/// it goes on undisturbed.
pub proof fn continuing_windows_are_left_alone(
    running: Running,
    next: Seq<AnimatedWindow>,
    blended: Seq<CGRect>,
    k: int,
)
    requires
        0 <= k < replacing(Some(running), next, blended).len(),
    ensures
        about(replacing(Some(running), next, blended)[k].1) is Some,
        !continuing(running, next).contains(
            about(replacing(Some(running), next, blended)[k].1)->0,
        ),
{
    let both = continuing(running, next);
    let windows = patched(next, running.current_frames(blended));
    let first = begins(windows, both);
    if k < first.len() {
        begins_skip(windows, both, k);
    } else {
        finishes_keep(running.windows, both, k - first.len());
    }
}

proof fn last_frame_of_a_unique_window(frames: Seq<(WindowId, CGRect)>, i: int)
    requires
        0 <= i < frames.len(),
        forall|m: int| i < m < frames.len() ==> (#[trigger] frames[m]).0 != frames[i].0,
    ensures
        last_frame(frames, frames[i].0) == Some(frames[i].1),
    decreases frames.len(),
{
    if i < frames.len() - 1 {
        let front = frames.drop_last();
        assert(frames[frames.len() - 1].0 != frames[i].0);
        assert forall|m: int| i < m < front.len() implies (#[trigger] front[m]).0
            != front[i].0 by {
            assert(frames[m].0 != frames[i].0);
        }
        last_frame_of_a_unique_window(front, i);
    }
}

/// A window that is in both animations starts from where it is, whatever start
/// the new animation gave it.
pub proof fn continuing_windows_start_where_they_are(
    running: Running,
    next: Seq<AnimatedWindow>,
    blended: Seq<CGRect>,
    i: int,
    j: int,
)
    requires
        0 <= i < running.windows.len(),
        0 <= j < next.len(),
        running.windows[i].wid == next[j].wid,
        forall|m: int|
            i < m < running.windows.len() ==> (#[trigger] running.windows[m]).wid
                != running.windows[i].wid,
        first_of_its_kind(next, j),
    ensures
        replaced(Some(running), next, blended)->0.windows[j] == (AnimatedWindow {
            start: running.windows[i].frame_at(
                blended[i],
                running.next_frame - 1,
                FRAMES as int,
            ),
            ..next[j]
        }),
{
    let frames = running.current_frames(blended);
    assert forall|m: int| i < m < frames.len() implies (#[trigger] frames[m]).0 != frames[i].0 by {
        assert(running.windows[m].wid != running.windows[i].wid);
    }
    last_frame_of_a_unique_window(frames, i);
}

/// The state after `n` steps.
pub open spec fn stepped_times(state: AnimationState, n: nat) -> AnimationState
    decreases n,
{
    if n == 0 {
        state
    } else {
        stepped(stepped_times(state, (n - 1) as nat))
    }
}

/// An animation that has just started is under way until it has taken all its
/// steps, and no longer.
pub proof fn an_animation_takes_all_its_steps(windows: Seq<AnimatedWindow>, n: nat)
    ensures
        stepped_times(Some(Running { windows, next_frame: 1 }), n) == (if n < FRAMES {
            Some(Running { windows, next_frame: n as int + 1 })
        } else {
            None
        }),
    decreases n,
{
    if n > 0 {
        an_animation_takes_all_its_steps(windows, (n - 1) as nat);
    }
}

proof fn steps_in_order(windows: Seq<AnimatedWindow>, blended: Seq<CGRect>, frame: int)
    ensures
        steps(windows, blended, frame).len() == windows.len(),
        forall|i: int|
            0 <= i < windows.len() ==> #[trigger] steps(windows, blended, frame)[i]
                == windows[i].step(blended[i], frame)[0],
    decreases windows.len(),
{
    if windows.len() > 0 {
        let front = windows.drop_last();
        steps_in_order(front, blended, frame);
        assert(steps(windows, blended, frame) == steps(front, blended, frame)
            + windows.last().step(blended[windows.len() - 1], frame));
    }
}

proof fn ends_in_order(windows: Seq<AnimatedWindow>)
    ensures
        ends(windows).len() == windows.len(),
        forall|i: int|
            0 <= i < windows.len() ==> #[trigger] ends(windows)[i] == windows[i].end()[0],
    decreases windows.len(),
{
    if windows.len() > 0 {
        let front = windows.drop_last();
        ends_in_order(front);
        assert(ends(windows) == ends(front) + windows.last().end());
    }
}

/// What the `n`th step after the start of an animation asks, where `blended` are
/// the rectangles of that step: every window is moved, and resized as well half
/// way and at the end; the last step ends the way of every window after that. As
/// long as steps are left there is another one to wait for, and once they are all
/// taken nothing more is asked. If the rectangles of the last step are where the
/// windows are to end up, that step puts every window in its place.
pub proof fn what_each_step_asks(windows: Seq<AnimatedWindow>, n: nat, blended: Seq<CGRect>, i: int)
    requires
        windows.len() > 0,
        n >= 1,
        0 <= i < windows.len(),
    ensures
        ({
            let started = replaced(None, windows, seq![]);
            let sent = stepping(stepped_times(started, (n - 1) as nat), blended);
            let w = windows[i];
            let count = windows.len() as int;
            &&& delay(started) == Some(INTERVAL_NANOS)
            &&& delay(stepped_times(started, n)) == (if n < FRAMES {
                Some(INTERVAL_NANOS)
            } else {
                None
            })
            &&& sent.len() == (if n < FRAMES {
                count
            } else if n == FRAMES {
                2 * count
            } else {
                0
            })
            &&& n < FRAMES && n * 2 != FRAMES ==> sent[i] == (
                w.handle,
                Request::SetWindowPos(w.wid, blended[i].origin, w.txid),
            )
            &&& n * 2 == FRAMES || n == FRAMES ==> sent[i] == (
                w.handle,
                Request::SetWindowFrame(
                    w.wid,
                    CGRect { origin: blended[i].origin, size: w.finish.size },
                    w.txid,
                ),
            )
            &&& n == FRAMES && blended[i].origin == w.finish.origin ==> sent[i] == (
                w.handle,
                Request::SetWindowFrame(w.wid, w.finish, w.txid),
            )
            &&& n == FRAMES ==> sent[count + i] == (w.handle, Request::EndWindowAnimation(w.wid))
        }),
{
    let started = replaced(None, windows, seq![]);
    an_animation_takes_all_its_steps(windows, n);
    an_animation_takes_all_its_steps(windows, (n - 1) as nat);
    steps_in_order(windows, blended, n as int);
    ends_in_order(windows);
    if n <= FRAMES {
        assert(steps(windows, blended, n as int)[i] == windows[i].step(blended[i], n as int)[0]);
        if n == FRAMES {
            let sent = stepping(stepped_times(started, (n - 1) as nat), blended);
            assert(sent[windows.len() + i] == ends(windows)[i]);
        }
    }
}

/// The requests among `sent` that are about one window, in their order.
pub open spec fn heard(sent: Seq<Sent>, wid: WindowId) -> Seq<Sent> {
    sent.filter(|request: Sent| about(request.1) == Some(wid))
}

proof fn heard_in_turn(a: Seq<Sent>, b: Seq<Sent>, wid: WindowId)
    ensures
        heard(a + b, wid) == heard(a, wid) + heard(b, wid),
    decreases b.len(),
{
    reveal(Seq::filter);
    if b.len() == 0 {
        assert(a + b =~= a);
        assert(heard(a, wid) + heard(b, wid) =~= heard(a, wid));
    } else {
        assert((a + b).drop_last() =~= a + b.drop_last());
        heard_in_turn(a, b.drop_last(), wid);
        assert(heard(a + b, wid) =~= heard(a, wid) + heard(b, wid));
    }
}

proof fn heard_all(sent: Seq<Sent>, wid: WindowId)
    ensures
        (forall|k: int| 0 <= k < sent.len() ==> about((#[trigger] sent[k]).1) == Some(wid))
            ==> heard(sent, wid) == sent,
        (forall|k: int| 0 <= k < sent.len() ==> about((#[trigger] sent[k]).1) != Some(wid))
            ==> heard(sent, wid) == Seq::<Sent>::empty(),
    decreases sent.len(),
{
    reveal(Seq::filter);
    if sent.len() > 0 {
        let front = sent.drop_last();
        heard_all(front, wid);
        assert(sent[sent.len() - 1] == sent.last());
        assert(forall|k: int| 0 <= k < front.len() ==> front[k] == sent[k]);
        assert(front.push(sent.last()) =~= sent);
    } else {
        assert(heard(sent, wid) =~= sent);
    }
}

proof fn each_is_heard(
    windows: Seq<AnimatedWindow>,
    f: spec_fn(int, AnimatedWindow) -> Seq<Sent>,
    wid: WindowId,
)
    requires
        forall|i: int, k: int|
            0 <= i < windows.len() && 0 <= k < f(i, windows[i]).len() ==> about(
                (#[trigger] f(i, windows[i])[k]).1,
            ) == Some(windows[i].wid),
    ensures
        !wids(windows).contains(wid) ==> heard(each(windows, f), wid) == Seq::<Sent>::empty(),
        unique(windows) ==> forall|i: int|
            0 <= i < windows.len() && (#[trigger] windows[i]).wid == wid ==> heard(
                each(windows, f),
                wid,
            ) == f(i, windows[i]),
    decreases windows.len(),
{
    if windows.len() == 0 {
        heard_all(each(windows, f), wid);
    } else {
        let front = windows.drop_last();
        let n = windows.len() - 1;
        let tail = f(n, windows[n]);
        assert forall|i: int, k: int|
            0 <= i < front.len() && 0 <= k < f(i, front[i]).len() implies about(
            (#[trigger] f(i, front[i])[k]).1,
        ) == Some(front[i].wid) by {
            assert(front[i] == windows[i]);
            assert(about(f(i, windows[i])[k].1) == Some(windows[i].wid));
        }
        each_is_heard(front, f, wid);
        wids_grow(windows);
        heard_in_turn(each(front, f), tail, wid);
        heard_all(tail, wid);
        assert forall|k: int| 0 <= k < tail.len() implies about((#[trigger] tail[k]).1) == Some(
            windows[n].wid,
        ) by {
            assert(about(f(n, windows[n])[k].1) == Some(windows[n].wid));
        }
        if !wids(windows).contains(wid) {
            assert(heard(each(windows, f), wid) =~= Seq::<Sent>::empty());
        }
        if unique(windows) {
            front_is_unique(windows);
            assert forall|i: int| 0 <= i < windows.len() && (
            #[trigger] windows[i]).wid == wid implies heard(each(windows, f), wid) == f(
                i,
                windows[i],
            ) by {
                if i == n {
                    assert(!wids(front).contains(wid));
                    assert(heard(each(windows, f), wid) =~= tail);
                } else {
                    assert(front[i] == windows[i]);
                    assert(wids(front).contains(wid));
                    assert(windows[n].wid != wid);
                    assert(heard(each(windows, f), wid) =~= f(i, windows[i]));
                }
            }
        }
    }
}

proof fn begins_are_heard(windows: Seq<AnimatedWindow>, skip: Set<WindowId>, wid: WindowId)
    ensures
        skip.contains(wid) || !wids(windows).contains(wid) ==> heard(begins(windows, skip), wid)
            == Seq::<Sent>::empty(),
        unique(windows) && !skip.contains(wid) ==> forall|i: int|
            0 <= i < windows.len() && (#[trigger] windows[i]).wid == wid ==> heard(
                begins(windows, skip),
                wid,
            ) == windows[i].begin(),
{
    let f = |i: int, w: AnimatedWindow|
        if skip.contains(w.wid) {
            seq![]
        } else {
            w.begin()
        };
    assert(begins(windows, skip) == each(windows, f));
    each_is_heard(windows, f, wid);
    if skip.contains(wid) {
        assert forall|k: int| 0 <= k < begins(windows, skip).len() implies about(
            (#[trigger] begins(windows, skip)[k]).1,
        ) != Some(wid) by {
            begins_skip(windows, skip, k);
        }
        heard_all(begins(windows, skip), wid);
    }
}

proof fn finishes_are_heard(windows: Seq<AnimatedWindow>, keep: Set<WindowId>, wid: WindowId)
    ensures
        keep.contains(wid) || !wids(windows).contains(wid) ==> heard(finishes(windows, keep), wid)
            == Seq::<Sent>::empty(),
        unique(windows) && !keep.contains(wid) ==> forall|i: int|
            0 <= i < windows.len() && (#[trigger] windows[i]).wid == wid ==> heard(
                finishes(windows, keep),
                wid,
            ) == windows[i].place() + windows[i].end(),
{
    let f = |i: int, w: AnimatedWindow|
        if keep.contains(w.wid) {
            seq![]
        } else {
            w.place() + w.end()
        };
    assert(finishes(windows, keep) == each(windows, f));
    each_is_heard(windows, f, wid);
    if keep.contains(wid) {
        assert forall|k: int| 0 <= k < finishes(windows, keep).len() implies about(
            (#[trigger] finishes(windows, keep)[k]).1,
        ) != Some(wid) by {
            finishes_keep(windows, keep, k);
        }
        heard_all(finishes(windows, keep), wid);
    }
}

proof fn places_in_order(windows: Seq<AnimatedWindow>)
    ensures
        places(windows).len() == windows.len(),
        forall|i: int|
            0 <= i < windows.len() ==> #[trigger] places(windows)[i] == windows[i].place()[0],
    decreases windows.len(),
{
    if windows.len() > 0 {
        let front = windows.drop_last();
        places_in_order(front);
        assert(places(windows) == places(front) + windows.last().place());
    }
}

/// The request that puts a window in the place that it is to end up in, whether it
/// has the focus or not.
pub open spec fn put_in_place(w: AnimatedWindow) -> Sent {
    (
        w.handle,
        Request::SetWindowFrame(
            w.wid,
            CGRect {
                origin: CGPoint { x: w.finish.origin.x, y: w.finish.origin.y },
                size: w.finish.size,
            },
            w.txid,
        ),
    )
}

/// The request that ends the way of a window.
pub open spec fn end_of_way(w: AnimatedWindow) -> Sent {
    (w.handle, Request::EndWindowAnimation(w.wid))
}

/// Skipping an animation puts every window in its place with one request, in
/// their order, and asks nothing else.
pub proof fn skipping_puts_every_window_in_its_place(
    animation: Animation,
    sent: Vec<Sent>,
    i: int,
)
    requires
        call_ensures(Animation::skip_to_end, (&animation,), sent),
    ensures
        sent@.len() == animation@.len(),
        0 <= i < animation@.len() ==> sent@[i] == put_in_place(animation@[i]),
{
    places_in_order(animation@);
}

/// Finishing puts every window that is on its way in its place, in their order,
/// and ends all their ways after that. Nothing is under way any more.
pub proof fn finishing_puts_every_window_in_its_place(
    manager: &mut AnimationManager,
    sent: Vec<Sent>,
    i: int,
)
    requires
        call_ensures(AnimationManager::finish, (manager,), sent),
    ensures
        ({
            let windows = windows_of(old(manager)@);
            let n = windows.len() as int;
            &&& final(manager)@ is None
            &&& sent@.len() == 2 * n
            &&& 0 <= i < n ==> sent@[i] == put_in_place(windows[i]) && sent@[n + i] == end_of_way(
                windows[i],
            )
        }),
{
    let windows = moving(old(manager)@);
    places_in_order(windows);
    ends_in_order(windows);
}

/// The windows of what is under way.
pub open spec fn windows_of(state: AnimationState) -> Seq<AnimatedWindow> {
    match state {
        Some(running) => running.windows,
        None => Seq::empty(),
    }
}

/// Skipping to the end of a new animation finishes what is under way as above, and
/// puts every window of the new one in its place after that. There is nothing to
/// wait for.
pub proof fn skipping_finishes_what_is_under_way(
    manager: &mut AnimationManager,
    animation: Animation,
    blended: Vec<CGRect>,
    answer: (Option<u64>, Vec<Sent>),
    i: int,
    j: int,
)
    requires
        call_ensures(
            AnimationManager::handle_message,
            (manager, Message::SkipToEnd(animation), &blended),
            answer,
        ),
    ensures
        ({
            let windows = windows_of(old(manager)@);
            let n = windows.len() as int;
            &&& final(manager)@ is None
            &&& answer.0 is None
            &&& answer.1@.len() == 2 * n + animation@.len()
            &&& 0 <= i < n ==> answer.1@[i] == put_in_place(windows[i]) && answer.1@[n + i]
                == end_of_way(windows[i])
            &&& 0 <= j < animation@.len() ==> answer.1@[2 * n + j] == put_in_place(animation@[j])
        }),
{
    let windows = moving(old(manager)@);
    places_in_order(windows);
    ends_in_order(windows);
    places_in_order(animation@);
    if 0 <= j < animation@.len() {
        assert(answer.1@[2 * windows.len() + j] == places(animation@)[j]);
    }
}

/// A step moves every window to where it is given, in their order. Half way and at
/// the end windows get their final size as well, and after the last of the thirty
/// steps all ways end and nothing is under way; until then there are ten
/// milliseconds to wait. Without an animation a step does nothing.
pub proof fn a_step_moves_every_window(
    manager: &mut AnimationManager,
    blended: Vec<CGRect>,
    answer: (Option<u64>, Vec<Sent>),
    i: int,
)
    requires
        call_ensures(AnimationManager::tick, (manager, &blended), answer),
    ensures
        ({
            let windows = windows_of(old(manager)@);
            let count = windows.len() as int;
            let w = windows[i];
            let origin = blended@[i].origin;
            let last = old(manager)@ is Some && old(manager)@->0.next_frame == 30;
            let resize = last || (old(manager)@ is Some && old(manager)@->0.next_frame == 15);
            &&& old(manager)@ is None ==> final(manager)@ is None && answer.0 is None
            &&& last ==> final(manager)@ is None && answer.0 is None
            &&& old(manager)@ is Some && !last ==> {
                &&& final(manager)@ matches Some(running)
                &&& running.windows == windows
                &&& running.next_frame == old(manager)@->0.next_frame + 1
                &&& answer.0 == Some(10_000_000u64)
            }
            &&& answer.1@.len() == (if last {
                2 * count
            } else {
                count
            })
            &&& 0 <= i < count && resize ==> answer.1@[i] == (
                w.handle,
                Request::SetWindowFrame(w.wid, CGRect { origin, size: w.finish.size }, w.txid),
            )
            &&& 0 <= i < count && !resize ==> answer.1@[i] == (
                w.handle,
                Request::SetWindowPos(w.wid, origin, w.txid),
            )
            &&& 0 <= i < count && last ==> answer.1@[count + i] == end_of_way(w)
        }),
{
    if let Some(running) = old(manager)@ {
        steps_in_order(running.windows, blended@, running.next_frame);
        ends_in_order(running.windows);
        if 0 <= i < running.windows.len() {
            assert(steps(running.windows, blended@, running.next_frame)[i]
                == running.windows[i].step(blended@[i], running.next_frame)[0]);
        }
    }
}

/// An animation that starts while nothing is under way is taken over as it is, and
/// waits ten milliseconds for its first step; an empty one is not.
pub proof fn an_animation_starts(
    manager: &mut AnimationManager,
    animation: Animation,
    blended: Vec<CGRect>,
    answer: (Option<u64>, Vec<Sent>),
)
    requires
        call_ensures(
            AnimationManager::handle_message,
            (manager, Message::Replace(animation), &blended),
            answer,
        ),
        old(manager)@ is None,
    ensures
        animation@.len() == 0 ==> final(manager)@ is None && answer.0 is None && answer.1@.len()
            == 0,
        animation@.len() > 0 ==> {
            &&& final(manager)@ matches Some(running)
            &&& running.windows == animation@
            &&& running.next_frame == 1
            &&& answer.0 == Some(10_000_000u64)
        },
        forall|wid: WindowId, i: int|
            unique(animation@) && 0 <= i < animation@.len() && (#[trigger] animation@[i]).wid == wid
                ==> #[trigger] heard(answer.1@, wid) == first_requests(animation@[i]),
{
    assert forall|wid: WindowId, i: int|
        unique(animation@) && 0 <= i < animation@.len() && (
        #[trigger] animation@[i]).wid == wid implies #[trigger] heard(answer.1@, wid)
        == first_requests(animation@[i]) by {
        begins_are_heard(animation@, set![], wid);
    }
}

/// What a window hears when its way begins: that it does and, if it has the focus,
/// its final size at once, where it stands.
pub open spec fn first_requests(w: AnimatedWindow) -> Seq<Sent> {
    let begin = (w.handle, Request::BeginWindowAnimation(w.wid));
    let grow = (
        w.handle,
        Request::SetWindowFrame(
            w.wid,
            CGRect { origin: w.start.origin, size: w.finish.size },
            w.txid,
        ),
    );
    if w.is_focus {
        seq![begin, grow]
    } else {
        seq![begin]
    }
}

#[verifier::spinoff_prover]
proof fn patching_keeps_windows(
    next: Seq<AnimatedWindow>,
    frames: Seq<(WindowId, CGRect)>,
    wid: WindowId,
)
    ensures
        wids(patched(next, frames)).contains(wid) == wids(next).contains(wid),
{
    let windows = patched(next, frames);
    if wids(next).contains(wid) {
        let j = choose|j: int| 0 <= j < next.len() && #[trigger] next[j].wid == wid;
        assert(windows[j].wid == wid);
    }
    if wids(windows).contains(wid) {
        let j = choose|j: int| 0 <= j < windows.len() && #[trigger] windows[j].wid == wid;
        assert(next[j].wid == wid);
    }
}

#[verifier::spinoff_prover]
proof fn begins_of_a_replacement_are_heard(
    running: Running,
    next: Seq<AnimatedWindow>,
    blended: Seq<CGRect>,
    wid: WindowId,
)
    requires
        unique(running.windows),
        unique(next),
    ensures
        ({
            let windows = patched(next, running.current_frames(blended));
            let begun = heard(begins(windows, continuing(running, next)), wid);
            let was = wids(running.windows).contains(wid);
            let will = wids(next).contains(wid);
            &&& !will || was ==> begun == Seq::<Sent>::empty()
            &&& will && !was ==> forall|j: int|
                0 <= j < next.len() && (#[trigger] next[j]).wid == wid ==> begun
                    == first_requests(next[j])
        }),
{
    let both = continuing(running, next);
    let windows = patched(next, running.current_frames(blended));
    let begun = heard(begins(windows, both), wid);
    let was = wids(running.windows).contains(wid);
    let will = wids(next).contains(wid);
    assert(will == wids(windows).contains(wid)) by {
        patching_keeps_windows(next, running.current_frames(blended), wid);
    }
    assert(both.contains(wid) == (was && will));
    if !will || was {
        begins_are_heard(windows, both, wid);
    } else {
        assert forall|j: int| 0 <= j < next.len() && (#[trigger] next[j]).wid == wid implies begun
            == first_requests(next[j]) by {
            assert(windows[j] == next[j]) by {
                frames_name_the_windows(running, blended, wid);
            }
            assert(begun == windows[j].begin()) by {
                replacing_alternates(Some(running), next, blended);
                begins_are_heard(windows, both, wid);
            }
            assert(windows[j].begin() =~= first_requests(next[j]));
        }
    }
}

#[verifier::spinoff_prover]
proof fn ends_of_a_replacement_are_heard(
    running: Running,
    next: Seq<AnimatedWindow>,
    wid: WindowId,
)
    requires
        unique(running.windows),
    ensures
        ({
            let ended = heard(finishes(running.windows, continuing(running, next)), wid);
            let was = wids(running.windows).contains(wid);
            let will = wids(next).contains(wid);
            &&& !was || will ==> ended == Seq::<Sent>::empty()
            &&& was && !will ==> forall|i: int|
                0 <= i < running.windows.len() && (#[trigger] running.windows[i]).wid == wid
                    ==> ended == seq![
                    put_in_place(running.windows[i]),
                    end_of_way(running.windows[i]),
                ]
        }),
{
    let both = continuing(running, next);
    let ended = heard(finishes(running.windows, both), wid);
    let was = wids(running.windows).contains(wid);
    let will = wids(next).contains(wid);
    assert(both.contains(wid) == (was && will));
    if !was || will {
        finishes_are_heard(running.windows, both, wid);
    } else {
        assert forall|i: int|
            0 <= i < running.windows.len() && (
            #[trigger] running.windows[i]).wid == wid implies ended == seq![
            put_in_place(running.windows[i]),
            end_of_way(running.windows[i]),
        ] by {
            let w = running.windows[i];
            assert(ended == w.place() + w.end()) by {
                finishes_are_heard(running.windows, both, wid);
            }
            assert(w.place() + w.end() =~= seq![put_in_place(w), end_of_way(w)]);
        }
    }
}

#[verifier::spinoff_prover]
proof fn replacing_is_heard(
    running: Running,
    next: Seq<AnimatedWindow>,
    blended: Seq<CGRect>,
    wid: WindowId,
)
    requires
        unique(running.windows),
        unique(next),
    ensures
        ({
            let sent = heard(replacing(Some(running), next, blended), wid);
            let was = wids(running.windows).contains(wid);
            let will = wids(next).contains(wid);
            &&& was == will ==> sent == Seq::<Sent>::empty()
            &&& will && !was ==> forall|j: int|
                0 <= j < next.len() && (#[trigger] next[j]).wid == wid ==> sent == first_requests(
                    next[j],
                )
            &&& was && !will ==> forall|i: int|
                0 <= i < running.windows.len() && (#[trigger] running.windows[i]).wid == wid
                    ==> sent == seq![
                    put_in_place(running.windows[i]),
                    end_of_way(running.windows[i]),
                ]
        }),
{
    let both = continuing(running, next);
    let windows = patched(next, running.current_frames(blended));
    let sent = heard(replacing(Some(running), next, blended), wid);
    let begun = heard(begins(windows, both), wid);
    let ended = heard(finishes(running.windows, both), wid);
    assert(sent == begun + ended) by {
        heard_in_turn(begins(windows, both), finishes(running.windows, both), wid);
    }
    begins_of_a_replacement_are_heard(running, next, blended, wid);
    ends_of_a_replacement_are_heard(running, next, wid);
    assert(begun == Seq::<Sent>::empty() ==> sent =~= ended);
    assert(ended == Seq::<Sent>::empty() ==> sent =~= begun);
}

/// When an animation replaces another, a window of the new one alone hears that its
/// way begins, one of the old one alone is put in its place and hears that its way
/// ends, and one of both hears nothing. Nobody else hears anything.
pub proof fn replacing_tells_windows_what_changes_for_them(
    manager: &mut AnimationManager,
    animation: Animation,
    blended: Vec<CGRect>,
    answer: (Option<u64>, Vec<Sent>),
    wid: WindowId,
)
    requires
        call_ensures(
            AnimationManager::handle_message,
            (manager, Message::Replace(animation), &blended),
            answer,
        ),
        old(manager)@ is Some,
        unique(windows_of(old(manager)@)),
        unique(animation@),
    ensures
        ({
            let windows = windows_of(old(manager)@);
            let was = exists|i: int| 0 <= i < windows.len() && #[trigger] windows[i].wid == wid;
            let will = exists|j: int|
                0 <= j < animation@.len() && #[trigger] animation@[j].wid == wid;
            &&& was == will ==> heard(answer.1@, wid) == Seq::<Sent>::empty()
            &&& will && !was ==> forall|j: int|
                0 <= j < animation@.len() && (#[trigger] animation@[j]).wid == wid ==> heard(
                    answer.1@,
                    wid,
                ) == first_requests(animation@[j])
            &&& was && !will ==> forall|i: int|
                0 <= i < windows.len() && (#[trigger] windows[i]).wid == wid ==> heard(
                    answer.1@,
                    wid,
                ) == seq![put_in_place(windows[i]), end_of_way(windows[i])]
        }),
{
    let running = old(manager)@->0;
    replacing_is_heard(running, animation@, blended@, wid);
    assert(wids(running.windows).contains(wid) == exists|i: int|
        0 <= i < running.windows.len() && #[trigger] running.windows[i].wid == wid);
    assert(wids(animation@).contains(wid) == exists|j: int|
        0 <= j < animation@.len() && #[trigger] animation@[j].wid == wid);
}

proof fn last_frames_are_named(frames: Seq<(WindowId, CGRect)>, wid: WindowId)
    ensures
        last_frame(frames, wid) is Some ==> exists|i: int|
            0 <= i < frames.len() && (#[trigger] frames[i]).0 == wid,
    decreases frames.len(),
{
    if frames.len() > 0 {
        let front = frames.drop_last();
        last_frames_are_named(front, wid);
        if frames.last().0 == wid {
            assert(frames[frames.len() - 1].0 == wid);
        } else if last_frame(front, wid) is Some {
            let i = choose|i: int| 0 <= i < front.len() && (#[trigger] front[i]).0 == wid;
            assert(frames[i].0 == wid);
        }
    }
}

proof fn frames_name_the_windows(running: Running, blended: Seq<CGRect>, wid: WindowId)
    ensures
        !wids(running.windows).contains(wid) ==> last_frame(running.current_frames(blended), wid)
            is None,
{
    let frames = running.current_frames(blended);
    last_frames_are_named(frames, wid);
    if last_frame(frames, wid) is Some {
        let i = choose|i: int| 0 <= i < frames.len() && (#[trigger] frames[i]).0 == wid;
        assert(running.windows[i].wid == wid);
    }
}

/// Where a window stands after `frame` of thirty steps: before the first one it
/// stands where it starts, with its final size if it has the focus; after that it
/// stands where it is given, with its final size from half way on or if it has the
/// focus, and with its first size until then.
pub open spec fn stands_at(w: AnimatedWindow, given: CGRect, frame: int, rect: CGRect) -> bool {
    &&& frame == 0 ==> rect.origin == w.start.origin
    &&& frame > 0 ==> rect.origin == given.origin
    &&& w.is_focus || frame >= 15 ==> rect.size == w.finish.size
    &&& !w.is_focus && frame < 15 ==> rect.size == w.start.size
}

/// Whether the window at `j` does not occur before.
pub open spec fn occurs_first(windows: Seq<AnimatedWindow>, j: int) -> bool {
    forall|k: int| 0 <= k < j ==> (#[trigger] windows[k]).wid != windows[j].wid
}

/// Whether `wid` stands at `i`, and not after that.
pub open spec fn occurs_last(windows: Seq<AnimatedWindow>, wid: WindowId, i: int) -> bool {
    &&& 0 <= i < windows.len()
    &&& windows[i].wid == wid
    &&& forall|k: int| i < k < windows.len() ==> (#[trigger] windows[k]).wid != wid
}

/// When an animation replaces another, it takes its own windows over in their
/// order, to the same ends. A window of both starts where it stands now, and any
/// other where it was to start. The steps begin anew. Where a window occurs more
/// than once, the last of the old ones says where it stands, and the first of the
/// new ones starts there.
pub proof fn replacing_goes_on_from_where_windows_are(
    manager: &mut AnimationManager,
    animation: Animation,
    blended: Vec<CGRect>,
    answer: (Option<u64>, Vec<Sent>),
    i: int,
    j: int,
)
    requires
        call_ensures(
            AnimationManager::handle_message,
            (manager, Message::Replace(animation), &blended),
            answer,
        ),
        old(manager)@ is Some,
        old(manager)@->0.next_frame >= 1,
        0 <= j < animation@.len(),
    ensures
        ({
            let windows = windows_of(old(manager)@);
            let frame = old(manager)@->0.next_frame - 1;
            let next = animation@[j];
            &&& final(manager)@ matches Some(running)
            &&& running.next_frame == 1
            &&& running.windows.len() == animation@.len()
            &&& answer.0 == Some(10_000_000u64)
            &&& running.windows[j] == (AnimatedWindow { start: running.windows[j].start, ..next })
            &&& occurs_first(animation@, j) && occurs_last(windows, next.wid, i) ==> stands_at(
                windows[i],
                blended@[i],
                frame,
                running.windows[j].start,
            )
            &&& !occurs_first(animation@, j) ==> running.windows[j].start == next.start
            &&& (forall|k: int|
                0 <= k < windows.len() ==> (#[trigger] windows[k]).wid != next.wid)
                ==> running.windows[j].start == next.start
        }),
{
    let running = old(manager)@->0;
    let next = animation@;
    assert(occurs_first(next, j) == first_of_its_kind(next, j));
    if occurs_first(next, j) && occurs_last(running.windows, next[j].wid, i) {
        continuing_windows_start_where_they_are(running, next, blended@, i, j);
    }
    if forall|k: int|
        0 <= k < running.windows.len() ==> (#[trigger] running.windows[k]).wid != next[j].wid {
        frames_name_the_windows(running, blended@, next[j].wid);
    }
}

/// When an animation replaces another, all ways that begin do so before any ends:
/// those of the windows that only the new one has come first, in its order, and
/// those of the windows that only the old one has after that, in its order.
pub proof fn ways_begin_before_others_end(
    manager: &mut AnimationManager,
    animation: Animation,
    blended: Vec<CGRect>,
    answer: (Option<u64>, Vec<Sent>),
)
    requires
        call_ensures(
            AnimationManager::handle_message,
            (manager, Message::Replace(animation), &blended),
            answer,
        ),
    ensures
        ({
            let windows = windows_of(old(manager)@);
            let both = Set::new(
                |wid: WindowId|
                    (exists|i: int| 0 <= i < windows.len() && #[trigger] windows[i].wid == wid) && (
                    exists|j: int|
                        0 <= j < animation@.len() && #[trigger] animation@[j].wid == wid),
            );
            answer.1@ == begins(windows_of(final(manager)@), both) + finishes(windows, both)
        }),
        forall|k: int, l: int|
            0 <= k < l < answer.1@.len() && (#[trigger] answer.1@[k]).1 is EndWindowAnimation
                ==> !((#[trigger] answer.1@[l]).1 is BeginWindowAnimation),
{
    let windows = windows_of(old(manager)@);
    let both = Set::new(
        |wid: WindowId|
            (exists|i: int| 0 <= i < windows.len() && #[trigger] windows[i].wid == wid) && (exists|
                j: int,
            |
                0 <= j < animation@.len() && #[trigger] animation@[j].wid == wid),
    );
    let first = begins(windows_of(final(manager)@), both);
    let second = finishes(windows, both);
    if let Some(running) = old(manager)@ {
        assert(both =~= continuing(running, animation@));
    } else {
        assert(both =~= set![]);
        assert(second =~= seq![]);
        if animation@.len() == 0 {
            assert(animation@ =~= Seq::empty());
        }
        assert(answer.1@ =~= first + second);
    }
    assert forall|k: int, l: int|
        0 <= k < l < answer.1@.len() && (
        #[trigger] answer.1@[k]).1 is EndWindowAnimation implies !((
    #[trigger] answer.1@[l]).1 is BeginWindowAnimation) by {
        if k < first.len() {
            begins_end_nothing(windows_of(final(manager)@), both, k);
        } else {
            finishes_begin_nothing(windows, both, l - first.len());
        }
    }
}

proof fn begins_end_nothing(windows: Seq<AnimatedWindow>, skip: Set<WindowId>, k: int)
    requires
        0 <= k < begins(windows, skip).len(),
    ensures
        !(begins(windows, skip)[k].1 is EndWindowAnimation),
    decreases windows.len(),
{
    let front = windows.drop_last();
    if k < begins(front, skip).len() {
        begins_end_nothing(front, skip, k);
    }
}

proof fn finishes_begin_nothing(windows: Seq<AnimatedWindow>, keep: Set<WindowId>, k: int)
    requires
        0 <= k < finishes(windows, keep).len(),
    ensures
        !(finishes(windows, keep)[k].1 is BeginWindowAnimation),
    decreases windows.len(),
{
    let front = windows.drop_last();
    if k < finishes(front, keep).len() {
        finishes_begin_nothing(front, keep, k);
    }
}

/// One window more in an animation adds its first requests after those of the
/// others, and nothing where its way is not to begin.
pub proof fn ways_begin_in_order(
    windows: Seq<AnimatedWindow>,
    more: AnimatedWindow,
    skip: Set<WindowId>,
)
    ensures
        begins(Seq::empty(), skip) == Seq::<Sent>::empty(),
        skip.contains(more.wid) ==> begins(windows.push(more), skip) == begins(windows, skip),
        !skip.contains(more.wid) ==> begins(windows.push(more), skip) == begins(windows, skip)
            + first_requests(more),
{
    assert(windows.push(more).drop_last() =~= windows);
    assert(more.begin() =~= first_requests(more));
    assert(begins(windows, skip) + seq![] =~= begins(windows, skip));
}

/// One window more that drops out is put in its place and its way ends, after those
/// of the others, and nothing is asked of one that is kept.
pub proof fn ways_end_in_order(
    windows: Seq<AnimatedWindow>,
    more: AnimatedWindow,
    keep: Set<WindowId>,
)
    ensures
        finishes(Seq::empty(), keep) == Seq::<Sent>::empty(),
        keep.contains(more.wid) ==> finishes(windows.push(more), keep) == finishes(windows, keep),
        !keep.contains(more.wid) ==> finishes(windows.push(more), keep) == finishes(windows, keep)
            + seq![put_in_place(more), end_of_way(more)],
{
    assert(windows.push(more).drop_last() =~= windows);
    assert(more.place() + more.end() =~= seq![put_in_place(more), end_of_way(more)]);
    assert(finishes(windows, keep) + seq![] =~= finishes(windows, keep));
}

/// What is worked out between two steps is a point on the way of each window, from
/// its start to its end: as many of thirty steps as were taken, or one more for
/// the next one.
pub proof fn points_on_the_way_follow_the_steps(
    manager: AnimationManager,
    current: Vec<Blend>,
    next: Vec<Blend>,
    i: int,
)
    requires
        call_ensures(AnimationManager::current_blends, (&manager,), current),
        call_ensures(AnimationManager::next_blends, (&manager,), next),
        manager@ is Some ==> 1 <= manager@->0.next_frame <= 30,
    ensures
        ({
            let windows = windows_of(manager@);
            &&& current@.len() == windows.len()
            &&& next@.len() == windows.len()
            &&& 0 <= i < windows.len() ==> {
                &&& current@[i].start == windows[i].start
                &&& current@[i].finish == windows[i].finish
                &&& current@[i].frame == manager@->0.next_frame - 1
                &&& current@[i].frames == 30
                &&& next@[i].start == windows[i].start
                &&& next@[i].finish == windows[i].finish
                &&& next@[i].frame == manager@->0.next_frame
                &&& next@[i].frames == 30
            }
        }),
{
}

/// Where the windows are is told of each of them, in their order.
pub proof fn windows_are_where_they_stand(
    manager: AnimationManager,
    blended: Vec<CGRect>,
    frames: Vec<(WindowId, CGRect)>,
    windows: Vec<AnimatedWindow>,
    active: bool,
    i: int,
)
    requires
        call_ensures(AnimationManager::current_frames, (&manager, &blended), frames),
        call_ensures(AnimationManager::windows, (&manager,), windows),
        call_ensures(AnimationManager::is_active, (&manager,), active),
        manager@ is Some ==> 1 <= manager@->0.next_frame,
    ensures
        active == (manager@ is Some),
        windows@ == windows_of(manager@),
        frames@.len() == windows@.len(),
        0 <= i < windows@.len() ==> frames@[i].0 == windows@[i].wid && stands_at(
            windows@[i],
            blended@[i],
            manager@->0.next_frame - 1,
            frames@[i].1,
        ),
{
}

/// Where a window stands between its first and its last step, of any number of
/// them.
pub proof fn windows_change_their_size_half_way(
    w: AnimatedWindow,
    given: CGRect,
    frame: u32,
    total_frames: u32,
    rect: CGRect,
)
    requires
        call_ensures(AnimatedWindow::frame_after, (&w, given, frame, total_frames), rect),
    ensures
        frame == 0 ==> rect.origin == w.start.origin,
        frame > 0 ==> rect.origin == given.origin,
        w.is_focus ==> rect.size == w.finish.size,
        !w.is_focus && frame > 0 && 2 * frame >= total_frames ==> rect.size == w.finish.size,
        !w.is_focus && (frame == 0 || 2 * frame < total_frames) ==> rect.size == w.start.size,
{
}

/// Windows are added at the end, as they are given, to an animation that is empty
/// at first.
pub proof fn windows_are_added_as_they_are_given(
    empty: Animation,
    animation: &mut Animation,
    handle: AppThreadHandle,
    wid: WindowId,
    start: CGRect,
    finish: CGRect,
    is_focus: bool,
    txid: TransactionId,
    nothing: (),
    i: int,
)
    requires
        call_ensures(Animation::new, (), empty),
        call_ensures(
            Animation::add_window,
            (animation, &handle, wid, start, finish, is_focus, txid),
            nothing,
        ),
    ensures
        empty@.len() == 0,
        ({
            let before = old(animation)@;
            let after = final(animation)@;
            let added = after[after.len() - 1];
            &&& after.len() == before.len() + 1
            &&& 0 <= i < before.len() ==> after[i] == before[i]
            &&& added.handle == handle
            &&& added.wid == wid
            &&& added.start == start
            &&& added.finish == finish
            &&& added.is_focus == is_focus
            &&& added.txid == txid
        }),
{
}

/// An animation is empty when it has no window, and a manager starts without one.
pub proof fn managers_start_without_an_animation(
    manager: AnimationManager,
    animation: Animation,
    empty: bool,
)
    requires
        call_ensures(AnimationManager::new, (), manager),
        call_ensures(Animation::is_empty, (&animation,), empty),
    ensures
        manager@ is None,
        empty <==> animation@.len() == 0,
{
}

} // verus!
