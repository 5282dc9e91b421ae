//! The window server: its windows, and what it reports of them.

use sorted_vec::SortedVec;
use vstd::multiset::Multiset;
use vstd::prelude::*;

use crate::sys::app::pid_t;
use crate::sys::geometry::CGRect;

verus! {

/// The window ID used by the window server.
///
/// It is *not* guaranteed that one can be had for every window. Any
/// functionality depending on this should have a backup plan.
#[derive(Clone, Copy, PartialEq, Eq, Structural, PartialOrd, Ord, Hash, Debug)]
pub struct WindowServerId(pub u32);

impl WindowServerId {
    pub fn new(id: u32) -> (wsid: WindowServerId)
        ensures
            wsid.0 == id,
    {
        WindowServerId(id)
    }

    pub fn as_u32(&self) -> (id: u32)
        ensures
            id == self.0,
    {
        self.0
    }

    /// The window that a system call found, or the error that it returned.
    pub fn from_answer(err: i32, id: u32) -> (result: Result<WindowServerId, i32>)
        ensures
            result == (if err == 0 {
                Ok::<WindowServerId, i32>(WindowServerId(id))
            } else {
                Err(err)
            }),
    {
        match check(err) {
            Ok(()) => Ok(WindowServerId(id)),
            Err(err) => Err(err),
        }
    }
}

impl From<WindowServerId> for u32 {
    fn from(wsid: WindowServerId) -> (id: u32) {
        wsid.0
    }
}

impl vstd::std_specs::convert::FromSpecImpl<WindowServerId> for u32 {
    open spec fn obeys_from_spec() -> bool {
        true
    }

    open spec fn from_spec(wsid: WindowServerId) -> u32 {
        wsid.0
    }
}

/// What the window server says of one window.
#[derive(Clone, Copy, PartialEq, Debug)]
pub struct WindowServerInfo {
    pub id: WindowServerId,
    pub pid: pid_t,
    pub layer: i32,
    pub frame: CGRect,
}

/// The identifiers of `windows`, in their order.
pub open spec fn window_ids(windows: Seq<WindowServerInfo>) -> Seq<WindowServerId> {
    windows.map_values(|w: WindowServerInfo| w.id)
}

/// Collects the identifiers of `windows`.
pub fn ids_of(windows: &Vec<WindowServerInfo>) -> (ids: Vec<WindowServerId>)
    ensures
        ids@ == window_ids(windows@),
{
    let mut ids: Vec<WindowServerId> = Vec::new();
    let mut i: usize = 0;
    while i < windows.len()
        invariant
            i <= windows@.len(),
            ids@ == window_ids(windows@.take(i as int)),
        decreases windows@.len() - i,
    {
        ids.push(windows[i].id);
        assert(window_ids(windows@.take(i as int + 1)) =~= window_ids(windows@.take(i as int)).push(
            windows@[i as int].id,
        ));
        i = i + 1;
    }
    assert(windows@.take(i as int) =~= windows@);
    ids
}

/// The windows on the screen at one moment, frontmost first.
#[derive(Debug)]
pub struct WindowsOnScreen {
    /// The identifiers of the visible windows.
    pub visible: Vec<WindowServerId>,
    /// The visible windows themselves.
    pub windows: Vec<WindowServerInfo>,
}

/// What a [`WindowsOnScreen`] holds.
pub struct WindowsOnScreenView {
    pub visible: Seq<WindowServerId>,
    pub windows: Seq<WindowServerInfo>,
}

impl View for WindowsOnScreen {
    type V = WindowsOnScreenView;

    open spec fn view(&self) -> WindowsOnScreenView {
        WindowsOnScreenView { visible: self.visible@, windows: self.windows@ }
    }
}

/// The snapshot that holds exactly `windows`.
pub open spec fn snapshot(windows: Seq<WindowServerInfo>) -> WindowsOnScreenView {
    WindowsOnScreenView { visible: window_ids(windows), windows }
}

impl WindowsOnScreen {
    /// A snapshot that holds exactly `windows`.
    pub fn new(windows: Vec<WindowServerInfo>) -> (on_screen: WindowsOnScreen)
        ensures
            on_screen@ == snapshot(windows@),
    {
        let visible = ids_of(&windows);
        WindowsOnScreen { visible, windows }
    }
}

/// A window as the window server lists it, where any part can be missing.
#[derive(Clone, Copy, Debug)]
pub struct RawWindow {
    pub layer: Option<i64>,
    pub number: Option<i64>,
    pub owner_pid: Option<i64>,
    pub bounds: Option<CGRect>,
}

/// The number that a part stands for, if it is an `i32`.
pub open spec fn as_i32(number: Option<i64>) -> Option<i32> {
    match number {
        Some(n) if i32::MIN <= n <= i32::MAX => Some(n as i32),
        _ => None,
    }
}

/// The number that a part stands for, if it is a `u32`.
pub open spec fn as_id(number: Option<i64>) -> Option<WindowServerId> {
    match number {
        Some(n) if 0 <= n <= u32::MAX => Some(WindowServerId(n as u32)),
        _ => None,
    }
}

/// What is known of a listed window: nothing, unless all parts are there and
/// in range. With a filter, only windows at that layer count.
pub open spec fn info_of(win: RawWindow, filter: Option<i32>) -> Option<WindowServerInfo> {
    match (as_i32(win.layer), as_id(win.number), as_i32(win.owner_pid), win.bounds) {
        (Some(layer), Some(id), Some(pid), Some(frame)) if filter is None || filter == Some(
            layer,
        ) => Some(WindowServerInfo { id, pid, layer, frame }),
        _ => None,
    }
}

/// What is known of the listed windows, those of which nothing is known left
/// out.
pub open spec fn infos_of(raw: Seq<RawWindow>, filter: Option<i32>) -> Seq<WindowServerInfo>
    decreases raw.len(),
{
    if raw.len() == 0 {
        seq![]
    } else {
        let front = infos_of(raw.drop_last(), filter);
        match info_of(raw.last(), filter) {
            Some(info) => front.push(info),
            None => front,
        }
    }
}

/// The identifiers of the listed windows that have one.
pub open spec fn listed_ids(raw: Seq<RawWindow>) -> Seq<WindowServerId>
    decreases raw.len(),
{
    if raw.len() == 0 {
        seq![]
    } else {
        let front = listed_ids(raw.drop_last());
        match as_id(raw.last().number) {
            Some(id) => front.push(id),
            None => front,
        }
    }
}

fn to_i32(number: Option<i64>) -> (n: Option<i32>)
    ensures
        n == as_i32(number),
{
    match number {
        Some(n) => if -0x8000_0000 <= n && n <= 0x7fff_ffff {
            Some(n as i32)
        } else {
            None
        },
        None => None,
    }
}

fn to_id(number: Option<i64>) -> (id: Option<WindowServerId>)
    ensures
        id == as_id(number),
{
    match number {
        Some(n) => if 0 <= n && n <= 0xffff_ffff {
            Some(WindowServerId(n as u32))
        } else {
            None
        },
        None => None,
    }
}

/// Reads one listed window.
pub fn make_info(win: &RawWindow, layer_filter: Option<i32>) -> (info: Option<WindowServerInfo>)
    ensures
        info == info_of(*win, layer_filter),
{
    let layer: i32 = match to_i32(win.layer) {
        Some(layer) => layer,
        None => return None,
    };
    if let Some(wanted) = layer_filter {
        if wanted != layer {
            return None;
        }
    }
    let id = match to_id(win.number) {
        Some(id) => id,
        None => return None,
    };
    let pid: pid_t = match to_i32(win.owner_pid) {
        Some(pid) => pid,
        None => return None,
    };
    match win.bounds {
        Some(frame) => Some(WindowServerInfo { id, pid, layer, frame }),
        None => None,
    }
}

/// The windows of a list of those visible on the screen, in their order.
pub fn get_visible_windows_with_layer(raw: &Vec<RawWindow>, layer: Option<i32>) -> (windows: Vec<
    WindowServerInfo,
>)
    ensures
        windows@ == infos_of(raw@, layer),
{
    let mut windows: Vec<WindowServerInfo> = Vec::new();
    let mut i: usize = 0;
    assert(raw@.take(0) =~= seq![]);
    while i < raw.len()
        invariant
            i <= raw@.len(),
            windows@ == infos_of(raw@.take(i as int), layer),
        decreases raw@.len() - i,
    {
        assert(raw@.take(i as int + 1).drop_last() =~= raw@.take(i as int));
        if let Some(info) = make_info(&raw[i], layer) {
            windows.push(info);
        }
        i = i + 1;
    }
    assert(raw@.take(i as int) =~= raw@);
    windows
}

/// Only the identifiers of a list of windows visible on the screen. This asks
/// less of the list than `get_visible_windows_with_layer`.
pub fn get_visible_window_ids(raw: &Vec<RawWindow>) -> (ids: Vec<WindowServerId>)
    ensures
        ids@ == listed_ids(raw@),
{
    let mut ids: Vec<WindowServerId> = Vec::new();
    let mut i: usize = 0;
    assert(raw@.take(0) =~= seq![]);
    while i < raw.len()
        invariant
            i <= raw@.len(),
            ids@ == listed_ids(raw@.take(i as int)),
        decreases raw@.len() - i,
    {
        assert(raw@.take(i as int + 1).drop_last() =~= raw@.take(i as int));
        if let Some(id) = to_id(raw[i].number) {
            ids.push(id);
        }
        i = i + 1;
    }
    assert(raw@.take(i as int) =~= raw@);
    ids
}

/// The windows that the window server lists when asked for `ids`. It is not
/// asked for none.
pub fn get_windows(ids: &Vec<WindowServerId>, listed: &Vec<RawWindow>) -> (windows: Vec<
    WindowServerInfo,
>)
    ensures
        windows@ == (if ids@.len() == 0 {
            seq![]
        } else {
            infos_of(listed@, None)
        }),
{
    if ids.len() == 0 {
        return Vec::new();
    }
    get_visible_windows_with_layer(listed, None)
}

/// The window that the window server lists when asked for a single one.
pub fn get_window(listed: &Vec<RawWindow>) -> (window: Option<WindowServerInfo>)
    ensures
        window == (if listed@.len() == 0 {
            None
        } else {
            info_of(listed@[0], None)
        }),
{
    if listed.len() == 0 {
        None
    } else {
        make_info(&listed[0], None)
    }
}

/// The window at a point of the screen, from the number that the system gives
/// it. There is no number where the point cannot be converted.
pub fn get_window_at_point(number: Option<i64>) -> (wsid: Option<WindowServerId>)
    ensures
        wsid == (match number {
            Some(n) => Some(WindowServerId(n as u32)),
            None => None,
        }),
{
    match number {
        Some(n) => Some(
            WindowServerId(
                #[verifier::truncate]
                (n as u32),
            ),
        ),
        None => None,
    }
}

/// The answer of a system call: zero is success, anything else an error.
pub fn check(err: i32) -> (result: Result<(), i32>)
    ensures
        result == (if err == 0 {
            Ok::<(), i32>(())
        } else {
            Err(err)
        }),
{
    if err == 0 {
        Ok(())
    } else {
        Err(err)
    }
}

/// Marks a change of the front process as made by the user.
#[allow(non_upper_case_globals)]
pub const kCPSUserGenerated: u32 = 0x200;

/// The number of the notification that a window is gone.
#[allow(non_upper_case_globals)]
pub const kCGSWindowIsTerminated: u32 = 804;

/// How long an event record is.
pub const RECORD_LEN: usize = 0x100;

/// Byte `k` of a number, counted from the lowest.
pub open spec fn byte_of(n: u32, k: int) -> u8 {
    if k == 0 {
        (n % 0x100) as u8
    } else if k == 1 {
        (n / 0x100 % 0x100) as u8
    } else if k == 2 {
        (n / 0x1_0000 % 0x100) as u8
    } else {
        (n / 0x100_0000) as u8
    }
}

/// The record of an event that presses (1) or releases (2) the mouse in a
/// window. The window is named with its lowest byte first.
pub open spec fn event_record(wsid: WindowServerId, kind: u8) -> Seq<u8> {
    Seq::new(
        RECORD_LEN as nat,
        |i: int|
            if i == 0x04 {
                0xf8u8
            } else if i == 0x08 {
                kind
            } else if 0x20 <= i < 0x30 {
                0xffu8
            } else if i == 0x3a {
                0x10u8
            } else if 0x3c <= i < 0x40 {
                byte_of(wsid.0, i - 0x3c)
            } else {
                0u8
            },
    )
}

fn make_event_record(wsid: WindowServerId, kind: u8) -> (record: Vec<u8>)
    ensures
        record@ == event_record(wsid, kind),
{
    let mut record: Vec<u8> = Vec::new();
    let mut i: usize = 0;
    while i < RECORD_LEN
        invariant
            i <= RECORD_LEN,
            record@ == event_record(wsid, kind).take(i as int),
        decreases RECORD_LEN - i,
    {
        let byte: u8 = if i == 0x04 {
            0xf8
        } else if i == 0x08 {
            kind
        } else if 0x20 <= i && i < 0x30 {
            0xff
        } else if i == 0x3a {
            0x10
        } else if i == 0x3c {
            (wsid.0 % 0x100) as u8
        } else if i == 0x3d {
            (wsid.0 / 0x100 % 0x100) as u8
        } else if i == 0x3e {
            (wsid.0 / 0x1_0000 % 0x100) as u8
        } else if i == 0x3f {
            (wsid.0 / 0x100_0000) as u8
        } else {
            0
        };
        record.push(byte);
        i = i + 1;
        assert(record@ =~= event_record(wsid, kind).take(i as int));
    }
    assert(record@ =~= event_record(wsid, kind));
    record
}

/// What comes next when a window is made the key window of the window server
/// and of its application.
#[derive(Debug)]
pub enum KeyWindowStep {
    /// Bring the process to the front, by way of the window.
    SetFrontProcess { window: u32, mode: u32 },
    /// Post an event record to the process.
    PostEventRecord(Vec<u8>),
    Done,
    Failed,
}

/// What a [`KeyWindowStep`] says.
pub enum KeyWindowStepView {
    SetFrontProcess { window: u32, mode: u32 },
    PostEventRecord(Seq<u8>),
    Done,
    Failed,
}

impl View for KeyWindowStep {
    type V = KeyWindowStepView;

    open spec fn view(&self) -> KeyWindowStepView {
        match *self {
            KeyWindowStep::SetFrontProcess { window, mode } => {
                KeyWindowStepView::SetFrontProcess { window, mode }
            },
            KeyWindowStep::PostEventRecord(record) => KeyWindowStepView::PostEventRecord(record@),
            KeyWindowStep::Done => KeyWindowStepView::Done,
            KeyWindowStep::Failed => KeyWindowStepView::Failed,
        }
    }
}

/// What comes after steps that were answered by `answers`: the first error ends
/// it all.
pub open spec fn key_window_step(wsid: WindowServerId, answers: Seq<i32>) -> KeyWindowStepView {
    if exists|i: int| 0 <= i < answers.len() && answers[i] != 0 {
        KeyWindowStepView::Failed
    } else if answers.len() == 0 {
        KeyWindowStepView::SetFrontProcess { window: wsid.0, mode: kCPSUserGenerated }
    } else if answers.len() == 1 {
        KeyWindowStepView::PostEventRecord(event_record(wsid, 1))
    } else if answers.len() == 2 {
        KeyWindowStepView::PostEventRecord(event_record(wsid, 2))
    } else {
        KeyWindowStepView::Done
    }
}

/// Says what to do next to make `wsid` the key window, after steps that were
/// answered by `answers`.
pub fn make_key_window(wsid: WindowServerId, answers: &Vec<i32>) -> (step: KeyWindowStep)
    ensures
        step@ == key_window_step(wsid, answers@),
{
    let mut i: usize = 0;
    while i < answers.len()
        invariant
            i <= answers@.len(),
            forall|j: int| 0 <= j < i ==> answers@[j] == 0,
        decreases answers@.len() - i,
    {
        if check(answers[i]).is_err() {
            return KeyWindowStep::Failed;
        }
        i = i + 1;
    }
    if answers.len() == 0 {
        KeyWindowStep::SetFrontProcess { window: wsid.0, mode: kCPSUserGenerated }
    } else if answers.len() == 1 {
        KeyWindowStep::PostEventRecord(make_event_record(wsid, 1))
    } else if answers.len() == 2 {
        KeyWindowStep::PostEventRecord(make_event_record(wsid, 2))
    } else {
        KeyWindowStep::Done
    }
}

/// The two records that make a window the key window differ in one byte only.
pub proof fn event_records_differ_in_their_kind(wsid: WindowServerId, a: u8, b: u8)
    ensures
        event_record(wsid, b) == event_record(wsid, a).update(0x08, b),
        event_record(wsid, a).len() == RECORD_LEN,
{
    assert(event_record(wsid, b) =~= event_record(wsid, a).update(0x08, b));
}

/// An event record names its window: two windows never share one.
pub proof fn event_records_name_their_window(a: WindowServerId, b: WindowServerId, kind: u8)
    requires
        event_record(a, kind) == event_record(b, kind),
    ensures
        a == b,
{
    let x = event_record(a, kind);
    let y = event_record(b, kind);
    assert(x[0x3c] == y[0x3c]);
    assert(x[0x3d] == y[0x3d]);
    assert(x[0x3e] == y[0x3e]);
    assert(x[0x3f] == y[0x3f]);
    assert(a.0 == b.0);
}

/// [`sorted_vec::SortedVec`], a vector that keeps its items in order.
#[verifier::external_type_specification]
#[verifier::external_body]
#[verifier::reject_recursive_types(T)]
pub struct ExSortedVec<T: Ord>(sorted_vec::SortedVec<T>);

/// The items of a sorted list, each as often as it is in it.
pub uninterp spec fn listed(list: SortedVec<u32>) -> Multiset<u32>;

/// `SortedVec::new`: the list has no items.
#[verifier::external_body]
fn empty_list() -> (list: SortedVec<u32>)
    ensures
        listed(list) == Multiset::<u32>::empty(),
{
    SortedVec::new()
}

/// `SortedVec::insert`: the item is in the list once more than before.
#[verifier::external_body]
fn insert_item(list: &mut SortedVec<u32>, item: u32)
    ensures
        listed(*final(list)) == listed(*old(list)).insert(item),
{
    list.insert(item);
}

/// `SortedVec::remove_item`: the item is in the list once less than before, if
/// it was in it at all.
#[verifier::external_body]
fn remove_item(list: &mut SortedVec<u32>, item: u32)
    ensures
        listed(*final(list)) == listed(*old(list)).remove(item),
{
    list.remove_item(&item);
}

/// `to_vec` of the slice that a `SortedVec` dereferences to: the items from the
/// least to the greatest.
#[verifier::external_body]
fn items_in_order(list: &SortedVec<u32>) -> (items: Vec<u32>)
    ensures
        items@.to_multiset() == listed(*list),
        forall|i: int, j: int| 0 <= i <= j < items@.len() ==> items@[i] <= items@[j],
{
    list.to_vec()
}

/// Manages the connection to the window server by which events of windows are
/// subscribed to.
#[derive(Debug)]
pub struct SkylightConnection {
    window_list: SortedVec<u32>,
}

/// A list of windows to subscribe to, with its length as the window server
/// takes it.
#[derive(Debug)]
pub struct WindowList {
    pub windows: Vec<u32>,
    pub count: i32,
}

impl WindowList {
    /// Whether the list holds exactly `windows`, in ascending order.
    pub open spec fn lists(self, windows: Multiset<u32>) -> bool {
        &&& self.windows@.to_multiset() == windows
        &&& forall|i: int, j: int|
            0 <= i <= j < self.windows@.len() ==> self.windows@[i] <= self.windows@[j]
        &&& self.count == self.windows@.len() as i32
    }
}

impl SkylightConnection {
    /// The windows that are watched, each as often as it was added.
    pub closed spec fn windows(self) -> Multiset<u32> {
        listed(self.window_list)
    }

    /// A connection that watches no window.
    pub fn new() -> (connection: SkylightConnection)
        ensures
            connection.windows() == Multiset::<u32>::empty(),
    {
        SkylightConnection { window_list: empty_list() }
    }

    /// Watches one window more. Returns the list to subscribe to.
    pub fn add_window(&mut self, wsid: WindowServerId) -> (list: WindowList)
        ensures
            final(self).windows() == old(self).windows().insert(wsid.0),
            list.lists(final(self).windows()),
    {
        insert_item(&mut self.window_list, wsid.0);
        self.update_windows()
    }

    /// Watches one window less. Returns the list to subscribe to.
    pub fn remove_window(&mut self, wsid: WindowServerId) -> (list: WindowList)
        ensures
            final(self).windows() == old(self).windows().remove(wsid.0),
            list.lists(final(self).windows()),
    {
        remove_item(&mut self.window_list, wsid.0);
        self.update_windows()
    }

    /// Takes note that a window is gone.
    pub fn on_window_destroyed(&mut self, wsid: WindowServerId)
        ensures
            final(self).windows() == old(self).windows().remove(wsid.0),
    {
        remove_item(&mut self.window_list, wsid.0);
    }

    fn update_windows(&self) -> (list: WindowList)
        ensures
            list.lists(self.windows()),
    {
        let windows = items_in_order(&self.window_list);
        let count: i32 = #[verifier::truncate]
        (windows.len() as i32);
        WindowList { windows, count }
    }
}

/// Watching a window and then no longer restores what was watched.
pub proof fn adding_and_removing_restores(watched: Multiset<u32>, id: u32)
    ensures
        watched.insert(id).remove(id) == watched,
{
    broadcast use vstd::multiset::group_multiset_axioms;

    assert(watched.insert(id).remove(id) =~= watched);
}

/// A number of a window is kept as it is, and read back.
pub proof fn window_numbers_are_kept(id: u32, wsid: WindowServerId, back: u32, from: u32)
    requires
        call_ensures(WindowServerId::new, (id,), wsid),
        call_ensures(WindowServerId::as_u32, (&wsid,), back),
        call_ensures(<u32 as From<WindowServerId>>::from, (wsid,), from),
    ensures
        wsid.0 == id,
        back == id,
        from == id,
{
}

/// A system call that returns zero has worked, and any other number is its error.
pub proof fn zero_is_success(
    err: i32,
    id: u32,
    checked: Result<(), i32>,
    found: Result<WindowServerId, i32>,
)
    requires
        call_ensures(check, (err,), checked),
        call_ensures(WindowServerId::from_answer, (err, id), found),
    ensures
        err == 0 ==> checked is Ok && found == Ok::<WindowServerId, i32>(WindowServerId(id)),
        err != 0 ==> checked == Err::<(), i32>(err) && found == Err::<WindowServerId, i32>(err),
{
}

/// Whether a listed window can be read: all its parts are there and fit.
pub open spec fn readable(win: RawWindow) -> bool {
    &&& win.layer is Some && -2147483648 <= win.layer->0 <= 2147483647
    &&& win.number is Some && 0 <= win.number->0 <= 4294967295
    &&& win.owner_pid is Some && -2147483648 <= win.owner_pid->0 <= 2147483647
    &&& win.bounds is Some
}

/// Whether `info` says what a listed window says.
pub open spec fn says_the_same(info: WindowServerInfo, win: RawWindow) -> bool {
    &&& win.layer == Some(info.layer as i64)
    &&& win.number == Some(info.id.0 as i64)
    &&& win.owner_pid == Some(info.pid as i64)
    &&& win.bounds == Some(info.frame)
}

/// A listed window is read exactly where all its parts are there and fit and,
/// with a filter, it is at that layer. What is read is what is listed.
pub proof fn listed_windows_are_read_as_they_are(
    win: RawWindow,
    layer_filter: Option<i32>,
    info: Option<WindowServerInfo>,
)
    requires
        call_ensures(make_info, (&win, layer_filter), info),
    ensures
        info is Some <==> readable(win) && (layer_filter is None || layer_filter->0
            == win.layer->0),
        info is Some ==> says_the_same(info->0, win),
{
}

/// A list is read window by window, in its order: one more window at its end adds
/// itself where it can be read, and nothing otherwise. An empty list has none.
pub proof fn lists_are_read_in_order(
    raw: Vec<RawWindow>,
    more: RawWindow,
    longer: Vec<RawWindow>,
    layer: Option<i32>,
    windows: Vec<WindowServerInfo>,
    all: Vec<WindowServerInfo>,
)
    requires
        call_ensures(get_visible_windows_with_layer, (&raw, layer), windows),
        call_ensures(get_visible_windows_with_layer, (&longer, layer), all),
        longer@ == raw@.push(more),
    ensures
        raw@.len() == 0 ==> windows@.len() == 0,
        readable(more) && (layer is None || layer->0 == more.layer->0) ==> {
            &&& all@.len() == windows@.len() + 1
            &&& all@.take(windows@.len() as int) == windows@
            &&& says_the_same(all@[windows@.len() as int], more)
        },
        !(readable(more) && (layer is None || layer->0 == more.layer->0)) ==> all@ == windows@,
{
    assert(longer@.drop_last() =~= raw@);
    assert(longer@.last() == more);
    if readable(more) && (layer is None || layer->0 == more.layer->0) {
        assert(all@.take(windows@.len() as int) =~= windows@);
    }
}

/// Identifiers are read in the order of the list, from every window whose number
/// is there and fits, whatever else is missing.
pub proof fn identifiers_are_read_in_order(
    raw: Vec<RawWindow>,
    more: RawWindow,
    longer: Vec<RawWindow>,
    ids: Vec<WindowServerId>,
    all: Vec<WindowServerId>,
)
    requires
        call_ensures(get_visible_window_ids, (&raw,), ids),
        call_ensures(get_visible_window_ids, (&longer,), all),
        longer@ == raw@.push(more),
    ensures
        raw@.len() == 0 ==> ids@.len() == 0,
        more.number is Some && 0 <= more.number->0 <= 4294967295 ==> all@ == ids@.push(
            WindowServerId(more.number->0 as u32),
        ),
        !(more.number is Some && 0 <= more.number->0 <= 4294967295) ==> all@ == ids@,
{
    assert(longer@.drop_last() =~= raw@);
    assert(longer@.last() == more);
}

/// Asking for no window finds none, and asking for some finds what is read of the
/// list; a single window is the first of it.
pub proof fn windows_are_found_in_their_list(
    ids: Vec<WindowServerId>,
    listed: Vec<RawWindow>,
    windows: Vec<WindowServerInfo>,
    read: Vec<WindowServerInfo>,
    window: Option<WindowServerInfo>,
)
    requires
        call_ensures(get_windows, (&ids, &listed), windows),
        call_ensures(get_visible_windows_with_layer, (&listed, None), read),
        call_ensures(get_window, (&listed,), window),
    ensures
        ids@.len() == 0 ==> windows@.len() == 0,
        ids@.len() > 0 ==> windows@ == read@,
        window is Some <==> listed@.len() > 0 && readable(listed@[0]),
        window is Some ==> says_the_same(window->0, listed@[0]),
{
}

/// A window at a point is the one whose number is given, and none without one.
pub proof fn the_window_at_a_point_has_its_number(
    number: Option<i64>,
    wsid: Option<WindowServerId>,
)
    requires
        call_ensures(get_window_at_point, (number,), wsid),
    ensures
        number is None ==> wsid is None,
        number is Some ==> wsid is Some,
        number is Some && 0 <= number->0 <= 4294967295 ==> wsid == Some(
            WindowServerId(number->0 as u32),
        ),
{
}

/// A snapshot holds the windows that it is made of and their identifiers, in their
/// order.
pub proof fn snapshots_hold_their_windows(
    windows: Vec<WindowServerInfo>,
    on_screen: WindowsOnScreen,
    ids: Vec<WindowServerId>,
    i: int,
)
    requires
        call_ensures(WindowsOnScreen::new, (windows,), on_screen),
        call_ensures(ids_of, (&windows,), ids),
    ensures
        on_screen.windows@ == windows@,
        on_screen.visible@.len() == windows@.len(),
        ids@ == on_screen.visible@,
        0 <= i < windows@.len() ==> on_screen.visible@[i] == windows@[i].id,
{
}

/// A window becomes the key window in three steps: its process is brought to the
/// front as by the user, and then the mouse is pressed and released in it. Any
/// error ends that.
pub proof fn a_window_becomes_key_in_three_steps(
    wsid: WindowServerId,
    answers: Vec<i32>,
    step: KeyWindowStep,
    i: int,
)
    requires
        call_ensures(make_key_window, (wsid, &answers), step),
    ensures
        0 <= i < answers@.len() && answers@[i] != 0 ==> step is Failed,
        (forall|k: int| 0 <= k < answers@.len() ==> #[trigger] answers@[k] == 0) ==> {
            let n = answers@.len();
            &&& n == 0 ==> step == (KeyWindowStep::SetFrontProcess { window: wsid.0, mode: 512 })
            &&& n == 1 ==> step is PostEventRecord && is_mouse_record(
                step->PostEventRecord_0@,
                wsid,
                1,
            )
            &&& n == 2 ==> step is PostEventRecord && is_mouse_record(
                step->PostEventRecord_0@,
                wsid,
                2,
            )
            &&& n > 2 ==> step is Done
        },
{
    if 0 <= i < answers@.len() && answers@[i] != 0 {
        assert(exists|k: int| 0 <= k < answers@.len() && answers@[k] != 0);
    }
    if forall|k: int| 0 <= k < answers@.len() ==> #[trigger] answers@[k] == 0 {
        if answers@.len() == 1 {
            records_are_mouse_records(wsid, 1);
        } else if answers@.len() == 2 {
            records_are_mouse_records(wsid, 2);
        }
    }
}

/// Whether a record has the mouse pressed (1) or released (2) in a window: 256
/// bytes, of which the fifth gives the length, the ninth what the mouse does, 16
/// are set for the place, one is a mark, and four name the window from the lowest
/// byte on.
pub open spec fn is_mouse_record(record: Seq<u8>, wsid: WindowServerId, kind: u8) -> bool {
    &&& record.len() == 256
    &&& record[4] == 248
    &&& record[8] == kind
    &&& forall|i: int| 32 <= i < 48 ==> #[trigger] record[i] == 255
    &&& record[58] == 16
    &&& record[60] + 256 * record[61] + 65536 * record[62] + 16777216 * record[63] == wsid.0
    &&& forall|i: int|
        0 <= i < 256 && i != 4 && i != 8 && !(32 <= i < 48) && i != 58 && !(60 <= i < 64)
            ==> #[trigger] record[i] == 0
}

proof fn records_are_mouse_records(wsid: WindowServerId, kind: u8)
    ensures
        is_mouse_record(event_record(wsid, kind), wsid, kind),
{
    let n = wsid.0;
    let record = event_record(wsid, kind);
    assert(record[60] == n % 0x100);
    assert(record[61] == n / 0x100 % 0x100);
    assert(record[62] == n / 0x1_0000 % 0x100);
    assert(record[63] == n / 0x100_0000);
}

/// A connection watches a window once more after each time it is added, and once
/// less after each time it is removed or gone, if it was watched. The list to
/// subscribe to is in ascending order and holds each window as often as it is
/// watched. Other windows are left alone.
pub proof fn connections_count_their_windows(
    connection: &mut SkylightConnection,
    wsid: WindowServerId,
    added: WindowList,
    other: u32,
)
    requires
        call_ensures(SkylightConnection::add_window, (connection, wsid), added),
    ensures
        ({
            let before = old(connection).windows();
            let after = final(connection).windows();
            &&& after.count(wsid.0) == before.count(wsid.0) + 1
            &&& other != wsid.0 ==> after.count(other) == before.count(other)
            &&& added.windows@.to_multiset().count(other) == after.count(other)
        }),
        added.count == added.windows@.len() as i32,
        forall|i: int, j: int|
            0 <= i <= j < added.windows@.len() ==> added.windows@[i] <= added.windows@[j],
{
    broadcast use vstd::multiset::group_multiset_axioms;

}

/// Removing a window takes it away once, if it was watched, and leaves all others
/// alone. The list to subscribe to follows.
pub proof fn removed_windows_are_watched_once_less(
    connection: &mut SkylightConnection,
    wsid: WindowServerId,
    left: WindowList,
    other: u32,
)
    requires
        call_ensures(SkylightConnection::remove_window, (connection, wsid), left),
    ensures
        ({
            let before = old(connection).windows();
            let after = final(connection).windows();
            &&& before.count(wsid.0) > 0 ==> after.count(wsid.0) == before.count(wsid.0) - 1
            &&& before.count(wsid.0) == 0 ==> after.count(wsid.0) == 0
            &&& other != wsid.0 ==> after.count(other) == before.count(other)
            &&& left.windows@.to_multiset().count(other) == after.count(other)
        }),
        left.count == left.windows@.len() as i32,
        forall|i: int, j: int|
            0 <= i <= j < left.windows@.len() ==> left.windows@[i] <= left.windows@[j],
{
    broadcast use vstd::multiset::group_multiset_axioms;

}

/// A window that is gone is watched once less, if it was watched, and all others
/// are left alone.
pub proof fn lost_windows_are_watched_once_less(
    connection: &mut SkylightConnection,
    wsid: WindowServerId,
    nothing: (),
    other: u32,
)
    requires
        call_ensures(SkylightConnection::on_window_destroyed, (connection, wsid), nothing),
    ensures
        ({
            let before = old(connection).windows();
            let after = final(connection).windows();
            &&& before.count(wsid.0) > 0 ==> after.count(wsid.0) == before.count(wsid.0) - 1
            &&& before.count(wsid.0) == 0 ==> after.count(wsid.0) == 0
            &&& other != wsid.0 ==> after.count(other) == before.count(other)
        }),
{
    broadcast use vstd::multiset::group_multiset_axioms;

}

/// A connection watches nothing at first.
pub proof fn connections_start_without_windows(connection: SkylightConnection, id: u32)
    requires
        call_ensures(SkylightConnection::new, (), connection),
    ensures
        connection.windows().count(id) == 0,
{
    broadcast use vstd::multiset::group_multiset_axioms;

}

} // verus!
