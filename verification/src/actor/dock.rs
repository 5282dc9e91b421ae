//! Watches Dock notifications for expose (mission control) events.

use vstd::prelude::*;

use crate::actor::space_manager;
use crate::sys::app::pid_t;
use crate::text::same_text;

verus! {

/// The bundle that the Dock runs from.
pub const DOCK_BUNDLE_IDENTIFIER: &'static str = "com.apple.dock";

/// Sent when the windows go back to their places.
#[allow(non_upper_case_globals)]
pub const kAXExposeExit: &'static str = "AXExposeExit";

/// Sent when all windows are shown.
#[allow(non_upper_case_globals)]
pub const kAXExposeShowAllWindows: &'static str = "AXExposeShowAllWindows";

/// Sent when the windows of the front application are shown.
#[allow(non_upper_case_globals)]
pub const kAXExposeShowFrontWindows: &'static str = "AXExposeShowFrontWindows";

/// Sent when the desktop is shown.
#[allow(non_upper_case_globals)]
pub const kAXExposeShowDesktop: &'static str = "AXExposeShowDesktop";

/// Whether a notification says that windows left their places.
pub open spec fn opens_expose(notif: Seq<char>) -> bool {
    notif == kAXExposeShowAllWindows@ || notif == kAXExposeShowFrontWindows@ || notif
        == kAXExposeShowDesktop@
}

/// What the space manager is told of a notification: nothing of one that is not
/// known.
pub open spec fn expose_event(notif: Seq<char>) -> Option<space_manager::EventView> {
    if opens_expose(notif) {
        Some(space_manager::EventView::ExposeActive(true))
    } else if notif == kAXExposeExit@ {
        Some(space_manager::EventView::ExposeActive(false))
    } else {
        None
    }
}

/// Takes in a notification and returns what the space manager is told.
pub fn handle_notification(notif: &str) -> (event: Option<space_manager::Event>)
    ensures
        match event {
            Some(event) => expose_event(notif@) == Some(event@),
            None => expose_event(notif@) is None,
        },
{
    if same_text(notif, kAXExposeShowAllWindows) || same_text(notif, kAXExposeShowFrontWindows)
        || same_text(notif, kAXExposeShowDesktop) {
        Some(space_manager::Event::ExposeActive(true))
    } else if same_text(notif, kAXExposeExit) {
        Some(space_manager::Event::ExposeActive(false))
    } else {
        None
    }
}

/// The notifications that are subscribed to, in their order.
pub open spec fn notifications() -> Seq<Seq<char>> {
    seq![
        kAXExposeExit@,
        kAXExposeShowAllWindows@,
        kAXExposeShowFrontWindows@,
        kAXExposeShowDesktop@,
    ]
}

/// How many notifications are subscribed to.
pub const NOTIFICATION_COUNT: usize = 4;

fn notification(i: usize) -> (name: &'static str)
    requires
        i < NOTIFICATION_COUNT,
    ensures
        name@ == notifications()[i as int],
{
    if i == 0 {
        kAXExposeExit
    } else if i == 1 {
        kAXExposeShowAllWindows
    } else if i == 2 {
        kAXExposeShowFrontWindows
    } else {
        kAXExposeShowDesktop
    }
}

/// Why the Dock cannot be watched.
#[derive(Debug)]
pub enum DockError {
    /// There is not exactly one Dock, but this many.
    Instances(usize),
    /// No observer could be made.
    Observer,
    /// The observer did not take this notification.
    Notification(String),
}

/// What a [`DockError`] says.
pub enum DockErrorView {
    Instances(nat),
    Observer,
    Notification(Seq<char>),
}

impl View for DockError {
    type V = DockErrorView;

    open spec fn view(&self) -> DockErrorView {
        match *self {
            DockError::Instances(n) => DockErrorView::Instances(n as nat),
            DockError::Observer => DockErrorView::Observer,
            DockError::Notification(name) => DockErrorView::Notification(name@),
        }
    }
}

/// What comes next when the Dock is to be watched.
#[derive(Debug)]
pub enum DockStep {
    /// Make an observer for the process.
    Observe(pid_t),
    /// Subscribe to a notification of the process.
    AddNotification(pid_t, String),
    /// The process is watched.
    Watching(pid_t),
    Failed(DockError),
}

/// What a [`DockStep`] says.
pub enum DockStepView {
    Observe(pid_t),
    AddNotification(pid_t, Seq<char>),
    Watching(pid_t),
    Failed(DockErrorView),
}

impl View for DockStep {
    type V = DockStepView;

    open spec fn view(&self) -> DockStepView {
        match *self {
            DockStep::Observe(pid) => DockStepView::Observe(pid),
            DockStep::AddNotification(pid, name) => DockStepView::AddNotification(pid, name@),
            DockStep::Watching(pid) => DockStepView::Watching(pid),
            DockStep::Failed(error) => DockStepView::Failed(error@),
        }
    }
}

/// The first step that failed.
pub open spec fn first_failure(answers: Seq<bool>) -> int
    decreases answers.len(),
{
    if answers.len() == 0 || !answers[0] {
        0
    } else {
        1 + first_failure(answers.drop_first())
    }
}

/// What comes after steps that worked or not as `answers` say, if `pids` are
/// the Docks that run: first the observer, then each notification in turn. The
/// first failure ends it all.
pub open spec fn dock_step(pids: Seq<pid_t>, answers: Seq<bool>) -> DockStepView {
    let done = first_failure(answers);
    if pids.len() != 1 {
        DockStepView::Failed(DockErrorView::Instances(pids.len()))
    } else if done < answers.len() && done == 0 {
        DockStepView::Failed(DockErrorView::Observer)
    } else if done < answers.len() && done <= NOTIFICATION_COUNT {
        DockStepView::Failed(DockErrorView::Notification(notifications()[done - 1]))
    } else if done == 0 {
        DockStepView::Observe(pids[0])
    } else if done <= NOTIFICATION_COUNT {
        DockStepView::AddNotification(pids[0], notifications()[done - 1])
    } else {
        DockStepView::Watching(pids[0])
    }
}

proof fn first_failure_is_first(answers: Seq<bool>)
    ensures
        0 <= first_failure(answers) <= answers.len(),
        forall|i: int| 0 <= i < first_failure(answers) ==> answers[i],
        first_failure(answers) < answers.len() ==> !answers[first_failure(answers)],
    decreases answers.len(),
{
    if answers.len() == 0 || !answers[0] {
    } else {
        let rest = answers.drop_first();
        first_failure_is_first(rest);
        assert forall|i: int| 0 <= i < first_failure(answers) implies answers[i] by {
            if i > 0 {
                assert(rest[i - 1]);
            }
        }
    }
}

/// The connection to the Dock, if there is one.
#[derive(Debug)]
pub struct Dock {
    observed: Option<pid_t>,
}

impl Dock {
    /// The process that is watched.
    pub closed spec fn observed(self) -> Option<pid_t> {
        self.observed
    }

    /// The Dock, watched or not as the last step of `init` says.
    pub fn new(step: &DockStep) -> (dock: Dock)
        ensures
            dock.observed() == (match step@ {
                DockStepView::Watching(pid) => Some(pid),
                _ => None,
            }),
    {
        match step {
            DockStep::Watching(pid) => Dock { observed: Some(*pid) },
            _ => Dock { observed: None },
        }
    }

    /// The process that is watched.
    pub fn process(&self) -> (pid: Option<pid_t>)
        ensures
            pid == self.observed(),
    {
        self.observed
    }

    /// Says what to do next to watch the Dock, if `pids` are the Docks that
    /// run, after steps that worked or not as `answers` say.
    pub fn init(pids: &Vec<pid_t>, answers: &Vec<bool>) -> (step: DockStep)
        ensures
            step@ == dock_step(pids@, answers@),
    {
        if pids.len() != 1 {
            return DockStep::Failed(DockError::Instances(pids.len()));
        }
        let pid: pid_t = pids[0];
        let mut done: usize = 0;
        while done < answers.len() && answers[done]
            invariant
                done <= answers@.len(),
                forall|i: int| 0 <= i < done ==> answers@[i],
            decreases answers@.len() - done,
        {
            done = done + 1;
        }
        proof {
            first_failure_is_first(answers@);
            let first = first_failure(answers@);
            if first < done {
                assert(answers@[first]);
            } else if done < first {
                assert(answers@[done as int]);
            }
        }
        if done < answers.len() && done == 0 {
            DockStep::Failed(DockError::Observer)
        } else if done < answers.len() && done <= NOTIFICATION_COUNT {
            DockStep::Failed(DockError::Notification(notification(done - 1).to_owned()))
        } else if done == 0 {
            DockStep::Observe(pid)
        } else if done <= NOTIFICATION_COUNT {
            DockStep::AddNotification(pid, notification(done - 1).to_owned())
        } else {
            DockStep::Watching(pid)
        }
    }
}

/// The space manager is told of every notification that is subscribed to:
/// leaving is told apart from showing windows.
pub proof fn subscribed_notifications_are_known(i: int)
    requires
        0 <= i < NOTIFICATION_COUNT,
    ensures
        expose_event(notifications()[i]) == Some(space_manager::EventView::ExposeActive(i != 0)),
        notifications().len() == NOTIFICATION_COUNT,
{
    reveal_strlit("AXExposeExit");
    reveal_strlit("AXExposeShowAllWindows");
    reveal_strlit("AXExposeShowFrontWindows");
    reveal_strlit("AXExposeShowDesktop");
    assert(kAXExposeExit@.len() == 12);
    assert(kAXExposeShowAllWindows@.len() == 22);
    assert(kAXExposeShowFrontWindows@.len() == 24);
    assert(kAXExposeShowDesktop@.len() == 19);
}

/// A notification that is known is one that is subscribed to.
pub proof fn known_notifications_are_subscribed(notif: Seq<char>)
    requires
        expose_event(notif) is Some,
    ensures
        notifications().contains(notif),
{
    let all = notifications();
    if notif == kAXExposeExit@ {
        assert(all[0] == notif);
    } else if notif == kAXExposeShowAllWindows@ {
        assert(all[1] == notif);
    } else if notif == kAXExposeShowFrontWindows@ {
        assert(all[2] == notif);
    } else {
        assert(all[3] == notif);
    }
}

/// Mission Control is up once the Dock shows all windows, those of the front
/// application or the desktop, and gone once it leaves that. Nothing is made of
/// any other notification.
pub proof fn the_dock_tells_of_mission_control(notif: &str, event: Option<space_manager::Event>)
    requires
        call_ensures(handle_notification, (notif,), event),
    ensures
        notif@ == "AXExposeShowAllWindows"@ || notif@ == "AXExposeShowFrontWindows"@ || notif@
            == "AXExposeShowDesktop"@ ==> event == Some(space_manager::Event::ExposeActive(true)),
        notif@ == "AXExposeExit"@ ==> event == Some(space_manager::Event::ExposeActive(false)),
        event is Some ==> notif@ == "AXExposeShowAllWindows"@ || notif@
            == "AXExposeShowFrontWindows"@ || notif@ == "AXExposeShowDesktop"@ || notif@
            == "AXExposeExit"@,
{
    reveal_strlit("AXExposeExit");
    reveal_strlit("AXExposeShowAllWindows");
    reveal_strlit("AXExposeShowFrontWindows");
    reveal_strlit("AXExposeShowDesktop");
    assert("AXExposeExit"@.len() == 12);
    assert("AXExposeShowAllWindows"@.len() == 22);
    assert("AXExposeShowFrontWindows"@.len() == 24);
    assert("AXExposeShowDesktop"@.len() == 19);
}

proof fn failures_are_counted(answers: Seq<bool>, n: int)
    requires
        0 <= n <= answers.len(),
        forall|i: int| 0 <= i < n ==> answers[i],
        n < answers.len() ==> !answers[n],
    ensures
        first_failure(answers) == n,
{
    first_failure_is_first(answers);
    let first = first_failure(answers);
    if first < n {
        assert(answers[first]);
    } else if n < first {
        assert(answers[n]);
    }
}

/// Watching the Dock takes one process: otherwise it fails, with how many there
/// are. As long as all steps worked, the observer comes first and then one
/// notification after the other, and the process is watched after all four.
pub proof fn the_dock_is_watched_step_by_step(
    pids: Vec<pid_t>,
    answers: Vec<bool>,
    step: DockStep,
)
    requires
        call_ensures(Dock::init, (&pids, &answers), step),
        forall|i: int| 0 <= i < answers@.len() ==> answers@[i],
    ensures
        ({
            let n = answers@.len();
            &&& pids@.len() != 1 ==> {
                &&& step matches DockStep::Failed(DockError::Instances(count))
                &&& count == pids@.len()
            }
            &&& pids@.len() == 1 && n == 0 ==> step == DockStep::Observe(pids@[0])
            &&& pids@.len() == 1 && 1 <= n <= 4 ==> {
                &&& step matches DockStep::AddNotification(pid, name)
                &&& pid == pids@[0]
                &&& n == 1 ==> name@ == "AXExposeExit"@
                &&& n == 2 ==> name@ == "AXExposeShowAllWindows"@
                &&& n == 3 ==> name@ == "AXExposeShowFrontWindows"@
                &&& n == 4 ==> name@ == "AXExposeShowDesktop"@
            }
            &&& pids@.len() == 1 && n > 4 ==> step == DockStep::Watching(pids@[0])
        }),
{
    failures_are_counted(answers@, answers@.len() as int);
}

/// The first step that does not work ends it: it is the observer, or the
/// notification that was asked for at that step.
pub proof fn a_failed_step_ends_the_watch(
    pids: Vec<pid_t>,
    answers: Vec<bool>,
    step: DockStep,
    n: int,
)
    requires
        call_ensures(Dock::init, (&pids, &answers), step),
        pids@.len() == 1,
        0 <= n < answers@.len(),
        n <= 4,
        !answers@[n],
        forall|i: int| 0 <= i < n ==> answers@[i],
    ensures
        n == 0 ==> step == DockStep::Failed(DockError::Observer),
        n > 0 ==> {
            &&& step matches DockStep::Failed(DockError::Notification(name))
            &&& n == 1 ==> name@ == "AXExposeExit"@
            &&& n == 2 ==> name@ == "AXExposeShowAllWindows"@
            &&& n == 3 ==> name@ == "AXExposeShowFrontWindows"@
            &&& n == 4 ==> name@ == "AXExposeShowDesktop"@
        },
{
    failures_are_counted(answers@, n);
}

/// The Dock is connected exactly to the process that is watched.
pub proof fn a_watched_dock_is_connected(step: DockStep, dock: Dock, pid: Option<pid_t>)
    requires
        call_ensures(Dock::new, (&step,), dock),
        call_ensures(Dock::process, (&dock,), pid),
    ensures
        step matches DockStep::Watching(watched) ==> pid == Some(watched),
        !(step is Watching) ==> pid is None,
{
}

} // verus!
