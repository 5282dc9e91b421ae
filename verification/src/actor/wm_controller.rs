//! The WM Controller handles hotkey registration, app launching, and command
//! dispatch. Space and screen enablement state lives in the space manager.

use std::sync::Arc;

use vstd::prelude::*;

use crate::actor::{mouse, reactor, space_manager, status};
use crate::config::share;
use crate::sys::app::{pid_t, AppInfo, AppInfoView};
use crate::sys::screen::ScreenId;
use crate::text::{pieces, pieces_not_empty, same_text, split};

verus! {

/// What the controller is told.
#[derive(Debug)]
pub enum WmEvent {
    /// Sent by the notification center during startup.
    AppEventsRegistered,
    AppLaunch(pid_t, AppInfo),
    AppGloballyActivated(pid_t),
    AppGloballyDeactivated(pid_t),
    AppTerminated(pid_t),
    Command(WmCommand),
    ConfigUpdated(Arc<crate::config::Config>),
    /// Sent by the space manager to register or unregister hotkeys.
    HotkeysActive(bool),
}

/// A command that a hotkey or the command line can give.
#[derive(Debug, Clone)]
pub enum WmCommand {
    Wm(WmCmd),
    ReactorCommand(reactor::Command),
}

/// A command to the controller itself.
#[derive(Debug, Clone)]
pub enum WmCmd {
    ToggleGlobalEnabled,
    ToggleSpaceActivated,
    Exec(ExecCmd),
}

/// A program to run, with its arguments.
#[derive(Debug, Clone)]
pub enum ExecCmd {
    /// Words separated by single spaces.
    String(String),
    Array(Vec<String>),
    Options { cmd: Vec<String>, unsafe_privileged: bool },
}

/// A program to run, in the one form that all others stand for.
#[derive(Debug, PartialEq, Eq)]
pub struct NormalizedExecCmd {
    /// The program and its arguments.
    pub cmd_args: Vec<String>,
    /// Whether the command asks to keep the special privileges of the window
    /// manager. This is only carried along: no decision here depends on it.
    pub unsafe_privileged: bool,
}

/// What a [`NormalizedExecCmd`] says.
pub struct NormalizedExecCmdView {
    pub cmd_args: Seq<Seq<char>>,
    pub unsafe_privileged: bool,
}

impl View for NormalizedExecCmd {
    type V = NormalizedExecCmdView;

    open spec fn view(&self) -> NormalizedExecCmdView {
        NormalizedExecCmdView {
            cmd_args: self.cmd_args.deep_view(),
            unsafe_privileged: self.unsafe_privileged,
        }
    }
}

fn copies(texts: &Vec<String>) -> (same: Vec<String>)
    ensures
        same.deep_view() == texts.deep_view(),
{
    let mut same: Vec<String> = Vec::new();
    let mut i: usize = 0;
    while i < texts.len()
        invariant
            i <= texts@.len(),
            same@.len() == i,
            forall|j: int| 0 <= j < i ==> (#[trigger] same@[j])@ == texts@[j]@,
        decreases texts@.len() - i,
    {
        same.push(texts[i].clone());
        i = i + 1;
    }
    assert(same.deep_view() =~= texts.deep_view());
    same
}

impl ExecCmd {
    /// The program and its arguments.
    pub open spec fn args(self) -> Seq<Seq<char>> {
        match self {
            ExecCmd::String(s) => pieces(s@, ' '),
            ExecCmd::Array(args) => args.deep_view(),
            ExecCmd::Options { cmd, .. } => cmd.deep_view(),
        }
    }

    /// The command in normal form. Only a command with options can ask to keep
    /// privileges.
    pub open spec fn normal(self) -> NormalizedExecCmdView {
        NormalizedExecCmdView {
            cmd_args: self.args(),
            unsafe_privileged: match self {
                ExecCmd::Options { unsafe_privileged, .. } => unsafe_privileged,
                _ => false,
            },
        }
    }

    /// The program and its arguments.
    pub fn as_array(&self) -> (args: Vec<String>)
        ensures
            args.deep_view() == self.args(),
    {
        match self {
            ExecCmd::String(s) => split(s.as_str(), ' '),
            ExecCmd::Array(args) => copies(args),
            ExecCmd::Options { cmd, .. } => copies(cmd),
        }
    }

    /// The command in normal form.
    pub fn normalize(self) -> (normalized: NormalizedExecCmd)
        ensures
            normalized@ == self.normal(),
    {
        match self {
            ExecCmd::String(s) => NormalizedExecCmd {
                cmd_args: split(s.as_str(), ' '),
                unsafe_privileged: false,
            },
            ExecCmd::Array(cmd_args) => NormalizedExecCmd { cmd_args, unsafe_privileged: false },
            ExecCmd::Options { cmd, unsafe_privileged } => NormalizedExecCmd {
                cmd_args: cmd,
                unsafe_privileged,
            },
        }
    }
}

/// What becomes of a command to run a program.
#[derive(Debug)]
pub enum ExecPlan {
    /// Programs are not run, out of caution.
    Disabled,
    /// There is no program to run.
    EmptyArguments,
    Run(NormalizedExecCmd),
}

/// What an [`ExecPlan`] says.
pub enum ExecPlanView {
    Disabled,
    EmptyArguments,
    Run(NormalizedExecCmdView),
}

impl View for ExecPlan {
    type V = ExecPlanView;

    open spec fn view(&self) -> ExecPlanView {
        match *self {
            ExecPlan::Disabled => ExecPlanView::Disabled,
            ExecPlan::EmptyArguments => ExecPlanView::EmptyArguments,
            ExecPlan::Run(normalized) => ExecPlanView::Run(normalized@),
        }
    }
}

/// What becomes of `cmd`, where programs are only run if that is enabled.
pub open spec fn exec_plan(cmd: ExecCmd, enabled: bool) -> ExecPlanView {
    if !enabled {
        ExecPlanView::Disabled
    } else if cmd.args().len() == 0 {
        ExecPlanView::EmptyArguments
    } else {
        ExecPlanView::Run(cmd.normal())
    }
}

/// Decides what becomes of a command to run a program.
pub fn exec_cmd(cmd: ExecCmd, enabled: bool) -> (plan: ExecPlan)
    ensures
        plan@ == exec_plan(cmd, enabled),
{
    if !enabled {
        return ExecPlan::Disabled;
    }
    let normalized = cmd.normalize();
    assert(normalized.cmd_args@.len() == normalized@.cmd_args.len());
    if normalized.cmd_args.len() == 0 {
        ExecPlan::EmptyArguments
    } else {
        ExecPlan::Run(normalized)
    }
}

/// A command given as one text always names a program, if only an empty one.
pub proof fn text_commands_are_never_empty(s: String, enabled: bool)
    ensures
        !(exec_plan(ExecCmd::String(s), enabled) is EmptyArguments),
{
    pieces_not_empty(s@, ' ');
}

/// Settings that are fixed when the window manager is started, and the
/// configuration that is not.
pub struct Config {
    /// Only enables the WM on the starting space. On all other spaces, hotkeys are disabled.
    ///
    /// This can be useful for development.
    pub one_space: bool,
    /// Where the layout is saved to.
    pub restore_file: String,
    pub config: Arc<crate::config::Config>,
}

/// What the controller has done.
#[derive(Debug)]
pub enum Action {
    SpaceManager(space_manager::Event),
    Mouse(mouse::Request),
    Status(status::Event),
    /// Start a thread for an application. With `startup`, the thread counts
    /// among those that have to be ready before startup is complete.
    SpawnApp { pid: pid_t, info: AppInfo, startup: bool },
    /// Register all hotkeys of a configuration, and say whether that worked.
    RegisterHotkeys(Arc<crate::config::Config>),
    /// Give up all hotkeys.
    UnregisterHotkeys,
    Exec(ExecPlan),
}

/// What an [`Action`] says.
pub enum ActionView {
    SpaceManager(space_manager::EventView),
    Mouse(mouse::RequestView),
    Status(status::EventView),
    SpawnApp { pid: pid_t, info: AppInfoView, startup: bool },
    RegisterHotkeys(Arc<crate::config::Config>),
    UnregisterHotkeys,
    Exec(ExecPlanView),
}

impl View for Action {
    type V = ActionView;

    open spec fn view(&self) -> ActionView {
        match *self {
            Action::SpaceManager(event) => ActionView::SpaceManager(event@),
            Action::Mouse(request) => ActionView::Mouse(request@),
            Action::Status(event) => ActionView::Status(event@),
            Action::SpawnApp { pid, info, startup } => {
                ActionView::SpawnApp { pid, info: info@, startup }
            },
            Action::RegisterHotkeys(config) => ActionView::RegisterHotkeys(config),
            Action::UnregisterHotkeys => ActionView::UnregisterHotkeys,
            Action::Exec(plan) => ActionView::Exec(plan@),
        }
    }
}

/// What the actions of a list say.
pub open spec fn told(actions: Seq<Action>) -> Seq<ActionView> {
    actions.map_values(|a: Action| a@)
}

/// What the system says when an event comes in.
#[derive(Debug)]
pub struct Reading {
    /// The screen that has the focus, if there is one.
    pub focused_screen: Option<ScreenId>,
    /// The applications that run. Only startup asks for them.
    pub running_apps: Vec<(pid_t, AppInfo)>,
}

/// The state of the controller.
pub struct ControllerState {
    /// Whether only the starting space is managed.
    pub one_space: bool,
    /// Where the layout is saved to.
    pub restore_file: Seq<char>,
    pub config: Arc<crate::config::Config>,
    /// Whether the applications that run at startup are still to come.
    pub startup_pending: bool,
    /// The process of the login window.
    pub login_window_pid: Option<pid_t>,
    /// Whether hotkeys are registered.
    pub hotkeys: bool,
    /// Whether commands may run programs.
    pub exec_enabled: bool,
}

/// Whether an application is the login window.
pub open spec fn is_login_window(info: AppInfoView) -> bool {
    info.bundle_id == Some("com.apple.loginwindow"@)
}

/// The process of the login window, once all of `apps` are known.
pub open spec fn login_pid_after(before: Option<pid_t>, apps: Seq<(pid_t, AppInfo)>) -> Option<
    pid_t,
>
    decreases apps.len(),
{
    if apps.len() == 0 {
        before
    } else if is_login_window(apps.last().1@) {
        Some(apps.last().0)
    } else {
        login_pid_after(before, apps.drop_last())
    }
}

/// A thread for each of `apps`.
pub open spec fn spawns(apps: Seq<(pid_t, AppInfo)>, startup: bool) -> Seq<ActionView> {
    apps.map_values(
        |app: (pid_t, AppInfo)| ActionView::SpawnApp { pid: app.0, info: app.1@, startup },
    )
}

/// An event passed on to the reactor.
pub open spec fn to_reactor(event: reactor::EventView) -> ActionView {
    ActionView::SpaceManager(space_manager::EventView::ReactorEvent(event))
}

impl ControllerState {
    /// The state after `event`, before it is known whether hotkeys that are to
    /// be registered could be.
    #[verifier::opaque]
    pub open spec fn after(self, event: WmEvent, reading: Reading) -> ControllerState {
        match event {
            WmEvent::AppEventsRegistered => ControllerState {
                startup_pending: false,
                login_window_pid: login_pid_after(
                    self.login_window_pid,
                    reading.running_apps@,
                ),
                ..self
            },
            WmEvent::AppLaunch(pid, info) => ControllerState {
                login_window_pid: if is_login_window(info@) {
                    Some(pid)
                } else {
                    self.login_window_pid
                },
                ..self
            },
            WmEvent::ConfigUpdated(config) => ControllerState { config, hotkeys: false, ..self },
            WmEvent::HotkeysActive(active) => if active {
                self
            } else {
                ControllerState { hotkeys: false, ..self }
            },
            _ => self,
        }
    }

    /// What `event` makes the controller do, in its order.
    #[verifier::opaque]
    pub open spec fn does(self, event: WmEvent, reading: Reading) -> Seq<ActionView> {
        match event {
            WmEvent::AppEventsRegistered => spawns(reading.running_apps@, true),
            WmEvent::AppLaunch(pid, info) => seq![
                ActionView::SpawnApp { pid, info: info@, startup: false },
            ],
            WmEvent::AppGloballyActivated(pid) => seq![
                ActionView::Mouse(mouse::RequestView::EnforceHidden),
            ] + (match reading.focused_screen {
                Some(screen) => seq![
                    ActionView::SpaceManager(space_manager::EventView::FocusedScreenChanged(screen)),
                ],
                None => seq![],
            }) + (if self.login_window_pid == Some(pid) {
                seq![ActionView::SpaceManager(space_manager::EventView::LoginWindowActive(true))]
            } else {
                seq![]
            }) + seq![to_reactor(reactor::EventView::ApplicationGloballyActivated(pid))],
            WmEvent::AppGloballyDeactivated(pid) => (if self.login_window_pid == Some(pid) {
                seq![ActionView::SpaceManager(space_manager::EventView::LoginWindowActive(false))]
            } else {
                seq![]
            }) + seq![to_reactor(reactor::EventView::ApplicationGloballyDeactivated(pid))],
            WmEvent::AppTerminated(pid) => seq![
                to_reactor(reactor::EventView::ApplicationTerminated(pid)),
            ],
            WmEvent::Command(WmCommand::Wm(WmCmd::ToggleSpaceActivated)) => {
                match reading.focused_screen {
                    Some(screen) => seq![
                        ActionView::SpaceManager(space_manager::EventView::ToggleSpace(screen)),
                    ],
                    None => seq![],
                }
            },
            WmEvent::Command(WmCommand::Wm(WmCmd::ToggleGlobalEnabled)) => seq![
                ActionView::SpaceManager(space_manager::EventView::ToggleGlobalEnabled),
            ],
            WmEvent::Command(WmCommand::Wm(WmCmd::Exec(cmd))) => seq![
                ActionView::Exec(exec_plan(cmd, self.exec_enabled)),
            ],
            WmEvent::Command(WmCommand::ReactorCommand(cmd)) => seq![
                ActionView::SpaceManager(space_manager::EventView::ReactorCommand(cmd)),
            ],
            WmEvent::ConfigUpdated(config) => seq![
                ActionView::Mouse(mouse::RequestView::ConfigUpdated(config)),
                ActionView::Status(status::EventView::ConfigUpdated(config)),
                ActionView::SpaceManager(space_manager::EventView::ConfigUpdated(config)),
            ] + self.drops_hotkeys(),
            WmEvent::HotkeysActive(active) => if !active {
                self.drops_hotkeys()
            } else if self.hotkeys {
                seq![]
            } else {
                seq![ActionView::RegisterHotkeys(self.config)]
            },
        }
    }

    /// How hotkeys are given up, if there are any.
    pub open spec fn drops_hotkeys(self) -> Seq<ActionView> {
        if self.hotkeys {
            seq![ActionView::UnregisterHotkeys]
        } else {
            seq![]
        }
    }
}

fn act(out: &mut Vec<Action>, action: Action)
    ensures
        told(final(out)@) == told(old(out)@).push(action@),
{
    out.push(action);
    assert(told(out@) =~= told(old(out)@).push(action@));
}

fn send_space_manager(out: &mut Vec<Action>, event: space_manager::Event)
    ensures
        told(final(out)@) == told(old(out)@).push(ActionView::SpaceManager(event@)),
{
    act(out, Action::SpaceManager(event));
}

fn send_reactor_event(out: &mut Vec<Action>, event: reactor::Event)
    ensures
        told(final(out)@) == told(old(out)@).push(to_reactor(event@)),
{
    act(out, Action::SpaceManager(space_manager::Event::ReactorEvent(event)));
}

/// What is sent once every application that ran at startup has reported.
pub fn startup_complete() -> (event: space_manager::Event)
    ensures
        event@ == space_manager::EventView::ReactorEvent(reactor::EventView::StartupComplete),
{
    space_manager::Event::ReactorEvent(reactor::Event::StartupComplete)
}

/// Handles hotkey registration, app launching, and command dispatch.
pub struct WmController {
    config: Config,
    startup_pending: bool,
    login_window_pid: Option<pid_t>,
    hotkeys: bool,
    exec_enabled: bool,
}

impl View for WmController {
    type V = ControllerState;

    closed spec fn view(&self) -> ControllerState {
        ControllerState {
            one_space: self.config.one_space,
            restore_file: self.config.restore_file@,
            config: self.config.config,
            startup_pending: self.startup_pending,
            login_window_pid: self.login_window_pid,
            hotkeys: self.hotkeys,
            exec_enabled: self.exec_enabled,
        }
    }
}

impl WmController {
    /// A controller that awaits startup.
    pub fn new(config: Config, exec_enabled: bool) -> (controller: WmController)
        ensures
            controller@ == (ControllerState {
                one_space: config.one_space,
                restore_file: config.restore_file@,
                config: config.config,
                startup_pending: true,
                login_window_pid: None,
                hotkeys: false,
                exec_enabled,
            }),
    {
        WmController {
            config,
            startup_pending: true,
            login_window_pid: None,
            hotkeys: false,
            exec_enabled,
        }
    }

    /// Whether the applications that run at startup are still to come.
    pub fn is_startup_pending(&self) -> (pending: bool)
        ensures
            pending == self@.startup_pending,
    {
        self.startup_pending
    }

    /// Takes in one event, with what the system says at the time, and returns
    /// what to do, in its order. Startup happens only once.
    pub fn handle_event(&mut self, event: WmEvent, reading: Reading) -> (actions: Vec<Action>)
        requires
            event is AppEventsRegistered ==> old(self)@.startup_pending,
        ensures
            final(self)@ == old(self)@.after(event, reading),
            told(actions@) == old(self)@.does(event, reading),
    {
        match event {
            WmEvent::AppEventsRegistered => self.on_app_events_registered(reading),
            WmEvent::AppLaunch(pid, info) => self.on_app_launch(pid, info, reading),
            WmEvent::AppGloballyActivated(pid) => self.on_app_activated(pid, reading),
            WmEvent::AppGloballyDeactivated(pid) => self.on_app_deactivated(pid, reading),
            WmEvent::AppTerminated(pid) => self.on_app_terminated(pid, reading),
            WmEvent::Command(command) => self.on_command(command, reading),
            WmEvent::ConfigUpdated(config) => self.on_config_updated(config, reading),
            WmEvent::HotkeysActive(active) => self.on_hotkeys_active(active, reading),
        }
    }

    fn on_app_events_registered(&mut self, reading: Reading) -> (actions: Vec<Action>)
        ensures
            final(self)@ == old(self)@.after(WmEvent::AppEventsRegistered, reading),
            told(actions@) == old(self)@.does(WmEvent::AppEventsRegistered, reading),
    {
        reveal(ControllerState::after);
        reveal(ControllerState::does);
        let mut out: Vec<Action> = Vec::new();
        self.startup_pending = false;
        self.start_apps(reading.running_apps, &mut out);
        assert(told(out@) =~= old(self)@.does(WmEvent::AppEventsRegistered, reading));
        out
    }

    fn on_app_launch(&mut self, pid: pid_t, info: AppInfo, reading: Reading) -> (actions: Vec<
        Action,
    >)
        ensures
            final(self)@ == old(self)@.after(WmEvent::AppLaunch(pid, info), reading),
            told(actions@) == old(self)@.does(WmEvent::AppLaunch(pid, info), reading),
    {
        reveal(ControllerState::after);
        reveal(ControllerState::does);
        let mut out: Vec<Action> = Vec::new();
        self.new_app(pid, info, false, &mut out);
        assert(told(out@) =~= old(self)@.does(WmEvent::AppLaunch(pid, info), reading));
        out
    }

    fn on_app_activated(&mut self, pid: pid_t, reading: Reading) -> (actions: Vec<Action>)
        ensures
            final(self)@ == old(self)@.after(WmEvent::AppGloballyActivated(pid), reading),
            told(actions@) == old(self)@.does(WmEvent::AppGloballyActivated(pid), reading),
    {
        reveal(ControllerState::after);
        reveal(ControllerState::does);
        let mut out: Vec<Action> = Vec::new();
        // Make sure the mouse cursor stays hidden after app switch.
        act(&mut out, Action::Mouse(mouse::Request::EnforceHidden));
        if let Some(screen) = reading.focused_screen {
            send_space_manager(&mut out, space_manager::Event::FocusedScreenChanged(screen));
        }
        if self.is_login_window_pid(pid) {
            send_space_manager(&mut out, space_manager::Event::LoginWindowActive(true));
        }
        send_reactor_event(&mut out, reactor::Event::ApplicationGloballyActivated(pid));
        assert(told(out@) =~= old(self)@.does(WmEvent::AppGloballyActivated(pid), reading));
        out
    }

    fn on_app_deactivated(&mut self, pid: pid_t, reading: Reading) -> (actions: Vec<Action>)
        ensures
            final(self)@ == old(self)@.after(WmEvent::AppGloballyDeactivated(pid), reading),
            told(actions@) == old(self)@.does(WmEvent::AppGloballyDeactivated(pid), reading),
    {
        reveal(ControllerState::after);
        reveal(ControllerState::does);
        let mut out: Vec<Action> = Vec::new();
        if self.is_login_window_pid(pid) {
            send_space_manager(&mut out, space_manager::Event::LoginWindowActive(false));
        }
        send_reactor_event(&mut out, reactor::Event::ApplicationGloballyDeactivated(pid));
        assert(told(out@) =~= old(self)@.does(WmEvent::AppGloballyDeactivated(pid), reading));
        out
    }

    fn on_app_terminated(&mut self, pid: pid_t, reading: Reading) -> (actions: Vec<Action>)
        ensures
            final(self)@ == old(self)@.after(WmEvent::AppTerminated(pid), reading),
            told(actions@) == old(self)@.does(WmEvent::AppTerminated(pid), reading),
    {
        reveal(ControllerState::after);
        reveal(ControllerState::does);
        let mut out: Vec<Action> = Vec::new();
        send_reactor_event(&mut out, reactor::Event::ApplicationTerminated(pid));
        assert(told(out@) =~= old(self)@.does(WmEvent::AppTerminated(pid), reading));
        out
    }

    fn on_command(&mut self, command: WmCommand, reading: Reading) -> (actions: Vec<Action>)
        ensures
            final(self)@ == old(self)@.after(WmEvent::Command(command), reading),
            told(actions@) == old(self)@.does(WmEvent::Command(command), reading),
    {
        reveal(ControllerState::after);
        reveal(ControllerState::does);
        let mut out: Vec<Action> = Vec::new();
        match command {
            WmCommand::Wm(WmCmd::ToggleSpaceActivated) => {
                if let Some(screen) = reading.focused_screen {
                    send_space_manager(&mut out, space_manager::Event::ToggleSpace(screen));
                }
            },
            WmCommand::Wm(WmCmd::ToggleGlobalEnabled) => {
                send_space_manager(&mut out, space_manager::Event::ToggleGlobalEnabled);
            },
            WmCommand::Wm(WmCmd::Exec(cmd)) => {
                let plan = exec_cmd(cmd, self.exec_enabled);
                act(&mut out, Action::Exec(plan));
            },
            WmCommand::ReactorCommand(cmd) => {
                send_space_manager(&mut out, space_manager::Event::ReactorCommand(cmd));
            },
        }
        assert(told(out@) =~= old(self)@.does(WmEvent::Command(command), reading));
        out
    }

    fn on_config_updated(&mut self, config: Arc<crate::config::Config>, reading: Reading) -> (
    actions: Vec<Action>)
        ensures
            final(self)@ == old(self)@.after(WmEvent::ConfigUpdated(config), reading),
            told(actions@) == old(self)@.does(WmEvent::ConfigUpdated(config), reading),
    {
        reveal(ControllerState::after);
        reveal(ControllerState::does);
        let mut out: Vec<Action> = Vec::new();
        act(&mut out, Action::Mouse(mouse::Request::ConfigUpdated(share(&config))));
        act(&mut out, Action::Status(status::Event::ConfigUpdated(share(&config))));
        send_space_manager(&mut out, space_manager::Event::ConfigUpdated(share(&config)));
        self.config.config = config;
        // Hotkeys will be registered again when the space manager sends
        // HotkeysActive after it has taken in the configuration.
        self.unregister_hotkeys(&mut out);
        assert(told(out@) =~= old(self)@.does(WmEvent::ConfigUpdated(config), reading));
        out
    }

    fn on_hotkeys_active(&mut self, active: bool, reading: Reading) -> (actions: Vec<Action>)
        ensures
            final(self)@ == old(self)@.after(WmEvent::HotkeysActive(active), reading),
            told(actions@) == old(self)@.does(WmEvent::HotkeysActive(active), reading),
    {
        reveal(ControllerState::after);
        reveal(ControllerState::does);
        let mut out: Vec<Action> = Vec::new();
        if active {
            if !self.hotkeys {
                act(&mut out, Action::RegisterHotkeys(share(&self.config.config)));
            }
        } else {
            self.unregister_hotkeys(&mut out);
        }
        assert(told(out@) =~= old(self)@.does(WmEvent::HotkeysActive(active), reading));
        out
    }

    /// Takes note of whether hotkeys could be registered.
    pub fn hotkeys_registered(&mut self, registered: bool)
        ensures
            final(self)@ == (ControllerState { hotkeys: registered, ..old(self)@ }),
    {
        self.hotkeys = registered;
    }

    fn start_apps(&mut self, apps: Vec<(pid_t, AppInfo)>, out: &mut Vec<Action>)
        ensures
            final(self)@ == (ControllerState {
                login_window_pid: login_pid_after(old(self)@.login_window_pid, apps@),
                ..old(self)@
            }),
            told(final(out)@) == told(old(out)@) + spawns(apps@, true),
    {
        let mut rest = apps;
        let ghost mut done: int = 0;
        assert(apps@.take(0) =~= seq![]);
        assert(rest@ =~= apps@.skip(0));
        assert(told(out@) =~= told(old(out)@) + spawns(apps@.take(0), true));
        while rest.len() > 0
            invariant
                0 <= done,
                done + rest@.len() == apps@.len(),
                rest@ == apps@.skip(done),
                self@ == (ControllerState {
                    login_window_pid: login_pid_after(
                        old(self)@.login_window_pid,
                        apps@.take(done),
                    ),
                    ..old(self)@
                }),
                told(out@) == told(old(out)@) + spawns(apps@.take(done), true),
            decreases rest@.len(),
        {
            let ghost before = told(out@);
            let (pid, info) = rest.remove(0);
            assert((pid, info) == apps@[done]);
            self.new_app(pid, info, true, out);
            proof {
                assert(apps@.take(done + 1).drop_last() =~= apps@.take(done));
                assert(spawns(apps@.take(done + 1), true) =~= spawns(apps@.take(done), true).push(
                    ActionView::SpawnApp { pid, info: info@, startup: true },
                ));
                done = done + 1;
                assert(rest@ =~= apps@.skip(done));
                assert(told(out@) =~= told(old(out)@) + spawns(apps@.take(done), true));
            }
        }
        assert(apps@.take(done) =~= apps@);
    }

    fn new_app(&mut self, pid: pid_t, info: AppInfo, startup: bool, out: &mut Vec<Action>)
        ensures
            final(self)@ == (ControllerState {
                login_window_pid: if is_login_window(info@) {
                    Some(pid)
                } else {
                    old(self)@.login_window_pid
                },
                ..old(self)@
            }),
            told(final(out)@) == told(old(out)@).push(
                ActionView::SpawnApp { pid, info: info@, startup },
            ),
    {
        let login = match &info.bundle_id {
            Some(id) => same_text(id.as_str(), "com.apple.loginwindow"),
            None => false,
        };
        if login {
            self.login_window_pid = Some(pid);
        }
        act(out, Action::SpawnApp { pid, info, startup });
    }

    fn is_login_window_pid(&self, pid: pid_t) -> (yes: bool)
        ensures
            yes == (self@.login_window_pid == Some(pid)),
    {
        match self.login_window_pid {
            Some(login) => login == pid,
            None => false,
        }
    }

    fn unregister_hotkeys(&mut self, out: &mut Vec<Action>)
        ensures
            final(self)@ == (ControllerState { hotkeys: false, ..old(self)@ }),
            told(final(out)@) == told(old(out)@) + old(self)@.drops_hotkeys(),
    {
        if self.hotkeys {
            self.hotkeys = false;
            act(out, Action::UnregisterHotkeys);
        }
        assert(told(out@) =~= told(old(out)@) + old(self)@.drops_hotkeys());
    }
}

/// The space manager is told of the login window exactly when it is activated
/// or deactivated.
pub proof fn the_login_window_is_reported(
    state: ControllerState,
    pid: pid_t,
    reading: Reading,
    active: bool,
)
    ensures
        state.does(WmEvent::AppGloballyActivated(pid), reading).contains(
            ActionView::SpaceManager(space_manager::EventView::LoginWindowActive(active)),
        ) == (active && state.login_window_pid == Some(pid)),
        state.does(WmEvent::AppGloballyDeactivated(pid), reading).contains(
            ActionView::SpaceManager(space_manager::EventView::LoginWindowActive(active)),
        ) == (!active && state.login_window_pid == Some(pid)),
{
    reveal(ControllerState::does);
    let on = state.does(WmEvent::AppGloballyActivated(pid), reading);
    let off = state.does(WmEvent::AppGloballyDeactivated(pid), reading);
    if state.login_window_pid == Some(pid) {
        assert(on[on.len() - 2] == ActionView::SpaceManager(
            space_manager::EventView::LoginWindowActive(true),
        ));
        assert(off[0] == ActionView::SpaceManager(
            space_manager::EventView::LoginWindowActive(false),
        ));
    }
}

/// Events of applications always reach the reactor.
pub proof fn the_reactor_hears_of_applications(
    state: ControllerState,
    pid: pid_t,
    reading: Reading,
)
    ensures
        state.does(WmEvent::AppGloballyActivated(pid), reading).last() == to_reactor(
            reactor::EventView::ApplicationGloballyActivated(pid),
        ),
        state.does(WmEvent::AppGloballyDeactivated(pid), reading).last() == to_reactor(
            reactor::EventView::ApplicationGloballyDeactivated(pid),
        ),
        state.does(WmEvent::AppTerminated(pid), reading).last() == to_reactor(
            reactor::EventView::ApplicationTerminated(pid),
        ),
{
    reveal(ControllerState::does);
}

/// A new configuration drops all hotkeys, and those that are registered next
/// are the ones of that configuration.
pub proof fn a_new_configuration_brings_its_hotkeys(
    state: ControllerState,
    config: Arc<crate::config::Config>,
    one: Reading,
    other: Reading,
)
    ensures
        !state.after(WmEvent::ConfigUpdated(config), one).hotkeys,
        state.after(WmEvent::ConfigUpdated(config), one).does(WmEvent::HotkeysActive(true), other)
            == seq![ActionView::RegisterHotkeys(config)],
{
    reveal(ControllerState::after);
    reveal(ControllerState::does);
}

/// Hotkeys that are registered are not registered again.
pub proof fn hotkeys_are_registered_once(state: ControllerState, reading: Reading)
    requires
        state.hotkeys,
    ensures
        state.does(WmEvent::HotkeysActive(true), reading) == Seq::<ActionView>::empty(),
        state.after(WmEvent::HotkeysActive(true), reading) == state,
{
    reveal(ControllerState::after);
    reveal(ControllerState::does);
}

/// Only the applications that run at startup hold startup up.
pub proof fn only_startup_applications_hold_startup_up(
    state: ControllerState,
    event: WmEvent,
    reading: Reading,
    k: int,
)
    requires
        0 <= k < state.does(event, reading).len(),
    ensures
        state.does(event, reading)[k] matches ActionView::SpawnApp { startup, .. } ==> startup == (
        event is AppEventsRegistered),
{
    reveal(ControllerState::does);
}

proof fn told_one_by_one(actions: Seq<Action>)
    ensures
        told(actions).len() == actions.len(),
        forall|k: int| 0 <= k < actions.len() ==> told(actions)[k] == (#[trigger] actions[k])@,
{
}

/// Whether `action` starts a thread for an application.
pub open spec fn starts_thread(action: Action, pid: pid_t, info: AppInfo, startup: bool) -> bool {
    &&& action matches Action::SpawnApp { pid: told_pid, info: told_info, startup: told_startup }
    &&& told_pid == pid
    &&& told_info@ == info@
    &&& told_startup == startup
}

/// Whether an application calls itself the login window.
pub open spec fn calls_itself_login_window(info: AppInfo) -> bool {
    info.bundle_id matches Some(id) && id@ == "com.apple.loginwindow"@
}

/// A command for the reactor goes to the space manager as it came, in every state,
/// and nothing else is done.
pub proof fn reactor_commands_are_passed_on(
    controller: &mut WmController,
    command: reactor::Command,
    reading: Reading,
    actions: Vec<Action>,
)
    requires
        call_ensures(WmController::handle_event, (controller, WmEvent::Command(WmCommand::ReactorCommand(command)), reading), actions),
    ensures
        ({
            let before = old(controller)@;
            let after = final(controller)@;
            &&& after == before
            &&& actions@.len() == 1
            &&& actions@[0] == Action::SpaceManager(space_manager::Event::ReactorCommand(command))
        }),
{
    reveal(ControllerState::after);
    reveal(ControllerState::does);
    told_one_by_one(actions@);
}

/// The command to toggle the window manager goes to the space manager, in every
/// state.
pub proof fn the_global_toggle_is_passed_on(
    controller: &mut WmController,
    reading: Reading,
    actions: Vec<Action>,
)
    requires
        call_ensures(WmController::handle_event, (controller, WmEvent::Command(WmCommand::Wm(WmCmd::ToggleGlobalEnabled)), reading), actions),
    ensures
        ({
            let before = old(controller)@;
            let after = final(controller)@;
            &&& after == before
            &&& actions@.len() == 1
            &&& actions@[0] == Action::SpaceManager(space_manager::Event::ToggleGlobalEnabled)
        }),
{
    reveal(ControllerState::after);
    reveal(ControllerState::does);
    told_one_by_one(actions@);
}

/// The command to toggle a space goes to the space manager with the focused
/// screen, in every state; without such a screen nothing is done.
pub proof fn the_space_toggle_is_passed_on(
    controller: &mut WmController,
    reading: Reading,
    actions: Vec<Action>,
)
    requires
        call_ensures(WmController::handle_event, (controller, WmEvent::Command(WmCommand::Wm(WmCmd::ToggleSpaceActivated)), reading), actions),
    ensures
        ({
            let before = old(controller)@;
            let after = final(controller)@;
            &&& after == before
            &&& reading.focused_screen matches Some(screen) ==> {
                &&& actions@.len() == 1
                &&& actions@[0] == Action::SpaceManager(space_manager::Event::ToggleSpace(screen))
            }
            &&& reading.focused_screen is None ==> actions@.len() == 0
        }),
{
    reveal(ControllerState::after);
    reveal(ControllerState::does);
    told_one_by_one(actions@);
}

/// A program is run exactly where that is enabled and the command names one: a
/// text names what stands between its spaces, a list names itself, and only
/// options can ask to keep privileges.
pub proof fn programs_are_run_as_they_are_named(
    controller: &mut WmController,
    cmd: ExecCmd,
    reading: Reading,
    actions: Vec<Action>,
)
    requires
        call_ensures(WmController::handle_event, (controller, WmEvent::Command(WmCommand::Wm(WmCmd::Exec(cmd))), reading), actions),
    ensures
        ({
            let before = old(controller)@;
            let after = final(controller)@;
            let args = match cmd {
                ExecCmd::String(s) => pieces(s@, ' '),
                ExecCmd::Array(list) => list.deep_view(),
                ExecCmd::Options { cmd: list, .. } => list.deep_view(),
            };
            &&& after == before
            &&& actions@.len() == 1
            &&& actions@[0] matches Action::Exec(plan)
            &&& !before.exec_enabled ==> plan is Disabled
            &&& before.exec_enabled && args.len() == 0 ==> plan is EmptyArguments
            &&& before.exec_enabled && args.len() > 0 ==> {
                &&& plan matches ExecPlan::Run(run)
                &&& run.cmd_args.deep_view() == args
                &&& run.unsafe_privileged == (match cmd {
                    ExecCmd::Options { unsafe_privileged, .. } => unsafe_privileged,
                    _ => false,
                })
            }
        }),
{
    reveal(ControllerState::after);
    reveal(ControllerState::does);
    told_one_by_one(actions@);
}

proof fn the_last_login_window_counts(before: Option<pid_t>, apps: Seq<(pid_t, AppInfo)>)
    ensures
        forall|k: int|
            0 <= k < apps.len() && calls_itself_login_window((#[trigger] apps[k]).1) && (forall|
                j: int,
            |
                k < j < apps.len() ==> !calls_itself_login_window((#[trigger] apps[j]).1))
                ==> login_pid_after(before, apps) == Some(apps[k].0),
        (forall|k: int| 0 <= k < apps.len() ==> !calls_itself_login_window((#[trigger] apps[k]).1))
            ==> login_pid_after(before, apps) == before,
    decreases apps.len(),
{
    if apps.len() > 0 {
        let front = apps.drop_last();
        let n = apps.len() - 1;
        the_last_login_window_counts(before, front);
        assert(apps[n] == apps.last());
        assert forall|k: int|
            0 <= k < apps.len() && calls_itself_login_window((#[trigger] apps[k]).1) && (forall|
                j: int,
            |
                k < j < apps.len() ==> !calls_itself_login_window(
                    (#[trigger] apps[j]).1,
                )) implies login_pid_after(before, apps) == Some(apps[k].0) by {
            if k < n {
                assert(!calls_itself_login_window(apps[n].1));
                assert(front[k] == apps[k]);
                assert forall|j: int| k < j < front.len() implies !calls_itself_login_window(
                    (#[trigger] front[j]).1,
                ) by {
                    assert(front[j] == apps[j]);
                }
            }
        }
        if forall|k: int|
            0 <= k < apps.len() ==> !calls_itself_login_window((#[trigger] apps[k]).1) {
            assert(!calls_itself_login_window(apps[n].1));
            assert forall|k: int| 0 <= k < front.len() implies !calls_itself_login_window(
                (#[trigger] front[k]).1,
            ) by {
                assert(front[k] == apps[k]);
            }
        }
    }
}

/// At startup a thread is started for every application that runs, in order, and
/// each holds startup up. The last of them that calls itself the login window is
/// taken for it.
pub proof fn startup_starts_a_thread_for_each_application(
    controller: &mut WmController,
    reading: Reading,
    actions: Vec<Action>,
)
    requires
        call_ensures(WmController::handle_event, (controller, WmEvent::AppEventsRegistered, reading), actions),
    ensures
        ({
            let before = old(controller)@;
            let after = final(controller)@;
            let apps = reading.running_apps@;
            &&& after == (ControllerState {
                startup_pending: false,
                login_window_pid: after.login_window_pid,
                ..before
            })
            &&& actions@.len() == apps.len()
            &&& forall|k: int|
                0 <= k < apps.len() ==> starts_thread(
                    #[trigger] actions@[k],
                    apps[k].0,
                    apps[k].1,
                    true,
                )
            &&& forall|k: int|
                0 <= k < apps.len() && calls_itself_login_window((#[trigger] apps[k]).1) && (forall|
                    j: int,
                |
                    k < j < apps.len() ==> !calls_itself_login_window((#[trigger] apps[j]).1))
                    ==> after.login_window_pid == Some(apps[k].0)
            &&& (forall|k: int|
                0 <= k < apps.len() ==> !calls_itself_login_window((#[trigger] apps[k]).1))
                ==> after.login_window_pid == before.login_window_pid
        }),
{
    reveal(ControllerState::after);
    reveal(ControllerState::does);
    told_one_by_one(actions@);
    let apps = reading.running_apps@;
    assert forall|k: int| 0 <= k < apps.len() implies starts_thread(
        #[trigger] actions@[k],
        apps[k].0,
        apps[k].1,
        true,
    ) by {
        assert(told(actions@)[k] == spawns(apps, true)[k]);
    }
    the_last_login_window_counts(old(controller)@.login_window_pid, apps);
}

/// A thread is started for an application that is launched; it does not hold
/// startup up. One that calls itself the login window is taken for it.
pub proof fn a_launch_starts_a_thread(
    controller: &mut WmController,
    pid: pid_t,
    info: AppInfo,
    reading: Reading,
    actions: Vec<Action>,
)
    requires
        call_ensures(WmController::handle_event, (controller, WmEvent::AppLaunch(pid, info), reading), actions),
    ensures
        ({
            let before = old(controller)@;
            let after = final(controller)@;
            &&& after == (ControllerState { login_window_pid: after.login_window_pid, ..before })
            &&& calls_itself_login_window(info) ==> after.login_window_pid == Some(pid)
            &&& !calls_itself_login_window(info) ==> after.login_window_pid
                == before.login_window_pid
            &&& actions@.len() == 1
            &&& starts_thread(actions@[0], pid, info, false)
        }),
{
    reveal(ControllerState::after);
    reveal(ControllerState::does);
    told_one_by_one(actions@);
}

/// When an application comes to the front, the cursor stays hidden, the focused
/// screen is reported if there is one, then the login window if it is that, and
/// the reactor hears of the application last.
pub proof fn an_activation_is_reported(
    controller: &mut WmController,
    pid: pid_t,
    reading: Reading,
    actions: Vec<Action>,
)
    requires
        call_ensures(WmController::handle_event, (controller, WmEvent::AppGloballyActivated(pid), reading), actions),
    ensures
        ({
            let before = old(controller)@;
            let after = final(controller)@;
            let on_screen = reading.focused_screen is Some;
            let login = before.login_window_pid == Some(pid);
            let n = actions@.len() as int;
            &&& after == before
            &&& n == 2 + (if on_screen {
                1int
            } else {
                0
            }) + (if login {
                1int
            } else {
                0
            })
            &&& actions@[0] == Action::Mouse(mouse::Request::EnforceHidden)
            &&& reading.focused_screen matches Some(screen) ==> actions@[1] == Action::SpaceManager(
                space_manager::Event::FocusedScreenChanged(screen),
            )
            &&& login ==> actions@[n - 2] == Action::SpaceManager(
                space_manager::Event::LoginWindowActive(true),
            )
            &&& actions@[n - 1] == Action::SpaceManager(
                space_manager::Event::ReactorEvent(
                    reactor::Event::ApplicationGloballyActivated(pid),
                ),
            )
        }),
{
    reveal(ControllerState::after);
    reveal(ControllerState::does);
    told_one_by_one(actions@);
}

/// When an application leaves the front, the login window is reported if it is
/// that, and the reactor hears of the application.
pub proof fn a_deactivation_is_reported(
    controller: &mut WmController,
    pid: pid_t,
    reading: Reading,
    actions: Vec<Action>,
)
    requires
        call_ensures(WmController::handle_event, (controller, WmEvent::AppGloballyDeactivated(pid), reading), actions),
    ensures
        ({
            let before = old(controller)@;
            let after = final(controller)@;
            let login = before.login_window_pid == Some(pid);
            let n = actions@.len() as int;
            &&& after == before
            &&& n == (if login {
                2int
            } else {
                1
            })
            &&& login ==> actions@[0] == Action::SpaceManager(
                space_manager::Event::LoginWindowActive(false),
            )
            &&& actions@[n - 1] == Action::SpaceManager(
                space_manager::Event::ReactorEvent(
                    reactor::Event::ApplicationGloballyDeactivated(pid),
                ),
            )
        }),
{
    reveal(ControllerState::after);
    reveal(ControllerState::does);
    told_one_by_one(actions@);
}

/// The reactor hears of an application that ends.
pub proof fn a_termination_is_reported(
    controller: &mut WmController,
    pid: pid_t,
    reading: Reading,
    actions: Vec<Action>,
)
    requires
        call_ensures(WmController::handle_event, (controller, WmEvent::AppTerminated(pid), reading), actions),
    ensures
        ({
            let before = old(controller)@;
            let after = final(controller)@;
            &&& after == before
            &&& actions@.len() == 1
            &&& actions@[0] == Action::SpaceManager(
                space_manager::Event::ReactorEvent(reactor::Event::ApplicationTerminated(pid)),
            )
        }),
{
    reveal(ControllerState::after);
    reveal(ControllerState::does);
    told_one_by_one(actions@);
}

/// A new configuration goes to the mouse, the status icon and the space manager,
/// in this order, and is kept. Hotkeys that are registered are given up.
pub proof fn a_new_configuration_is_passed_on(
    controller: &mut WmController,
    config: Arc<crate::config::Config>,
    reading: Reading,
    actions: Vec<Action>,
)
    requires
        call_ensures(WmController::handle_event, (controller, WmEvent::ConfigUpdated(config), reading), actions),
    ensures
        ({
            let before = old(controller)@;
            let after = final(controller)@;
            &&& after == (ControllerState { config, hotkeys: false, ..before })
            &&& actions@.len() == (if before.hotkeys {
                4int
            } else {
                3
            })
            &&& actions@[0] == Action::Mouse(mouse::Request::ConfigUpdated(config))
            &&& actions@[1] == Action::Status(status::Event::ConfigUpdated(config))
            &&& actions@[2] == Action::SpaceManager(space_manager::Event::ConfigUpdated(config))
            &&& before.hotkeys ==> actions@[3] is UnregisterHotkeys
        }),
{
    reveal(ControllerState::after);
    reveal(ControllerState::does);
    told_one_by_one(actions@);
}

/// Hotkeys of the configuration are registered when they start to work, unless
/// they are already, and given up when they stop, if there are any.
pub proof fn hotkeys_follow_their_state(
    controller: &mut WmController,
    active: bool,
    reading: Reading,
    actions: Vec<Action>,
)
    requires
        call_ensures(WmController::handle_event, (controller, WmEvent::HotkeysActive(active), reading), actions),
    ensures
        ({
            let before = old(controller)@;
            let after = final(controller)@;
            &&& active && !before.hotkeys ==> actions@.len() == 1 && actions@[0]
                == Action::RegisterHotkeys(before.config)
            &&& !active && before.hotkeys ==> actions@.len() == 1 && actions@[0]
                is UnregisterHotkeys
            &&& active == before.hotkeys ==> actions@.len() == 0
            &&& after == (ControllerState { hotkeys: before.hotkeys && active, ..before })
        }),
{
    reveal(ControllerState::after);
    reveal(ControllerState::does);
    told_one_by_one(actions@);
}

/// Whether hotkeys could be registered is taken note of, and nothing else.
pub proof fn registered_hotkeys_are_taken_note_of(
    controller: &mut WmController,
    registered: bool,
    nothing: (),
)
    requires
        call_ensures(WmController::hotkeys_registered, (controller, registered), nothing),
    ensures
        final(controller)@ == (ControllerState { hotkeys: registered, ..old(controller)@ }),
{
}

/// A controller awaits startup without hotkeys and without a login window.
pub proof fn a_controller_starts_from_nothing(
    config: Config,
    exec_enabled: bool,
    controller: WmController,
)
    requires
        call_ensures(WmController::new, (config, exec_enabled), controller),
    ensures
        controller@.config == config.config,
        controller@.one_space == config.one_space,
        controller@.restore_file == config.restore_file@,
        controller@.startup_pending,
        controller@.login_window_pid is None,
        !controller@.hotkeys,
        controller@.exec_enabled == exec_enabled,
{
}

/// The reactor is told once startup is complete.
pub proof fn the_reactor_hears_of_startup(event: space_manager::Event)
    requires
        call_ensures(startup_complete, (), event),
    ensures
        event == space_manager::Event::ReactorEvent(reactor::Event::StartupComplete),
{
}

/// A command is the same in its normal form: it has the same program and
/// arguments, and asks for privileges only where options say so.
pub proof fn the_normal_form_says_the_same(
    cmd: ExecCmd,
    normalized: NormalizedExecCmd,
    args: Vec<String>,
)
    requires
        call_ensures(ExecCmd::normalize, (cmd,), normalized),
        call_ensures(ExecCmd::as_array, (&cmd,), args),
    ensures
        normalized.cmd_args.deep_view() == args.deep_view(),
        cmd matches ExecCmd::String(s) ==> args.deep_view() == pieces(s@, ' '),
        cmd matches ExecCmd::Array(list) ==> args.deep_view() == list.deep_view(),
        cmd matches ExecCmd::Options { cmd: list, .. } ==> args.deep_view() == list.deep_view(),
        normalized.unsafe_privileged == (cmd matches ExecCmd::Options {
            unsafe_privileged,
            ..
        } && unsafe_privileged),
{
}

/// A command is run exactly where that is enabled and it names a program, and then
/// in its normal form.
pub proof fn commands_are_planned_by_what_they_name(
    cmd: ExecCmd,
    enabled: bool,
    plan: ExecPlan,
    normalized: NormalizedExecCmd,
)
    requires
        call_ensures(exec_cmd, (cmd, enabled), plan),
        call_ensures(ExecCmd::normalize, (cmd,), normalized),
    ensures
        !enabled ==> plan is Disabled,
        enabled && normalized.cmd_args@.len() == 0 ==> plan is EmptyArguments,
        enabled && normalized.cmd_args@.len() > 0 ==> {
            &&& plan matches ExecPlan::Run(run)
            &&& run.cmd_args.deep_view() == normalized.cmd_args.deep_view()
            &&& run.unsafe_privileged == normalized.unsafe_privileged
        },
{
    assert(normalized.cmd_args@.len() == normalized@.cmd_args.len());
}

/// Startup is pending from the start until the applications are known.
pub proof fn startup_is_pending_until_it_happens(
    controller: &mut WmController,
    reading: Reading,
    actions: Vec<Action>,
    config: Config,
    exec_enabled: bool,
    at_first: bool,
    afterwards: bool,
)
    requires
        call_ensures(WmController::new, (config, exec_enabled), *old(controller)),
        call_ensures(WmController::is_startup_pending, (&*old(controller),), at_first),
        call_ensures(WmController::handle_event, (controller, WmEvent::AppEventsRegistered, reading), actions),
        call_ensures(WmController::is_startup_pending, (&*final(controller),), afterwards),
    ensures
        at_first,
        !afterwards,
{
    startup_starts_a_thread_for_each_application(controller, reading, actions);
}

} // verus!
