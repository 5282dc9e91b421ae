use std::sync::Arc;

use glide_wm::actor::wm_controller::{
    exec_cmd, startup_complete, Action, Config as WmConfig, ExecCmd, ExecPlan, Reading, WmCmd,
    WmCommand, WmController, WmEvent,
};
use glide_wm::actor::{mouse, reactor, space_manager, status};
use glide_wm::config::{
    CenterMode, Config, Experimental, GroupBars, HorizontalPlacement, NewWindowPlacement,
    ScrollConfig, Settings, StatusIcon, StatusIconExperimental, VerticalPlacement,
};
use glide_wm::model::{LayoutKind, RootOrientation};
use glide_wm::sys::app::AppInfo;
use glide_wm::sys::geometry::CGFloat;
use glide_wm::sys::screen::ScreenId;

fn number(x: f64) -> CGFloat {
    CGFloat { bits: x.to_bits() }
}

fn settings(default_disable: bool) -> Settings {
    Settings {
        animate: true,
        default_disable,
        mouse_follows_focus: true,
        mouse_hides_on_focus: true,
        focus_follows_mouse: true,
        outer_gap: number(0.0),
        inner_gap: number(0.0),
        default_keys: true,
        default_layout_kind: LayoutKind::Tree,
        default_root_orientation: RootOrientation::Horizontal,
        group_bars: GroupBars {
            enable: false,
            thickness: number(6.0),
            horizontal_placement: HorizontalPlacement::Top,
            vertical_placement: VerticalPlacement::Right,
        },
        status_icon: StatusIcon { enable: true },
        experimental: Experimental {
            status_icon: StatusIconExperimental { space_index: false, color: false, enable: true },
            scroll: ScrollConfig {
                enable: false,
                center_focused_column: CenterMode::Never,
                visible_columns: 2,
                column_width_presets: vec![number(0.5)],
                new_window_in_column: NewWindowPlacement::NewColumn,
                scroll_sensitivity: number(20.0),
                invert_scroll_direction: false,
                infinite_loop: false,
                single_column_aspect_ratio: String::new(),
            },
        },
    }
}

fn config(default_disable: bool) -> Config {
    Config { settings: settings(default_disable), window_rules: vec![], keys: vec![] }
}

fn controller(exec_enabled: bool) -> WmController {
    WmController::new(
        WmConfig {
            one_space: false,
            restore_file: "/home/me/.glide/layout.ron".to_owned(),
            config: Arc::new(config(true)),
        },
        exec_enabled,
    )
}

fn app(bundle_id: &str) -> AppInfo {
    AppInfo { bundle_id: Some(bundle_id.to_owned()), localized_name: None }
}

fn reading(screen: Option<u32>) -> Reading {
    Reading { focused_screen: screen.map(ScreenId::new), running_apps: vec![] }
}

fn command(cmd: WmCmd) -> WmEvent {
    WmEvent::Command(WmCommand::Wm(cmd))
}

#[test]
fn startup_spawns_every_running_application() {
    let mut wm = controller(false);
    assert!(wm.is_startup_pending());
    let actions = wm.handle_event(
        WmEvent::AppEventsRegistered,
        Reading {
            focused_screen: None,
            running_apps: vec![(1, app("a")), (2, app("com.apple.loginwindow")), (3, app("c"))],
        },
    );
    assert!(matches!(
        actions.as_slice(),
        [
            Action::SpawnApp { pid: 1, startup: true, .. },
            Action::SpawnApp { pid: 2, startup: true, .. },
            Action::SpawnApp { pid: 3, startup: true, .. }
        ]
    ));
    assert!(!wm.is_startup_pending());
    let actions = wm.handle_event(WmEvent::AppGloballyDeactivated(2), reading(None));
    assert!(matches!(
        actions.as_slice(),
        [
            Action::SpaceManager(space_manager::Event::LoginWindowActive(false)),
            Action::SpaceManager(space_manager::Event::ReactorEvent(
                reactor::Event::ApplicationGloballyDeactivated(2)
            ))
        ]
    ));
}

#[test]
fn a_launched_application_does_not_hold_startup_up() {
    let mut wm = controller(false);
    let actions = wm.handle_event(WmEvent::AppLaunch(7, app("x")), reading(None));
    assert!(matches!(actions.as_slice(), [Action::SpawnApp { pid: 7, startup: false, .. }]));
}

#[test]
fn activation_is_reported_in_order() {
    let mut wm = controller(false);
    wm.handle_event(WmEvent::AppLaunch(9, app("com.apple.loginwindow")), reading(None));
    let actions = wm.handle_event(WmEvent::AppGloballyActivated(9), reading(Some(2)));
    assert!(matches!(
        actions.as_slice(),
        [
            Action::Mouse(mouse::Request::EnforceHidden),
            Action::SpaceManager(space_manager::Event::FocusedScreenChanged(ScreenId { id: 2 })),
            Action::SpaceManager(space_manager::Event::LoginWindowActive(true)),
            Action::SpaceManager(space_manager::Event::ReactorEvent(
                reactor::Event::ApplicationGloballyActivated(9)
            ))
        ]
    ));
    let actions = wm.handle_event(WmEvent::AppGloballyActivated(8), reading(None));
    assert_eq!(actions.len(), 2);
    let actions = wm.handle_event(WmEvent::AppTerminated(8), reading(None));
    assert!(matches!(
        actions.as_slice(),
        [Action::SpaceManager(space_manager::Event::ReactorEvent(
            reactor::Event::ApplicationTerminated(8)
        ))]
    ));
}

#[test]
fn commands_go_to_the_space_manager() {
    let mut wm = controller(false);
    let actions = wm.handle_event(command(WmCmd::ToggleSpaceActivated), reading(Some(5)));
    assert!(matches!(
        actions.as_slice(),
        [Action::SpaceManager(space_manager::Event::ToggleSpace(ScreenId { id: 5 }))]
    ));
    assert!(wm.handle_event(command(WmCmd::ToggleSpaceActivated), reading(None)).is_empty());
    let actions = wm.handle_event(command(WmCmd::ToggleGlobalEnabled), reading(None));
    assert!(matches!(
        actions.as_slice(),
        [Action::SpaceManager(space_manager::Event::ToggleGlobalEnabled)]
    ));
    let actions = wm.handle_event(
        WmEvent::Command(WmCommand::ReactorCommand(reactor::Command::Debug)),
        reading(None),
    );
    assert!(matches!(
        actions.as_slice(),
        [Action::SpaceManager(space_manager::Event::ReactorCommand(reactor::Command::Debug))]
    ));
}

#[test]
fn hotkeys_are_registered_once_and_given_up() {
    let mut wm = controller(false);
    let actions = wm.handle_event(WmEvent::HotkeysActive(true), reading(None));
    assert!(matches!(actions.as_slice(), [Action::RegisterHotkeys(_)]));
    // Registration failed: it is tried again.
    wm.hotkeys_registered(false);
    let actions = wm.handle_event(WmEvent::HotkeysActive(true), reading(None));
    assert!(matches!(actions.as_slice(), [Action::RegisterHotkeys(_)]));
    wm.hotkeys_registered(true);
    assert!(wm.handle_event(WmEvent::HotkeysActive(true), reading(None)).is_empty());
    let actions = wm.handle_event(WmEvent::HotkeysActive(false), reading(None));
    assert!(matches!(actions.as_slice(), [Action::UnregisterHotkeys]));
    assert!(wm.handle_event(WmEvent::HotkeysActive(false), reading(None)).is_empty());
}

#[test]
fn a_new_configuration_reaches_everyone_and_drops_hotkeys() {
    let mut wm = controller(false);
    wm.hotkeys_registered(true);
    let new = Arc::new(config(false));
    let actions = wm.handle_event(WmEvent::ConfigUpdated(Arc::clone(&new)), reading(None));
    assert!(matches!(
        actions.as_slice(),
        [
            Action::Mouse(mouse::Request::ConfigUpdated(_)),
            Action::Status(status::Event::ConfigUpdated(_)),
            Action::SpaceManager(space_manager::Event::ConfigUpdated(_)),
            Action::UnregisterHotkeys
        ]
    ));
    let actions = wm.handle_event(WmEvent::HotkeysActive(true), reading(None));
    match actions.as_slice() {
        [Action::RegisterHotkeys(config)] => assert!(Arc::ptr_eq(config, &new)),
        other => panic!("unexpected actions {other:?}"),
    }
}

#[test]
fn programs_are_only_run_where_enabled() {
    let cmd = || ExecCmd::String("ls -l  /".to_owned());
    let actions = controller(false).handle_event(command(WmCmd::Exec(cmd())), reading(None));
    assert!(matches!(actions.as_slice(), [Action::Exec(ExecPlan::Disabled)]));
    let actions = controller(true).handle_event(command(WmCmd::Exec(cmd())), reading(None));
    match actions.as_slice() {
        [Action::Exec(ExecPlan::Run(run))] => {
            assert_eq!(run.cmd_args, vec!["ls", "-l", "", "/"]);
            assert!(!run.unsafe_privileged);
        }
        other => panic!("unexpected actions {other:?}"),
    }
    assert!(matches!(
        exec_cmd(ExecCmd::Array(vec![]), true),
        ExecPlan::EmptyArguments
    ));
    assert!(matches!(
        exec_cmd(ExecCmd::Options { cmd: vec![], unsafe_privileged: true }, true),
        ExecPlan::EmptyArguments
    ));
    assert!(matches!(
        exec_cmd(ExecCmd::String(String::new()), true),
        ExecPlan::Run(run) if run.cmd_args == vec![""]
    ));
}

#[test]
fn commands_are_taken_apart() {
    assert_eq!(ExecCmd::String("a b".to_owned()).as_array(), vec!["a", "b"]);
    assert_eq!(ExecCmd::Array(vec!["a b".to_owned()]).as_array(), vec!["a b"]);
    let options =
        ExecCmd::Options { cmd: vec!["x".to_owned(), "y".to_owned()], unsafe_privileged: true };
    assert_eq!(options.as_array(), vec!["x", "y"]);
    assert!(options.normalize().unsafe_privileged);
}

#[test]
fn startup_ends_with_an_event() {
    assert!(matches!(
        startup_complete(),
        space_manager::Event::ReactorEvent(reactor::Event::StartupComplete)
    ));
}
