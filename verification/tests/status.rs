use std::sync::Arc;

use glide_wm::actor::status::{Action, Event, Status};
use glide_wm::config::{
    CenterMode, Config, Experimental, GroupBars, HorizontalPlacement, NewWindowPlacement,
    ScrollConfig, Settings, StatusIcon, StatusIconExperimental, VerticalPlacement,
};
use glide_wm::model::{LayoutKind, RootOrientation};
use glide_wm::sys::geometry::CGFloat;
use glide_wm::sys::screen::SpaceId;

fn number(x: f64) -> CGFloat {
    CGFloat { bits: x.to_bits() }
}

fn settings(default_disable: bool) -> Settings {
    Settings {
        animate: true,
        default_disable,
        mouse_follows_focus: true,
        mouse_hides_on_focus: true,
        focus_follows_mouse: true,
        outer_gap: number(0.0),
        inner_gap: number(0.0),
        default_keys: true,
        default_layout_kind: LayoutKind::Tree,
        default_root_orientation: RootOrientation::Horizontal,
        group_bars: GroupBars {
            enable: false,
            thickness: number(6.0),
            horizontal_placement: HorizontalPlacement::Top,
            vertical_placement: VerticalPlacement::Right,
        },
        status_icon: StatusIcon { enable: true },
        experimental: Experimental {
            status_icon: StatusIconExperimental { space_index: false, color: false, enable: true },
            scroll: ScrollConfig {
                enable: false,
                center_focused_column: CenterMode::Never,
                visible_columns: 2,
                column_width_presets: vec![number(0.5)],
                new_window_in_column: NewWindowPlacement::NewColumn,
                scroll_sensitivity: number(20.0),
                invert_scroll_direction: false,
                infinite_loop: false,
                single_column_aspect_ratio: String::new(),
            },
        },
    }
}

fn config(default_disable: bool) -> Config {
    Config { settings: settings(default_disable), window_rules: vec![], keys: vec![] }
}

fn icon_config(enable: bool, space_index: bool) -> Arc<Config> {
    let mut config = config(true);
    config.settings.status_icon.enable = enable;
    config.settings.experimental.status_icon.space_index = space_index;
    Arc::new(config)
}

fn words(actions: Vec<Action>) -> Vec<String> {
    actions
        .into_iter()
        .map(|action| match action {
            Action::CreateIcon(_) => "create".to_owned(),
            Action::RemoveIcon => "remove".to_owned(),
            Action::SetText(text) => format!("text {text}"),
            Action::SetToggleTitle(title) => format!("toggle {title}"),
            Action::SetSpaceToggleEnabled(enabled) => format!("space toggle {enabled}"),
            Action::SetSpaceToggleTitle(title) => format!("space {title}"),
        })
        .collect()
}

#[test]
fn a_wanted_icon_is_made_at_once() {
    let (status, actions) = Status::new(icon_config(true, true), Some(12));
    assert!(status.has_icon());
    assert_eq!(
        words(actions),
        vec!["create", "text 12", "toggle Pause Glide", "space toggle true"]
    );
}

#[test]
fn an_unwanted_icon_is_not_made() {
    let (mut status, actions) = Status::new(icon_config(false, true), Some(12));
    assert!(!status.has_icon());
    assert!(actions.is_empty());
    assert!(status.handle_event(Event::GlobalEnabledChanged(false), None).is_empty());
    assert!(status.handle_event(Event::SpaceEnabledChanged(false), None).is_empty());
    assert!(status.handle_event(Event::FocusedScreenChanged, Some(1)).is_empty());
}

#[test]
fn the_number_of_the_space_is_shown() {
    let (mut status, _) = Status::new(icon_config(true, true), None);
    let spaces = vec![Some(SpaceId::new(3))];
    assert_eq!(words(status.handle_event(Event::SpaceChanged(spaces), Some(10))), vec!["text 10"]);
    assert_eq!(words(status.handle_event(Event::FocusedScreenChanged, None)), vec!["text "]);
    let (mut status, _) = Status::new(icon_config(true, false), Some(4));
    assert_eq!(words(status.handle_event(Event::FocusedScreenChanged, Some(4))), vec!["text "]);
}

#[test]
fn the_menu_says_what_it_does() {
    let (mut status, _) = Status::new(icon_config(true, true), None);
    assert_eq!(
        words(status.handle_event(Event::GlobalEnabledChanged(false), None)),
        vec!["toggle Resume Glide", "space toggle false"]
    );
    assert_eq!(
        words(status.handle_event(Event::SpaceEnabledChanged(true), None)),
        vec!["space Stop Managing Space"]
    );
    assert_eq!(
        words(status.handle_event(Event::SpaceEnabledChanged(false), None)),
        vec!["space Start Managing Space"]
    );
}

#[test]
fn a_new_configuration_changes_the_icon() {
    let (mut status, _) = Status::new(icon_config(true, true), None);
    let keep = status.handle_event(Event::ConfigUpdated(icon_config(true, true)), Some(2));
    assert_eq!(words(keep), vec!["text 2"]);
    let renew = status.handle_event(Event::ConfigUpdated(icon_config(true, false)), Some(2));
    assert_eq!(words(renew), vec!["remove", "create", "text "]);
    let drop = status.handle_event(Event::ConfigUpdated(icon_config(false, false)), Some(2));
    assert_eq!(words(drop), vec!["remove"]);
    let make = status.handle_event(Event::ConfigUpdated(icon_config(true, true)), Some(2));
    assert_eq!(words(make), vec!["create", "text 2"]);
}
