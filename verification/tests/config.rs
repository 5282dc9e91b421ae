use std::str::FromStr;

use glide_wm::actor::layout::LayoutCommand;
use glide_wm::actor::reactor::Command as ReactorCommand;
use glide_wm::actor::wm_controller::{ExecCmd, NormalizedExecCmd, WmCmd, WmCommand};
use glide_wm::config::layers::{
    collect_keys, fits, format_toml_error, ConfigPartial, Disabled, ParsedBinding, Span,
    SpannedError, WmCommandOrDisable,
};
use glide_wm::config::partial::{
    ExperimentalPartial, GroupBarsPartial, ScrollConfigPartial, SettingsPartial,
    StatusIconExperimentalPartial, StatusIconPartial,
};
use glide_wm::config::{
    config_path, data_dir, default_config_paths, restore_file, AspectRatio, AspectRatioError,
    CenterMode, Config, ConfigRegex, GroupBars, HorizontalPlacement, LoadStep, NewWindowPlacement,
    OpenOutcome, ScrollConfig, VerticalPlacement, WindowRule, WindowRuleConditions,
};
use glide_wm::model::{Direction, LayoutKind, RootOrientation};
use glide_wm::sys::geometry::CGFloat;
use rustc_hash::FxHashMap;
use toml::{Table, Value};

fn number(x: f64) -> CGFloat {
    CGFloat { bits: x.to_bits() }
}

fn value(x: CGFloat) -> f64 {
    f64::from_bits(x.bits)
}

fn texts(value: &Value) -> Vec<String> {
    value.as_array().unwrap().iter().map(|v| v.as_str().unwrap().to_owned()).collect()
}

fn exec(value: &Value) -> ExecCmd {
    match value {
        Value::String(s) => ExecCmd::String(s.clone()),
        Value::Array(_) => ExecCmd::Array(texts(value)),
        Value::Table(options) => ExecCmd::Options {
            cmd: texts(&options["cmd"]),
            unsafe_privileged: options
                .get("unsafe_privileged")
                .map(|v| v.as_bool().unwrap())
                .unwrap_or(false),
        },
        other => panic!("no exec command: {other:?}"),
    }
}

fn command(value: &Value) -> WmCommandOrDisable {
    if value.as_str() == Some("disable") {
        return WmCommandOrDisable::Disable(Disabled::Disable);
    }
    WmCommandOrDisable::WmCommand(match value {
        Value::String(s) if s == "debug" => WmCommand::ReactorCommand(ReactorCommand::Debug),
        Value::String(s) if s == "toggle_space_activated" => {
            WmCommand::Wm(WmCmd::ToggleSpaceActivated)
        }
        Value::Table(t) if t.contains_key("exec") => WmCommand::Wm(WmCmd::Exec(exec(&t["exec"]))),
        Value::Table(t) => {
            WmCommand::ReactorCommand(ReactorCommand::Layout(LayoutCommand::MoveFocus(
                match t["move_focus"].as_str().unwrap() {
                    "left" => Direction::Left,
                    "right" => Direction::Right,
                    "up" => Direction::Up,
                    "down" => Direction::Down,
                    other => panic!("no direction: {other}"),
                },
            )))
        }
        other => panic!("no command: {other:?}"),
    })
}

fn window_rule(value: &Value) -> Result<WindowRule, SpannedError> {
    let mut conditions = WindowRuleConditions::default();
    if let Some(table) = value.get("if") {
        let text = |name: &str| table.get(name).map(|v| v.as_str().unwrap().to_owned());
        conditions.app_id = text("app_id");
        conditions.app_name = text("app_name");
        conditions.title_substring = text("title_substring");
        conditions.ax_role = text("ax_role");
        conditions.ax_subrole = text("ax_subrole");
        if let Some(pattern) = text("title_regex") {
            match ConfigRegex::from_str(&pattern) {
                Ok(regex) => conditions.title_regex = Some(regex),
                Err(message) => return Err(SpannedError { message, span: None }),
            }
        }
    }
    Ok(WindowRule { conditions, float: value["float"].as_bool().unwrap() })
}

fn partial(text: &str) -> Result<ConfigPartial, SpannedError> {
    let table: Table = text.parse().unwrap();
    let mut config = ConfigPartial {
        settings: SettingsPartial::default(),
        window_rules: None,
        keys: None,
    };
    if let Some(settings) = table.get("settings") {
        config.settings.animate = settings.get("animate").and_then(|v| v.as_bool());
        config.settings.default_keys = settings.get("default_keys").and_then(|v| v.as_bool());
        config.settings.default_disable =
            settings.get("default_disable").and_then(|v| v.as_bool());
    }
    if let Some(rules) = table.get("window_rules") {
        let mut list = vec![];
        for rule in rules.as_array().unwrap() {
            list.push(window_rule(rule)?);
        }
        config.window_rules = Some(list);
    }
    if let Some(keys) = table.get("keys") {
        let mut map = FxHashMap::default();
        for (key, bound) in keys.as_table().unwrap() {
            map.insert(key.clone(), command(bound));
        }
        config.keys = Some(map);
    }
    Ok(config)
}

fn default_settings() -> SettingsPartial {
    SettingsPartial {
        animate: Some(true),
        default_disable: Some(true),
        mouse_follows_focus: Some(true),
        mouse_hides_on_focus: Some(true),
        focus_follows_mouse: Some(true),
        outer_gap: Some(number(0.0)),
        inner_gap: Some(number(0.0)),
        default_keys: Some(true),
        default_layout_kind: Some(LayoutKind::Tree),
        default_root_orientation: Some(RootOrientation::Horizontal),
        group_bars: GroupBarsPartial {
            enable: Some(false),
            thickness: Some(number(6.0)),
            horizontal_placement: Some(HorizontalPlacement::Top),
            vertical_placement: Some(VerticalPlacement::Right),
        },
        status_icon: StatusIconPartial { enable: Some(true) },
        experimental: ExperimentalPartial {
            status_icon: StatusIconExperimentalPartial {
                space_index: Some(false),
                color: Some(false),
                enable: Some(true),
            },
            scroll: ScrollConfigPartial {
                enable: Some(false),
                center_focused_column: Some(CenterMode::default()),
                visible_columns: Some(2),
                column_width_presets: Some(vec![number(0.5)]),
                new_window_in_column: Some(NewWindowPlacement::NewColumn),
                scroll_sensitivity: Some(number(20.0)),
                invert_scroll_direction: Some(false),
                infinite_loop: Some(false),
                single_column_aspect_ratio: Some(String::new()),
            },
        },
    }
}

fn defaults() -> ConfigPartial {
    let keys = partial(
        r#"
        [keys]
        "Alt + H" = { move_focus = "left" }
        "Alt + J" = { move_focus = "down" }
        "Alt + K" = { move_focus = "up" }
        "Alt + L" = { move_focus = "right" }
        "#,
    )
    .unwrap()
    .keys;
    ConfigPartial { settings: default_settings(), window_rules: Some(vec![]), keys }
}

fn default_config() -> Config {
    defaults().validate().unwrap()
}

fn parse(text: &str) -> Result<Config, SpannedError> {
    Config::parse(defaults(), partial(text)?)
}

fn has_key(config: &Config, text: &str) -> bool {
    config.keys.iter().any(|(hk, _)| hk.text == text)
}

fn ratio(s: &str) -> Result<AspectRatio, AspectRatioError> {
    let (width, height) = match AspectRatio::number_texts(s) {
        Some((w, h)) => (w.parse().ok().map(number), h.parse().ok().map(number)),
        None => (None, None),
    };
    AspectRatio::from_text(s, width, height)
}

#[test]
fn default_settings_match_unspecified_setting_values() {
    assert_eq!(default_config().settings, parse("").unwrap().settings);
}

#[test]
fn window_rules_parse() {
    let config = parse(
        r#"
        window_rules = [
          { if = { app_id = "com.example.X", title_regex = "Dialog" }, float = true },
          { if = { title_substring = "Preferences", ax_subrole = "AXDialog" }, float = true },
        ]
        "#,
    )
    .unwrap();
    assert_eq!(
        config.window_rules,
        vec![
            WindowRule {
                conditions: WindowRuleConditions {
                    app_id: Some("com.example.X".into()),
                    title_regex: Some("Dialog".parse().unwrap()),
                    ..Default::default()
                },
                float: true,
            },
            WindowRule {
                conditions: WindowRuleConditions {
                    title_substring: Some("Preferences".into()),
                    ax_subrole: Some("AXDialog".into()),
                    ..Default::default()
                },
                float: true,
            },
        ]
    );
}

#[test]
fn window_rules_parse_with_dotted_if_keys() {
    let config = parse(
        r#"
        [[window_rules]]
        if.app_id = "com.example.X"
        float = true
        "#,
    )
    .unwrap();
    assert_eq!(
        config.window_rules,
        vec![WindowRule {
            conditions: WindowRuleConditions {
                app_id: Some("com.example.X".into()),
                ..Default::default()
            },
            float: true,
        }]
    );
}

#[test]
fn window_rule_invalid_regex_is_rejected() {
    let err = parse(
        r#"
        window_rules = [{ if = { title_regex = "(unterminated" }, float = true }]
        "#,
    )
    .unwrap_err();
    assert!(err.message.contains("regex"), "unexpected error: {}", err.message);
}

#[test]
fn default_keys_false_excludes_default_bindings() {
    let config = parse(
        r#"
        [settings]
        default_keys = false

        [keys]
        "Alt + Q" = "debug"
        "#,
    )
    .unwrap();

    // Should only have our custom key, not the defaults
    assert_eq!(config.keys.len(), 1);
    let (hotkey, _cmd) = &config.keys[0];
    assert_eq!(hotkey.text, "Alt + KeyQ");
}

#[test]
fn default_keys_true_includes_default_bindings() {
    let config = parse(
        r#"
        [settings]
        default_keys = true

        [keys]
        "Alt + Q" = "debug"
        "#,
    )
    .unwrap();

    // Should have default keys plus our custom key
    let default_key_count = default_config().keys.len();
    assert_eq!(config.keys.len(), default_key_count + 1);

    // Our custom key should be present
    assert!(has_key(&config, "Alt + KeyQ"));
}

#[test]
fn missing_keys_section_includes_default_bindings() {
    let config = parse(
        r#"
        [settings]
        animate = false
        "#,
    )
    .unwrap();

    assert_eq!(config.keys.len(), default_config().keys.len());
    assert!(!config.settings.animate);
}

#[test]
fn disable_removes_key_binding() {
    let config = parse(
        r#"
        [settings]
        default_keys = false

        [keys]
        "Alt + Q" = "debug"
        "Alt + W" = "disable"
        "#,
    )
    .unwrap();

    // "disable" key should not appear in final config
    assert_eq!(config.keys.len(), 1);
    assert!(has_key(&config, "Alt + KeyQ"));
    assert!(!has_key(&config, "Alt + KeyW"));
}

#[test]
fn disable_can_override_default_key() {
    // First verify Alt+H exists in defaults
    assert!(
        has_key(&default_config(), "Alt + KeyH"),
        "Alt+H should be a default key binding"
    );

    let config = parse(
        r#"
        [settings]
        default_keys = true

        [keys]
        "Alt + H" = "disable"
        "#,
    )
    .unwrap();

    // Alt+H should be removed even though it's in defaults
    assert!(!has_key(&config, "Alt + KeyH"));
    // But other default keys should still be present
    assert!(has_key(&config, "Alt + KeyJ"));
}

#[test]
fn exec_cmd_options_parse() {
    let config = parse(
        r#"
        [settings]
        default_keys = false

        [keys]
        "Alt + Q" = { exec = ["bash", "-c", "echo hi"] }
        "Alt + W" = { exec = { cmd = ["bash", "-c", "echo hi"], unsafe_privileged = true } }
        "#,
    )
    .unwrap();

    let cmd_q = &config
        .keys
        .iter()
        .find(|(hk, _)| hk.text == "Alt + KeyQ")
        .expect("Alt + KeyQ should be present")
        .1;
    let WmCommand::Wm(WmCmd::Exec(exec_cmd)) = cmd_q else {
        panic!("Expected exec command; got {cmd_q:?}");
    };
    assert_eq!(
        exec_cmd.clone().normalize(),
        NormalizedExecCmd {
            cmd_args: vec!["bash".to_owned(), "-c".to_owned(), "echo hi".to_owned()],
            unsafe_privileged: false,
        }
    );

    let cmd_w = &config
        .keys
        .iter()
        .find(|(hk, _)| hk.text == "Alt + KeyW")
        .expect("Alt + KeyW should be present")
        .1;
    let WmCommand::Wm(WmCmd::Exec(exec_cmd)) = cmd_w else {
        panic!("Expected exec command; got {cmd_w:?}");
    };
    assert_eq!(
        exec_cmd.clone().normalize(),
        NormalizedExecCmd {
            cmd_args: vec!["bash".to_owned(), "-c".to_owned(), "echo hi".to_owned()],
            unsafe_privileged: true,
        }
    );
}

#[test]
fn aspect_ratio_from_str_valid() {
    let ar = ratio("16:9").unwrap();
    assert_eq!(value(ar.width), 16.0);
    assert_eq!(value(ar.height), 9.0);
}

#[test]
fn aspect_ratio_from_str_with_spaces() {
    let ar = ratio(" 4 : 3 ").unwrap();
    assert_eq!(value(ar.width), 4.0);
    assert_eq!(value(ar.height), 3.0);
}

#[test]
fn aspect_ratio_from_str_invalid() {
    assert!(ratio("16x9").is_err());
    assert!(ratio("0:9").is_err());
    assert!(ratio("16:-1").is_err());
    assert!(ratio("abc:def").is_err());
}

#[test]
fn arrow_keys_parse_correctly() {
    let config = parse(
        r#"
        [settings]
        default_keys = false

        [keys]
        "Alt + ArrowLeft" = { move_focus = "left" }
        "Alt + ArrowDown" = { move_focus = "down" }
        "Alt + ArrowUp" = { move_focus = "up" }
        "Alt + ArrowRight" = { move_focus = "right" }
        "#,
    )
    .unwrap();

    // Should have all 4 arrow key bindings
    assert_eq!(config.keys.len(), 4);

    // Verify all arrow keys are present
    assert!(has_key(&config, "Alt + ArrowLeft"));
    assert!(has_key(&config, "Alt + ArrowDown"));
    assert!(has_key(&config, "Alt + ArrowUp"));
    assert!(has_key(&config, "Alt + ArrowRight"));
}

#[test]
fn aspect_ratio_errors_say_what_is_wrong() {
    assert_eq!(ratio("16x9").unwrap_err().message(), "expected 'W:H' format, got \"16x9\"");
    assert_eq!(ratio("a b:9").unwrap_err().message(), "invalid width: \"a b\"");
    assert_eq!(ratio("16: x").unwrap_err().message(), "invalid height: \" x\"");
    assert_eq!(ratio("x:y").unwrap_err(), AspectRatioError::Width("\"x\"".into()));
    assert_eq!(
        ratio("16:-1").unwrap_err().message(),
        "aspect ratio values must be positive"
    );
    assert_eq!(ratio("1:2:3").unwrap_err(), AspectRatioError::Height("\"2:3\"".into()));
    assert!(ratio("nan:1").is_ok());
}

fn scroll() -> ScrollConfig {
    default_config().settings.experimental.scroll
}

#[test]
fn a_single_column_may_have_an_aspect_ratio() {
    let mut config = scroll();
    assert_eq!(config.aspect_ratio(Some(number(16.0)), Some(number(9.0))), None);
    config.single_column_aspect_ratio = "16:9".into();
    assert_eq!(
        config.aspect_ratio(Some(number(16.0)), Some(number(9.0))),
        Some(AspectRatio { width: number(16.0), height: number(9.0) })
    );
    assert_eq!(config.aspect_ratio(Some(number(16.0)), None), None);
    config.single_column_aspect_ratio = "wide".into();
    assert_eq!(config.aspect_ratio(None, None), None);
}

#[test]
fn values_are_brought_into_range() {
    let mut config = scroll();
    config.visible_columns = 0;
    config.scroll_sensitivity = number(-3.0);
    config.column_width_presets =
        [0.0, 0.25, 1.0, 1.5, -1.0, f64::NAN, 0.5].into_iter().map(number).collect();
    let valid = config.validated();
    assert_eq!(valid.visible_columns, 1);
    assert_eq!(value(valid.scroll_sensitivity), 0.0);
    assert_eq!(valid.column_width_presets, vec![number(0.25), number(1.0), number(0.5)]);
    let mut again = valid;
    again.visible_columns = 9;
    again.scroll_sensitivity = number(250.0);
    let valid = again.validated();
    assert_eq!(valid.visible_columns, 5);
    assert_eq!(value(valid.scroll_sensitivity), 100.0);
    assert_eq!(valid.column_width_presets, vec![number(0.25), number(1.0), number(0.5)]);
    assert!(value(
        ScrollConfig { scroll_sensitivity: number(f64::NAN), ..valid }
            .validated()
            .scroll_sensitivity
    )
    .is_nan());
}

#[test]
fn hidden_bars_take_no_space() {
    let bars = GroupBars {
        enable: true,
        thickness: number(6.0),
        horizontal_placement: HorizontalPlacement::Top,
        vertical_placement: VerticalPlacement::Left,
    };
    assert_eq!(value(bars.indicator_thickness()), 6.0);
    assert_eq!(value(GroupBars { enable: false, ..bars }.indicator_thickness()), 0.0);
}

#[test]
fn a_missing_setting_is_named() {
    let mut config = defaults();
    config.settings.inner_gap = None;
    config.settings.experimental.scroll.infinite_loop = None;
    let error = config.validate().unwrap_err();
    assert_eq!(error.message, "missing setting: inner_gap");
    assert_eq!(error.span, None);
    let mut config = defaults();
    config.settings.experimental.scroll.infinite_loop = None;
    assert_eq!(
        config.validate().unwrap_err().message,
        "missing setting: experimental.scroll.infinite_loop"
    );
}

#[test]
fn an_unknown_key_is_reported_before_a_missing_setting() {
    let mut config = partial(
        r#"
        [keys]
        "Alt + Nonsense" = "debug"
        "#,
    )
    .unwrap();
    config.settings.animate = None;
    assert_eq!(
        config.validate().unwrap_err().message,
        "Could not parse hotkey: Alt + Nonsense"
    );
}

#[test]
fn a_disabled_key_need_not_be_one() {
    let config = parse(
        r#"
        [keys]
        "Alt + Nonsense" = "disable"
        "#,
    )
    .unwrap();
    assert_eq!(config.keys.len(), default_config().keys.len());
}

#[test]
fn the_users_binding_takes_the_place_of_the_default_one() {
    let config = parse(
        r#"
        [keys]
        "Alt + H" = "debug"
        "#,
    )
    .unwrap();
    assert_eq!(config.keys.len(), default_config().keys.len());
    let (_, command) = config.keys.iter().find(|(hk, _)| hk.text == "Alt + KeyH").unwrap();
    assert!(matches!(command, WmCommand::ReactorCommand(ReactorCommand::Debug)));
}

#[test]
fn unspecified_default_keys_follow_the_defaults() {
    let user = "[keys]\n\"Alt + Q\" = \"debug\"";
    let mut without = defaults();
    without.settings.default_keys = Some(false);
    let config = Config::parse(without, partial(user).unwrap()).unwrap();
    assert_eq!(config.keys.len(), 1);
    assert_eq!(parse(user).unwrap().keys.len(), 5);
}

#[test]
fn rules_of_the_user_replace_the_default_ones() {
    let mut with_rule = defaults();
    with_rule.window_rules = partial("window_rules = [{ float = true }]").unwrap().window_rules;
    let config = Config::parse(with_rule, partial("window_rules = []").unwrap()).unwrap();
    assert!(config.window_rules.is_empty());
    let mut with_rule = defaults();
    with_rule.window_rules = partial("window_rules = [{ float = true }]").unwrap().window_rules;
    let config = Config::parse(with_rule, partial("").unwrap()).unwrap();
    assert_eq!(config.window_rules.len(), 1);
}

#[test]
fn merging_prefers_what_is_there() {
    let mut high = SettingsPartial::default();
    high.outer_gap = Some(number(4.0));
    high.group_bars.enable = Some(true);
    high.experimental.scroll.visible_columns = Some(3);
    let settings = SettingsPartial::merge(default_settings(), high).validate().unwrap();
    assert_eq!(value(settings.outer_gap), 4.0);
    assert_eq!(value(settings.inner_gap), 0.0);
    assert!(settings.group_bars.enable);
    assert_eq!(value(settings.group_bars.thickness), 6.0);
    assert_eq!(settings.experimental.scroll.visible_columns, 3);
}

#[test]
fn bindings_are_collected_in_order() {
    let binding = |key: &str, command, hotkey| ParsedBinding {
        key: key.to_owned(),
        command,
        hotkey,
    };
    let debug =
        || WmCommandOrDisable::WmCommand(WmCommand::ReactorCommand(ReactorCommand::Debug));
    let disabled = || WmCommandOrDisable::Disable(Disabled::Disable);
    let hotkey = || {
        let config = parse("").unwrap();
        config.keys.into_iter().next().map(|(hk, _)| hk)
    };
    let keys = collect_keys(vec![
        binding("a", disabled(), None),
        binding("b", debug(), hotkey()),
        binding("c", disabled(), hotkey()),
    ])
    .unwrap();
    assert_eq!(keys.len(), 1);
    let error = collect_keys(vec![
        binding("a", debug(), hotkey()),
        binding("b", debug(), None),
        binding("c", debug(), None),
    ])
    .unwrap_err();
    assert_eq!(error.message, "Could not parse hotkey: b");
    assert!(collect_keys(vec![]).unwrap().is_empty());
}

#[test]
fn patterns_ignore_case_and_compare_by_text() {
    let dialog = ConfigRegex::from_pattern("dia.og").unwrap();
    assert!((*dialog).is_match("A DIALOG here"));
    assert!(dialog.is_match("A DIALOG here"));
    assert!(!dialog.is_match("diaog"));
    assert_eq!(dialog.as_str(), "dia.og");
    assert!(dialog == ConfigRegex::from_pattern("dia.og").unwrap());
    assert!(dialog != ConfigRegex::from_pattern("DIA.og").unwrap());
    assert!(ConfigRegex::from_pattern("(").unwrap_err().contains("regex parse error"));
    let outcome = Err("no".to_owned());
    assert_eq!(ConfigRegex::from_outcome("x", outcome).unwrap_err(), "no");
    let outcome = Ok(regex::Regex::new("x").unwrap());
    assert_eq!(ConfigRegex::from_outcome("x", outcome).unwrap().as_str(), "x");
}

#[test]
fn copies_are_equal_and_numbers_compare_as_numbers() {
    let dialog = ConfigRegex::from_pattern("dia.og").unwrap();
    let copy = dialog.clone();
    assert!(copy == dialog);
    assert!(copy.is_match("A DIALOG here"));
    let conditions = WindowRuleConditions { title_regex: Some(copy), ..Default::default() };
    let rule = WindowRule { conditions, float: true };
    assert!(rule.clone() == rule);
    let zero = ScrollConfig { scroll_sensitivity: number(0.0), ..scroll() };
    assert!(zero.clone() == zero);
    let minus_zero = ScrollConfig { scroll_sensitivity: number(-0.0), ..scroll() };
    assert!(zero == minus_zero);
    let no_number = ScrollConfig { scroll_sensitivity: number(f64::NAN), ..scroll() };
    assert!(no_number.clone() != no_number);
}

#[test]
fn words_are_found_in_any_case() {
    let dialog = ConfigRegex::from_str("Dialog").unwrap();
    assert!(dialog.is_match("a DIALOG"));
    assert!(dialog.is_match("dialogs"));
    assert!(!dialog.is_match("a DIALO"));
    assert!(!dialog.is_match(""));
    let mask = ConfigRegex::from_str("mask").unwrap();
    assert!(mask.is_match("MA\u{17f}\u{212a}"));
    let upper = ConfigRegex::from_str("MASK").unwrap();
    assert!(upper.is_match("ma\u{17f}\u{212a}"));
    assert!(upper.is_match("mask"));
    let mut alphabet = String::new();
    for c in 'a'..='z' {
        alphabet.push(c);
    }
    assert!(ConfigRegex::from_str(&alphabet).unwrap().is_match(&alphabet.to_uppercase()));
    assert!(ConfigRegex::from_str(&alphabet.to_uppercase()).unwrap().is_match(&alphabet));
    assert!(ConfigRegex::from_str("").unwrap().is_match(""));
}

#[test]
fn files_are_below_the_home_directory() {
    assert_eq!(data_dir("/home/me"), "/home/me/.glide");
    assert_eq!(restore_file("/home/me"), "/home/me/.glide/layout.ron");
    assert_eq!(
        default_config_paths("/home/me"),
        vec!["/home/me/.config/glide/glide.toml", "/home/me/.glide.toml"]
    );
    assert_eq!(data_dir("/"), "/.glide");
}

#[test]
fn the_first_configuration_that_is_there_is_taken() {
    let xdg = "/h/.config/glide/glide.toml";
    let legacy = "/h/.glide.toml";
    assert_eq!(config_path("/h", &vec![true, true]), xdg);
    assert_eq!(config_path("/h", &vec![true, false]), xdg);
    assert_eq!(config_path("/h", &vec![false, true]), legacy);
    assert_eq!(config_path("/h", &vec![false, false]), xdg);
}

fn step(custom: Option<&str>, outcomes: Vec<OpenOutcome>) -> String {
    match Config::load(custom, "/h", &outcomes) {
        LoadStep::Open(path) => format!("open {path}"),
        LoadStep::Read(path) => format!("read {path}"),
        LoadStep::UseDefault => "default".to_owned(),
        LoadStep::Fail => "fail".to_owned(),
    }
}

#[test]
fn loading_tries_the_usual_places() {
    let (opened, absent, failed) =
        (OpenOutcome::Opened, OpenOutcome::NotFound, OpenOutcome::Failed);
    assert_eq!(step(None, vec![]), "open /h/.config/glide/glide.toml");
    assert_eq!(step(None, vec![opened]), "read /h/.config/glide/glide.toml");
    assert_eq!(step(None, vec![absent]), "open /h/.glide.toml");
    assert_eq!(step(None, vec![absent, opened]), "read /h/.glide.toml");
    assert_eq!(step(None, vec![absent, absent]), "default");
    assert_eq!(step(None, vec![failed]), "fail");
    assert_eq!(step(None, vec![absent, failed]), "fail");
}

#[test]
fn a_file_that_is_named_has_to_be_there() {
    assert_eq!(step(Some("/x.toml"), vec![]), "open /x.toml");
    assert_eq!(step(Some("/x.toml"), vec![OpenOutcome::Opened]), "read /x.toml");
    assert_eq!(step(Some("/x.toml"), vec![OpenOutcome::NotFound]), "fail");
    assert_eq!(step(Some("/x.toml"), vec![OpenOutcome::Failed]), "fail");
}

#[test]
fn errors_without_a_place_are_one_line() {
    let error = SpannedError { message: "bad".to_owned(), span: None };
    assert!(fits(&error, ""));
    assert_eq!(format_toml_error(error, "", "/x.toml"), "could not parse config: bad");
}

#[test]
fn errors_with_a_place_show_it() {
    let input = "animate = maybe\n";
    let error =
        SpannedError { message: "no boolean".to_owned(), span: Some(Span { start: 10, end: 15 }) };
    assert!(fits(&error, input));
    let report = format_toml_error(error, input, "/x.toml");
    assert!(report.contains("could not parse config"));
    assert!(report.contains("no boolean"));
    assert!(report.contains("/x.toml"));
    assert!(report.contains("animate = maybe"));
    assert!(report.contains("^^^^^"));
}

#[test]
fn places_that_split_a_character_do_not_fit() {
    let error = |start, end| SpannedError {
        message: String::new(),
        span: Some(Span { start, end }),
    };
    assert!(fits(&error(0, 2), "\u{e9}x"));
    assert!(!fits(&error(1, 2), "\u{e9}x"));
    assert!(!fits(&error(2, 0), "\u{e9}x"));
    assert!(!fits(&error(0, 9), "\u{e9}x"));
    assert!(fits(&error(3, 3), "\u{e9}x"));
}

#[test]
fn commands_can_toggle_spaces() {
    let config = parse(
        r#"
        [keys]
        "Meta + Shift + Z" = "toggle_space_activated"
        "#,
    )
    .unwrap();
    let (_, command) =
        config.keys.iter().find(|(hk, _)| hk.text == "Meta + Shift + KeyZ").unwrap();
    assert!(matches!(command, WmCommand::Wm(WmCmd::ToggleSpaceActivated)));
}
