//! Configurations that name only some settings.
//!
//! Every settings type has a partial form in which each setting may be missing.
//! Two partial forms are merged setting by setting; one in which nothing is
//! missing makes a complete type.

use vstd::prelude::*;

use crate::config::{
    CenterMode, Experimental, GroupBars, HorizontalPlacement, NewWindowPlacement, ScrollConfig,
    Settings, StatusIcon, StatusIconExperimental, VerticalPlacement,
};
use crate::model::{LayoutKind, RootOrientation};
use crate::sys::geometry::CGFloat;

verus! {

/// The value of `high`, or else that of `low`.
#[verifier::opaque]
pub open spec fn preferred<T>(low: Option<T>, high: Option<T>) -> Option<T> {
    if high is Some {
        high
    } else {
        low
    }
}

/// Picks the value of `high`, or else that of `low`.
pub fn prefer<T>(low: Option<T>, high: Option<T>) -> (value: Option<T>)
    ensures
        value == preferred(low, high),
{
    reveal(preferred);
    match high {
        Some(value) => Some(value),
        None => low,
    }
}

/// The upper value counts where there is one, and the lower one where there is
/// none.
pub proof fn the_upper_value_is_picked<T>(low: Option<T>, high: Option<T>, value: Option<T>)
    requires
        call_ensures(prefer::<T>, (low, high), value),
    ensures
        high is Some ==> value == high,
        high is None ==> value == low,
{
    reveal(preferred);
}

/// A missing value gives way to the other one.
pub broadcast proof fn preferring_none<T>(value: Option<T>)
    ensures
        #[trigger] preferred(value, None) == value,
        #[trigger] preferred(None, value) == value,
{
    reveal(preferred);
}

/// A value is there if it is there on either side.
pub broadcast proof fn preferring_keeps<T>(low: Option<T>, high: Option<T>)
    ensures
        (#[trigger] preferred(low, high)) is None <==> low is None && high is None,
{
    reveal(preferred);
}

/// Preferring does not depend on which two values are taken first.
pub broadcast proof fn preferring_is_associative<T>(a: Option<T>, b: Option<T>, c: Option<T>)
    ensures
        #[trigger] preferred(preferred(a, b), c) == preferred(a, preferred(b, c)),
{
    reveal(preferred);
}

/// A setting that is missing.
#[derive(Debug)]
pub struct ValidationError {
    /// The name of the setting.
    pub field: String,
}

impl ValidationError {
    /// What is said to the user.
    pub open spec fn text(self) -> Seq<char> {
        "missing setting: "@ + self.field@
    }

    /// What is said to the user.
    pub fn message(&self) -> (message: String)
        ensures
            message@ == self.text(),
    {
        "missing setting: ".to_owned().concat(self.field.as_str())
    }
}

fn missing(field: &str) -> (error: ValidationError)
    ensures
        error.field@ == field@,
{
    ValidationError { field: field.to_owned() }
}

/// The name of a setting, if it is missing.
pub open spec fn unless<T>(value: Option<T>, name: Seq<char>) -> Option<Seq<char>> {
    if value is Some {
        None
    } else {
        Some(name)
    }
}

/// Settings of the status icon that a configuration names.
#[derive(Debug)]
pub struct StatusIconPartial {
    pub enable: Option<bool>,
}

impl StatusIconPartial {
    /// No setting at all.
    pub open spec fn nothing() -> StatusIconPartial {
        StatusIconPartial {
            enable: None,
        }
    }

    /// Each setting of `high`, or else that of `low`.
    pub open spec fn merged(low: StatusIconPartial, high: StatusIconPartial) -> StatusIconPartial {
        StatusIconPartial {
            enable: preferred(low.enable, high.enable),
        }
    }

    /// The first setting that is missing.
    pub open spec fn first_missing(self) -> Option<Seq<char>> {
        unless(self.enable, "status_icon.enable"@)
    }

    /// The complete settings, if none is missing.
    pub open spec fn complete(self) -> StatusIcon {
        StatusIcon {
            enable: self.enable->0,
        }
    }

    /// Lays the settings of `high` over those of `low`.
    pub fn merge(low: StatusIconPartial, high: StatusIconPartial) -> (all: StatusIconPartial)
        ensures
            all == StatusIconPartial::merged(low, high),
    {
        StatusIconPartial {
            enable: prefer(low.enable, high.enable),
        }
    }

    /// Makes the complete settings, or says what is missing first.
    pub fn validate(self) -> (result: Result<StatusIcon, ValidationError>)
        ensures
            match result {
                Ok(settings) => self.first_missing() is None && settings == self.complete(),
                Err(error) => self.first_missing() == Some(error.field@),
            },
    {
        let enable = match self.enable {
            Some(value) => value,
            None => return Err(missing("status_icon.enable")),
        };
        Ok(StatusIcon { enable })
    }
}

impl Default for StatusIconPartial {
    fn default() -> (nothing: StatusIconPartial)
        ensures
            nothing == StatusIconPartial::nothing(),
    {
        StatusIconPartial {
            enable: None,
        }
    }
}

/// Experimental settings of the status icon that a configuration names.
#[derive(Debug)]
pub struct StatusIconExperimentalPartial {
    pub space_index: Option<bool>,
    pub color: Option<bool>,
    pub enable: Option<bool>,
}

impl StatusIconExperimentalPartial {
    /// No setting at all.
    pub open spec fn nothing() -> StatusIconExperimentalPartial {
        StatusIconExperimentalPartial {
            space_index: None,
            color: None,
            enable: None,
        }
    }

    /// Each setting of `high`, or else that of `low`.
    pub open spec fn merged(low: StatusIconExperimentalPartial, high: StatusIconExperimentalPartial) -> StatusIconExperimentalPartial {
        StatusIconExperimentalPartial {
            space_index: preferred(low.space_index, high.space_index),
            color: preferred(low.color, high.color),
            enable: preferred(low.enable, high.enable),
        }
    }

    /// The first setting that is missing.
    pub open spec fn first_missing(self) -> Option<Seq<char>> {
        if unless(self.space_index, "experimental.status_icon.space_index"@) is Some {
            unless(self.space_index, "experimental.status_icon.space_index"@)
        } else if unless(self.color, "experimental.status_icon.color"@) is Some {
            unless(self.color, "experimental.status_icon.color"@)
        } else {
            unless(self.enable, "experimental.status_icon.enable"@)
        }
    }

    /// The complete settings, if none is missing.
    pub open spec fn complete(self) -> StatusIconExperimental {
        StatusIconExperimental {
            space_index: self.space_index->0,
            color: self.color->0,
            enable: self.enable->0,
        }
    }

    /// Lays the settings of `high` over those of `low`.
    pub fn merge(low: StatusIconExperimentalPartial, high: StatusIconExperimentalPartial) -> (all: StatusIconExperimentalPartial)
        ensures
            all == StatusIconExperimentalPartial::merged(low, high),
    {
        StatusIconExperimentalPartial {
            space_index: prefer(low.space_index, high.space_index),
            color: prefer(low.color, high.color),
            enable: prefer(low.enable, high.enable),
        }
    }

    /// Makes the complete settings, or says what is missing first.
    pub fn validate(self) -> (result: Result<StatusIconExperimental, ValidationError>)
        ensures
            match result {
                Ok(settings) => self.first_missing() is None && settings == self.complete(),
                Err(error) => self.first_missing() == Some(error.field@),
            },
    {
        let space_index = match self.space_index {
            Some(value) => value,
            None => return Err(missing("experimental.status_icon.space_index")),
        };
        let color = match self.color {
            Some(value) => value,
            None => return Err(missing("experimental.status_icon.color")),
        };
        let enable = match self.enable {
            Some(value) => value,
            None => return Err(missing("experimental.status_icon.enable")),
        };
        Ok(StatusIconExperimental { space_index, color, enable })
    }
}

impl Default for StatusIconExperimentalPartial {
    fn default() -> (nothing: StatusIconExperimentalPartial)
        ensures
            nothing == StatusIconExperimentalPartial::nothing(),
    {
        StatusIconExperimentalPartial {
            space_index: None,
            color: None,
            enable: None,
        }
    }
}

/// Settings of the group bars that a configuration names.
#[derive(Debug)]
pub struct GroupBarsPartial {
    pub enable: Option<bool>,
    pub thickness: Option<CGFloat>,
    pub horizontal_placement: Option<HorizontalPlacement>,
    pub vertical_placement: Option<VerticalPlacement>,
}

impl GroupBarsPartial {
    /// No setting at all.
    pub open spec fn nothing() -> GroupBarsPartial {
        GroupBarsPartial {
            enable: None,
            thickness: None,
            horizontal_placement: None,
            vertical_placement: None,
        }
    }

    /// Each setting of `high`, or else that of `low`.
    pub open spec fn merged(low: GroupBarsPartial, high: GroupBarsPartial) -> GroupBarsPartial {
        GroupBarsPartial {
            enable: preferred(low.enable, high.enable),
            thickness: preferred(low.thickness, high.thickness),
            horizontal_placement: preferred(low.horizontal_placement, high.horizontal_placement),
            vertical_placement: preferred(low.vertical_placement, high.vertical_placement),
        }
    }

    /// The first setting that is missing.
    pub open spec fn first_missing(self) -> Option<Seq<char>> {
        if unless(self.enable, "group_bars.enable"@) is Some {
            unless(self.enable, "group_bars.enable"@)
        } else if unless(self.thickness, "group_bars.thickness"@) is Some {
            unless(self.thickness, "group_bars.thickness"@)
        } else if unless(self.horizontal_placement, "group_bars.horizontal_placement"@) is Some {
            unless(self.horizontal_placement, "group_bars.horizontal_placement"@)
        } else {
            unless(self.vertical_placement, "group_bars.vertical_placement"@)
        }
    }

    /// The complete settings, if none is missing.
    pub open spec fn complete(self) -> GroupBars {
        GroupBars {
            enable: self.enable->0,
            thickness: self.thickness->0,
            horizontal_placement: self.horizontal_placement->0,
            vertical_placement: self.vertical_placement->0,
        }
    }

    /// Lays the settings of `high` over those of `low`.
    pub fn merge(low: GroupBarsPartial, high: GroupBarsPartial) -> (all: GroupBarsPartial)
        ensures
            all == GroupBarsPartial::merged(low, high),
    {
        GroupBarsPartial {
            enable: prefer(low.enable, high.enable),
            thickness: prefer(low.thickness, high.thickness),
            horizontal_placement: prefer(low.horizontal_placement, high.horizontal_placement),
            vertical_placement: prefer(low.vertical_placement, high.vertical_placement),
        }
    }

    /// Makes the complete settings, or says what is missing first.
    pub fn validate(self) -> (result: Result<GroupBars, ValidationError>)
        ensures
            match result {
                Ok(settings) => self.first_missing() is None && settings == self.complete(),
                Err(error) => self.first_missing() == Some(error.field@),
            },
    {
        let enable = match self.enable {
            Some(value) => value,
            None => return Err(missing("group_bars.enable")),
        };
        let thickness = match self.thickness {
            Some(value) => value,
            None => return Err(missing("group_bars.thickness")),
        };
        let horizontal_placement = match self.horizontal_placement {
            Some(value) => value,
            None => return Err(missing("group_bars.horizontal_placement")),
        };
        let vertical_placement = match self.vertical_placement {
            Some(value) => value,
            None => return Err(missing("group_bars.vertical_placement")),
        };
        Ok(GroupBars { enable, thickness, horizontal_placement, vertical_placement })
    }
}

impl Default for GroupBarsPartial {
    fn default() -> (nothing: GroupBarsPartial)
        ensures
            nothing == GroupBarsPartial::nothing(),
    {
        GroupBarsPartial {
            enable: None,
            thickness: None,
            horizontal_placement: None,
            vertical_placement: None,
        }
    }
}

/// Settings of the scroll layout that a configuration names.
#[derive(Debug)]
pub struct ScrollConfigPartial {
    pub enable: Option<bool>,
    pub center_focused_column: Option<CenterMode>,
    pub visible_columns: Option<u32>,
    pub column_width_presets: Option<Vec<CGFloat>>,
    pub new_window_in_column: Option<NewWindowPlacement>,
    pub scroll_sensitivity: Option<CGFloat>,
    pub invert_scroll_direction: Option<bool>,
    pub infinite_loop: Option<bool>,
    pub single_column_aspect_ratio: Option<String>,
}

impl ScrollConfigPartial {
    /// No setting at all.
    pub open spec fn nothing() -> ScrollConfigPartial {
        ScrollConfigPartial {
            enable: None,
            center_focused_column: None,
            visible_columns: None,
            column_width_presets: None,
            new_window_in_column: None,
            scroll_sensitivity: None,
            invert_scroll_direction: None,
            infinite_loop: None,
            single_column_aspect_ratio: None,
        }
    }

    /// Each setting of `high`, or else that of `low`.
    pub open spec fn merged(low: ScrollConfigPartial, high: ScrollConfigPartial) -> ScrollConfigPartial {
        ScrollConfigPartial {
            enable: preferred(low.enable, high.enable),
            center_focused_column: preferred(low.center_focused_column, high.center_focused_column),
            visible_columns: preferred(low.visible_columns, high.visible_columns),
            column_width_presets: preferred(low.column_width_presets, high.column_width_presets),
            new_window_in_column: preferred(low.new_window_in_column, high.new_window_in_column),
            scroll_sensitivity: preferred(low.scroll_sensitivity, high.scroll_sensitivity),
            invert_scroll_direction: preferred(low.invert_scroll_direction, high.invert_scroll_direction),
            infinite_loop: preferred(low.infinite_loop, high.infinite_loop),
            single_column_aspect_ratio: preferred(low.single_column_aspect_ratio, high.single_column_aspect_ratio),
        }
    }

    /// The first setting that is missing.
    pub open spec fn first_missing(self) -> Option<Seq<char>> {
        if unless(self.enable, "experimental.scroll.enable"@) is Some {
            unless(self.enable, "experimental.scroll.enable"@)
        } else if unless(self.center_focused_column, "experimental.scroll.center_focused_column"@) is Some {
            unless(self.center_focused_column, "experimental.scroll.center_focused_column"@)
        } else if unless(self.visible_columns, "experimental.scroll.visible_columns"@) is Some {
            unless(self.visible_columns, "experimental.scroll.visible_columns"@)
        } else if unless(self.column_width_presets, "experimental.scroll.column_width_presets"@) is Some {
            unless(self.column_width_presets, "experimental.scroll.column_width_presets"@)
        } else if unless(self.new_window_in_column, "experimental.scroll.new_window_in_column"@) is Some {
            unless(self.new_window_in_column, "experimental.scroll.new_window_in_column"@)
        } else if unless(self.scroll_sensitivity, "experimental.scroll.scroll_sensitivity"@) is Some {
            unless(self.scroll_sensitivity, "experimental.scroll.scroll_sensitivity"@)
        } else if unless(self.invert_scroll_direction, "experimental.scroll.invert_scroll_direction"@) is Some {
            unless(self.invert_scroll_direction, "experimental.scroll.invert_scroll_direction"@)
        } else if unless(self.infinite_loop, "experimental.scroll.infinite_loop"@) is Some {
            unless(self.infinite_loop, "experimental.scroll.infinite_loop"@)
        } else {
            unless(self.single_column_aspect_ratio, "experimental.scroll.single_column_aspect_ratio"@)
        }
    }

    /// The complete settings, if none is missing.
    pub open spec fn complete(self) -> ScrollConfig {
        ScrollConfig {
            enable: self.enable->0,
            center_focused_column: self.center_focused_column->0,
            visible_columns: self.visible_columns->0,
            column_width_presets: self.column_width_presets->0,
            new_window_in_column: self.new_window_in_column->0,
            scroll_sensitivity: self.scroll_sensitivity->0,
            invert_scroll_direction: self.invert_scroll_direction->0,
            infinite_loop: self.infinite_loop->0,
            single_column_aspect_ratio: self.single_column_aspect_ratio->0,
        }
    }

    /// Lays the settings of `high` over those of `low`.
    pub fn merge(low: ScrollConfigPartial, high: ScrollConfigPartial) -> (all: ScrollConfigPartial)
        ensures
            all == ScrollConfigPartial::merged(low, high),
    {
        ScrollConfigPartial {
            enable: prefer(low.enable, high.enable),
            center_focused_column: prefer(low.center_focused_column, high.center_focused_column),
            visible_columns: prefer(low.visible_columns, high.visible_columns),
            column_width_presets: prefer(low.column_width_presets, high.column_width_presets),
            new_window_in_column: prefer(low.new_window_in_column, high.new_window_in_column),
            scroll_sensitivity: prefer(low.scroll_sensitivity, high.scroll_sensitivity),
            invert_scroll_direction: prefer(low.invert_scroll_direction, high.invert_scroll_direction),
            infinite_loop: prefer(low.infinite_loop, high.infinite_loop),
            single_column_aspect_ratio: prefer(low.single_column_aspect_ratio, high.single_column_aspect_ratio),
        }
    }

    /// Makes the complete settings, or says what is missing first.
    pub fn validate(self) -> (result: Result<ScrollConfig, ValidationError>)
        ensures
            match result {
                Ok(settings) => self.first_missing() is None && settings == self.complete(),
                Err(error) => self.first_missing() == Some(error.field@),
            },
    {
        let enable = match self.enable {
            Some(value) => value,
            None => return Err(missing("experimental.scroll.enable")),
        };
        let center_focused_column = match self.center_focused_column {
            Some(value) => value,
            None => return Err(missing("experimental.scroll.center_focused_column")),
        };
        let visible_columns: u32 = match self.visible_columns {
            Some(value) => value,
            None => return Err(missing("experimental.scroll.visible_columns")),
        };
        let column_width_presets = match self.column_width_presets {
            Some(value) => value,
            None => return Err(missing("experimental.scroll.column_width_presets")),
        };
        let new_window_in_column = match self.new_window_in_column {
            Some(value) => value,
            None => return Err(missing("experimental.scroll.new_window_in_column")),
        };
        let scroll_sensitivity = match self.scroll_sensitivity {
            Some(value) => value,
            None => return Err(missing("experimental.scroll.scroll_sensitivity")),
        };
        let invert_scroll_direction = match self.invert_scroll_direction {
            Some(value) => value,
            None => return Err(missing("experimental.scroll.invert_scroll_direction")),
        };
        let infinite_loop = match self.infinite_loop {
            Some(value) => value,
            None => return Err(missing("experimental.scroll.infinite_loop")),
        };
        let single_column_aspect_ratio = match self.single_column_aspect_ratio {
            Some(value) => value,
            None => return Err(missing("experimental.scroll.single_column_aspect_ratio")),
        };
        Ok(ScrollConfig { enable, center_focused_column, visible_columns, column_width_presets, new_window_in_column, scroll_sensitivity, invert_scroll_direction, infinite_loop, single_column_aspect_ratio })
    }
}

impl Default for ScrollConfigPartial {
    fn default() -> (nothing: ScrollConfigPartial)
        ensures
            nothing == ScrollConfigPartial::nothing(),
    {
        ScrollConfigPartial {
            enable: None,
            center_focused_column: None,
            visible_columns: None,
            column_width_presets: None,
            new_window_in_column: None,
            scroll_sensitivity: None,
            invert_scroll_direction: None,
            infinite_loop: None,
            single_column_aspect_ratio: None,
        }
    }
}

/// Experimental settings that a configuration names.
#[derive(Debug)]
pub struct ExperimentalPartial {
    pub status_icon: StatusIconExperimentalPartial,
    pub scroll: ScrollConfigPartial,
}

impl ExperimentalPartial {
    /// No setting at all.
    pub open spec fn nothing() -> ExperimentalPartial {
        ExperimentalPartial {
            status_icon: StatusIconExperimentalPartial::nothing(),
            scroll: ScrollConfigPartial::nothing(),
        }
    }

    /// Each setting of `high`, or else that of `low`.
    pub open spec fn merged(low: ExperimentalPartial, high: ExperimentalPartial) -> ExperimentalPartial {
        ExperimentalPartial {
            status_icon: StatusIconExperimentalPartial::merged(low.status_icon, high.status_icon),
            scroll: ScrollConfigPartial::merged(low.scroll, high.scroll),
        }
    }

    /// The first setting that is missing.
    pub open spec fn first_missing(self) -> Option<Seq<char>> {
        if self.status_icon.first_missing() is Some {
            self.status_icon.first_missing()
        } else {
            self.scroll.first_missing()
        }
    }

    /// The complete settings, if none is missing.
    pub open spec fn complete(self) -> Experimental {
        Experimental {
            status_icon: self.status_icon.complete(),
            scroll: self.scroll.complete(),
        }
    }

    /// Lays the settings of `high` over those of `low`.
    pub fn merge(low: ExperimentalPartial, high: ExperimentalPartial) -> (all: ExperimentalPartial)
        ensures
            all == ExperimentalPartial::merged(low, high),
    {
        ExperimentalPartial {
            status_icon: StatusIconExperimentalPartial::merge(low.status_icon, high.status_icon),
            scroll: ScrollConfigPartial::merge(low.scroll, high.scroll),
        }
    }

    /// Makes the complete settings, or says what is missing first.
    pub fn validate(self) -> (result: Result<Experimental, ValidationError>)
        ensures
            match result {
                Ok(settings) => self.first_missing() is None && settings == self.complete(),
                Err(error) => self.first_missing() == Some(error.field@),
            },
    {
        let status_icon = match self.status_icon.validate() {
            Ok(value) => value,
            Err(error) => return Err(error),
        };
        let scroll = match self.scroll.validate() {
            Ok(value) => value,
            Err(error) => return Err(error),
        };
        Ok(Experimental { status_icon, scroll })
    }
}

impl Default for ExperimentalPartial {
    fn default() -> (nothing: ExperimentalPartial)
        ensures
            nothing == ExperimentalPartial::nothing(),
    {
        ExperimentalPartial {
            status_icon: StatusIconExperimentalPartial::default(),
            scroll: ScrollConfigPartial::default(),
        }
    }
}

/// Settings that a configuration names.
#[derive(Debug)]
pub struct SettingsPartial {
    pub animate: Option<bool>,
    pub default_disable: Option<bool>,
    pub mouse_follows_focus: Option<bool>,
    pub mouse_hides_on_focus: Option<bool>,
    pub focus_follows_mouse: Option<bool>,
    pub outer_gap: Option<CGFloat>,
    pub inner_gap: Option<CGFloat>,
    pub default_keys: Option<bool>,
    pub default_layout_kind: Option<LayoutKind>,
    pub default_root_orientation: Option<RootOrientation>,
    pub group_bars: GroupBarsPartial,
    pub status_icon: StatusIconPartial,
    pub experimental: ExperimentalPartial,
}

impl SettingsPartial {
    /// No setting at all.
    pub open spec fn nothing() -> SettingsPartial {
        SettingsPartial {
            animate: None,
            default_disable: None,
            mouse_follows_focus: None,
            mouse_hides_on_focus: None,
            focus_follows_mouse: None,
            outer_gap: None,
            inner_gap: None,
            default_keys: None,
            default_layout_kind: None,
            default_root_orientation: None,
            group_bars: GroupBarsPartial::nothing(),
            status_icon: StatusIconPartial::nothing(),
            experimental: ExperimentalPartial::nothing(),
        }
    }

    /// Each setting of `high`, or else that of `low`.
    pub open spec fn merged(low: SettingsPartial, high: SettingsPartial) -> SettingsPartial {
        SettingsPartial {
            animate: preferred(low.animate, high.animate),
            default_disable: preferred(low.default_disable, high.default_disable),
            mouse_follows_focus: preferred(low.mouse_follows_focus, high.mouse_follows_focus),
            mouse_hides_on_focus: preferred(low.mouse_hides_on_focus, high.mouse_hides_on_focus),
            focus_follows_mouse: preferred(low.focus_follows_mouse, high.focus_follows_mouse),
            outer_gap: preferred(low.outer_gap, high.outer_gap),
            inner_gap: preferred(low.inner_gap, high.inner_gap),
            default_keys: preferred(low.default_keys, high.default_keys),
            default_layout_kind: preferred(low.default_layout_kind, high.default_layout_kind),
            default_root_orientation: preferred(low.default_root_orientation, high.default_root_orientation),
            group_bars: GroupBarsPartial::merged(low.group_bars, high.group_bars),
            status_icon: StatusIconPartial::merged(low.status_icon, high.status_icon),
            experimental: ExperimentalPartial::merged(low.experimental, high.experimental),
        }
    }

    /// The first setting that is missing.
    pub open spec fn first_missing(self) -> Option<Seq<char>> {
        if unless(self.animate, "animate"@) is Some {
            unless(self.animate, "animate"@)
        } else if unless(self.default_disable, "default_disable"@) is Some {
            unless(self.default_disable, "default_disable"@)
        } else if unless(self.mouse_follows_focus, "mouse_follows_focus"@) is Some {
            unless(self.mouse_follows_focus, "mouse_follows_focus"@)
        } else if unless(self.mouse_hides_on_focus, "mouse_hides_on_focus"@) is Some {
            unless(self.mouse_hides_on_focus, "mouse_hides_on_focus"@)
        } else if unless(self.focus_follows_mouse, "focus_follows_mouse"@) is Some {
            unless(self.focus_follows_mouse, "focus_follows_mouse"@)
        } else if unless(self.outer_gap, "outer_gap"@) is Some {
            unless(self.outer_gap, "outer_gap"@)
        } else if unless(self.inner_gap, "inner_gap"@) is Some {
            unless(self.inner_gap, "inner_gap"@)
        } else if unless(self.default_keys, "default_keys"@) is Some {
            unless(self.default_keys, "default_keys"@)
        } else if unless(self.default_layout_kind, "default_layout_kind"@) is Some {
            unless(self.default_layout_kind, "default_layout_kind"@)
        } else if unless(self.default_root_orientation, "default_root_orientation"@) is Some {
            unless(self.default_root_orientation, "default_root_orientation"@)
        } else if self.group_bars.first_missing() is Some {
            self.group_bars.first_missing()
        } else if self.status_icon.first_missing() is Some {
            self.status_icon.first_missing()
        } else {
            self.experimental.first_missing()
        }
    }

    /// The complete settings, if none is missing.
    pub open spec fn complete(self) -> Settings {
        Settings {
            animate: self.animate->0,
            default_disable: self.default_disable->0,
            mouse_follows_focus: self.mouse_follows_focus->0,
            mouse_hides_on_focus: self.mouse_hides_on_focus->0,
            focus_follows_mouse: self.focus_follows_mouse->0,
            outer_gap: self.outer_gap->0,
            inner_gap: self.inner_gap->0,
            default_keys: self.default_keys->0,
            default_layout_kind: self.default_layout_kind->0,
            default_root_orientation: self.default_root_orientation->0,
            group_bars: self.group_bars.complete(),
            status_icon: self.status_icon.complete(),
            experimental: self.experimental.complete(),
        }
    }

    /// Lays the settings of `high` over those of `low`.
    pub fn merge(low: SettingsPartial, high: SettingsPartial) -> (all: SettingsPartial)
        ensures
            all == SettingsPartial::merged(low, high),
    {
        SettingsPartial {
            animate: prefer(low.animate, high.animate),
            default_disable: prefer(low.default_disable, high.default_disable),
            mouse_follows_focus: prefer(low.mouse_follows_focus, high.mouse_follows_focus),
            mouse_hides_on_focus: prefer(low.mouse_hides_on_focus, high.mouse_hides_on_focus),
            focus_follows_mouse: prefer(low.focus_follows_mouse, high.focus_follows_mouse),
            outer_gap: prefer(low.outer_gap, high.outer_gap),
            inner_gap: prefer(low.inner_gap, high.inner_gap),
            default_keys: prefer(low.default_keys, high.default_keys),
            default_layout_kind: prefer(low.default_layout_kind, high.default_layout_kind),
            default_root_orientation: prefer(low.default_root_orientation, high.default_root_orientation),
            group_bars: GroupBarsPartial::merge(low.group_bars, high.group_bars),
            status_icon: StatusIconPartial::merge(low.status_icon, high.status_icon),
            experimental: ExperimentalPartial::merge(low.experimental, high.experimental),
        }
    }

    /// Makes the complete settings, or says what is missing first.
    pub fn validate(self) -> (result: Result<Settings, ValidationError>)
        ensures
            match result {
                Ok(settings) => self.first_missing() is None && settings == self.complete(),
                Err(error) => self.first_missing() == Some(error.field@),
            },
    {
        let animate = match self.animate {
            Some(value) => value,
            None => return Err(missing("animate")),
        };
        let default_disable = match self.default_disable {
            Some(value) => value,
            None => return Err(missing("default_disable")),
        };
        let mouse_follows_focus = match self.mouse_follows_focus {
            Some(value) => value,
            None => return Err(missing("mouse_follows_focus")),
        };
        let mouse_hides_on_focus = match self.mouse_hides_on_focus {
            Some(value) => value,
            None => return Err(missing("mouse_hides_on_focus")),
        };
        let focus_follows_mouse = match self.focus_follows_mouse {
            Some(value) => value,
            None => return Err(missing("focus_follows_mouse")),
        };
        let outer_gap = match self.outer_gap {
            Some(value) => value,
            None => return Err(missing("outer_gap")),
        };
        let inner_gap = match self.inner_gap {
            Some(value) => value,
            None => return Err(missing("inner_gap")),
        };
        let default_keys = match self.default_keys {
            Some(value) => value,
            None => return Err(missing("default_keys")),
        };
        let default_layout_kind = match self.default_layout_kind {
            Some(value) => value,
            None => return Err(missing("default_layout_kind")),
        };
        let default_root_orientation = match self.default_root_orientation {
            Some(value) => value,
            None => return Err(missing("default_root_orientation")),
        };
        let group_bars = match self.group_bars.validate() {
            Ok(value) => value,
            Err(error) => return Err(error),
        };
        let status_icon = match self.status_icon.validate() {
            Ok(value) => value,
            Err(error) => return Err(error),
        };
        let experimental = match self.experimental.validate() {
            Ok(value) => value,
            Err(error) => return Err(error),
        };
        Ok(Settings { animate, default_disable, mouse_follows_focus, mouse_hides_on_focus, focus_follows_mouse, outer_gap, inner_gap, default_keys, default_layout_kind, default_root_orientation, group_bars, status_icon, experimental })
    }
}

impl Default for SettingsPartial {
    fn default() -> (nothing: SettingsPartial)
        ensures
            nothing == SettingsPartial::nothing(),
    {
        SettingsPartial {
            animate: None,
            default_disable: None,
            mouse_follows_focus: None,
            mouse_hides_on_focus: None,
            focus_follows_mouse: None,
            outer_gap: None,
            inner_gap: None,
            default_keys: None,
            default_layout_kind: None,
            default_root_orientation: None,
            group_bars: GroupBarsPartial::default(),
            status_icon: StatusIconPartial::default(),
            experimental: ExperimentalPartial::default(),
        }
    }
}

proof fn nothing_changes_nothing_in_status_icon(settings: StatusIconPartial)
    ensures
        StatusIconPartial::merged(settings, StatusIconPartial::nothing()) == settings,
        StatusIconPartial::merged(StatusIconPartial::nothing(), settings) == settings,
{
    broadcast use preferring_none;

}

proof fn nothing_changes_nothing_in_status_icon_experimental(settings: StatusIconExperimentalPartial)
    ensures
        StatusIconExperimentalPartial::merged(settings, StatusIconExperimentalPartial::nothing()) == settings,
        StatusIconExperimentalPartial::merged(StatusIconExperimentalPartial::nothing(), settings) == settings,
{
    broadcast use preferring_none;

}

proof fn nothing_changes_nothing_in_group_bars(settings: GroupBarsPartial)
    ensures
        GroupBarsPartial::merged(settings, GroupBarsPartial::nothing()) == settings,
        GroupBarsPartial::merged(GroupBarsPartial::nothing(), settings) == settings,
{
    broadcast use preferring_none;

}

proof fn nothing_changes_nothing_in_scroll(settings: ScrollConfigPartial)
    ensures
        ScrollConfigPartial::merged(settings, ScrollConfigPartial::nothing()) == settings,
        ScrollConfigPartial::merged(ScrollConfigPartial::nothing(), settings) == settings,
{
    broadcast use preferring_none;

}

proof fn nothing_changes_nothing_in_experimental(settings: ExperimentalPartial)
    ensures
        ExperimentalPartial::merged(settings, ExperimentalPartial::nothing()) == settings,
        ExperimentalPartial::merged(ExperimentalPartial::nothing(), settings) == settings,
{
    broadcast use preferring_none;

    nothing_changes_nothing_in_status_icon_experimental(settings.status_icon);
    nothing_changes_nothing_in_scroll(settings.scroll);
}

/// Settings that name nothing change nothing, whichever side they are on.
pub proof fn nothing_changes_nothing(settings: SettingsPartial)
    ensures
        SettingsPartial::merged(settings, SettingsPartial::nothing()) == settings,
        SettingsPartial::merged(SettingsPartial::nothing(), settings) == settings,
{
    broadcast use preferring_none;

    nothing_changes_nothing_in_group_bars(settings.group_bars);
    nothing_changes_nothing_in_status_icon(settings.status_icon);
    nothing_changes_nothing_in_experimental(settings.experimental);
}

proof fn merging_is_associative_in_status_icon(a: StatusIconPartial, b: StatusIconPartial, c: StatusIconPartial)
    ensures
        StatusIconPartial::merged(StatusIconPartial::merged(a, b), c) == StatusIconPartial::merged(a, StatusIconPartial::merged(b, c)),
{
    broadcast use preferring_is_associative;

}

proof fn merging_is_associative_in_status_icon_experimental(a: StatusIconExperimentalPartial, b: StatusIconExperimentalPartial, c: StatusIconExperimentalPartial)
    ensures
        StatusIconExperimentalPartial::merged(StatusIconExperimentalPartial::merged(a, b), c) == StatusIconExperimentalPartial::merged(a, StatusIconExperimentalPartial::merged(b, c)),
{
    broadcast use preferring_is_associative;

}

proof fn merging_is_associative_in_group_bars(a: GroupBarsPartial, b: GroupBarsPartial, c: GroupBarsPartial)
    ensures
        GroupBarsPartial::merged(GroupBarsPartial::merged(a, b), c) == GroupBarsPartial::merged(a, GroupBarsPartial::merged(b, c)),
{
    broadcast use preferring_is_associative;

}

proof fn merging_is_associative_in_scroll(a: ScrollConfigPartial, b: ScrollConfigPartial, c: ScrollConfigPartial)
    ensures
        ScrollConfigPartial::merged(ScrollConfigPartial::merged(a, b), c) == ScrollConfigPartial::merged(a, ScrollConfigPartial::merged(b, c)),
{
    broadcast use preferring_is_associative;

}

proof fn merging_is_associative_in_experimental(a: ExperimentalPartial, b: ExperimentalPartial, c: ExperimentalPartial)
    ensures
        ExperimentalPartial::merged(ExperimentalPartial::merged(a, b), c) == ExperimentalPartial::merged(a, ExperimentalPartial::merged(b, c)),
{
    broadcast use preferring_is_associative;

    merging_is_associative_in_status_icon_experimental(a.status_icon, b.status_icon, c.status_icon);
    merging_is_associative_in_scroll(a.scroll, b.scroll, c.scroll);
}

/// Laying settings over each other does not depend on which two are taken
/// first.
pub proof fn merging_is_associative(a: SettingsPartial, b: SettingsPartial, c: SettingsPartial)
    ensures
        SettingsPartial::merged(SettingsPartial::merged(a, b), c) == SettingsPartial::merged(a, SettingsPartial::merged(b, c)),
{
    broadcast use preferring_is_associative;

    merging_is_associative_in_group_bars(a.group_bars, b.group_bars, c.group_bars);
    merging_is_associative_in_status_icon(a.status_icon, b.status_icon, c.status_icon);
    merging_is_associative_in_experimental(a.experimental, b.experimental, c.experimental);
}

proof fn nothing_is_missing_over_complete_settings_in_status_icon(low: StatusIconPartial, high: StatusIconPartial)
    requires
        low.first_missing() is None,
    ensures
        StatusIconPartial::merged(low, high).first_missing() is None,
{
    broadcast use preferring_keeps;

}

proof fn nothing_is_missing_over_complete_settings_in_status_icon_experimental(low: StatusIconExperimentalPartial, high: StatusIconExperimentalPartial)
    requires
        low.first_missing() is None,
    ensures
        StatusIconExperimentalPartial::merged(low, high).first_missing() is None,
{
    broadcast use preferring_keeps;

}

proof fn nothing_is_missing_over_complete_settings_in_group_bars(low: GroupBarsPartial, high: GroupBarsPartial)
    requires
        low.first_missing() is None,
    ensures
        GroupBarsPartial::merged(low, high).first_missing() is None,
{
    broadcast use preferring_keeps;

}

proof fn nothing_is_missing_over_complete_settings_in_scroll(low: ScrollConfigPartial, high: ScrollConfigPartial)
    requires
        low.first_missing() is None,
    ensures
        ScrollConfigPartial::merged(low, high).first_missing() is None,
{
    broadcast use preferring_keeps;

}

proof fn nothing_is_missing_over_complete_settings_in_experimental(low: ExperimentalPartial, high: ExperimentalPartial)
    requires
        low.first_missing() is None,
    ensures
        ExperimentalPartial::merged(low, high).first_missing() is None,
{
    broadcast use preferring_keeps;

    nothing_is_missing_over_complete_settings_in_status_icon_experimental(low.status_icon, high.status_icon);
    nothing_is_missing_over_complete_settings_in_scroll(low.scroll, high.scroll);
}

/// Whatever is laid over complete settings, nothing is missing afterwards.
pub proof fn nothing_is_missing_over_complete_settings(low: SettingsPartial, high: SettingsPartial)
    requires
        low.first_missing() is None,
    ensures
        SettingsPartial::merged(low, high).first_missing() is None,
{
    broadcast use preferring_keeps;

    nothing_is_missing_over_complete_settings_in_group_bars(low.group_bars, high.group_bars);
    nothing_is_missing_over_complete_settings_in_status_icon(low.status_icon, high.status_icon);
    nothing_is_missing_over_complete_settings_in_experimental(low.experimental, high.experimental);
}

/// Laying settings over others takes each setting that the upper ones name from
/// them, and each other from the lower ones (status icon).
pub proof fn merging_takes_the_upper_value_in_status_icon(
    low: StatusIconPartial,
    high: StatusIconPartial,
    all: StatusIconPartial,
)
    requires
        call_ensures(StatusIconPartial::merge, (low, high), all),
    ensures
        high.enable is Some ==> all.enable == high.enable,
        high.enable is None ==> all.enable == low.enable,
{
    reveal(preferred);
}

/// Settings are complete exactly when none is missing, and then hold the values
/// that were named; otherwise the first that is missing is reported
/// (status icon).
pub proof fn validating_keeps_every_value_in_status_icon(
    partial: StatusIconPartial,
    result: Result<StatusIcon, ValidationError>,
)
    requires
        call_ensures(StatusIconPartial::validate, (partial,), result),
    ensures
        result is Ok <==> {
            &&& partial.enable is Some
        },
        result matches Ok(settings) ==> {
            &&& partial.enable == Some(settings.enable)
        },
        result is Err ==> result->Err_0.field@ == "status_icon.enable"@,
{
}

/// Laying settings over others takes each setting that the upper ones name from
/// them, and each other from the lower ones (status icon experimental).
pub proof fn merging_takes_the_upper_value_in_status_icon_experimental(
    low: StatusIconExperimentalPartial,
    high: StatusIconExperimentalPartial,
    all: StatusIconExperimentalPartial,
)
    requires
        call_ensures(StatusIconExperimentalPartial::merge, (low, high), all),
    ensures
        high.space_index is Some ==> all.space_index == high.space_index,
        high.space_index is None ==> all.space_index == low.space_index,
        high.color is Some ==> all.color == high.color,
        high.color is None ==> all.color == low.color,
        high.enable is Some ==> all.enable == high.enable,
        high.enable is None ==> all.enable == low.enable,
{
    reveal(preferred);
}

/// Settings are complete exactly when none is missing, and then hold the values
/// that were named; otherwise the first that is missing is reported
/// (status icon experimental).
pub proof fn validating_keeps_every_value_in_status_icon_experimental(
    partial: StatusIconExperimentalPartial,
    result: Result<StatusIconExperimental, ValidationError>,
)
    requires
        call_ensures(StatusIconExperimentalPartial::validate, (partial,), result),
    ensures
        result is Ok <==> {
            &&& partial.space_index is Some
            &&& partial.color is Some
            &&& partial.enable is Some
        },
        result matches Ok(settings) ==> {
            &&& partial.space_index == Some(settings.space_index)
            &&& partial.color == Some(settings.color)
            &&& partial.enable == Some(settings.enable)
        },
{
}

/// The setting that is reported as missing is missing, and all before it are
/// named (status icon experimental).
pub proof fn the_first_missing_setting_is_reported_in_status_icon_experimental(
    partial: StatusIconExperimentalPartial,
    result: Result<StatusIconExperimental, ValidationError>,
)
    requires
        call_ensures(StatusIconExperimentalPartial::validate, (partial,), result),
        result is Err,
    ensures
        ({
            let reported = result->Err_0.field@;
            if partial.space_index is None {
                reported == "experimental.status_icon.space_index"@
            } else if partial.color is None {
                reported == "experimental.status_icon.color"@
            } else {
                partial.enable is None && reported == "experimental.status_icon.enable"@
            }
        }),
{
}

/// Laying settings over others takes each setting that the upper ones name from
/// them, and each other from the lower ones (group bars).
pub proof fn merging_takes_the_upper_value_in_group_bars(
    low: GroupBarsPartial,
    high: GroupBarsPartial,
    all: GroupBarsPartial,
)
    requires
        call_ensures(GroupBarsPartial::merge, (low, high), all),
    ensures
        high.enable is Some ==> all.enable == high.enable,
        high.enable is None ==> all.enable == low.enable,
        high.thickness is Some ==> all.thickness == high.thickness,
        high.thickness is None ==> all.thickness == low.thickness,
        high.horizontal_placement is Some ==> all.horizontal_placement == high.horizontal_placement,
        high.horizontal_placement is None ==> all.horizontal_placement == low.horizontal_placement,
        high.vertical_placement is Some ==> all.vertical_placement == high.vertical_placement,
        high.vertical_placement is None ==> all.vertical_placement == low.vertical_placement,
{
    reveal(preferred);
}

/// Settings are complete exactly when none is missing, and then hold the values
/// that were named; otherwise the first that is missing is reported
/// (group bars).
pub proof fn validating_keeps_every_value_in_group_bars(
    partial: GroupBarsPartial,
    result: Result<GroupBars, ValidationError>,
)
    requires
        call_ensures(GroupBarsPartial::validate, (partial,), result),
    ensures
        result is Ok <==> {
            &&& partial.enable is Some
            &&& partial.thickness is Some
            &&& partial.horizontal_placement is Some
            &&& partial.vertical_placement is Some
        },
        result matches Ok(settings) ==> {
            &&& partial.enable == Some(settings.enable)
            &&& partial.thickness == Some(settings.thickness)
            &&& partial.horizontal_placement == Some(settings.horizontal_placement)
            &&& partial.vertical_placement == Some(settings.vertical_placement)
        },
{
}

/// The setting that is reported as missing is missing, and all before it are
/// named (group bars).
pub proof fn the_first_missing_setting_is_reported_in_group_bars(
    partial: GroupBarsPartial,
    result: Result<GroupBars, ValidationError>,
)
    requires
        call_ensures(GroupBarsPartial::validate, (partial,), result),
        result is Err,
    ensures
        ({
            let reported = result->Err_0.field@;
            if partial.enable is None {
                reported == "group_bars.enable"@
            } else if partial.thickness is None {
                reported == "group_bars.thickness"@
            } else if partial.horizontal_placement is None {
                reported == "group_bars.horizontal_placement"@
            } else {
                partial.vertical_placement is None && reported == "group_bars.vertical_placement"@
            }
        }),
{
}

/// Laying settings over others takes each setting that the upper ones name from
/// them, and each other from the lower ones (scroll).
pub proof fn merging_takes_the_upper_value_in_scroll(
    low: ScrollConfigPartial,
    high: ScrollConfigPartial,
    all: ScrollConfigPartial,
)
    requires
        call_ensures(ScrollConfigPartial::merge, (low, high), all),
    ensures
        high.enable is Some ==> all.enable == high.enable,
        high.enable is None ==> all.enable == low.enable,
        high.center_focused_column is Some ==> all.center_focused_column == high.center_focused_column,
        high.center_focused_column is None ==> all.center_focused_column == low.center_focused_column,
        high.visible_columns is Some ==> all.visible_columns == high.visible_columns,
        high.visible_columns is None ==> all.visible_columns == low.visible_columns,
        high.column_width_presets is Some ==> all.column_width_presets == high.column_width_presets,
        high.column_width_presets is None ==> all.column_width_presets == low.column_width_presets,
        high.new_window_in_column is Some ==> all.new_window_in_column == high.new_window_in_column,
        high.new_window_in_column is None ==> all.new_window_in_column == low.new_window_in_column,
        high.scroll_sensitivity is Some ==> all.scroll_sensitivity == high.scroll_sensitivity,
        high.scroll_sensitivity is None ==> all.scroll_sensitivity == low.scroll_sensitivity,
        high.invert_scroll_direction is Some ==> all.invert_scroll_direction == high.invert_scroll_direction,
        high.invert_scroll_direction is None ==> all.invert_scroll_direction == low.invert_scroll_direction,
        high.infinite_loop is Some ==> all.infinite_loop == high.infinite_loop,
        high.infinite_loop is None ==> all.infinite_loop == low.infinite_loop,
        high.single_column_aspect_ratio is Some ==> all.single_column_aspect_ratio == high.single_column_aspect_ratio,
        high.single_column_aspect_ratio is None ==> all.single_column_aspect_ratio == low.single_column_aspect_ratio,
{
    reveal(preferred);
}

/// Settings are complete exactly when none is missing, and then hold the values
/// that were named; otherwise the first that is missing is reported
/// (scroll).
pub proof fn validating_keeps_every_value_in_scroll(
    partial: ScrollConfigPartial,
    result: Result<ScrollConfig, ValidationError>,
)
    requires
        call_ensures(ScrollConfigPartial::validate, (partial,), result),
    ensures
        result is Ok <==> {
            &&& partial.enable is Some
            &&& partial.center_focused_column is Some
            &&& partial.visible_columns is Some
            &&& partial.column_width_presets is Some
            &&& partial.new_window_in_column is Some
            &&& partial.scroll_sensitivity is Some
            &&& partial.invert_scroll_direction is Some
            &&& partial.infinite_loop is Some
            &&& partial.single_column_aspect_ratio is Some
        },
        result matches Ok(settings) ==> {
            &&& partial.enable == Some(settings.enable)
            &&& partial.center_focused_column == Some(settings.center_focused_column)
            &&& partial.visible_columns == Some(settings.visible_columns)
            &&& partial.column_width_presets == Some(settings.column_width_presets)
            &&& partial.new_window_in_column == Some(settings.new_window_in_column)
            &&& partial.scroll_sensitivity == Some(settings.scroll_sensitivity)
            &&& partial.invert_scroll_direction == Some(settings.invert_scroll_direction)
            &&& partial.infinite_loop == Some(settings.infinite_loop)
            &&& partial.single_column_aspect_ratio == Some(settings.single_column_aspect_ratio)
        },
{
}

/// The setting that is reported as missing is missing, and all before it are
/// named (scroll).
pub proof fn the_first_missing_setting_is_reported_in_scroll(
    partial: ScrollConfigPartial,
    result: Result<ScrollConfig, ValidationError>,
)
    requires
        call_ensures(ScrollConfigPartial::validate, (partial,), result),
        result is Err,
    ensures
        ({
            let reported = result->Err_0.field@;
            if partial.enable is None {
                reported == "experimental.scroll.enable"@
            } else if partial.center_focused_column is None {
                reported == "experimental.scroll.center_focused_column"@
            } else if partial.visible_columns is None {
                reported == "experimental.scroll.visible_columns"@
            } else if partial.column_width_presets is None {
                reported == "experimental.scroll.column_width_presets"@
            } else if partial.new_window_in_column is None {
                reported == "experimental.scroll.new_window_in_column"@
            } else if partial.scroll_sensitivity is None {
                reported == "experimental.scroll.scroll_sensitivity"@
            } else if partial.invert_scroll_direction is None {
                reported == "experimental.scroll.invert_scroll_direction"@
            } else if partial.infinite_loop is None {
                reported == "experimental.scroll.infinite_loop"@
            } else {
                partial.single_column_aspect_ratio is None && reported == "experimental.scroll.single_column_aspect_ratio"@
            }
        }),
{
}

/// Laying settings over others takes each setting that the upper ones name from
/// them, and each other from the lower ones (experimental).
pub proof fn merging_takes_the_upper_value_in_experimental(
    low: ExperimentalPartial,
    high: ExperimentalPartial,
    all: ExperimentalPartial,
)
    requires
        call_ensures(ExperimentalPartial::merge, (low, high), all),
    ensures
        high.status_icon.space_index is Some ==> all.status_icon.space_index == high.status_icon.space_index,
        high.status_icon.space_index is None ==> all.status_icon.space_index == low.status_icon.space_index,
        high.status_icon.color is Some ==> all.status_icon.color == high.status_icon.color,
        high.status_icon.color is None ==> all.status_icon.color == low.status_icon.color,
        high.status_icon.enable is Some ==> all.status_icon.enable == high.status_icon.enable,
        high.status_icon.enable is None ==> all.status_icon.enable == low.status_icon.enable,
        high.scroll.enable is Some ==> all.scroll.enable == high.scroll.enable,
        high.scroll.enable is None ==> all.scroll.enable == low.scroll.enable,
        high.scroll.center_focused_column is Some ==> all.scroll.center_focused_column == high.scroll.center_focused_column,
        high.scroll.center_focused_column is None ==> all.scroll.center_focused_column == low.scroll.center_focused_column,
        high.scroll.visible_columns is Some ==> all.scroll.visible_columns == high.scroll.visible_columns,
        high.scroll.visible_columns is None ==> all.scroll.visible_columns == low.scroll.visible_columns,
        high.scroll.column_width_presets is Some ==> all.scroll.column_width_presets == high.scroll.column_width_presets,
        high.scroll.column_width_presets is None ==> all.scroll.column_width_presets == low.scroll.column_width_presets,
        high.scroll.new_window_in_column is Some ==> all.scroll.new_window_in_column == high.scroll.new_window_in_column,
        high.scroll.new_window_in_column is None ==> all.scroll.new_window_in_column == low.scroll.new_window_in_column,
        high.scroll.scroll_sensitivity is Some ==> all.scroll.scroll_sensitivity == high.scroll.scroll_sensitivity,
        high.scroll.scroll_sensitivity is None ==> all.scroll.scroll_sensitivity == low.scroll.scroll_sensitivity,
        high.scroll.invert_scroll_direction is Some ==> all.scroll.invert_scroll_direction == high.scroll.invert_scroll_direction,
        high.scroll.invert_scroll_direction is None ==> all.scroll.invert_scroll_direction == low.scroll.invert_scroll_direction,
        high.scroll.infinite_loop is Some ==> all.scroll.infinite_loop == high.scroll.infinite_loop,
        high.scroll.infinite_loop is None ==> all.scroll.infinite_loop == low.scroll.infinite_loop,
        high.scroll.single_column_aspect_ratio is Some ==> all.scroll.single_column_aspect_ratio == high.scroll.single_column_aspect_ratio,
        high.scroll.single_column_aspect_ratio is None ==> all.scroll.single_column_aspect_ratio == low.scroll.single_column_aspect_ratio,
{
    reveal(preferred);
}

/// Settings are complete exactly when none is missing, and then hold the values
/// that were named; otherwise the first that is missing is reported
/// (experimental).
pub proof fn validating_keeps_every_value_in_experimental(
    partial: ExperimentalPartial,
    result: Result<Experimental, ValidationError>,
)
    requires
        call_ensures(ExperimentalPartial::validate, (partial,), result),
    ensures
        result is Ok <==> {
            &&& partial.status_icon.space_index is Some
            &&& partial.status_icon.color is Some
            &&& partial.status_icon.enable is Some
            &&& partial.scroll.enable is Some
            &&& partial.scroll.center_focused_column is Some
            &&& partial.scroll.visible_columns is Some
            &&& partial.scroll.column_width_presets is Some
            &&& partial.scroll.new_window_in_column is Some
            &&& partial.scroll.scroll_sensitivity is Some
            &&& partial.scroll.invert_scroll_direction is Some
            &&& partial.scroll.infinite_loop is Some
            &&& partial.scroll.single_column_aspect_ratio is Some
        },
        result matches Ok(settings) ==> {
            &&& partial.status_icon.space_index == Some(settings.status_icon.space_index)
            &&& partial.status_icon.color == Some(settings.status_icon.color)
            &&& partial.status_icon.enable == Some(settings.status_icon.enable)
            &&& partial.scroll.enable == Some(settings.scroll.enable)
            &&& partial.scroll.center_focused_column == Some(settings.scroll.center_focused_column)
            &&& partial.scroll.visible_columns == Some(settings.scroll.visible_columns)
            &&& partial.scroll.column_width_presets == Some(settings.scroll.column_width_presets)
            &&& partial.scroll.new_window_in_column == Some(settings.scroll.new_window_in_column)
            &&& partial.scroll.scroll_sensitivity == Some(settings.scroll.scroll_sensitivity)
            &&& partial.scroll.invert_scroll_direction == Some(settings.scroll.invert_scroll_direction)
            &&& partial.scroll.infinite_loop == Some(settings.scroll.infinite_loop)
            &&& partial.scroll.single_column_aspect_ratio == Some(settings.scroll.single_column_aspect_ratio)
        },
{
}

/// The setting that is reported as missing is missing, and all before it are
/// named (experimental).
pub proof fn the_first_missing_setting_is_reported_in_experimental(
    partial: ExperimentalPartial,
    result: Result<Experimental, ValidationError>,
)
    requires
        call_ensures(ExperimentalPartial::validate, (partial,), result),
        result is Err,
    ensures
        ({
            let reported = result->Err_0.field@;
            if partial.status_icon.space_index is None {
                reported == "experimental.status_icon.space_index"@
            } else if partial.status_icon.color is None {
                reported == "experimental.status_icon.color"@
            } else if partial.status_icon.enable is None {
                reported == "experimental.status_icon.enable"@
            } else if partial.scroll.enable is None {
                reported == "experimental.scroll.enable"@
            } else if partial.scroll.center_focused_column is None {
                reported == "experimental.scroll.center_focused_column"@
            } else if partial.scroll.visible_columns is None {
                reported == "experimental.scroll.visible_columns"@
            } else if partial.scroll.column_width_presets is None {
                reported == "experimental.scroll.column_width_presets"@
            } else if partial.scroll.new_window_in_column is None {
                reported == "experimental.scroll.new_window_in_column"@
            } else if partial.scroll.scroll_sensitivity is None {
                reported == "experimental.scroll.scroll_sensitivity"@
            } else if partial.scroll.invert_scroll_direction is None {
                reported == "experimental.scroll.invert_scroll_direction"@
            } else if partial.scroll.infinite_loop is None {
                reported == "experimental.scroll.infinite_loop"@
            } else {
                partial.scroll.single_column_aspect_ratio is None && reported == "experimental.scroll.single_column_aspect_ratio"@
            }
        }),
{
}

/// Laying settings over others takes each setting that the upper ones name from
/// them, and each other from the lower ones (settings).
pub proof fn merging_takes_the_upper_value_in_settings(
    low: SettingsPartial,
    high: SettingsPartial,
    all: SettingsPartial,
)
    requires
        call_ensures(SettingsPartial::merge, (low, high), all),
    ensures
        high.animate is Some ==> all.animate == high.animate,
        high.animate is None ==> all.animate == low.animate,
        high.default_disable is Some ==> all.default_disable == high.default_disable,
        high.default_disable is None ==> all.default_disable == low.default_disable,
        high.mouse_follows_focus is Some ==> all.mouse_follows_focus == high.mouse_follows_focus,
        high.mouse_follows_focus is None ==> all.mouse_follows_focus == low.mouse_follows_focus,
        high.mouse_hides_on_focus is Some ==> all.mouse_hides_on_focus == high.mouse_hides_on_focus,
        high.mouse_hides_on_focus is None ==> all.mouse_hides_on_focus == low.mouse_hides_on_focus,
        high.focus_follows_mouse is Some ==> all.focus_follows_mouse == high.focus_follows_mouse,
        high.focus_follows_mouse is None ==> all.focus_follows_mouse == low.focus_follows_mouse,
        high.outer_gap is Some ==> all.outer_gap == high.outer_gap,
        high.outer_gap is None ==> all.outer_gap == low.outer_gap,
        high.inner_gap is Some ==> all.inner_gap == high.inner_gap,
        high.inner_gap is None ==> all.inner_gap == low.inner_gap,
        high.default_keys is Some ==> all.default_keys == high.default_keys,
        high.default_keys is None ==> all.default_keys == low.default_keys,
        high.default_layout_kind is Some ==> all.default_layout_kind == high.default_layout_kind,
        high.default_layout_kind is None ==> all.default_layout_kind == low.default_layout_kind,
        high.default_root_orientation is Some ==> all.default_root_orientation == high.default_root_orientation,
        high.default_root_orientation is None ==> all.default_root_orientation == low.default_root_orientation,
        high.group_bars.enable is Some ==> all.group_bars.enable == high.group_bars.enable,
        high.group_bars.enable is None ==> all.group_bars.enable == low.group_bars.enable,
        high.group_bars.thickness is Some ==> all.group_bars.thickness == high.group_bars.thickness,
        high.group_bars.thickness is None ==> all.group_bars.thickness == low.group_bars.thickness,
        high.group_bars.horizontal_placement is Some ==> all.group_bars.horizontal_placement == high.group_bars.horizontal_placement,
        high.group_bars.horizontal_placement is None ==> all.group_bars.horizontal_placement == low.group_bars.horizontal_placement,
        high.group_bars.vertical_placement is Some ==> all.group_bars.vertical_placement == high.group_bars.vertical_placement,
        high.group_bars.vertical_placement is None ==> all.group_bars.vertical_placement == low.group_bars.vertical_placement,
        high.status_icon.enable is Some ==> all.status_icon.enable == high.status_icon.enable,
        high.status_icon.enable is None ==> all.status_icon.enable == low.status_icon.enable,
        high.experimental.status_icon.space_index is Some ==> all.experimental.status_icon.space_index == high.experimental.status_icon.space_index,
        high.experimental.status_icon.space_index is None ==> all.experimental.status_icon.space_index == low.experimental.status_icon.space_index,
        high.experimental.status_icon.color is Some ==> all.experimental.status_icon.color == high.experimental.status_icon.color,
        high.experimental.status_icon.color is None ==> all.experimental.status_icon.color == low.experimental.status_icon.color,
        high.experimental.status_icon.enable is Some ==> all.experimental.status_icon.enable == high.experimental.status_icon.enable,
        high.experimental.status_icon.enable is None ==> all.experimental.status_icon.enable == low.experimental.status_icon.enable,
        high.experimental.scroll.enable is Some ==> all.experimental.scroll.enable == high.experimental.scroll.enable,
        high.experimental.scroll.enable is None ==> all.experimental.scroll.enable == low.experimental.scroll.enable,
        high.experimental.scroll.center_focused_column is Some ==> all.experimental.scroll.center_focused_column == high.experimental.scroll.center_focused_column,
        high.experimental.scroll.center_focused_column is None ==> all.experimental.scroll.center_focused_column == low.experimental.scroll.center_focused_column,
        high.experimental.scroll.visible_columns is Some ==> all.experimental.scroll.visible_columns == high.experimental.scroll.visible_columns,
        high.experimental.scroll.visible_columns is None ==> all.experimental.scroll.visible_columns == low.experimental.scroll.visible_columns,
        high.experimental.scroll.column_width_presets is Some ==> all.experimental.scroll.column_width_presets == high.experimental.scroll.column_width_presets,
        high.experimental.scroll.column_width_presets is None ==> all.experimental.scroll.column_width_presets == low.experimental.scroll.column_width_presets,
        high.experimental.scroll.new_window_in_column is Some ==> all.experimental.scroll.new_window_in_column == high.experimental.scroll.new_window_in_column,
        high.experimental.scroll.new_window_in_column is None ==> all.experimental.scroll.new_window_in_column == low.experimental.scroll.new_window_in_column,
        high.experimental.scroll.scroll_sensitivity is Some ==> all.experimental.scroll.scroll_sensitivity == high.experimental.scroll.scroll_sensitivity,
        high.experimental.scroll.scroll_sensitivity is None ==> all.experimental.scroll.scroll_sensitivity == low.experimental.scroll.scroll_sensitivity,
        high.experimental.scroll.invert_scroll_direction is Some ==> all.experimental.scroll.invert_scroll_direction == high.experimental.scroll.invert_scroll_direction,
        high.experimental.scroll.invert_scroll_direction is None ==> all.experimental.scroll.invert_scroll_direction == low.experimental.scroll.invert_scroll_direction,
        high.experimental.scroll.infinite_loop is Some ==> all.experimental.scroll.infinite_loop == high.experimental.scroll.infinite_loop,
        high.experimental.scroll.infinite_loop is None ==> all.experimental.scroll.infinite_loop == low.experimental.scroll.infinite_loop,
        high.experimental.scroll.single_column_aspect_ratio is Some ==> all.experimental.scroll.single_column_aspect_ratio == high.experimental.scroll.single_column_aspect_ratio,
        high.experimental.scroll.single_column_aspect_ratio is None ==> all.experimental.scroll.single_column_aspect_ratio == low.experimental.scroll.single_column_aspect_ratio,
{
    reveal(preferred);
}

/// Settings are complete exactly when none is missing, and then hold the values
/// that were named; otherwise the first that is missing is reported
/// (settings).
pub proof fn validating_keeps_every_value_in_settings(
    partial: SettingsPartial,
    result: Result<Settings, ValidationError>,
)
    requires
        call_ensures(SettingsPartial::validate, (partial,), result),
    ensures
        result is Ok <==> {
            &&& partial.animate is Some
            &&& partial.default_disable is Some
            &&& partial.mouse_follows_focus is Some
            &&& partial.mouse_hides_on_focus is Some
            &&& partial.focus_follows_mouse is Some
            &&& partial.outer_gap is Some
            &&& partial.inner_gap is Some
            &&& partial.default_keys is Some
            &&& partial.default_layout_kind is Some
            &&& partial.default_root_orientation is Some
            &&& partial.group_bars.enable is Some
            &&& partial.group_bars.thickness is Some
            &&& partial.group_bars.horizontal_placement is Some
            &&& partial.group_bars.vertical_placement is Some
            &&& partial.status_icon.enable is Some
            &&& partial.experimental.status_icon.space_index is Some
            &&& partial.experimental.status_icon.color is Some
            &&& partial.experimental.status_icon.enable is Some
            &&& partial.experimental.scroll.enable is Some
            &&& partial.experimental.scroll.center_focused_column is Some
            &&& partial.experimental.scroll.visible_columns is Some
            &&& partial.experimental.scroll.column_width_presets is Some
            &&& partial.experimental.scroll.new_window_in_column is Some
            &&& partial.experimental.scroll.scroll_sensitivity is Some
            &&& partial.experimental.scroll.invert_scroll_direction is Some
            &&& partial.experimental.scroll.infinite_loop is Some
            &&& partial.experimental.scroll.single_column_aspect_ratio is Some
        },
        result matches Ok(settings) ==> {
            &&& partial.animate == Some(settings.animate)
            &&& partial.default_disable == Some(settings.default_disable)
            &&& partial.mouse_follows_focus == Some(settings.mouse_follows_focus)
            &&& partial.mouse_hides_on_focus == Some(settings.mouse_hides_on_focus)
            &&& partial.focus_follows_mouse == Some(settings.focus_follows_mouse)
            &&& partial.outer_gap == Some(settings.outer_gap)
            &&& partial.inner_gap == Some(settings.inner_gap)
            &&& partial.default_keys == Some(settings.default_keys)
            &&& partial.default_layout_kind == Some(settings.default_layout_kind)
            &&& partial.default_root_orientation == Some(settings.default_root_orientation)
            &&& partial.group_bars.enable == Some(settings.group_bars.enable)
            &&& partial.group_bars.thickness == Some(settings.group_bars.thickness)
            &&& partial.group_bars.horizontal_placement == Some(settings.group_bars.horizontal_placement)
            &&& partial.group_bars.vertical_placement == Some(settings.group_bars.vertical_placement)
            &&& partial.status_icon.enable == Some(settings.status_icon.enable)
            &&& partial.experimental.status_icon.space_index == Some(settings.experimental.status_icon.space_index)
            &&& partial.experimental.status_icon.color == Some(settings.experimental.status_icon.color)
            &&& partial.experimental.status_icon.enable == Some(settings.experimental.status_icon.enable)
            &&& partial.experimental.scroll.enable == Some(settings.experimental.scroll.enable)
            &&& partial.experimental.scroll.center_focused_column == Some(settings.experimental.scroll.center_focused_column)
            &&& partial.experimental.scroll.visible_columns == Some(settings.experimental.scroll.visible_columns)
            &&& partial.experimental.scroll.column_width_presets == Some(settings.experimental.scroll.column_width_presets)
            &&& partial.experimental.scroll.new_window_in_column == Some(settings.experimental.scroll.new_window_in_column)
            &&& partial.experimental.scroll.scroll_sensitivity == Some(settings.experimental.scroll.scroll_sensitivity)
            &&& partial.experimental.scroll.invert_scroll_direction == Some(settings.experimental.scroll.invert_scroll_direction)
            &&& partial.experimental.scroll.infinite_loop == Some(settings.experimental.scroll.infinite_loop)
            &&& partial.experimental.scroll.single_column_aspect_ratio == Some(settings.experimental.scroll.single_column_aspect_ratio)
        },
{
}

/// The setting that is reported as missing is missing, and all before it are
/// named (settings).
pub proof fn the_first_missing_setting_is_reported_in_settings(
    partial: SettingsPartial,
    result: Result<Settings, ValidationError>,
)
    requires
        call_ensures(SettingsPartial::validate, (partial,), result),
        result is Err,
    ensures
        ({
            let reported = result->Err_0.field@;
            if partial.animate is None {
                reported == "animate"@
            } else if partial.default_disable is None {
                reported == "default_disable"@
            } else if partial.mouse_follows_focus is None {
                reported == "mouse_follows_focus"@
            } else if partial.mouse_hides_on_focus is None {
                reported == "mouse_hides_on_focus"@
            } else if partial.focus_follows_mouse is None {
                reported == "focus_follows_mouse"@
            } else if partial.outer_gap is None {
                reported == "outer_gap"@
            } else if partial.inner_gap is None {
                reported == "inner_gap"@
            } else if partial.default_keys is None {
                reported == "default_keys"@
            } else if partial.default_layout_kind is None {
                reported == "default_layout_kind"@
            } else if partial.default_root_orientation is None {
                reported == "default_root_orientation"@
            } else if partial.group_bars.enable is None {
                reported == "group_bars.enable"@
            } else if partial.group_bars.thickness is None {
                reported == "group_bars.thickness"@
            } else if partial.group_bars.horizontal_placement is None {
                reported == "group_bars.horizontal_placement"@
            } else if partial.group_bars.vertical_placement is None {
                reported == "group_bars.vertical_placement"@
            } else if partial.status_icon.enable is None {
                reported == "status_icon.enable"@
            } else if partial.experimental.status_icon.space_index is None {
                reported == "experimental.status_icon.space_index"@
            } else if partial.experimental.status_icon.color is None {
                reported == "experimental.status_icon.color"@
            } else if partial.experimental.status_icon.enable is None {
                reported == "experimental.status_icon.enable"@
            } else if partial.experimental.scroll.enable is None {
                reported == "experimental.scroll.enable"@
            } else if partial.experimental.scroll.center_focused_column is None {
                reported == "experimental.scroll.center_focused_column"@
            } else if partial.experimental.scroll.visible_columns is None {
                reported == "experimental.scroll.visible_columns"@
            } else if partial.experimental.scroll.column_width_presets is None {
                reported == "experimental.scroll.column_width_presets"@
            } else if partial.experimental.scroll.new_window_in_column is None {
                reported == "experimental.scroll.new_window_in_column"@
            } else if partial.experimental.scroll.scroll_sensitivity is None {
                reported == "experimental.scroll.scroll_sensitivity"@
            } else if partial.experimental.scroll.invert_scroll_direction is None {
                reported == "experimental.scroll.invert_scroll_direction"@
            } else if partial.experimental.scroll.infinite_loop is None {
                reported == "experimental.scroll.infinite_loop"@
            } else {
                partial.experimental.scroll.single_column_aspect_ratio is None && reported == "experimental.scroll.single_column_aspect_ratio"@
            }
        }),
{
}

/// A missing setting is reported by its name.
pub proof fn missing_settings_are_named(error: ValidationError, message: String)
    requires
        call_ensures(ValidationError::message, (&error,), message),
    ensures
        message@ == "missing setting: "@ + error.field@,
{
}

} // verus!
