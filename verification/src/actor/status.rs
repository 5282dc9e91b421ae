//! Manages the status bar icon.

use std::sync::Arc;

use vstd::prelude::*;

use crate::config::{Config, StatusIconExperimental};
use crate::sys::screen::SpaceId;
use crate::text::{decimal, decimal_digits};

verus! {

/// What the status icon is told.
#[derive(Debug)]
pub enum Event {
    // Note: These should not be filtered for active (they should all be Some)
    // so we can always show the user the current space id.
    SpaceChanged(Vec<Option<SpaceId>>),
    FocusedScreenChanged,
    GlobalEnabledChanged(bool),
    SpaceEnabledChanged(bool),
    ConfigUpdated(Arc<Config>),
}

/// What an [`Event`] says.
pub enum EventView {
    SpaceChanged(Seq<Option<SpaceId>>),
    FocusedScreenChanged,
    GlobalEnabledChanged(bool),
    SpaceEnabledChanged(bool),
    ConfigUpdated(Arc<Config>),
}

impl View for Event {
    type V = EventView;

    open spec fn view(&self) -> EventView {
        match *self {
            Event::SpaceChanged(spaces) => EventView::SpaceChanged(spaces@),
            Event::FocusedScreenChanged => EventView::FocusedScreenChanged,
            Event::GlobalEnabledChanged(enabled) => EventView::GlobalEnabledChanged(enabled),
            Event::SpaceEnabledChanged(enabled) => EventView::SpaceEnabledChanged(enabled),
            Event::ConfigUpdated(config) => EventView::ConfigUpdated(config),
        }
    }
}

/// What is done to the icon.
#[derive(Debug)]
pub enum Action {
    CreateIcon(StatusIconExperimental),
    RemoveIcon,
    SetText(String),
    SetToggleTitle(String),
    SetSpaceToggleEnabled(bool),
    SetSpaceToggleTitle(String),
}

/// What an [`Action`] says.
pub enum ActionView {
    CreateIcon(StatusIconExperimental),
    RemoveIcon,
    SetText(Seq<char>),
    SetToggleTitle(Seq<char>),
    SetSpaceToggleEnabled(bool),
    SetSpaceToggleTitle(Seq<char>),
}

impl View for Action {
    type V = ActionView;

    open spec fn view(&self) -> ActionView {
        match *self {
            Action::CreateIcon(settings) => ActionView::CreateIcon(settings),
            Action::RemoveIcon => ActionView::RemoveIcon,
            Action::SetText(text) => ActionView::SetText(text@),
            Action::SetToggleTitle(title) => ActionView::SetToggleTitle(title@),
            Action::SetSpaceToggleEnabled(enabled) => ActionView::SetSpaceToggleEnabled(enabled),
            Action::SetSpaceToggleTitle(title) => ActionView::SetSpaceToggleTitle(title@),
        }
    }
}

/// What the actions of a list say.
pub open spec fn told(actions: Seq<Action>) -> Seq<ActionView> {
    actions.map_values(|a: Action| a@)
}

/// The state of the status icon.
pub struct StatusState {
    pub config: Arc<Config>,
    /// Whether there is an icon.
    pub icon: bool,
}

impl StatusState {
    /// Whether there should be an icon.
    pub open spec fn wanted(self) -> bool {
        self.config.settings.status_icon.enable
    }

    /// The settings that an icon is made with.
    pub open spec fn icon_settings(self) -> StatusIconExperimental {
        self.config.settings.experimental.status_icon
    }

    /// The text of the icon is brought up to date: the number of the space
    /// where the user wants to see it and it is known.
    pub open spec fn shows_space(self, number: Option<u64>) -> Seq<ActionView> {
        if self.icon {
            seq![
                ActionView::SetText(
                    match number {
                        Some(n) if self.icon_settings().space_index => decimal_digits(n as nat),
                        _ => seq![],
                    },
                ),
            ]
        } else {
            seq![]
        }
    }

    /// The menu says what it would do to the window manager.
    pub open spec fn shows_toggle(self, enabled: bool) -> Seq<ActionView> {
        if self.icon {
            seq![
                ActionView::SetToggleTitle(
                    if enabled {
                        "Pause Glide"@
                    } else {
                        "Resume Glide"@
                    },
                ),
                ActionView::SetSpaceToggleEnabled(enabled),
            ]
        } else {
            seq![]
        }
    }

    /// The menu says what it would do to the space.
    pub open spec fn shows_space_toggle(self, enabled: bool) -> Seq<ActionView> {
        if self.icon {
            seq![
                ActionView::SetSpaceToggleTitle(
                    if enabled {
                        "Stop Managing Space"@
                    } else {
                        "Start Managing Space"@
                    },
                ),
            ]
        } else {
            seq![]
        }
    }

    /// The state in which there is an icon exactly when one is wanted.
    pub open spec fn applied(self) -> StatusState {
        StatusState { icon: self.wanted(), ..self }
    }

    /// How the icon comes or goes, and what it shows then.
    pub open spec fn applies(self, number: Option<u64>) -> Seq<ActionView> {
        (if self.wanted() && !self.icon {
            seq![ActionView::CreateIcon(self.icon_settings())]
        } else if !self.wanted() && self.icon {
            seq![ActionView::RemoveIcon]
        } else {
            seq![]
        }) + self.applied().shows_space(number)
    }

    /// The state with another configuration. An icon made with other settings
    /// is gone.
    pub open spec fn reconfigured(self, config: Arc<Config>) -> StatusState {
        StatusState {
            config,
            icon: self.icon && config.settings.experimental.status_icon == self.icon_settings(),
        }
    }

    /// The state after `event`.
    pub open spec fn after(self, event: EventView) -> StatusState {
        match event {
            EventView::ConfigUpdated(config) => self.reconfigured(config).applied(),
            _ => self,
        }
    }

    /// What `event` does to the icon, where `number` is that of the active
    /// space.
    pub open spec fn does(self, event: EventView, number: Option<u64>) -> Seq<ActionView> {
        match event {
            EventView::SpaceChanged(_) | EventView::FocusedScreenChanged => {
                self.shows_space(number)
            },
            EventView::GlobalEnabledChanged(enabled) => self.shows_toggle(enabled),
            EventView::SpaceEnabledChanged(enabled) => self.shows_space_toggle(enabled),
            EventView::ConfigUpdated(config) => (if self.icon && !self.reconfigured(config).icon {
                seq![ActionView::RemoveIcon]
            } else {
                seq![]
            }) + self.reconfigured(config).applies(number),
        }
    }
}

fn act(out: &mut Vec<Action>, action: Action)
    ensures
        told(final(out)@) == told(old(out)@).push(action@),
{
    out.push(action);
    assert(told(out@) =~= told(old(out)@).push(action@));
}

/// Decides what the status icon shows.
pub struct Status {
    config: Arc<Config>,
    icon: bool,
}

impl View for Status {
    type V = StatusState;

    closed spec fn view(&self) -> StatusState {
        StatusState { config: self.config, icon: self.icon }
    }
}

impl Status {
    /// The status icon of a configuration, and what makes it, where `number` is
    /// that of the active space.
    pub fn new(config: Arc<Config>, number: Option<u64>) -> (started: (Status, Vec<Action>))
        ensures
            started.0@ == (StatusState { config, icon: false }).applied(),
            told(started.1@) == (StatusState { config, icon: false }).applies(number)
                + started.0@.shows_toggle(true),
    {
        let mut out: Vec<Action> = Vec::new();
        let mut status = Status { config, icon: false };
        let ghost before = status@;
        assert(told(out@) =~= seq![]);
        status.apply_config(number, &mut out);
        status.update_toggle_title(true, &mut out);
        assert(told(out@) =~= before.applies(number) + status@.shows_toggle(true));
        (status, out)
    }

    /// Whether there is an icon. Without one at the start, nothing is ever
    /// shown.
    pub fn has_icon(&self) -> (icon: bool)
        ensures
            icon == self@.icon,
    {
        self.icon
    }

    /// Takes in one event, with the number of the active space, and returns
    /// what to do to the icon.
    pub fn handle_event(&mut self, event: Event, number: Option<u64>) -> (actions: Vec<Action>)
        ensures
            final(self)@ == old(self)@.after(event@),
            told(actions@) == old(self)@.does(event@, number),
    {
        let mut out: Vec<Action> = Vec::new();
        assert(told(out@) =~= seq![]);
        match event {
            Event::SpaceChanged(_) | Event::FocusedScreenChanged => {
                self.update_space(number, &mut out);
            },
            Event::GlobalEnabledChanged(enabled) => {
                self.update_toggle_title(enabled, &mut out);
            },
            Event::SpaceEnabledChanged(enabled) => {
                self.update_space_toggle_title(enabled, &mut out);
            },
            Event::ConfigUpdated(config) => {
                if self.config.settings.experimental.status_icon
                    != config.settings.experimental.status_icon {
                    // Remove the icon so it gets recreated.
                    if self.icon {
                        self.icon = false;
                        act(&mut out, Action::RemoveIcon);
                    }
                }
                self.config = config;
                self.apply_config(number, &mut out);
            },
        }
        assert(told(out@) =~= old(self)@.does(event@, number));
        out
    }

    fn apply_config(&mut self, number: Option<u64>, out: &mut Vec<Action>)
        ensures
            final(self)@ == old(self)@.applied(),
            told(final(out)@) == told(old(out)@) + old(self)@.applies(number),
    {
        if self.config.settings.status_icon.enable {
            if !self.icon {
                self.icon = true;
                act(out, Action::CreateIcon(self.config.settings.experimental.status_icon));
            }
        } else {
            if self.icon {
                self.icon = false;
                act(out, Action::RemoveIcon);
            }
        }
        self.update_space(number, out);
        assert(told(out@) =~= told(old(out)@) + old(self)@.applies(number));
    }

    fn update_space(&self, number: Option<u64>, out: &mut Vec<Action>)
        ensures
            told(final(out)@) == told(old(out)@) + self@.shows_space(number),
    {
        if self.icon {
            let label = match number {
                Some(n) => if self.config.settings.experimental.status_icon.space_index {
                    decimal(n)
                } else {
                    String::new()
                },
                None => String::new(),
            };
            act(out, Action::SetText(label));
        }
        assert(told(out@) =~= told(old(out)@) + self@.shows_space(number));
    }

    fn update_toggle_title(&self, enabled: bool, out: &mut Vec<Action>)
        ensures
            told(final(out)@) == told(old(out)@) + self@.shows_toggle(enabled),
    {
        if self.icon {
            let title = if enabled {
                "Pause Glide".to_owned()
            } else {
                "Resume Glide".to_owned()
            };
            act(out, Action::SetToggleTitle(title));
            act(out, Action::SetSpaceToggleEnabled(enabled));
        }
        assert(told(out@) =~= told(old(out)@) + self@.shows_toggle(enabled));
    }

    fn update_space_toggle_title(&self, enabled: bool, out: &mut Vec<Action>)
        ensures
            told(final(out)@) == told(old(out)@) + self@.shows_space_toggle(enabled),
    {
        if self.icon {
            let title = if enabled {
                "Stop Managing Space".to_owned()
            } else {
                "Start Managing Space".to_owned()
            };
            act(out, Action::SetSpaceToggleTitle(title));
        }
        assert(told(out@) =~= told(old(out)@) + self@.shows_space_toggle(enabled));
    }
}

/// Whether there is an icon after `does`, if there was one before as `icon`
/// says.
pub open spec fn icon_after(icon: bool, does: Seq<ActionView>) -> bool
    decreases does.len(),
{
    if does.len() == 0 {
        icon
    } else {
        match does.last() {
            ActionView::CreateIcon(_) => true,
            ActionView::RemoveIcon => false,
            _ => icon_after(icon, does.drop_last()),
        }
    }
}

/// The state says whether there is an icon: creating and removing it happens
/// exactly when the state changes.
pub proof fn the_state_knows_of_the_icon(
    state: StatusState,
    event: EventView,
    number: Option<u64>,
)
    ensures
        icon_after(state.icon, state.does(event, number)) == state.after(event).icon,
{
    reveal_with_fuel(icon_after, 4);
    let does = state.does(event, number);
    assert(does.len() <= 3);
    if does.len() > 0 {
        assert(does.drop_last().len() == does.len() - 1);
    }
    match event {
        EventView::ConfigUpdated(config) => {
            let middle = state.reconfigured(config);
            let shown = middle.applied().shows_space(number);
            if shown.len() > 0 {
                assert(does.last() == shown.last());
            }
        },
        _ => {},
    }
}

/// A configuration with the same icon settings keeps the icon that there is.
pub proof fn unchanged_settings_keep_the_icon(
    state: StatusState,
    config: Arc<Config>,
    number: Option<u64>,
)
    requires
        state.icon,
        config.settings.status_icon.enable,
        config.settings.experimental.status_icon == state.icon_settings(),
    ensures
        state.does(EventView::ConfigUpdated(config), number) == state.after(
            EventView::ConfigUpdated(config),
        ).shows_space(number),
{
    assert(state.does(EventView::ConfigUpdated(config), number) =~= state.after(
        EventView::ConfigUpdated(config),
    ).shows_space(number));
}

/// Other icon settings make a new icon.
pub proof fn changed_settings_make_a_new_icon(
    state: StatusState,
    config: Arc<Config>,
    number: Option<u64>,
)
    requires
        state.icon,
        config.settings.status_icon.enable,
        config.settings.experimental.status_icon != state.icon_settings(),
    ensures
        state.does(EventView::ConfigUpdated(config), number).take(2) == seq![
            ActionView::RemoveIcon,
            ActionView::CreateIcon(config.settings.experimental.status_icon),
        ],
{
    assert(state.does(EventView::ConfigUpdated(config), number).take(2) =~= seq![
        ActionView::RemoveIcon,
        ActionView::CreateIcon(config.settings.experimental.status_icon),
    ]);
}

/// Without an icon nothing is shown, until a configuration asks for one.
pub proof fn without_an_icon_nothing_is_shown(
    state: StatusState,
    event: EventView,
    number: Option<u64>,
)
    requires
        !state.icon,
        !(event is ConfigUpdated),
    ensures
        state.does(event, number) == Seq::<ActionView>::empty(),
{
}

proof fn told_one_by_one(actions: Seq<Action>)
    ensures
        told(actions).len() == actions.len(),
        forall|k: int| 0 <= k < actions.len() ==> told(actions)[k] == (#[trigger] actions[k])@,
{
}

/// Whether `action` sets the text of the icon: the number of the space in decimal
/// where it is known and the user wants to see it, and nothing otherwise.
pub open spec fn sets_the_number(action: Action, config: Arc<Config>, number: Option<u64>) -> bool {
    &&& action matches Action::SetText(text)
    &&& number is Some && config.settings.experimental.status_icon.space_index ==> text@
        == decimal_digits(number->0 as nat)
    &&& number is None || !config.settings.experimental.status_icon.space_index ==> text@.len() == 0
}

/// Whether the two actions say in the menu what it would do to the window manager
/// and whether a space can be toggled: only while the window manager is on.
pub open spec fn sets_the_toggle(title: Action, usable: Action, enabled: bool) -> bool {
    &&& title matches Action::SetToggleTitle(text)
    &&& enabled ==> text@ == "Pause Glide"@
    &&& !enabled ==> text@ == "Resume Glide"@
    &&& usable == Action::SetSpaceToggleEnabled(enabled)
}

/// With an icon, a change of spaces or of the focus sets its text, and nothing
/// else; without one nothing is done.
pub proof fn the_number_of_the_space_is_shown(
    status: &mut Status,
    event: Event,
    number: Option<u64>,
    actions: Vec<Action>,
)
    requires
        call_ensures(Status::handle_event, (status, event, number), actions),
    ensures
        ({
            let before = old(status)@;
            let after = final(status)@;
            event is SpaceChanged || event is FocusedScreenChanged ==> {
                &&& after == before
                &&& before.icon ==> actions@.len() == 1 && sets_the_number(
                    actions@[0],
                    before.config,
                    number,
                )
                &&& !before.icon ==> actions@.len() == 0
            }
        }),
{
    told_one_by_one(actions@);
}

/// With an icon, its menu offers to pause the window manager while it is on and to
/// resume it while it is off; without one nothing is done.
pub proof fn the_menu_follows_the_window_manager(
    status: &mut Status,
    enabled: bool,
    number: Option<u64>,
    actions: Vec<Action>,
)
    requires
        call_ensures(Status::handle_event, (status, Event::GlobalEnabledChanged(enabled), number), actions),
    ensures
        ({
            let before = old(status)@;
            let after = final(status)@;
            &&& after == before
            &&& before.icon ==> actions@.len() == 2 && sets_the_toggle(
                actions@[0],
                actions@[1],
                enabled,
            )
            &&& !before.icon ==> actions@.len() == 0
        }),
{
    told_one_by_one(actions@);
}

/// With an icon, its menu offers to stop managing a space that is managed and to
/// start managing one that is not; without one nothing is done.
pub proof fn the_menu_follows_the_space(
    status: &mut Status,
    enabled: bool,
    number: Option<u64>,
    actions: Vec<Action>,
)
    requires
        call_ensures(Status::handle_event, (status, Event::SpaceEnabledChanged(enabled), number), actions),
    ensures
        ({
            let before = old(status)@;
            let after = final(status)@;
            &&& after == before
            &&& before.icon ==> {
                &&& actions@.len() == 1
                &&& actions@[0] matches Action::SetSpaceToggleTitle(text)
                &&& enabled ==> text@ == "Stop Managing Space"@
                &&& !enabled ==> text@ == "Start Managing Space"@
            }
            &&& !before.icon ==> actions@.len() == 0
        }),
{
    told_one_by_one(actions@);
}

/// A new configuration has an icon exactly where it wants one. One that was made
/// with other settings, or is not wanted any more, is removed; one is made where
/// none is left, with the new settings; and its text is set last.
pub proof fn the_icon_follows_the_configuration(
    status: &mut Status,
    config: Arc<Config>,
    number: Option<u64>,
    actions: Vec<Action>,
)
    requires
        call_ensures(Status::handle_event, (status, Event::ConfigUpdated(config), number), actions),
    ensures
        ({
            let before = old(status)@;
            let after = final(status)@;
            let wanted = config.settings.status_icon.enable;
            let fits = config.settings.experimental.status_icon
                == before.config.settings.experimental.status_icon;
            let removed = before.icon && !(wanted && fits);
            let made = wanted && !(before.icon && fits);
            let r = if removed {
                1int
            } else {
                0
            };
            let m = if made {
                1int
            } else {
                0
            };
            &&& after.config == config
            &&& after.icon == wanted
            &&& removed ==> actions@[0] is RemoveIcon
            &&& made ==> actions@[r] == Action::CreateIcon(
                config.settings.experimental.status_icon,
            )
            &&& wanted ==> actions@.len() == r + m + 1 && sets_the_number(
                actions@[r + m],
                config,
                number,
            )
            &&& !wanted ==> actions@.len() == r
        }),
{
    told_one_by_one(actions@);
}

/// At the start there is an icon exactly where the configuration wants one: it is
/// made with its settings, its text is set, and its menu offers to pause.
pub proof fn a_status_starts_with_the_wanted_icon(
    config: Arc<Config>,
    number: Option<u64>,
    started: (Status, Vec<Action>),
)
    requires
        call_ensures(Status::new, (config, number), started),
    ensures
        started.0@.config == config,
        started.0@.icon == config.settings.status_icon.enable,
        config.settings.status_icon.enable ==> {
            &&& started.1@.len() == 4
            &&& started.1@[0] == Action::CreateIcon(config.settings.experimental.status_icon)
            &&& sets_the_number(started.1@[1], config, number)
            &&& sets_the_toggle(started.1@[2], started.1@[3], true)
        },
        !config.settings.status_icon.enable ==> started.1@.len() == 0,
{
    told_one_by_one(started.1@);
}

/// There is an icon at the start exactly where the configuration wants one.
pub proof fn the_icon_is_there_where_it_is_wanted(
    config: Arc<Config>,
    number: Option<u64>,
    started: (Status, Vec<Action>),
    icon: bool,
)
    requires
        call_ensures(Status::new, (config, number), started),
        call_ensures(Status::has_icon, (&started.0,), icon),
    ensures
        icon <==> config.settings.status_icon.enable,
{
}

} // verus!
