//! Configuration: its types, the merge of user settings over defaults, and the
//! checks that make a configuration usable.
//!
//! Sub-types have no defaults of their own: every default value comes from the
//! default configuration file, so that no two of them can drift apart.

pub mod layers;
pub mod partial;

use std::str::FromStr;
use std::sync::Arc;

use regex::Regex;
use vstd::prelude::*;

use crate::actor::wm_controller::WmCommand;
use crate::model::{LayoutKind, RootOrientation};
use crate::sys::geometry::{CGFloat, HUNDRED_BITS, ONE_BITS, ZERO_BITS};
use crate::text::{join_path, path_below, position, same_text, split_once, trim, trimmed};

verus! {

/// [`regex::Regex`], a compiled regular expression.
#[verifier::external_type_specification]
#[verifier::external_body]
pub struct ExRegex(regex::Regex);

/// A configuration that is complete and valid.
#[derive(Debug)]
pub struct Config {
    pub settings: Settings,
    pub window_rules: Vec<WindowRule>,
    pub keys: Vec<(Hotkey, WmCommand)>,
}

/// A key with its modifiers.
#[derive(Debug)]
pub struct Hotkey {
    /// How the hotkey is written, in the one form that all others stand for.
    pub text: String,
}

/// The general settings.
#[derive(Debug, PartialEq)]
pub struct Settings {
    pub animate: bool,
    pub default_disable: bool,
    pub mouse_follows_focus: bool,
    pub mouse_hides_on_focus: bool,
    pub focus_follows_mouse: bool,
    pub outer_gap: CGFloat,
    pub inner_gap: CGFloat,
    pub default_keys: bool,
    pub default_layout_kind: LayoutKind,
    pub default_root_orientation: RootOrientation,
    pub group_bars: GroupBars,
    pub status_icon: StatusIcon,
    pub experimental: Experimental,
}

/// A regular expression sourced from a configuration. Making one compiles the
/// pattern, so an invalid pattern surfaces as a configuration error rather
/// than being silently ignored later.
#[derive(Debug)]
pub struct ConfigRegex {
    regex: Regex,
    pattern: String,
}

/// A rule that overrides how a window is managed when it is first observed,
/// based on properties of the window and its application.
///
/// All specified conditions must match (logical AND) for the rule to apply.
/// Rules are evaluated in order and the first matching rule wins.
#[derive(Debug, PartialEq, Clone)]
pub struct WindowRule {
    /// Conditions a window must satisfy for this rule to apply.
    pub conditions: WindowRuleConditions,
    /// Whether matching windows should float (`true`) or tile (`false`).
    pub float: bool,
}

/// Conditions matched against a window and its application. All specified
/// conditions must match (logical AND); omitted conditions are ignored, so an
/// empty set of conditions matches every window. All conditions match
/// case-insensitively.
#[derive(Debug, PartialEq, Clone)]
pub struct WindowRuleConditions {
    /// Application bundle identifier, matched exactly (e.g. "com.apple.Safari").
    pub app_id: Option<String>,
    /// Substring match on the application's localized name.
    pub app_name: Option<String>,
    /// Regex matched against the window title.
    pub title_regex: Option<ConfigRegex>,
    /// Literal substring match on the window title.
    pub title_substring: Option<String>,
    /// Match for the macOS Accessibility AXRole (e.g. "AXWindow").
    pub ax_role: Option<String>,
    /// Match for the macOS Accessibility AXSubrole (e.g. "AXDialog").
    pub ax_subrole: Option<String>,
}

/// Settings that may change or go away.
#[derive(Debug, PartialEq)]
pub struct Experimental {
    pub status_icon: StatusIconExperimental,
    pub scroll: ScrollConfig,
}

/// Where a new window goes in the scroll layout.
#[derive(Debug, PartialEq, Eq, Structural, Clone, Copy)]
pub enum NewWindowPlacement {
    NewColumn,
    SameColumn,
}

/// When the focused column is moved to the center of the screen.
#[derive(Debug, PartialEq, Eq, Structural, Clone, Copy)]
pub enum CenterMode {
    Never,
    Always,
    OnOverflow,
}

impl Default for CenterMode {
    fn default() -> (mode: CenterMode)
        ensures
            mode == CenterMode::Never,
    {
        CenterMode::Never
    }
}

/// Settings of the scroll layout.
#[derive(Debug, PartialEq, Clone)]
pub struct ScrollConfig {
    pub enable: bool,
    pub center_focused_column: CenterMode,
    pub visible_columns: u32,
    pub column_width_presets: Vec<CGFloat>,
    pub new_window_in_column: NewWindowPlacement,
    pub scroll_sensitivity: CGFloat,
    pub invert_scroll_direction: bool,
    pub infinite_loop: bool,
    pub single_column_aspect_ratio: String,
}

/// A width in relation to a height.
#[derive(Debug, PartialEq, Clone, Copy)]
pub struct AspectRatio {
    pub width: CGFloat,
    pub height: CGFloat,
}

/// Settings of the status icon.
#[derive(Debug, PartialEq, Eq, Structural, Clone, Copy)]
pub struct StatusIcon {
    pub enable: bool,
}

/// Experimental settings of the status icon.
#[derive(Debug, PartialEq, Eq, Structural, Clone, Copy)]
pub struct StatusIconExperimental {
    pub space_index: bool,
    pub color: bool,
    /// Ignored; kept for compatibility.
    pub enable: bool,
}

/// Settings of the bars that show which windows share a place.
#[derive(Debug, PartialEq, Clone, Copy)]
pub struct GroupBars {
    pub enable: bool,
    pub thickness: CGFloat,
    pub horizontal_placement: HorizontalPlacement,
    pub vertical_placement: VerticalPlacement,
}

/// Where a bar of tabs goes.
#[derive(Debug, PartialEq, Eq, Structural, Clone, Copy)]
pub enum HorizontalPlacement {
    Top,
    Bottom,
}

/// Where a bar of a stack goes.
#[derive(Debug, PartialEq, Eq, Structural, Clone, Copy)]
pub enum VerticalPlacement {
    Left,
    Right,
}

/// A second handle on one configuration, by [`Arc::clone`]: it refers to the
/// same value.
#[verifier::external_body]
pub(crate) fn share(config: &Arc<Config>) -> (shared: Arc<Config>)
    ensures
        shared == config,
{
    Arc::clone(config)
}

/// Where the window manager keeps its own files, below the home directory.
pub open spec fn data_dir_of(home: Seq<char>) -> Seq<char> {
    path_below(home, ".glide"@)
}

/// Where the window manager keeps its own files.
pub fn data_dir(home: &str) -> (path: String)
    ensures
        path@ == data_dir_of(home@),
{
    join_path(home, ".glide")
}

/// Where the layout is saved to.
pub fn restore_file(home: &str) -> (path: String)
    ensures
        path@ == path_below(data_dir_of(home@), "layout.ron"@),
{
    join_path(data_dir(home).as_str(), "layout.ron")
}

/// Where the configuration is looked for, the best place first.
pub open spec fn config_paths(home: Seq<char>) -> Seq<Seq<char>> {
    seq![path_below(home, ".config/glide/glide.toml"@), path_below(home, ".glide.toml"@)]
}

/// How many places the configuration is looked for in.
pub const CONFIG_PATH_COUNT: usize = 2;

/// The places where the configuration is looked for are different.
pub proof fn config_paths_differ(home: Seq<char>)
    ensures
        config_paths(home).len() == CONFIG_PATH_COUNT,
        config_paths(home)[0] != config_paths(home)[1],
{
    reveal_strlit(".config/glide/glide.toml");
    reveal_strlit(".glide.toml");
    assert(config_paths(home)[0].len() != config_paths(home)[1].len());
}

/// Where the configuration is looked for, the best place first.
pub fn default_config_paths(home: &str) -> (paths: Vec<String>)
    ensures
        paths@.len() == CONFIG_PATH_COUNT,
        forall|i: int| 0 <= i < CONFIG_PATH_COUNT ==> (#[trigger] paths@[i])@ == config_paths(home@)[i],
{
    let xdg_path = join_path(home, ".config/glide/glide.toml");
    let legacy_path = join_path(home, ".glide.toml");
    let differ = !same_text(xdg_path.as_str(), legacy_path.as_str());
    let mut paths: Vec<String> = Vec::new();
    paths.push(xdg_path);
    if differ {
        paths.push(legacy_path);
    }
    proof {
        config_paths_differ(home@);
    }
    paths
}

/// The place of the configuration: the first that is there, or else the best
/// one. `present` says of each place whether something is there.
pub fn config_path(home: &str, present: &Vec<bool>) -> (path: String)
    requires
        present@.len() == CONFIG_PATH_COUNT,
    ensures
        path@ == config_paths(home@)[
            if !present@[0] && present@[1] {
                1
            } else {
                0
            }
        ],
{
    let paths = default_config_paths(home);
    let mut i: usize = 0;
    while i < paths.len()
        invariant
            i <= paths@.len(),
            paths@.len() == CONFIG_PATH_COUNT,
            present@.len() == CONFIG_PATH_COUNT,
            paths@[0]@ == config_paths(home@)[0],
            paths@[1]@ == config_paths(home@)[1],
            forall|j: int| 0 <= j < i ==> !present@[j],
        decreases paths@.len() - i,
    {
        if present[i] {
            return paths[i].clone();
        }
        i = i + 1;
    }
    paths[0].clone()
}

/// How the attempt to open a file went.
#[derive(Clone, Copy, PartialEq, Eq, Structural, Debug)]
pub enum OpenOutcome {
    Opened,
    NotFound,
    /// It failed for another reason.
    Failed,
}

/// What comes next when a configuration is loaded.
#[derive(Debug)]
pub enum LoadStep {
    /// Try to open this file.
    Open(String),
    /// Read the file, which is open.
    Read(String),
    /// Take the default configuration.
    UseDefault,
    /// Give up: the last file could not be opened.
    Fail,
}

/// What a [`LoadStep`] says.
pub enum LoadStepView {
    Open(Seq<char>),
    Read(Seq<char>),
    UseDefault,
    Fail,
}

impl View for LoadStep {
    type V = LoadStepView;

    open spec fn view(&self) -> LoadStepView {
        match *self {
            LoadStep::Open(path) => LoadStepView::Open(path@),
            LoadStep::Read(path) => LoadStepView::Read(path@),
            LoadStep::UseDefault => LoadStepView::UseDefault,
            LoadStep::Fail => LoadStepView::Fail,
        }
    }
}

/// How many attempts found nothing before one that did not.
pub open spec fn not_found(outcomes: Seq<OpenOutcome>) -> int
    decreases outcomes.len(),
{
    if outcomes.len() == 0 || outcomes[0] != OpenOutcome::NotFound {
        0
    } else {
        1 + not_found(outcomes.drop_first())
    }
}

/// What comes after attempts to open files that went as `outcomes` say. A file
/// that the user names has to be there; otherwise the usual places are tried in
/// turn, and where there is no file the defaults are used.
pub open spec fn load_step(
    custom_path: Option<Seq<char>>,
    home: Seq<char>,
    outcomes: Seq<OpenOutcome>,
) -> LoadStepView {
    match custom_path {
        Some(path) => if outcomes.len() == 0 {
            LoadStepView::Open(path)
        } else if outcomes[0] == OpenOutcome::Opened {
            LoadStepView::Read(path)
        } else {
            LoadStepView::Fail
        },
        None => {
            let tried = not_found(outcomes);
            if tried >= CONFIG_PATH_COUNT {
                LoadStepView::UseDefault
            } else if tried == outcomes.len() {
                LoadStepView::Open(config_paths(home)[tried])
            } else if outcomes[tried] == OpenOutcome::Opened {
                LoadStepView::Read(config_paths(home)[tried])
            } else {
                LoadStepView::Fail
            }
        },
    }
}

proof fn not_found_is_first(outcomes: Seq<OpenOutcome>)
    ensures
        0 <= not_found(outcomes) <= outcomes.len(),
        forall|i: int| 0 <= i < not_found(outcomes) ==> outcomes[i] == OpenOutcome::NotFound,
        not_found(outcomes) < outcomes.len() ==> outcomes[not_found(outcomes)]
            != OpenOutcome::NotFound,
    decreases outcomes.len(),
{
    if outcomes.len() == 0 || outcomes[0] != OpenOutcome::NotFound {
    } else {
        let rest = outcomes.drop_first();
        not_found_is_first(rest);
        assert forall|i: int| 0 <= i < not_found(outcomes) implies outcomes[i]
            == OpenOutcome::NotFound by {
            if i > 0 {
                assert(rest[i - 1] == OpenOutcome::NotFound);
            }
        }
    }
}

impl Config {
    /// Says what to do next to load a configuration, after attempts to open
    /// files that went as `outcomes` say.
    pub fn load(custom_path: Option<&str>, home: &str, outcomes: &Vec<OpenOutcome>) -> (step:
        LoadStep)
        ensures
            step@ == load_step(
                match custom_path {
                    Some(path) => Some(path@),
                    None => None,
                },
                home@,
                outcomes@,
            ),
    {
        if let Some(path) = custom_path {
            return if outcomes.len() == 0 {
                LoadStep::Open(path.to_owned())
            } else if outcomes[0] == OpenOutcome::Opened {
                LoadStep::Read(path.to_owned())
            } else {
                LoadStep::Fail
            };
        }
        let paths = default_config_paths(home);
        proof {
            not_found_is_first(outcomes@);
        }
        let mut tried: usize = 0;
        while tried < outcomes.len() && outcomes[tried] == OpenOutcome::NotFound
            invariant
                tried <= outcomes@.len(),
                forall|i: int| 0 <= i < tried ==> outcomes@[i] == OpenOutcome::NotFound,
            decreases outcomes@.len() - tried,
        {
            tried = tried + 1;
        }
        proof {
            let first = not_found(outcomes@);
            if first < tried {
                assert(outcomes@[first] == OpenOutcome::NotFound);
            } else if tried < first {
                assert(outcomes@[tried as int] == OpenOutcome::NotFound);
            }
        }
        if tried >= CONFIG_PATH_COUNT {
            LoadStep::UseDefault
        } else if tried == outcomes.len() {
            LoadStep::Open(paths[tried].clone())
        } else if outcomes[tried] == OpenOutcome::Opened {
            LoadStep::Read(paths[tried].clone())
        } else {
            LoadStep::Fail
        }
    }
}

/// The number of columns that is used where `columns` are asked for.
pub open spec fn kept_columns(columns: u32) -> u32 {
    if columns < 1 {
        1
    } else if columns > 5 {
        5
    } else {
        columns
    }
}

/// Whether a column may be this part of the screen wide.
pub open spec fn usable_preset(preset: CGFloat) -> bool {
    (CGFloat { bits: ZERO_BITS }).less(preset) && preset.at_most(CGFloat { bits: ONE_BITS })
}

impl ScrollConfig {
    /// Whether all values are in range.
    pub open spec fn in_range(self) -> bool {
        &&& 1 <= self.visible_columns <= 5
        &&& !self.scroll_sensitivity.less(CGFloat { bits: ZERO_BITS })
        &&& !(CGFloat { bits: HUNDRED_BITS }).less(self.scroll_sensitivity)
        &&& forall|i: int|
            0 <= i < self.column_width_presets@.len() ==> usable_preset(
                #[trigger] self.column_width_presets@[i],
            )
    }

    /// Whether `valid` is `self` with all values brought into range: numbers are
    /// clamped, presets that are not usable are dropped, and the rest stays.
    pub open spec fn becomes(self, valid: ScrollConfig) -> bool {
        &&& valid.enable == self.enable
        &&& valid.center_focused_column == self.center_focused_column
        &&& valid.visible_columns == kept_columns(self.visible_columns)
        &&& valid.column_width_presets@ == self.column_width_presets@.filter(
            |p: CGFloat| usable_preset(p),
        )
        &&& valid.new_window_in_column == self.new_window_in_column
        &&& valid.scroll_sensitivity == self.scroll_sensitivity.clamped(
            CGFloat { bits: ZERO_BITS },
            CGFloat { bits: HUNDRED_BITS },
        )
        &&& valid.invert_scroll_direction == self.invert_scroll_direction
        &&& valid.infinite_loop == self.infinite_loop
        &&& valid.single_column_aspect_ratio == self.single_column_aspect_ratio
    }

    /// Brings all values into range.
    pub fn validated(self) -> (valid: ScrollConfig)
        ensures
            self.becomes(valid),
            valid.in_range(),
    {
        let visible_columns: u32 = if self.visible_columns < 1 {
            1
        } else if self.visible_columns > 5 {
            5
        } else {
            self.visible_columns
        };
        let scroll_sensitivity = self.scroll_sensitivity.clamp_between(
            CGFloat { bits: ZERO_BITS },
            CGFloat { bits: HUNDRED_BITS },
        );
        let column_width_presets = usable_presets(&self.column_width_presets);
        ScrollConfig {
            enable: self.enable,
            center_focused_column: self.center_focused_column,
            visible_columns,
            column_width_presets,
            new_window_in_column: self.new_window_in_column,
            scroll_sensitivity,
            invert_scroll_direction: self.invert_scroll_direction,
            infinite_loop: self.infinite_loop,
            single_column_aspect_ratio: self.single_column_aspect_ratio,
        }
    }
}

fn usable_presets(presets: &Vec<CGFloat>) -> (usable: Vec<CGFloat>)
    ensures
        usable@ == presets@.filter(|p: CGFloat| usable_preset(p)),
        forall|i: int| 0 <= i < usable@.len() ==> usable_preset(#[trigger] usable@[i]),
{
    let ghost keep = |p: CGFloat| usable_preset(p);
    let mut usable: Vec<CGFloat> = Vec::new();
    let mut i: usize = 0;
    reveal(Seq::filter);
    assert(presets@.take(0) =~= seq![]);
    while i < presets.len()
        invariant
            i <= presets@.len(),
            keep == (|p: CGFloat| usable_preset(p)),
            usable@ == presets@.take(i as int).filter(keep),
            forall|j: int| 0 <= j < usable@.len() ==> usable_preset(#[trigger] usable@[j]),
        decreases presets@.len() - i,
    {
        let preset = presets[i];
        reveal(Seq::filter);
        assert(presets@.take(i as int + 1).drop_last() =~= presets@.take(i as int));
        if (CGFloat { bits: ZERO_BITS }).is_less(preset) && preset.is_at_most(
            CGFloat { bits: ONE_BITS },
        ) {
            usable.push(preset);
        }
        i = i + 1;
    }
    assert(presets@.take(i as int) =~= presets@);
    usable
}

proof fn filtering_usable_presets_keeps_all(presets: Seq<CGFloat>)
    requires
        forall|i: int| 0 <= i < presets.len() ==> usable_preset(#[trigger] presets[i]),
    ensures
        presets.filter(|p: CGFloat| usable_preset(p)) == presets,
    decreases presets.len(),
{
    reveal(Seq::filter);
    if presets.len() > 0 {
        let front = presets.drop_last();
        assert forall|i: int| 0 <= i < front.len() implies usable_preset(#[trigger] front[i]) by {
            assert(usable_preset(presets[i]));
        }
        filtering_usable_presets_keeps_all(front);
        assert(usable_preset(presets[presets.len() - 1]));
        assert(front.push(presets.last()) =~= presets);
    }
}

/// Values that are in range stay as they are, so that bringing values into range
/// twice is the same as once.
pub proof fn values_in_range_stay(scroll: ScrollConfig)
    requires
        scroll.in_range(),
    ensures
        scroll.becomes(scroll),
{
    filtering_usable_presets_keeps_all(scroll.column_width_presets@);
}

impl Settings {
    /// Whether `valid` is `self` with all values brought into range.
    pub open spec fn becomes(self, valid: Settings) -> bool {
        &&& self.experimental.scroll.becomes(valid.experimental.scroll)
        &&& valid == (Settings {
            experimental: Experimental {
                scroll: valid.experimental.scroll,
                ..self.experimental
            },
            ..self
        })
    }

    /// Brings all values into range.
    pub fn validated(self) -> (valid: Settings)
        ensures
            self.becomes(valid),
            valid.experimental.scroll.in_range(),
    {
        Settings {
            experimental: Experimental {
                status_icon: self.experimental.status_icon,
                scroll: self.experimental.scroll.validated(),
            },
            ..self
        }
    }
}

impl GroupBars {
    /// Get the indicator thickness for layout space reservation
    pub fn indicator_thickness(&self) -> (thickness: CGFloat)
        ensures
            thickness == (if self.enable {
                self.thickness
            } else {
                CGFloat { bits: ZERO_BITS }
            }),
    {
        if self.enable {
            self.thickness
        } else {
            CGFloat { bits: ZERO_BITS }
        }
    }
}

impl Default for WindowRuleConditions {
    fn default() -> (conditions: WindowRuleConditions)
        ensures
            conditions == (WindowRuleConditions {
                app_id: None,
                app_name: None,
                title_regex: None,
                title_substring: None,
                ax_role: None,
                ax_subrole: None,
            }),
    {
        WindowRuleConditions {
            app_id: None,
            app_name: None,
            title_regex: None,
            title_substring: None,
            ax_role: None,
            ax_subrole: None,
        }
    }
}

/// What the regex crate makes of a pattern: its compiled form or, where it does
/// not take the pattern, the reason, in its words. Its limit on the size of what
/// it compiles makes the answer depend on how many bits an address has.
pub uninterp spec fn compiled_regex(
    pattern: Seq<char>,
    case_insensitive: bool,
    pointer_bits: u32,
) -> Result<Regex, Seq<char>>;

/// Whether a compiled regular expression matches anywhere in a text.
pub uninterp spec fn regex_finds(regex: Regex, text: Seq<char>) -> bool;

/// Whether a character is a letter from A to Z, large or small.
pub open spec fn plain_letter(c: char) -> bool {
    'a' <= c <= 'z' || 'A' <= c <= 'Z'
}

/// Whether a text has no characters but letters from A to Z. As a pattern, such
/// a text stands for itself.
pub open spec fn plain_word(s: Seq<char>) -> bool {
    forall|i: int| 0 <= i < s.len() ==> plain_letter(#[trigger] s[i])
}

/// Whether `c` is a letter from A to Z, its large or its small form, or one of
/// the two characters further on that count as forms of K and S: the sign for
/// kelvin and the long s.
pub open spec fn form_of(c: char, letter: char) -> bool {
    ||| c == letter
    ||| 'a' <= letter <= 'z' && c as int == letter as int - 32
    ||| 'A' <= letter <= 'Z' && c as int == letter as int + 32
    ||| (letter == 'k' || letter == 'K') && c == '\u{212a}'
    ||| (letter == 's' || letter == 'S') && c == '\u{17f}'
}

/// Whether `word` stands at position `at` of `text`; letters may be large or
/// small where that is ignored.
pub open spec fn word_at(text: Seq<char>, word: Seq<char>, ignore_case: bool, at: int) -> bool {
    &&& 0 <= at <= text.len() - word.len()
    &&& forall|i: int|
        0 <= i < word.len() ==> if ignore_case {
            form_of(text[at + i], #[trigger] word[i])
        } else {
            text[at + i] == #[trigger] word[i]
        }
}

/// Whether `word` stands anywhere in `text`.
pub open spec fn word_found(text: Seq<char>, word: Seq<char>, ignore_case: bool) -> bool {
    exists|at: int| word_at(text, word, ignore_case, at)
}

/// Whether `regex` matches exactly the texts that `word` stands in.
pub open spec fn finds_word(regex: Regex, word: Seq<char>, ignore_case: bool) -> bool {
    forall|text: Seq<char>| #[trigger]
        regex_finds(regex, text) == word_found(text, word, ignore_case)
}

/// `RegexBuilder::build`, told whether to ignore case: the pattern is compiled,
/// or the reason why it cannot be is put into words. A pattern of letters from A
/// to Z is found where those letters stand, in any of their forms where case is
/// ignored. What other patterns match is left to the names.
#[verifier::external_body]
fn compile(pattern: &str, case_insensitive: bool) -> (outcome: Result<Regex, String>)
    ensures
        match outcome {
            Ok(regex) => {
                &&& compiled_regex(pattern@, case_insensitive, usize::BITS) matches Ok(made)
                &&& made == regex
                &&& plain_word(pattern@) ==> finds_word(regex, pattern@, case_insensitive)
            },
            Err(reason) => {
                &&& compiled_regex(pattern@, case_insensitive, usize::BITS) matches Err(said)
                &&& said == reason@
            },
        },
{
    match regex::RegexBuilder::new(pattern).case_insensitive(case_insensitive).build() {
        Ok(regex) => Ok(regex),
        Err(error) => Err(error.to_string()),
    }
}

/// `Regex::is_match`: whether there is a match anywhere in the text.
#[verifier::external_body]
fn find(regex: &Regex, text: &str) -> (found: bool)
    ensures
        found == regex_finds(*regex, text@),
{
    regex.is_match(text)
}

/// Whether `result` is what becomes of a pattern from a configuration, which
/// ignores case: the pattern and its compiled form, or the reason why it has none.
/// A pattern of letters from A to Z matches the texts that those letters stand
/// in, large or small.
pub open spec fn pattern_becomes(
    pattern: Seq<char>,
    result: Result<ConfigRegex, String>,
) -> bool {
    match result {
        Ok(made) => {
            &&& made.pattern() == pattern
            &&& compiled_regex(pattern, true, usize::BITS) == Ok::<Regex, Seq<char>>(
                made.compiled(),
            )
            &&& plain_word(pattern) ==> finds_word(made.compiled(), pattern, true)
        },
        Err(reason) => compiled_regex(pattern, true, usize::BITS) == Err::<Regex, Seq<char>>(
            reason@,
        ),
    }
}

impl ConfigRegex {
    /// The pattern, as it was written.
    pub closed spec fn pattern(self) -> Seq<char> {
        self.pattern@
    }

    /// The compiled form.
    pub closed spec fn compiled(self) -> Regex {
        self.regex
    }

    /// A pattern with the outcome of compiling it.
    pub fn from_outcome(pattern: &str, outcome: Result<Regex, String>) -> (result: Result<
        ConfigRegex,
        String,
    >)
        ensures
            match outcome {
                Ok(regex) => result matches Ok(made) && made.pattern() == pattern@
                    && made.compiled() == regex,
                Err(reason) => result == Err::<ConfigRegex, String>(reason),
            },
    {
        match outcome {
            Ok(regex) => Ok(ConfigRegex { regex, pattern: pattern.to_owned() }),
            Err(reason) => Err(reason),
        }
    }

    /// Compiles a pattern that ignores case.
    pub fn from_pattern(pattern: &str) -> (result: Result<ConfigRegex, String>)
        ensures
            pattern_becomes(pattern@, result),
    {
        ConfigRegex::from_outcome(pattern, compile(pattern, true))
    }

    /// Whether the pattern matches anywhere in `text`.
    pub fn is_match(&self, text: &str) -> (found: bool)
        ensures
            found == regex_finds(self.compiled(), text@),
    {
        find(&self.regex, text)
    }

    /// The pattern, as it was written.
    pub fn as_str(&self) -> (pattern: &str)
        ensures
            pattern@ == self.pattern(),
    {
        self.pattern.as_str()
    }

}

/// `Regex::clone`: the copy is the same compiled expression.
#[verifier::external_body]
fn copy_regex(regex: &Regex) -> (copy: Regex)
    ensures
        copy == *regex,
{
    regex.clone()
}

impl Clone for ConfigRegex {
    fn clone(&self) -> (copy: ConfigRegex)
        ensures
            copy == *self,
    {
        ConfigRegex { regex: copy_regex(&self.regex), pattern: self.pattern.clone() }
    }
}

/// A pattern is used as its compiled form.
impl std::ops::Deref for ConfigRegex {
    type Target = Regex;

    fn deref(&self) -> (regex: &Regex)
        ensures
            *regex == self.compiled(),
    {
        &self.regex
    }
}

/// Regular expressions compare by their patterns.
impl PartialEq for ConfigRegex {
    fn eq(&self, other: &ConfigRegex) -> (same: bool) {
        same_text(self.pattern.as_str(), other.pattern.as_str())
    }
}

impl vstd::std_specs::cmp::PartialEqSpecImpl for ConfigRegex {
    open spec fn obeys_eq_spec() -> bool {
        true
    }

    open spec fn eq_spec(&self, other: &ConfigRegex) -> bool {
        self.pattern() == other.pattern()
    }
}

impl FromStr for ConfigRegex {
    type Err = String;

    fn from_str(s: &str) -> (result: Result<ConfigRegex, String>)
        ensures
            pattern_becomes(s@, result),
    {
        ConfigRegex::from_pattern(s)
    }
}

/// A text as it is quoted for programmers, by the standard formatting of `str`:
/// between double quotes, with special characters escaped.
pub uninterp spec fn quoted_text(s: Seq<char>) -> Seq<char>;

/// The `Debug` formatting of `str`.
#[verifier::external_body]
fn quote(s: &str) -> (quoted: String)
    ensures
        quoted@ == quoted_text(s@),
{
    format!("{s:?}")
}

/// Why a text is no aspect ratio.
#[derive(Debug, PartialEq, Eq)]
pub enum AspectRatioError {
    /// There is no colon. Holds the text, quoted.
    Format(String),
    /// What stands before the colon is no number. Holds that, quoted.
    Width(String),
    /// What stands after the colon is no number. Holds that, quoted.
    Height(String),
    /// One of the numbers is not positive.
    NotPositive,
}

/// What an [`AspectRatioError`] says.
pub enum AspectRatioErrorView {
    Format(Seq<char>),
    Width(Seq<char>),
    Height(Seq<char>),
    NotPositive,
}

impl View for AspectRatioError {
    type V = AspectRatioErrorView;

    open spec fn view(&self) -> AspectRatioErrorView {
        match *self {
            AspectRatioError::Format(text) => AspectRatioErrorView::Format(text@),
            AspectRatioError::Width(text) => AspectRatioErrorView::Width(text@),
            AspectRatioError::Height(text) => AspectRatioErrorView::Height(text@),
            AspectRatioError::NotPositive => AspectRatioErrorView::NotPositive,
        }
    }
}

impl AspectRatioErrorView {
    /// What is said to the user.
    pub open spec fn text(self) -> Seq<char> {
        match self {
            AspectRatioErrorView::Format(text) => "expected 'W:H' format, got "@ + text,
            AspectRatioErrorView::Width(text) => "invalid width: "@ + text,
            AspectRatioErrorView::Height(text) => "invalid height: "@ + text,
            AspectRatioErrorView::NotPositive => "aspect ratio values must be positive"@,
        }
    }
}

impl AspectRatioError {
    /// What is said to the user.
    pub fn message(&self) -> (message: String)
        ensures
            message@ == self@.text(),
    {
        match self {
            AspectRatioError::Format(text) => "expected 'W:H' format, got ".to_owned().concat(
                text.as_str(),
            ),
            AspectRatioError::Width(text) => "invalid width: ".to_owned().concat(text.as_str()),
            AspectRatioError::Height(text) => "invalid height: ".to_owned().concat(text.as_str()),
            AspectRatioError::NotPositive => "aspect ratio values must be positive".to_owned(),
        }
    }
}

/// What stands before and after the first colon of an aspect ratio.
pub open spec fn ratio_halves(s: Seq<char>) -> Option<(Seq<char>, Seq<char>)> {
    if s.contains(':') {
        Some((s.take(position(s, ':')), s.skip(position(s, ':') + 1)))
    } else {
        None
    }
}

/// Why two numbers are no aspect ratio; a number that could not be read is
/// missing. The width is looked at first.
pub open spec fn ratio_rejection(
    w: Seq<char>,
    h: Seq<char>,
    width: Option<CGFloat>,
    height: Option<CGFloat>,
) -> Option<AspectRatioErrorView> {
    let zero = CGFloat { bits: ZERO_BITS };
    if width is None {
        Some(AspectRatioErrorView::Width(quoted_text(w)))
    } else if height is None {
        Some(AspectRatioErrorView::Height(quoted_text(h)))
    } else if width->0.at_most(zero) || height->0.at_most(zero) {
        Some(AspectRatioErrorView::NotPositive)
    } else {
        None
    }
}

impl AspectRatio {
    /// Splits an aspect ratio in the form `W:H` into the two texts around the
    /// colon.
    pub fn split(s: &str) -> (halves: Result<(String, String), AspectRatioError>)
        ensures
            match halves {
                Ok((w, h)) => ratio_halves(s@) == Some((w@, h@)),
                Err(error) => ratio_halves(s@) is None && error@ == AspectRatioErrorView::Format(
                    quoted_text(s@),
                ),
            },
    {
        match split_once(s, ':') {
            Some((w, h)) => Ok((w, h)),
            None => Err(AspectRatioError::Format(quote(s))),
        }
    }

    /// The texts of `split` with the numbers that they stand for, where white
    /// space around them does not count.
    pub fn number_texts(s: &str) -> (texts: Option<(String, String)>)
        ensures
            match ratio_halves(s@) {
                Some((left, right)) => texts matches Some((w, h)) && w@ == trimmed(left) && h@
                    == trimmed(right),
                None => texts is None,
            },
    {
        match AspectRatio::split(s) {
            Ok((w, h)) => Some((trim(w.as_str()), trim(h.as_str()))),
            Err(_) => None,
        }
    }

    /// Reads an aspect ratio in the form `W:H`, where `width` and `height` are
    /// the numbers that the texts of `number_texts` stand for, if they do.
    pub fn from_text(s: &str, width: Option<CGFloat>, height: Option<CGFloat>) -> (result: Result<
        AspectRatio,
        AspectRatioError,
    >)
        ensures
            match ratio_halves(s@) {
                Some((w, h)) => match ratio_rejection(w, h, width, height) {
                    Some(error) => result matches Err(e) && e@ == error,
                    None => result == Ok::<AspectRatio, AspectRatioError>(
                        AspectRatio { width: width->0, height: height->0 },
                    ),
                },
                None => result matches Err(e) && e@ == AspectRatioErrorView::Format(
                    quoted_text(s@),
                ),
            },
    {
        let (w, h) = match AspectRatio::split(s) {
            Ok(halves) => halves,
            Err(error) => return Err(error),
        };
        let width = match width {
            Some(width) => width,
            None => return Err(AspectRatioError::Width(quote(w.as_str()))),
        };
        let height = match height {
            Some(height) => height,
            None => return Err(AspectRatioError::Height(quote(h.as_str()))),
        };
        let zero = CGFloat { bits: ZERO_BITS };
        if width.is_at_most(zero) || height.is_at_most(zero) {
            return Err(AspectRatioError::NotPositive);
        }
        Ok(AspectRatio { width, height })
    }
}

impl ScrollConfig {
    /// The aspect ratio of a single column, where `width` and `height` are the
    /// numbers that its texts stand for. There is none where the setting is
    /// empty or cannot be read.
    pub fn aspect_ratio(&self, width: Option<CGFloat>, height: Option<CGFloat>) -> (ratio: Option<
        AspectRatio,
    >)
        ensures
            ratio == (match ratio_halves(self.single_column_aspect_ratio@) {
                Some((w, h)) => if ratio_rejection(w, h, width, height) is None {
                    Some(AspectRatio { width: width->0, height: height->0 })
                } else {
                    None
                },
                None => None,
            }),
    {
        if self.single_column_aspect_ratio.as_str().unicode_len() == 0 {
            assert(!self.single_column_aspect_ratio@.contains(':'));
            return None;
        }
        match AspectRatio::from_text(self.single_column_aspect_ratio.as_str(), width, height) {
            Ok(ratio) => Some(ratio),
            Err(_) => None,
        }
    }
}

/// The window manager keeps its files below the home directory: its own in one
/// directory, where the layout is too, and the configuration in the usual places,
/// the modern one first.
pub proof fn files_lie_below_the_home_directory(
    home: &str,
    data: String,
    restore: String,
    paths: Vec<String>,
    below_data: String,
    modern: String,
    legacy: String,
)
    requires
        call_ensures(data_dir, (home,), data),
        call_ensures(restore_file, (home,), restore),
        call_ensures(default_config_paths, (home,), paths),
        call_ensures(join_path, (home, ".glide"), below_data),
        call_ensures(join_path, (home, ".config/glide/glide.toml"), modern),
        call_ensures(join_path, (home, ".glide.toml"), legacy),
    ensures
        data@ == below_data@,
        restore@ == data@ + "/layout.ron"@,
        paths@.len() == 2,
        paths@[0]@ == modern@,
        paths@[1]@ == legacy@,
{
    reveal_strlit(".glide");
    reveal_strlit("layout.ron");
    reveal_strlit("/layout.ron");
    assert(data@.last() == 'e');
    assert(restore@ =~= data@ + "/layout.ron"@);
}

/// The configuration is taken from the first place where something is; where there
/// is nothing, the first place is meant.
pub proof fn the_first_place_that_is_there_counts(
    home: &str,
    present: Vec<bool>,
    path: String,
    paths: Vec<String>,
)
    requires
        call_ensures(config_path, (home, &present), path),
        call_ensures(default_config_paths, (home,), paths),
        present@.len() == 2,
    ensures
        present@[0] ==> path@ == paths@[0]@,
        !present@[0] && present@[1] ==> path@ == paths@[1]@,
        !present@[0] && !present@[1] ==> path@ == paths@[0]@,
{
}

/// A configuration that the user names is opened first, and read if that works;
/// nothing else is tried in its place.
pub proof fn a_named_configuration_has_to_be_there(
    path: &str,
    home: &str,
    outcomes: Vec<OpenOutcome>,
    step: LoadStep,
)
    requires
        call_ensures(Config::load, (Some(path), home, &outcomes), step),
    ensures
        outcomes@.len() == 0 ==> step is Open && step->Open_0@ == path@,
        outcomes@.len() > 0 && outcomes@[0] is Opened ==> step is Read && step->Read_0@ == path@,
        outcomes@.len() > 0 && !(outcomes@[0] is Opened) ==> step is Fail,
{
}

/// Without a name, the usual places are tried in turn as long as nothing is found.
/// The first that opens is read, any other failure ends it, and where nothing is
/// found anywhere the defaults are used.
pub proof fn the_usual_places_are_tried_in_turn(
    home: &str,
    outcomes: Vec<OpenOutcome>,
    step: LoadStep,
    paths: Vec<String>,
)
    requires
        call_ensures(Config::load, (None, home, &outcomes), step),
        call_ensures(default_config_paths, (home,), paths),
    ensures
        ({
            let n = outcomes@.len();
            let (a, b) = (outcomes@[0], outcomes@[1]);
            &&& n == 0 ==> step is Open && step->Open_0@ == paths@[0]@
            &&& n > 0 && a is Opened ==> step is Read && step->Read_0@ == paths@[0]@
            &&& n > 0 && a is Failed ==> step is Fail
            &&& n == 1 && a is NotFound ==> step is Open && step->Open_0@ == paths@[1]@
            &&& n > 1 && a is NotFound && b is Opened ==> step is Read && step->Read_0@
                == paths@[1]@
            &&& n > 1 && a is NotFound && b is Failed ==> step is Fail
            &&& n > 1 && a is NotFound && b is NotFound ==> step is UseDefault
        }),
{
    let all = outcomes@;
    reveal_with_fuel(not_found, 3);
    if all.len() > 0 {
        assert(all.drop_first().len() == all.len() - 1);
        if all.len() > 1 {
            assert(all.drop_first()[0] == all[1]);
            not_found_is_first(all.drop_first().drop_first());
        }
    }
}

/// Whether `kept` is `n` kept between `low` and `high`, as numbers. What is not a
/// number stays.
pub open spec fn kept_between(n: CGFloat, low: CGFloat, high: CGFloat, kept: CGFloat) -> bool {
    &&& n.less(low) ==> kept == low
    &&& high.less(n) ==> kept == high
    &&& !n.less(low) && !high.less(n) ==> kept == n
}

/// Bringing scroll settings into range keeps one to five columns, a sensitivity
/// from zero to a hundred, and of the widths exactly those above zero and up to
/// one, in their order. All other settings stay.
pub proof fn scroll_settings_are_brought_into_range(scroll: ScrollConfig, valid: ScrollConfig)
    requires
        call_ensures(ScrollConfig::validated, (scroll,), valid),
    ensures
        scroll.visible_columns == 0 ==> valid.visible_columns == 1,
        1 <= scroll.visible_columns <= 5 ==> valid.visible_columns == scroll.visible_columns,
        scroll.visible_columns > 5 ==> valid.visible_columns == 5,
        kept_between(
            scroll.scroll_sensitivity,
            CGFloat { bits: 0 },
            CGFloat { bits: 0x4059_0000_0000_0000 },
            valid.scroll_sensitivity,
        ),
        valid.column_width_presets@ == scroll.column_width_presets@.filter(
            |width: CGFloat|
                (CGFloat { bits: 0 }).less(width) && width.at_most(
                    CGFloat { bits: 0x3ff0_0000_0000_0000 },
                ),
        ),
        valid.enable == scroll.enable,
        valid.center_focused_column == scroll.center_focused_column,
        valid.new_window_in_column == scroll.new_window_in_column,
        valid.invert_scroll_direction == scroll.invert_scroll_direction,
        valid.infinite_loop == scroll.infinite_loop,
        valid.single_column_aspect_ratio == scroll.single_column_aspect_ratio,
{
    same_widths_are_kept(scroll.column_width_presets@);
}

proof fn same_widths_are_kept(presets: Seq<CGFloat>)
    ensures
        presets.filter(|p: CGFloat| usable_preset(p)) == presets.filter(
            |width: CGFloat|
                (CGFloat { bits: 0 }).less(width) && width.at_most(
                    CGFloat { bits: 0x3ff0_0000_0000_0000 },
                ),
        ),
    decreases presets.len(),
{
    reveal(Seq::filter);
    if presets.len() > 0 {
        same_widths_are_kept(presets.drop_last());
    }
}

/// Whether two scroll settings say the same.
pub open spec fn same_scroll_settings(a: ScrollConfig, b: ScrollConfig) -> bool {
    &&& a.enable == b.enable
    &&& a.center_focused_column == b.center_focused_column
    &&& a.visible_columns == b.visible_columns
    &&& a.column_width_presets@ == b.column_width_presets@
    &&& a.new_window_in_column == b.new_window_in_column
    &&& a.scroll_sensitivity == b.scroll_sensitivity
    &&& a.invert_scroll_direction == b.invert_scroll_direction
    &&& a.infinite_loop == b.infinite_loop
    &&& a.single_column_aspect_ratio == b.single_column_aspect_ratio
}

/// Whether two settings agree on everything but scrolling.
pub open spec fn same_but_for_scrolling(a: Settings, b: Settings) -> bool {
    &&& a.animate == b.animate
    &&& a.default_disable == b.default_disable
    &&& a.mouse_follows_focus == b.mouse_follows_focus
    &&& a.mouse_hides_on_focus == b.mouse_hides_on_focus
    &&& a.focus_follows_mouse == b.focus_follows_mouse
    &&& a.outer_gap == b.outer_gap
    &&& a.inner_gap == b.inner_gap
    &&& a.default_keys == b.default_keys
    &&& a.default_layout_kind == b.default_layout_kind
    &&& a.default_root_orientation == b.default_root_orientation
    &&& a.group_bars == b.group_bars
    &&& a.status_icon == b.status_icon
    &&& a.experimental.status_icon == b.experimental.status_icon
}

/// Bringing settings into range brings the scroll settings into range, and leaves
/// all others.
pub proof fn only_scroll_settings_are_brought_into_range(
    settings: Settings,
    valid: Settings,
    scroll: ScrollConfig,
)
    requires
        call_ensures(Settings::validated, (settings,), valid),
        call_ensures(ScrollConfig::validated, (settings.experimental.scroll,), scroll),
    ensures
        same_scroll_settings(valid.experimental.scroll, scroll),
        same_but_for_scrolling(valid, settings),
{
}

/// Bars take up their thickness where they are enabled, and nothing otherwise.
pub proof fn disabled_bars_take_up_nothing(bars: GroupBars, thickness: CGFloat)
    requires
        call_ensures(GroupBars::indicator_thickness, (&bars,), thickness),
    ensures
        bars.enable ==> thickness == bars.thickness,
        !bars.enable ==> thickness == (CGFloat { bits: 0 }),
{
}

/// A pattern is kept as it is written with what was compiled from it, and an error
/// is handed on.
pub proof fn patterns_are_kept_as_they_are_written(
    pattern: &str,
    outcome: Result<Regex, String>,
    result: Result<ConfigRegex, String>,
    text: &str,
)
    requires
        call_ensures(ConfigRegex::from_outcome, (pattern, outcome), result),
        result is Ok ==> call_ensures(ConfigRegex::as_str, (&result->Ok_0,), text),
    ensures
        result is Ok <==> outcome is Ok,
        result is Ok ==> text@ == pattern@ && result->Ok_0.compiled() == outcome->Ok_0,
        result is Err ==> result->Err_0 == outcome->Err_0,
{
}

/// A pattern of letters from A to Z matches a text exactly where its letters stand
/// in it one after the other, each in its large or its small form or one that counts
/// as such. A match is looked for with what was compiled from the pattern, ignoring
/// case.
pub proof fn words_match_in_any_case(
    pattern: &str,
    result: Result<ConfigRegex, String>,
    text: &str,
    found: bool,
)
    requires
        call_ensures(ConfigRegex::from_pattern, (pattern,), result),
        result is Ok,
        call_ensures(ConfigRegex::is_match, (&result->Ok_0, text), found),
    ensures
        result->Ok_0.pattern() == pattern@,
        compiled_regex(pattern@, true, usize::BITS) == Ok::<Regex, Seq<char>>(
            result->Ok_0.compiled(),
        ),
        found == regex_finds(result->Ok_0.compiled(), text@),
        (forall|i: int|
            0 <= i < pattern@.len() ==> 65 <= (#[trigger] pattern@[i]) as int <= 90 || 97
                <= pattern@[i] as int <= 122) ==> (found <==> exists|at: int|
            #[trigger] letters_stand_at(text@, pattern@, at)),
{
    let word = pattern@;
    if forall|i: int|
        0 <= i < word.len() ==> 65 <= (#[trigger] word[i]) as int <= 90 || 97 <= word[i] as int
            <= 122 {
        assert(plain_word(word));
        assert forall|at: int| #[trigger]
            word_at(text@, word, true, at) implies letters_stand_at(text@, word, at) by {
            assert forall|i: int| 0 <= i < word.len() implies letters_match(
                text@[at + i] as int,
                #[trigger] word[i] as int,
            ) by {
                assert(form_of(text@[at + i], word[i]));
            }
        }
        assert forall|at: int| #[trigger]
            letters_stand_at(text@, word, at) implies word_at(text@, word, true, at) by {
            assert forall|i: int| 0 <= i < word.len() implies form_of(
                text@[at + i],
                #[trigger] word[i],
            ) by {
                assert(letters_match(text@[at + i] as int, word[i] as int));
            }
        }
        assert(found == word_found(text@, word, true));
    }
}

/// Whether the letters of `word`, in any of their forms, stand in `text` from `at`
/// on.
pub open spec fn letters_stand_at(text: Seq<char>, word: Seq<char>, at: int) -> bool {
    &&& 0 <= at <= text.len() - word.len()
    &&& forall|i: int|
        0 <= i < word.len() ==> letters_match(text[at + i] as int, #[trigger] word[i] as int)
}

/// Whether a character is a form of a letter from A to Z, by their numbers: it is
/// that letter, the same letter large or small, or the sign for kelvin or the long
/// s.
pub open spec fn letters_match(c: int, letter: int) -> bool {
    ||| c == letter
    ||| 97 <= letter <= 122 && c == letter - 32
    ||| 65 <= letter <= 90 && c == letter + 32
    ||| (letter == 75 || letter == 107) && c == 8490
    ||| (letter == 83 || letter == 115) && c == 383
}

/// Patterns are equal exactly where they are written alike.
pub proof fn patterns_compare_by_how_they_are_written(a: ConfigRegex, b: ConfigRegex, same: bool)
    requires
        call_ensures(<ConfigRegex as PartialEq>::eq, (&a, &b), same),
    ensures
        same <==> a.pattern() == b.pattern(),
{
}

/// Whether `a` and `b` are the texts around the first colon of `s`.
pub open spec fn around_the_colon(s: Seq<char>, a: Seq<char>, b: Seq<char>) -> bool {
    s == a + seq![':'] + b && !a.contains(':')
}

proof fn halves_are_around_the_colon(s: Seq<char>, a: Seq<char>, b: Seq<char>)
    requires
        ratio_halves(s) == Some((a, b)),
    ensures
        around_the_colon(s, a, b),
{
    crate::text::position_is_first(s, ':');
    let p = position(s, ':');
    assert(s =~= a + seq![':'] + b);
    if a.contains(':') {
        let k = choose|k: int| 0 <= k < a.len() && a[k] == ':';
        assert(s[k] == ':');
    }
}

/// An aspect ratio is split around its first colon; without one, that is the error,
/// with the text quoted. The numbers are looked for in the two texts without white
/// space around them.
pub proof fn aspect_ratios_are_split_at_the_colon(
    s: &str,
    halves: Result<(String, String), AspectRatioError>,
    texts: Option<(String, String)>,
)
    requires
        call_ensures(AspectRatio::split, (s,), halves),
        call_ensures(AspectRatio::number_texts, (s,), texts),
    ensures
        halves is Ok <==> s@.contains(':'),
        texts is Some <==> halves is Ok,
        halves matches Ok((a, b)) ==> {
            &&& around_the_colon(s@, a@, b@)
            &&& texts.unwrap().0@ == trimmed(a@)
            &&& texts.unwrap().1@ == trimmed(b@)
        },
        halves matches Err(error) ==> {
            &&& error is Format
            &&& error->Format_0@ == quoted_text(s@)
        },
{
    if let Ok((a, b)) = halves {
        halves_are_around_the_colon(s@, a@, b@);
    }
}

/// An aspect ratio is what its two numbers say, both of them positive. Whatever is
/// wrong is reported in this order: no colon, no width, no height, a number that is
/// not positive.
pub proof fn aspect_ratios_are_two_positive_numbers(
    s: &str,
    width: Option<CGFloat>,
    height: Option<CGFloat>,
    result: Result<AspectRatio, AspectRatioError>,
    halves: Result<(String, String), AspectRatioError>,
)
    requires
        call_ensures(AspectRatio::from_text, (s, width, height), result),
        call_ensures(AspectRatio::split, (s,), halves),
    ensures
        ({
            let zero = CGFloat { bits: 0 };
            let fits = width is Some && height is Some && !width->0.at_most(zero)
                && !height->0.at_most(zero);
            &&& result is Ok <==> halves is Ok && fits
            &&& result is Ok ==> result->Ok_0.width == width->0 && result->Ok_0.height == height->0
            &&& halves is Err ==> result->Err_0 is Format && result->Err_0->Format_0@
                == quoted_text(s@)
            &&& halves is Ok && width is None ==> result->Err_0 is Width
                && result->Err_0->Width_0@ == quoted_text(first_of(halves)@)
            &&& halves is Ok && width is Some && height is None ==> result->Err_0 is Height
                && result->Err_0->Height_0@ == quoted_text(second_of(halves)@)
            &&& halves is Ok && width is Some && height is Some && !fits ==> result->Err_0
                is NotPositive
        }),
{
}

/// The first of two texts.
pub open spec fn first_of(halves: Result<(String, String), AspectRatioError>) -> String {
    match halves {
        Ok((a, _)) => a,
        Err(_) => arbitrary(),
    }
}

/// The second of two texts.
pub open spec fn second_of(halves: Result<(String, String), AspectRatioError>) -> String {
    match halves {
        Ok((_, b)) => b,
        Err(_) => arbitrary(),
    }
}

/// A column has an aspect ratio exactly where its setting can be read as one, and
/// then that one.
pub proof fn columns_have_the_ratio_of_their_setting(
    scroll: ScrollConfig,
    s: &str,
    width: Option<CGFloat>,
    height: Option<CGFloat>,
    ratio: Option<AspectRatio>,
    result: Result<AspectRatio, AspectRatioError>,
)
    requires
        call_ensures(ScrollConfig::aspect_ratio, (&scroll, width, height), ratio),
        s@ == scroll.single_column_aspect_ratio@,
        call_ensures(AspectRatio::from_text, (s, width, height), result),
    ensures
        ratio is Some <==> result is Ok,
        ratio is Some ==> ratio->0 == result->Ok_0,
{
}

/// Each error says in its own words what is wrong, with the text that is.
pub proof fn aspect_ratio_errors_say_what_is_wrong(error: AspectRatioError, message: String)
    requires
        call_ensures(AspectRatioError::message, (&error,), message),
    ensures
        error is Format ==> message@ == "expected 'W:H' format, got "@ + error->Format_0@,
        error is Width ==> message@ == "invalid width: "@ + error->Width_0@,
        error is Height ==> message@ == "invalid height: "@ + error->Height_0@,
        error is NotPositive ==> message@ == "aspect ratio values must be positive"@,
{
}

/// Columns are not centered, and rules have no conditions, where nothing is said.
pub proof fn nothing_is_asked_for_by_default(mode: CenterMode, conditions: WindowRuleConditions)
    requires
        call_ensures(<CenterMode as Default>::default, (), mode),
        call_ensures(<WindowRuleConditions as Default>::default, (), conditions),
    ensures
        mode is Never,
        conditions.app_id is None,
        conditions.app_name is None,
        conditions.title_regex is None,
        conditions.title_substring is None,
        conditions.ax_role is None,
        conditions.ax_subrole is None,
{
}

/// A copy of a pattern is the same, and a pattern is used as its compiled form.
pub proof fn patterns_are_copied_as_they_are(
    pattern: ConfigRegex,
    copy: ConfigRegex,
    regex: &Regex,
)
    requires
        call_ensures(<ConfigRegex as Clone>::clone, (&pattern,), copy),
        call_ensures(<ConfigRegex as std::ops::Deref>::deref, (&pattern,), regex),
    ensures
        copy.pattern() == pattern.pattern(),
        copy.compiled() == pattern.compiled(),
        *regex == pattern.compiled(),
{
}

} // verus!
